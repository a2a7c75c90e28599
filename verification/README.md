# crew_bridge

Bridge domain logic between Robrix rooms and Crew, written in Verus.

- `src/` is the verified library: the bridge state (`state`, with the
  string-keyed map `string_map` and text helpers in `text`), room resolution
  (`resolver`), the manager facade with session bookkeeping (`manager`), the
  state file's name (`store`), server-sent-event framing (`sse`) and the Crew
  endpoints, event decoding and stream feeding (`transport`). `boundary` declares the outside
  types the library carries and the trusted items through which it calls `url`,
  `serde_json` and `std`.
- `app/` holds what the library leaves to its caller: the JSON form of the
  state and the state file, the process environment, and the HTTP exchange
  with Crew.
- `tests/` exercises the library on concrete values.

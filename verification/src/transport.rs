//! What the Crew transport decides: the request it sends, where it sends it,
//! and how a received event payload becomes a bridge event. The HTTP exchange
//! itself is left to the caller.
use vstd::prelude::*;

use crate::boundary::{
    event_payload_of, join_url, parse_event_payload, url_join_accepts, url_join_error_text,
    url_joined,
};
use crate::sse::{
    framed_data, has_visible_char, sse_data, take_event_data, trailing_event_data, unframed_rest,
};

verus! {

#[derive(Clone, Debug, PartialEq, Eq)]
pub struct CrewStreamRequest {
    pub session_id: String,
    pub message: String,
}

#[derive(Debug)]
pub enum BridgeError {
    Request(reqwest::Error),
    HttpStatus { status: reqwest::StatusCode, body: String },
    InvalidEventJson(String),
    InvalidEventPayload(String),
}

/// HTTP transport for Crew's `POST /api/chat` endpoint with `stream: true`:
/// the server it talks to and the bearer token it presents.
#[derive(Clone, Debug)]
pub struct SseHttpTransport {
    base_url: url::Url,
    auth_token: Option<String>,
}

impl SseHttpTransport {
    /// The server's base URL.
    pub closed spec fn base(self) -> url::Url {
        self.base_url
    }

    /// The bearer token sent with each request, if any.
    pub closed spec fn token(self) -> Option<String> {
        self.auth_token
    }

    pub fn new(base_url: url::Url) -> (t: Self)
        ensures
            t.base() == base_url,
            t.token() is None,
    {
        Self { base_url, auth_token: None }
    }

    pub fn with_auth_token(self, auth_token: String) -> (t: Self)
        ensures
            t.base() == self.base(),
            t.token() == Some(auth_token),
    {
        let mut transport = self;
        transport.auth_token = Some(auth_token);
        transport
    }

    /// The bearer token sent with each request, if any.
    pub fn auth_token(&self) -> (r: &Option<String>)
        ensures
            *r == self.token(),
    {
        &self.auth_token
    }

    /// The chat endpoint, `/api/chat` on the base URL's server.
    pub fn chat_url(&self) -> (r: Result<url::Url, BridgeError>)
        ensures
            r is Ok <==> url_join_accepts(self.base(), "/api/chat"@),
            r matches Ok(u) ==> u == url_joined(self.base(), "/api/chat"@),
            r matches Err(e) ==> e matches BridgeError::InvalidEventPayload(m) && m@
                == url_join_error_text(self.base(), "/api/chat"@),
    {
        match join_url(&self.base_url, "/api/chat") {
            Ok(url) => Ok(url),
            Err(message) => Err(BridgeError::InvalidEventPayload(message)),
        }
    }

    /// The status endpoint, `/api/status` on the base URL's server.
    pub fn status_url(&self) -> (r: Result<url::Url, BridgeError>)
        ensures
            r is Ok <==> url_join_accepts(self.base(), "/api/status"@),
            r matches Ok(u) ==> u == url_joined(self.base(), "/api/status"@),
            r matches Err(e) ==> e matches BridgeError::InvalidEventPayload(m) && m@
                == url_join_error_text(self.base(), "/api/status"@),
    {
        match join_url(&self.base_url, "/api/status") {
            Ok(url) => Ok(url),
            Err(message) => Err(BridgeError::InvalidEventPayload(message)),
        }
    }
}

/// What the bridge reads of a Crew event payload (a JSON value): for each field
/// it looks at, the field's value when the payload is an object holding that
/// field with a value of the expected JSON type (a string, an unsigned integer
/// that fits in 64 bits, a boolean), else `None`; and the payload's JSON text.
#[derive(Clone, Debug, Default, PartialEq, Eq)]
pub struct EventPayload {
    pub event_type: Option<String>,
    pub text: Option<String>,
    pub tool: Option<String>,
    pub content: Option<String>,
    pub message: Option<String>,
    pub iteration: Option<u64>,
    pub input_tokens: Option<u64>,
    pub output_tokens: Option<u64>,
    pub success: Option<bool>,
    pub json: String,
}

/// An event payload with its texts as character sequences.
pub struct EventPayloadView {
    pub event_type: Option<Seq<char>>,
    pub text: Option<Seq<char>>,
    pub tool: Option<Seq<char>>,
    pub content: Option<Seq<char>>,
    pub message: Option<Seq<char>>,
    pub iteration: Option<u64>,
    pub input_tokens: Option<u64>,
    pub output_tokens: Option<u64>,
    pub success: Option<bool>,
    pub json: Seq<char>,
}

/// The text of an optional string.
pub open spec fn text_view(value: Option<String>) -> Option<Seq<char>> {
    match value {
        Some(s) => Some(s@),
        None => None,
    }
}

impl View for EventPayload {
    type V = EventPayloadView;

    open spec fn view(&self) -> EventPayloadView {
        EventPayloadView {
            event_type: text_view(self.event_type),
            text: text_view(self.text),
            tool: text_view(self.tool),
            content: text_view(self.content),
            message: text_view(self.message),
            iteration: self.iteration,
            input_tokens: self.input_tokens,
            output_tokens: self.output_tokens,
            success: self.success,
            json: self.json@,
        }
    }
}

/// A Crew event as the bridge understands it. An unknown event carries its payload's
/// JSON text; a cost update's session cost, a float, stays with the caller.
#[derive(Clone, Debug, PartialEq, Eq)]
pub enum CrewEvent {
    Thinking { iteration: u32 },
    TextDelta { text: String },
    ToolStart { name: String },
    ToolEnd { name: String, success: bool },
    Response { iteration: u32 },
    CostUpdate { input_tokens: u32, output_tokens: u32 },
    StreamEnd,
    Done { content: String, input_tokens: u32, output_tokens: u32 },
    Error { message: String },
    Raw { payload: String },
}

/// A count that fits in `u32`, or zero.
pub open spec fn u32_or_zero(value: Option<u64>) -> u32 {
    match value {
        Some(n) => if n <= u32::MAX {
            n as u32
        } else {
            0
        },
        None => 0,
    }
}

/// A string field's text, or the empty text.
pub open spec fn text_or_empty(value: Option<Seq<char>>) -> Seq<char> {
    match value {
        Some(s) => s,
        None => Seq::<char>::empty(),
    }
}

/// `event` is what a payload `p` of type `kind` means.
pub open spec fn event_for(event: CrewEvent, kind: Seq<char>, p: EventPayloadView) -> bool {
    if kind == "thinking"@ {
        event matches CrewEvent::Thinking { iteration } && iteration == u32_or_zero(p.iteration)
    } else if kind == "token"@ {
        event matches CrewEvent::TextDelta { text } && text@ == text_or_empty(p.text)
    } else if kind == "tool_start"@ {
        event matches CrewEvent::ToolStart { name } && name@ == text_or_empty(p.tool)
    } else if kind == "tool_end"@ {
        event matches CrewEvent::ToolEnd { name, success } && name@ == text_or_empty(p.tool)
            && success == (p.success == Some(true))
    } else if kind == "response"@ {
        event matches CrewEvent::Response { iteration } && iteration == u32_or_zero(p.iteration)
    } else if kind == "cost_update"@ {
        event matches CrewEvent::CostUpdate { input_tokens, output_tokens } && input_tokens
            == u32_or_zero(p.input_tokens) && output_tokens == u32_or_zero(p.output_tokens)
    } else if kind == "stream_end"@ {
        event is StreamEnd
    } else if kind == "done"@ {
        event matches CrewEvent::Done { content, input_tokens, output_tokens } && content@
            == text_or_empty(p.content) && input_tokens == u32_or_zero(p.input_tokens)
            && output_tokens == u32_or_zero(p.output_tokens)
    } else if kind == "error"@ {
        event matches CrewEvent::Error { message } && message@ == text_or_empty(p.message)
    } else {
        event matches CrewEvent::Raw { payload } && payload@ == p.json
    }
}

/// `r` is what the payload `p` maps to: a refusal carrying its JSON text when it has
/// no `type`, else the event that its type and fields stand for.
pub open spec fn mapped_as(r: Result<CrewEvent, BridgeError>, p: EventPayloadView) -> bool {
    match p.event_type {
        None => r matches Err(BridgeError::InvalidEventPayload(text)) && text@ == p.json,
        Some(kind) => r matches Ok(event) && event_for(event, kind, p),
    }
}

/// A count field read as `u32`: zero when absent or too large.
pub fn as_u32(value: Option<u64>) -> (r: u32)
    ensures
        r == u32_or_zero(value),
{
    match value {
        Some(n) => if n <= 0xffff_ffffu64 {
            n as u32
        } else {
            0
        },
        None => 0,
    }
}

fn text_field(value: &Option<String>) -> (r: String)
    ensures
        r@ == text_or_empty(text_view(*value)),
{
    match value {
        Some(s) => s.clone(),
        None => String::new(),
    }
}

/// Whether `s` is the text `literal`.
fn is_text(s: &String, literal: &str) -> (r: bool)
    ensures
        r == (s@ == literal@),
{
    *s == literal.to_string()
}

/// The bridge event that a Crew payload stands for. A payload without a string
/// `type` is refused with its JSON text; an unknown type gives `Raw` with that text.
pub fn map_event(payload: &EventPayload) -> (r: Result<CrewEvent, BridgeError>)
    ensures
        mapped_as(r, payload@),
{
    let kind = match &payload.event_type {
        Some(kind) => kind,
        None => {
            return Err(BridgeError::InvalidEventPayload(payload.json.clone()));
        },
    };
    let event = if is_text(kind, "thinking") {
        CrewEvent::Thinking { iteration: as_u32(payload.iteration) }
    } else if is_text(kind, "token") {
        CrewEvent::TextDelta { text: text_field(&payload.text) }
    } else if is_text(kind, "tool_start") {
        CrewEvent::ToolStart { name: text_field(&payload.tool) }
    } else if is_text(kind, "tool_end") {
        CrewEvent::ToolEnd {
            name: text_field(&payload.tool),
            success: match payload.success {
                Some(b) => b,
                None => false,
            },
        }
    } else if is_text(kind, "response") {
        CrewEvent::Response { iteration: as_u32(payload.iteration) }
    } else if is_text(kind, "cost_update") {
        CrewEvent::CostUpdate {
            input_tokens: as_u32(payload.input_tokens),
            output_tokens: as_u32(payload.output_tokens),
        }
    } else if is_text(kind, "stream_end") {
        CrewEvent::StreamEnd
    } else if is_text(kind, "done") {
        CrewEvent::Done {
            content: text_field(&payload.content),
            input_tokens: as_u32(payload.input_tokens),
            output_tokens: as_u32(payload.output_tokens),
        }
    } else if is_text(kind, "error") {
        CrewEvent::Error { message: text_field(&payload.message) }
    } else {
        CrewEvent::Raw { payload: payload.json.clone() }
    };
    Ok(event)
}

/// The bridge event for the data of one server-sent event: data that is not JSON
/// is refused with its text; a JSON payload is mapped as `map_event` maps it.
pub fn decode_event(data: String) -> (r: Result<CrewEvent, BridgeError>)
    ensures
        match event_payload_of(data@) {
            None => r == Err::<CrewEvent, BridgeError>(BridgeError::InvalidEventJson(data)),
            Some(p) => mapped_as(r, p),
        },
{
    match parse_event_payload(data.as_str()) {
        Some(payload) => map_event(&payload),
        None => Err(BridgeError::InvalidEventJson(data)),
    }
}

/// `r` is what the data `d` of one server-sent event decodes to: a refusal
/// carrying `d` when it is not JSON, else what its payload maps to.
pub open spec fn decoded_as(r: Result<CrewEvent, BridgeError>, d: Seq<char>) -> bool {
    match event_payload_of(d) {
        None => r matches Err(BridgeError::InvalidEventJson(t)) && t@ == d,
        Some(p) => mapped_as(r, p),
    }
}

/// `items` is what a stream yields for the event data `ds`: each datum with its
/// decoded event, in order, ending at the first refusal.
pub open spec fn decoded_prefix(
    items: Seq<(String, Result<CrewEvent, BridgeError>)>,
    ds: Seq<Seq<char>>,
) -> bool {
    &&& items.len() <= ds.len()
    &&& forall|i: int|
        0 <= i < items.len() ==> #[trigger] items[i].0@ == ds[i] && decoded_as(items[i].1, ds[i])
    &&& forall|i: int| 0 <= i < items.len() - 1 ==> #[trigger] items[i].1 is Ok
    &&& items.len() < ds.len() ==> items.len() > 0 && items.last().1 is Err
}

/// No item of `items` is a refusal.
pub open spec fn all_accepted(items: Seq<(String, Result<CrewEvent, BridgeError>)>) -> bool {
    forall|i: int| 0 <= i < items.len() ==> #[trigger] items[i].1 is Ok
}

/// The data left in the buffer when the stream ends: the data of what is there,
/// if it holds something other than white space.
pub open spec fn trailing_data(s: Seq<char>) -> Option<Seq<char>> {
    if has_visible_char(s) {
        sse_data(s)
    } else {
        None
    }
}

/// Feeds a received `chunk` of Crew's event stream into `buffer` and decodes the
/// events that are now complete: each event's data with the bridge event it
/// stands for, in order, up to and including the first refusal. The buffer keeps
/// the incomplete tail.
pub fn take_events(buffer: &mut String, chunk: &str) -> (items: Vec<
    (String, Result<CrewEvent, BridgeError>),
>)
    ensures
        final(buffer)@ == unframed_rest(old(buffer)@ + chunk@),
        decoded_prefix(items@, framed_data(old(buffer)@ + chunk@)),
{
    let blocks = take_event_data(buffer, chunk);
    let ghost ds = framed_data(old(buffer)@ + chunk@);
    let n = blocks.len();
    let mut items: Vec<(String, Result<CrewEvent, BridgeError>)> = Vec::new();
    let mut stopped = false;
    let mut i: usize = 0;
    while i < n && !stopped
        invariant
            n == blocks@.len(),
            n == ds.len(),
            forall|j: int| 0 <= j < n ==> #[trigger] blocks@[j]@ == ds[j],
            i <= n,
            items@.len() == i,
            forall|j: int|
                0 <= j < i ==> #[trigger] items@[j].0@ == ds[j] && decoded_as(items@[j].1, ds[j]),
            forall|j: int| 0 <= j < i && !(stopped && j == i - 1) ==> #[trigger] items@[j].1 is Ok,
            stopped ==> i > 0 && items@[i - 1].1 is Err,
        decreases n - i,
    {
        let data = blocks[i].clone();
        let r = decode_event(data.clone());
        if r.is_err() {
            stopped = true;
        }
        items.push((data, r));
        i = i + 1;
    }
    items
}

/// The last event of the stream, read from what is left in `buffer` when the
/// stream ends: its data with the bridge event it stands for, if the buffer holds
/// something other than white space and that has data.
pub fn trailing_event(buffer: &str) -> (r: Option<(String, Result<CrewEvent, BridgeError>)>)
    ensures
        match trailing_data(buffer@) {
            None => r is None,
            Some(d) => r matches Some(item) && item.0@ == d && decoded_as(item.1, d),
        },
{
    match trailing_event_data(buffer) {
        Some(data) => {
            let r = decode_event(data.clone());
            Some((data, r))
        },
        None => None,
    }
}

/// Events come out in the order they were sent, whatever the chunking: when the
/// events decoded from `first` (fed after `pending`) were all accepted, they
/// followed by those decoded from `second` are what feeding both at once gives.
pub proof fn law_events_arrive_in_order(
    pending: Seq<char>,
    first: Seq<char>,
    second: Seq<char>,
    items1: Seq<(String, Result<CrewEvent, BridgeError>)>,
    items2: Seq<(String, Result<CrewEvent, BridgeError>)>,
)
    requires
        decoded_prefix(items1, framed_data(pending + first)),
        all_accepted(items1),
        decoded_prefix(items2, framed_data(unframed_rest(pending + first) + second)),
    ensures
        decoded_prefix(items1 + items2, framed_data(pending + first + second)),
{
    let ds1 = framed_data(pending + first);
    let ds2 = framed_data(unframed_rest(pending + first) + second);
    crate::sse::law_chunking_is_invisible(pending, first, second);
    assert(ds1 + ds2 == framed_data(pending + first + second));
    if items1.len() < ds1.len() {
        assert(items1.last().1 is Ok);
    }
    let items = items1 + items2;
    let ds = ds1 + ds2;
    assert forall|i: int| 0 <= i < items.len() implies #[trigger] items[i].0@ == ds[i]
        && decoded_as(items[i].1, ds[i]) by {
        if i >= items1.len() {
            assert(items[i] == items2[i - items1.len()]);
            assert(ds[i] == ds2[i - ds1.len()]);
        }
    }
    assert forall|i: int| 0 <= i < items.len() - 1 implies #[trigger] items[i].1 is Ok by {
        if i >= items1.len() {
            assert(items[i] == items2[i - items1.len()]);
        } else {
            assert(items[i] == items1[i]);
        }
    }
    if items.len() < ds.len() {
        assert(items2.len() < ds2.len());
        assert(items.last() == items2.last());
    }
}


/// The event types the bridge knows are distinct texts.
proof fn lemma_event_kinds_differ()
    ensures
        "thinking"@ != "token"@,
        "thinking"@ != "tool_start"@,
        "thinking"@ != "tool_end"@,
        "thinking"@ != "response"@,
        "thinking"@ != "cost_update"@,
        "thinking"@ != "stream_end"@,
        "thinking"@ != "done"@,
        "thinking"@ != "error"@,
        "token"@ != "tool_start"@,
        "token"@ != "tool_end"@,
        "token"@ != "response"@,
        "token"@ != "cost_update"@,
        "token"@ != "stream_end"@,
        "token"@ != "done"@,
        "token"@ != "error"@,
        "tool_start"@ != "tool_end"@,
        "tool_start"@ != "response"@,
        "tool_start"@ != "cost_update"@,
        "tool_start"@ != "stream_end"@,
        "tool_start"@ != "done"@,
        "tool_start"@ != "error"@,
        "tool_end"@ != "response"@,
        "tool_end"@ != "cost_update"@,
        "tool_end"@ != "stream_end"@,
        "tool_end"@ != "done"@,
        "tool_end"@ != "error"@,
        "response"@ != "cost_update"@,
        "response"@ != "stream_end"@,
        "response"@ != "done"@,
        "response"@ != "error"@,
        "cost_update"@ != "stream_end"@,
        "cost_update"@ != "done"@,
        "cost_update"@ != "error"@,
        "stream_end"@ != "done"@,
        "stream_end"@ != "error"@,
        "done"@ != "error"@,
{
    reveal_strlit("thinking");
    reveal_strlit("token");
    reveal_strlit("tool_start");
    reveal_strlit("tool_end");
    reveal_strlit("response");
    reveal_strlit("cost_update");
    reveal_strlit("stream_end");
    reveal_strlit("done");
    reveal_strlit("error");
    assert("thinking"@[1] != "token"@[1]);
    assert("thinking"@[1] != "tool_start"@[1]);
    assert("thinking"@[1] != "tool_end"@[1]);
    assert("thinking"@[0] != "response"@[0]);
    assert("thinking"@[0] != "cost_update"@[0]);
    assert("thinking"@[0] != "stream_end"@[0]);
    assert("thinking"@[0] != "done"@[0]);
    assert("thinking"@[0] != "error"@[0]);
    assert("token"@[2] != "tool_start"@[2]);
    assert("token"@[2] != "tool_end"@[2]);
    assert("token"@[0] != "response"@[0]);
    assert("token"@[0] != "cost_update"@[0]);
    assert("token"@[0] != "stream_end"@[0]);
    assert("token"@[0] != "done"@[0]);
    assert("token"@[0] != "error"@[0]);
    assert("tool_start"@[5] != "tool_end"@[5]);
    assert("tool_start"@[0] != "response"@[0]);
    assert("tool_start"@[0] != "cost_update"@[0]);
    assert("tool_start"@[0] != "stream_end"@[0]);
    assert("tool_start"@[0] != "done"@[0]);
    assert("tool_start"@[0] != "error"@[0]);
    assert("tool_end"@[0] != "response"@[0]);
    assert("tool_end"@[0] != "cost_update"@[0]);
    assert("tool_end"@[0] != "stream_end"@[0]);
    assert("tool_end"@[0] != "done"@[0]);
    assert("tool_end"@[0] != "error"@[0]);
    assert("response"@[0] != "cost_update"@[0]);
    assert("response"@[0] != "stream_end"@[0]);
    assert("response"@[0] != "done"@[0]);
    assert("response"@[0] != "error"@[0]);
    assert("cost_update"@[0] != "stream_end"@[0]);
    assert("cost_update"@[0] != "done"@[0]);
    assert("cost_update"@[0] != "error"@[0]);
    assert("stream_end"@[0] != "done"@[0]);
    assert("stream_end"@[0] != "error"@[0]);
    assert("done"@[0] != "error"@[0]);
}

/// A payload without a string `type` is refused with its JSON text, and a payload
/// whose type the bridge does not know becomes a `Raw` event carrying that text
/// unchanged.
pub proof fn law_payload_text_is_kept(r: Result<CrewEvent, BridgeError>, p: EventPayloadView)
    requires
        mapped_as(r, p),
    ensures
        p.event_type is None ==> (r is Err && r->Err_0 is InvalidEventPayload
            && r->Err_0->InvalidEventPayload_0@ == p.json),
        ({
            let kind = p.event_type.unwrap();
            (p.event_type is Some && kind != "thinking"@ && kind != "token"@ && kind
                != "tool_start"@ && kind != "tool_end"@ && kind != "response"@ && kind
                != "cost_update"@ && kind != "stream_end"@ && kind != "done"@ && kind
                != "error"@) ==> (r is Ok && r->Ok_0 is Raw && r->Ok_0->Raw_payload@ == p.json)
        }),
{
}

/// A tool's completion carries the payload's success flag exactly: the boolean
/// given, or `false` when the payload has none; and the tool's name is the
/// payload's `tool` text, empty when absent.
pub proof fn law_tool_end_success_is_carried(r: Result<CrewEvent, BridgeError>, p: EventPayloadView)
    requires
        mapped_as(r, p),
        p.event_type == Some("tool_end"@),
    ensures
        r is Ok && r->Ok_0 is ToolEnd,
        p.success is Some ==> r->Ok_0->ToolEnd_success == p.success.unwrap(),
        p.success is None ==> !r->Ok_0->ToolEnd_success,
        p.tool is Some ==> r->Ok_0->ToolEnd_name@ == p.tool.unwrap(),
        p.tool is None ==> r->Ok_0->ToolEnd_name@.len() == 0,
{
    lemma_event_kinds_differ();
}

/// Token counts are carried over when they fit in `u32`, and read as zero when
/// absent or too large: for a cost update and for the final `done` event alike,
/// each of the input and output counts.
pub proof fn law_token_counts_are_carried(r: Result<CrewEvent, BridgeError>, p: EventPayloadView)
    requires
        mapped_as(r, p),
        p.event_type == Some("cost_update"@) || p.event_type == Some("done"@),
    ensures
        ({
            let (i, o) = match r {
                Ok(CrewEvent::CostUpdate { input_tokens, output_tokens }) => (
                    input_tokens,
                    output_tokens,
                ),
                Ok(CrewEvent::Done { input_tokens, output_tokens, .. }) => (
                    input_tokens,
                    output_tokens,
                ),
                _ => (0u32, 0u32),
            };
            &&& p.event_type == Some("cost_update"@) ==> (r is Ok && r->Ok_0 is CostUpdate)
            &&& p.event_type == Some("done"@) ==> (r is Ok && r->Ok_0 is Done)
            &&& p.input_tokens is Some && p.input_tokens.unwrap() <= u32::MAX ==> i
                == p.input_tokens.unwrap()
            &&& !(p.input_tokens is Some && p.input_tokens.unwrap() <= u32::MAX) ==> i == 0
            &&& p.output_tokens is Some && p.output_tokens.unwrap() <= u32::MAX ==> o
                == p.output_tokens.unwrap()
            &&& !(p.output_tokens is Some && p.output_tokens.unwrap() <= u32::MAX) ==> o == 0
        }),
{
    lemma_event_kinds_differ();
}

/// The iteration of a `thinking` or `response` event is the payload's, when it
/// fits in `u32`, else zero.
pub proof fn law_iteration_is_carried(r: Result<CrewEvent, BridgeError>, p: EventPayloadView)
    requires
        mapped_as(r, p),
        p.event_type == Some("thinking"@) || p.event_type == Some("response"@),
    ensures
        ({
            let it = match r {
                Ok(CrewEvent::Thinking { iteration }) => iteration,
                Ok(CrewEvent::Response { iteration }) => iteration,
                _ => 0u32,
            };
            &&& p.event_type == Some("thinking"@) ==> (r is Ok && r->Ok_0 is Thinking)
            &&& p.event_type == Some("response"@) ==> (r is Ok && r->Ok_0 is Response)
            &&& p.iteration is Some && p.iteration.unwrap() <= u32::MAX ==> it
                == p.iteration.unwrap()
            &&& !(p.iteration is Some && p.iteration.unwrap() <= u32::MAX) ==> it == 0
        }),
{
    lemma_event_kinds_differ();
}

/// The text of a `token`, `tool_start`, `done` or `error` event is the payload's
/// field of that name (`text`, `tool`, `content`, `message`), empty when absent;
/// `stream_end` carries nothing.
pub proof fn law_texts_are_carried(r: Result<CrewEvent, BridgeError>, p: EventPayloadView)
    requires
        mapped_as(r, p),
    ensures
        p.event_type == Some("token"@) ==> (r is Ok && r->Ok_0 is TextDelta
            && r->Ok_0->TextDelta_text@ == if p.text is Some {
            p.text.unwrap()
        } else {
            Seq::<char>::empty()
        }),
        p.event_type == Some("tool_start"@) ==> (r is Ok && r->Ok_0 is ToolStart
            && r->Ok_0->ToolStart_name@ == if p.tool is Some {
            p.tool.unwrap()
        } else {
            Seq::<char>::empty()
        }),
        p.event_type == Some("done"@) ==> (r is Ok && r->Ok_0 is Done && r->Ok_0->Done_content@
            == if p.content is Some {
            p.content.unwrap()
        } else {
            Seq::<char>::empty()
        }),
        p.event_type == Some("error"@) ==> (r is Ok && r->Ok_0 is Error
            && r->Ok_0->Error_message@ == if p.message is Some {
            p.message.unwrap()
        } else {
            Seq::<char>::empty()
        }),
        p.event_type == Some("stream_end"@) ==> (r is Ok && r->Ok_0 is StreamEnd),
{
    lemma_event_kinds_differ();
}

} // verus!

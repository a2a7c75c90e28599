//! The facade Robrix talks to: the stored state together with what a room
//! message needs (its resolution, a transport, a session).
use vstd::prelude::*;

use crate::boundary::{parse_url, parsed_url, url_accepts, url_parse_error};
use crate::resolver::{
    resolution, resolve_room_binding, resolved_as, ResolveError, ResolvedBinding,
};
use crate::state::{
    CrewGlueState, InventorySnapshot, ProviderProfile, RuntimeState, SessionRecord, UserSnapshot,
};
use crate::store::{StateStore, StateStoreError};
use crate::string_map::StringMap;
use crate::transport::{BridgeError, CrewStreamRequest, SseHttpTransport};

verus! {

#[derive(Debug)]
pub enum BridgeManagerError {
    Resolve(ResolveError),
    Store(StateStoreError),
    Transport(BridgeError),
    MissingBaseUrl { provider_id: String },
    InvalidBaseUrl { provider_id: String, base_url: String, error: url::ParseError },
}

/// High-level facade used by Robrix.
///
/// This keeps the file-backed state and the transport together so Robrix can
/// treat the crate as a single service boundary.
pub struct BridgeManager {
    store: StateStore,
    state: CrewGlueState,
}

/// The session id that a room gets for an execution profile: `robrix:<room>:<profile>`.
pub open spec fn session_id_for(room_id: Seq<char>, profile_id: Seq<char>) -> Seq<char> {
    seq!['r', 'o', 'b', 'r', 'i', 'x', ':'] + room_id + seq![':'] + profile_id
}

/// `after` is the session table `before` once room `room_id` has a session for the
/// profile `profile_id`, and `session_id` is that session's id: a session kept for
/// the same profile stays as it is; otherwise the room's record moves to the
/// profile with a fresh id, keeping the room id it was stored with.
pub open spec fn session_ensured(
    before: Map<Seq<char>, SessionRecord>,
    after: Map<Seq<char>, SessionRecord>,
    room_id: Seq<char>,
    profile_id: String,
    session_id: Seq<char>,
) -> bool {
    &&& after.dom() == before.dom().insert(room_id)
    &&& after.remove(room_id) == before.remove(room_id)
    &&& after[room_id].execution_profile_id@ == profile_id@
    &&& session_id == after[room_id].session_id@
    &&& if before.contains_key(room_id) && before[room_id].execution_profile_id@ == profile_id@ {
        after[room_id] == before[room_id]
    } else {
        &&& after[room_id].execution_profile_id == profile_id
        &&& after[room_id].session_id@ == session_id_for(room_id, profile_id@)
        &&& after[room_id].room_id@ == if before.contains_key(room_id) {
            before[room_id].room_id@
        } else {
            room_id
        }
    }
}

/// The token that a provider's transport carries: the value of its key variable in
/// `env`, when that variable is set to a non-empty value.
pub open spec fn expected_token(provider: ProviderProfile, env: Map<Seq<char>, String>) -> Option<
    String,
> {
    match provider.api_key_env {
        Some(var) => if env.contains_key(var@) && env[var@]@.len() > 0 {
            Some(env[var@])
        } else {
            None
        },
        None => None,
    }
}

/// `r` is what building a transport for `provider` under `env` gives: a transport
/// aimed at the parsed base URL carrying the expected token, or the matching error.
pub open spec fn transport_built(
    r: Result<SseHttpTransport, BridgeManagerError>,
    provider: ProviderProfile,
    env: Map<Seq<char>, String>,
) -> bool {
    match provider.base_url {
        None => r matches Err(BridgeManagerError::MissingBaseUrl { provider_id }) && provider_id
            == provider.id,
        Some(base) => if !url_accepts(base@) {
            r matches Err(BridgeManagerError::InvalidBaseUrl { provider_id, base_url, error })
                && provider_id == provider.id && base_url@ == base@ && error == url_parse_error(
                base@,
            )
        } else {
            r matches Ok(t) && t.base() == parsed_url(base@) && t.token() == expected_token(
                provider,
                env,
            )
        },
    }
}

impl BridgeManager {
    /// The state the manager holds.
    pub closed spec fn current_state(self) -> CrewGlueState {
        self.state
    }

    /// The store the manager saves to.
    pub closed spec fn current_store(self) -> StateStore {
        self.store
    }

    pub fn from_parts(store: StateStore, state: CrewGlueState) -> (m: Self)
        ensures
            m.current_store() == store,
            m.current_state() == state,
    {
        Self { store, state }
    }

    pub fn state(&self) -> (r: &CrewGlueState)
        ensures
            *r == self.current_state(),
    {
        &self.state
    }

    pub fn state_mut(&mut self) -> (r: &mut CrewGlueState)
        ensures
            *r == old(self).current_state(),
            final(self).current_state() == *final(r),
            final(self).current_store() == old(self).current_store(),
    {
        &mut self.state
    }

    pub fn store(&self) -> (r: &StateStore)
        ensures
            *r == self.current_store(),
    {
        &self.store
    }

    pub fn refresh_inventory(&mut self, user: UserSnapshot, inventory: InventorySnapshot)
        ensures
            final(self).current_state().user == user,
            final(self).current_state().inventory == inventory,
            final(self).current_state().same_policy(old(self).current_state()),
            final(self).current_store() == old(self).current_store(),
    {
        self.state.refresh_inventory(user, inventory);
    }

    pub fn resolve_room(&self, room_id: &str) -> (r: Result<ResolvedBinding, ResolveError>)
        ensures
            resolved_as(r, resolution(self.current_state(), room_id@)),
    {
        resolve_room_binding(&self.state, room_id)
    }

    /// Resolves the room, opens (or reuses) its session and builds the request and
    /// transport for `message`. `env` holds the process environment's variables.
    pub fn prepare_room_message(
        &mut self,
        room_id: &str,
        message: String,
        env: &StringMap<String>,
    ) -> (r: Result<(ResolvedBinding, SseHttpTransport, CrewStreamRequest), BridgeManagerError>)
        ensures
            final(self).current_store() == old(self).current_store(),
            final(self).current_state().user == old(self).current_state().user,
            final(self).current_state().inventory == old(self).current_state().inventory,
            final(self).current_state().providers == old(self).current_state().providers,
            final(self).current_state().workspaces == old(self).current_state().workspaces,
            final(self).current_state().execution_profiles == old(
                self,
            ).current_state().execution_profiles,
            final(self).current_state().space_bindings == old(self).current_state().space_bindings,
            final(self).current_state().room_bindings == old(self).current_state().room_bindings,
            final(self).current_state().defaults == old(self).current_state().defaults,
            final(self).current_state().version == old(self).current_state().version,
            match resolution(old(self).current_state(), room_id@) {
                Err(f) => r matches Err(BridgeManagerError::Resolve(e)) && e@ == f
                    && final(self).current_state().runtime == old(self).current_state().runtime,
                Ok(s) => match r {
                    Err(BridgeManagerError::Resolve(_)) => false,
                    Err(e) => transport_built(Err(e), s.provider, env@)
                        && final(self).current_state().runtime == old(self).current_state().runtime,
                    Ok((b, t, req)) => {
                        &&& b.agrees_with(s)
                        &&& transport_built(Ok(t), s.provider, env@)
                        &&& req.message == message
                        &&& session_ensured(
                            old(self).current_state().runtime.active_sessions@,
                            final(self).current_state().runtime.active_sessions@,
                            room_id@,
                            s.execution_profile.id,
                            req.session_id@,
                        )
                    },
                },
            },
    {
        let (resolved, transport) = match self.transport_for_room(room_id, env) {
            Ok(pair) => pair,
            Err(e) => {
                return Err(e);
            },
        };
        let session_id = ensure_session_id(&mut self.state.runtime, room_id, &resolved);
        let request = CrewStreamRequest { session_id, message };
        Ok((resolved, transport, request))
    }

    /// Resolves the room and builds the transport for its provider. `env` holds the
    /// process environment's variables.
    pub fn transport_for_room(&self, room_id: &str, env: &StringMap<String>) -> (r: Result<
        (ResolvedBinding, SseHttpTransport),
        BridgeManagerError,
    >)
        ensures
            match resolution(self.current_state(), room_id@) {
                Err(f) => r matches Err(BridgeManagerError::Resolve(e)) && e@ == f,
                Ok(s) => match r {
                    Err(BridgeManagerError::Resolve(_)) => false,
                    Err(e) => transport_built(Err(e), s.provider, env@),
                    Ok((b, t)) => b.agrees_with(s) && transport_built(Ok(t), s.provider, env@),
                },
            },
    {
        let resolved = match self.resolve_room(room_id) {
            Ok(resolved) => resolved,
            Err(e) => {
                return Err(BridgeManagerError::Resolve(e));
            },
        };
        let transport = match build_transport(&resolved.provider, env) {
            Ok(transport) => transport,
            Err(e) => {
                return Err(e);
            },
        };
        Ok((resolved, transport))
    }
}

/// The session that `room_id` uses for the resolved execution profile, opened or
/// moved to that profile in `runtime` when needed: a room keeps its session while
/// its profile stays, and the other rooms' sessions are left as they are.
pub fn ensure_session_id(
    runtime: &mut RuntimeState,
    room_id: &str,
    resolved: &ResolvedBinding,
) -> (r: String)
    ensures
        session_ensured(
            old(runtime).active_sessions@,
            final(runtime).active_sessions@,
            room_id@,
            resolved.execution_profile.id,
            r@,
        ),
{
    let profile_id = &resolved.execution_profile.id;
    let ghost before = runtime.active_sessions@;
    match runtime.active_sessions.get(room_id) {
        Some(record) => {
            if record.execution_profile_id == *profile_id {
                let session_id = record.session_id.clone();
                assert(before.insert(room_id@, before[room_id@]) =~= before);
                assert(before.dom().insert(room_id@) =~= before.dom());
                session_id
            } else {
                let session_id = make_session_id(room_id, profile_id.as_str());
                let updated = SessionRecord {
                    room_id: record.room_id.clone(),
                    execution_profile_id: profile_id.clone(),
                    session_id: session_id.clone(),
                };
                runtime.active_sessions.insert(room_id.to_string(), updated);
                assert(runtime.active_sessions@.remove(room_id@) =~= before.remove(room_id@));
                session_id
            }
        },
        None => {
            let session_id = make_session_id(room_id, profile_id.as_str());
            let record = SessionRecord {
                room_id: room_id.to_string(),
                execution_profile_id: profile_id.clone(),
                session_id: session_id.clone(),
            };
            runtime.active_sessions.insert(room_id.to_string(), record);
            assert(runtime.active_sessions@.remove(room_id@) =~= before.remove(room_id@));
            session_id
        },
    }
}

fn make_session_id(room_id: &str, execution_profile_id: &str) -> (r: String)
    ensures
        r@ == session_id_for(room_id@, execution_profile_id@),
{
    let mut id = "robrix:".to_string();
    proof {
        reveal_strlit("robrix:");
        reveal_strlit(":");
    }
    id.append(room_id);
    id.append(":");
    id.append(execution_profile_id);
    id
}

fn build_transport(provider: &ProviderProfile, env: &StringMap<String>) -> (r: Result<
    SseHttpTransport,
    BridgeManagerError,
>)
    ensures
        transport_built(r, *provider, env@),
{
    let base_url = match &provider.base_url {
        Some(base_url) => base_url,
        None => {
            return Err(BridgeManagerError::MissingBaseUrl { provider_id: provider.id.clone() });
        },
    };
    let url = match parse_url(base_url.as_str()) {
        Ok(url) => url,
        Err(error) => {
            return Err(
                BridgeManagerError::InvalidBaseUrl {
                    provider_id: provider.id.clone(),
                    base_url: base_url.as_str().to_string(),
                    error,
                },
            );
        },
    };

    let mut transport = SseHttpTransport::new(url);
    if let Some(env_var) = &provider.api_key_env {
        if let Some(token) = env.get(env_var.as_str()) {
            if !token.as_str().is_empty() {
                transport = transport.with_auth_token(token.clone());
            }
        }
    }
    Ok(transport)
}

/// Ensuring a room's session a second time for the same profile changes nothing
/// and gives the same session id: a room keeps its session while its profile stays.
pub proof fn law_session_is_stable(
    m0: Map<Seq<char>, SessionRecord>,
    m1: Map<Seq<char>, SessionRecord>,
    m2: Map<Seq<char>, SessionRecord>,
    room_id: Seq<char>,
    p1: String,
    p2: String,
    s1: Seq<char>,
    s2: Seq<char>,
)
    requires
        session_ensured(m0, m1, room_id, p1, s1),
        session_ensured(m1, m2, room_id, p2, s2),
        p1@ == p2@,
    ensures
        m2 == m1,
        s2 == s1,
{
    assert forall|k: Seq<char>| #[trigger] m2.contains_key(k) implies m2[k] == m1[k] by {
        if k != room_id {
            assert(m2.remove(room_id)[k] == m2[k]);
            assert(m1.remove(room_id)[k] == m1[k]);
        }
    }
    assert(m2.dom() =~= m1.dom());
    assert(m2 =~= m1);
}

/// Session ids tell profiles apart: within one room, two different profiles never
/// share a session id, so moving a room to another profile always opens a new session.
pub proof fn law_session_ids_tell_profiles_apart(
    room_id: Seq<char>,
    p1: Seq<char>,
    p2: Seq<char>,
)
    requires
        p1 != p2,
    ensures
        session_id_for(room_id, p1) != session_id_for(room_id, p2),
{
    let prefix = seq!['r', 'o', 'b', 'r', 'i', 'x', ':'] + room_id + seq![':'];
    assert(session_id_for(room_id, p1) =~= prefix + p1);
    assert(session_id_for(room_id, p2) =~= prefix + p2);
    if session_id_for(room_id, p1) == session_id_for(room_id, p2) {
        assert((prefix + p1).skip(prefix.len() as int) =~= p1);
        assert((prefix + p2).skip(prefix.len() as int) =~= p2);
    }
}

/// The session a room is given names the room itself: a session kept for the same
/// profile is reused as it was, and otherwise (a room without a session, or one
/// moving to another profile) the id is `robrix:<room>:<profile>`; the room's
/// record holds the id that is returned.
pub proof fn law_session_id_names_the_room(
    before: Map<Seq<char>, SessionRecord>,
    after: Map<Seq<char>, SessionRecord>,
    room_id: Seq<char>,
    profile_id: String,
    session_id: Seq<char>,
)
    requires
        session_ensured(before, after, room_id, profile_id, session_id),
    ensures
        after.contains_key(room_id),
        after[room_id].session_id@ == session_id,
        after[room_id].execution_profile_id@ == profile_id@,
        before.contains_key(room_id) && before[room_id].execution_profile_id@ == profile_id@
            ==> session_id == before[room_id].session_id@,
        !(before.contains_key(room_id) && before[room_id].execution_profile_id@ == profile_id@)
            ==> session_id == seq!['r', 'o', 'b', 'r', 'i', 'x', ':'] + room_id + seq![':']
            + profile_id@,
{
}

/// Session ids tell rooms apart: for one profile, two different rooms get two
/// different ids.
pub proof fn law_session_ids_tell_rooms_apart(r1: Seq<char>, r2: Seq<char>, profile_id: Seq<char>)
    requires
        r1 != r2,
    ensures
        seq!['r', 'o', 'b', 'r', 'i', 'x', ':'] + r1 + seq![':'] + profile_id != seq![
            'r',
            'o',
            'b',
            'r',
            'i',
            'x',
            ':',
        ] + r2 + seq![':'] + profile_id,
{
    let a = seq!['r', 'o', 'b', 'r', 'i', 'x', ':'] + r1 + seq![':'] + profile_id;
    let b = seq!['r', 'o', 'b', 'r', 'i', 'x', ':'] + r2 + seq![':'] + profile_id;
    if a == b {
        assert(a.len() == b.len());
        assert(r1.len() == r2.len());
        assert(a.subrange(7, 7 + r1.len() as int) =~= r1);
        assert(b.subrange(7, 7 + r2.len() as int) =~= r2);
    }
}

/// Rooms that open a session for the same profile never share it: two different
/// rooms that had no session each get their own id, even when one opens its
/// session after the other.
pub proof fn law_new_sessions_are_per_room(
    before1: Map<Seq<char>, SessionRecord>,
    after1: Map<Seq<char>, SessionRecord>,
    room1: Seq<char>,
    profile1: String,
    session1: Seq<char>,
    before2: Map<Seq<char>, SessionRecord>,
    after2: Map<Seq<char>, SessionRecord>,
    room2: Seq<char>,
    profile2: String,
    session2: Seq<char>,
)
    requires
        session_ensured(before1, after1, room1, profile1, session1),
        session_ensured(before2, after2, room2, profile2, session2),
        !before1.contains_key(room1),
        !before2.contains_key(room2),
        profile1@ == profile2@,
        room1 != room2,
    ensures
        session1 != session2,
{
    law_session_id_names_the_room(before1, after1, room1, profile1, session1);
    law_session_id_names_the_room(before2, after2, room2, profile2, session2);
    law_session_ids_tell_rooms_apart(room1, room2, profile1@);
}

/// A transport carries the value of the provider's key variable as its token
/// exactly when the provider names such a variable and the environment sets it to
/// a non-empty value; otherwise it carries no token. It always aims at the
/// provider's parsed base URL.
pub proof fn law_token_comes_from_a_non_empty_variable(
    t: SseHttpTransport,
    provider: ProviderProfile,
    env: Map<Seq<char>, String>,
)
    requires
        transport_built(Ok(t), provider, env),
    ensures
        provider.base_url is Some && url_accepts(provider.base_url.unwrap()@),
        t.base() == parsed_url(provider.base_url.unwrap()@),
        (t.token() is Some) <==> (provider.api_key_env is Some && env.contains_key(
            provider.api_key_env.unwrap()@,
        ) && env[provider.api_key_env.unwrap()@]@.len() > 0),
        t.token() is Some ==> t.token() == Some(env[provider.api_key_env.unwrap()@]),
{
}

} // verus!

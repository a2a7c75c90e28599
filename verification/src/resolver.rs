//! Resolution of a room into the execution profile, provider and workspace
//! that a Crew session for it should use.
use vstd::prelude::*;

use crate::state::{
    CrewGlueState, ExecutionProfile, ProviderProfile, RoomBinding, RoomId, RoomInventory,
    SpaceBinding, Workspace,
};

verus! {

#[derive(Debug, PartialEq, Eq)]
pub enum ResolveError {
    UnknownRoom(RoomId),
    NoExecutionProfile(RoomId),
    UnknownExecutionProfile(String),
    UnknownProvider(String),
    UnknownWorkspace(String),
}

/// A resolution failure, with the ids it names as character sequences.
pub enum ResolveFailure {
    UnknownRoom(Seq<char>),
    NoExecutionProfile(Seq<char>),
    UnknownExecutionProfile(Seq<char>),
    UnknownProvider(Seq<char>),
    UnknownWorkspace(Seq<char>),
}

impl View for ResolveError {
    type V = ResolveFailure;

    open spec fn view(&self) -> ResolveFailure {
        match self {
            ResolveError::UnknownRoom(id) => ResolveFailure::UnknownRoom(id@),
            ResolveError::NoExecutionProfile(id) => ResolveFailure::NoExecutionProfile(id@),
            ResolveError::UnknownExecutionProfile(id) => ResolveFailure::UnknownExecutionProfile(
                id@,
            ),
            ResolveError::UnknownProvider(id) => ResolveFailure::UnknownProvider(id@),
            ResolveError::UnknownWorkspace(id) => ResolveFailure::UnknownWorkspace(id@),
        }
    }
}

#[derive(Clone, Debug, PartialEq, Eq)]
pub enum BindingSource {
    Room(RoomBinding),
    Space(SpaceBinding),
    Default,
}

#[derive(Clone, Debug, PartialEq, Eq)]
pub struct ResolvedBinding {
    pub room: RoomInventory,
    pub source: BindingSource,
    pub execution_profile: ExecutionProfile,
    pub provider: ProviderProfile,
    pub workspace: Option<Workspace>,
}

impl ResolvedBinding {
    /// Same room, source, profile, provider and workspace, lists compared by their elements.
    pub open spec fn agrees_with(self, other: ResolvedBinding) -> bool {
        &&& self.room.equivalent(other.room)
        &&& self.source == other.source
        &&& self.execution_profile == other.execution_profile
        &&& self.provider == other.provider
        &&& match (self.workspace, other.workspace) {
            (Some(a), Some(b)) => a.equivalent(b),
            (None, None) => true,
            _ => false,
        }
    }
}

/// The space `space_id` has an enabled binding that applies to its child rooms.
pub open spec fn applies_to_children(state: CrewGlueState, space_id: Seq<char>) -> bool {
    &&& state.space_bindings@.contains_key(space_id)
    &&& state.space_bindings@[space_id].enabled
    &&& state.space_bindings@[space_id].apply_to_children
}

/// The binding of the first space in `space_ids` whose binding applies to child rooms.
pub open spec fn first_applying_space(state: CrewGlueState, space_ids: Seq<String>) -> Option<
    SpaceBinding,
>
    decreases space_ids.len(),
{
    if space_ids.len() == 0 {
        None
    } else {
        match first_applying_space(state, space_ids.drop_last()) {
            Some(b) => Some(b),
            None => if applies_to_children(state, space_ids.last()@) {
                Some(state.space_bindings@[space_ids.last()@])
            } else {
                None
            },
        }
    }
}

/// The profile a room gets from its spaces, or else from the bridge default.
pub open spec fn space_or_default_choice(state: CrewGlueState, room: RoomInventory) -> Result<
    (String, BindingSource),
    ResolveFailure,
> {
    match first_applying_space(state, room.space_ids@) {
        Some(b) => Ok((b.execution_profile_id, BindingSource::Space(b))),
        None => match state.defaults.execution_profile_id {
            Some(p) => Ok((p, BindingSource::Default)),
            None => Err(ResolveFailure::NoExecutionProfile(room.room_id@)),
        },
    }
}

/// The profile for the room `room_id` (whose inventory entry is `room`): an enabled
/// room binding wins, then the spaces in order, then the bridge default.
pub open spec fn profile_choice(
    state: CrewGlueState,
    room_id: Seq<char>,
    room: RoomInventory,
) -> Result<(String, BindingSource), ResolveFailure> {
    if state.room_bindings@.contains_key(room_id) && state.room_bindings@[room_id].enabled {
        let b = state.room_bindings@[room_id];
        Ok((b.execution_profile_id, BindingSource::Room(b)))
    } else {
        space_or_default_choice(state, room)
    }
}

/// The outcome of resolving `room_id` against `state`.
pub open spec fn resolution(state: CrewGlueState, room_id: Seq<char>) -> Result<
    ResolvedBinding,
    ResolveFailure,
> {
    if !state.inventory.rooms@.contains_key(room_id) {
        Err(ResolveFailure::UnknownRoom(room_id))
    } else {
        let room = state.inventory.rooms@[room_id];
        match profile_choice(state, room_id, room) {
            Err(e) => Err(e),
            Ok((profile_id, source)) => if !state.execution_profiles@.contains_key(profile_id@) {
                Err(ResolveFailure::UnknownExecutionProfile(profile_id@))
            } else {
                let profile = state.execution_profiles@[profile_id@];
                if !state.providers@.contains_key(profile.provider_id@) {
                    Err(ResolveFailure::UnknownProvider(profile.provider_id@))
                } else {
                    let provider = state.providers@[profile.provider_id@];
                    match profile.workspace_id {
                        Some(w) => if !state.workspaces@.contains_key(w@) {
                            Err(ResolveFailure::UnknownWorkspace(w@))
                        } else {
                            Ok(
                                ResolvedBinding {
                                    room,
                                    source,
                                    execution_profile: profile,
                                    provider,
                                    workspace: Some(state.workspaces@[w@]),
                                },
                            )
                        },
                        None => Ok(
                            ResolvedBinding {
                                room,
                                source,
                                execution_profile: profile,
                                provider,
                                workspace: None,
                            },
                        ),
                    }
                }
            },
        }
    }
}

/// `r` is the outcome that `spec` describes.
pub open spec fn resolved_as(
    r: Result<ResolvedBinding, ResolveError>,
    spec: Result<ResolvedBinding, ResolveFailure>,
) -> bool {
    match (r, spec) {
        (Ok(b), Ok(s)) => b.agrees_with(s),
        (Err(e), Err(f)) => e@ == f,
        _ => false,
    }
}

/// Once a prefix of `space_ids` has an applying space, longer lists pick the same one.
proof fn lemma_first_applying_prefix(state: CrewGlueState, space_ids: Seq<String>, k: int)
    requires
        0 <= k <= space_ids.len(),
        first_applying_space(state, space_ids.take(k)) is Some,
    ensures
        first_applying_space(state, space_ids) == first_applying_space(state, space_ids.take(k)),
    decreases space_ids.len() - k,
{
    if k < space_ids.len() {
        assert(space_ids.take(k + 1).drop_last() =~= space_ids.take(k));
        lemma_first_applying_prefix(state, space_ids, k + 1);
    } else {
        assert(space_ids.take(k) =~= space_ids);
    }
}

pub fn resolve_room_binding(state: &CrewGlueState, room_id: &str) -> (r: Result<
    ResolvedBinding,
    ResolveError,
>)
    ensures
        resolved_as(r, resolution(*state, room_id@)),
{
    let room = match state.inventory.rooms.get(room_id) {
        Some(room) => room.clone(),
        None => {
            return Err(ResolveError::UnknownRoom(room_id.to_string()));
        },
    };
    let ghost stored_room = state.inventory.rooms@[room_id@];
    assert(space_or_default_choice(*state, room) == space_or_default_choice(*state, stored_room));

    let (profile_id, source) = match state.room_bindings.get(room_id) {
        Some(binding) if binding.enabled => (
            binding.execution_profile_id.clone(),
            BindingSource::Room(binding.clone()),
        ),
        _ => match resolve_from_spaces_or_default(state, &room) {
            Ok(choice) => choice,
            Err(e) => {
                return Err(e);
            },
        },
    };

    let execution_profile = match state.execution_profiles.get(profile_id.as_str()) {
        Some(profile) => profile.clone(),
        None => {
            return Err(ResolveError::UnknownExecutionProfile(profile_id.clone()));
        },
    };
    let provider = match state.providers.get(execution_profile.provider_id.as_str()) {
        Some(provider) => provider.clone(),
        None => {
            return Err(ResolveError::UnknownProvider(execution_profile.provider_id.clone()));
        },
    };
    let workspace = match &execution_profile.workspace_id {
        Some(workspace_id) => match state.workspaces.get(workspace_id.as_str()) {
            Some(workspace) => Some(workspace.clone()),
            None => {
                return Err(ResolveError::UnknownWorkspace(workspace_id.clone()));
            },
        },
        None => None,
    };

    Ok(ResolvedBinding { room, source, execution_profile, provider, workspace })
}

fn resolve_from_spaces_or_default(state: &CrewGlueState, room: &RoomInventory) -> (r: Result<
    (String, BindingSource),
    ResolveError,
>)
    ensures
        match (r, space_or_default_choice(*state, *room)) {
            (Ok(c), Ok(s)) => c == s,
            (Err(e), Err(f)) => e@ == f,
            _ => false,
        },
{
    let n = room.space_ids.len();
    let mut i: usize = 0;
    while i < n
        invariant
            n == room.space_ids@.len(),
            i <= n,
            first_applying_space(*state, room.space_ids@.take(i as int)) is None,
        decreases n - i,
    {
        let space_id = &room.space_ids[i];
        assert(room.space_ids@.take(i + 1).drop_last() =~= room.space_ids@.take(i as int));
        assert(room.space_ids@.take(i + 1).last() == room.space_ids@[i as int]);
        if let Some(binding) = state.space_bindings.get(space_id.as_str()) {
            if binding.enabled && binding.apply_to_children {
                proof {
                    lemma_first_applying_prefix(*state, room.space_ids@, i + 1);
                }
                return Ok(
                    (binding.execution_profile_id.clone(), BindingSource::Space(binding.clone())),
                );
            }
        }
        i = i + 1;
    }
    assert(room.space_ids@.take(n as int) =~= room.space_ids@);

    match &state.defaults.execution_profile_id {
        Some(profile_id) => Ok((profile_id.clone(), BindingSource::Default)),
        None => Err(ResolveError::NoExecutionProfile(room.room_id.clone())),
    }
}

/// When none of `space_ids` has a binding that applies to child rooms, no space is picked.
proof fn lemma_no_applying_space(state: CrewGlueState, space_ids: Seq<String>)
    requires
        forall|j: int| 0 <= j < space_ids.len() ==> !applies_to_children(state, #[trigger] space_ids[j]@),
    ensures
        first_applying_space(state, space_ids) is None,
    decreases space_ids.len(),
{
    if space_ids.len() > 0 {
        lemma_no_applying_space(state, space_ids.drop_last());
    }
}

/// The space picked for `space_ids` depends on the state only through its space bindings.
proof fn lemma_first_applying_reads_space_bindings(
    s1: CrewGlueState,
    s2: CrewGlueState,
    space_ids: Seq<String>,
)
    requires
        s1.space_bindings@ == s2.space_bindings@,
    ensures
        first_applying_space(s1, space_ids) == first_applying_space(s2, space_ids),
    decreases space_ids.len(),
{
    if space_ids.len() > 0 {
        lemma_first_applying_reads_space_bindings(s1, s2, space_ids.drop_last());
    }
}

/// An enabled room binding decides the room's profile: when the room is in the
/// inventory and its binding is enabled, a successful resolution uses the profile
/// that the binding names and reports the binding as its source, whatever the
/// room's spaces and the bridge default say; a failure can only be a missing
/// profile, provider or workspace.
pub proof fn law_room_binding_wins(state: CrewGlueState, room_id: Seq<char>)
    requires
        state.inventory.rooms@.contains_key(room_id),
        state.room_bindings@.contains_key(room_id),
        state.room_bindings@[room_id].enabled,
    ensures
        ({
            let b = state.room_bindings@[room_id];
            match resolution(state, room_id) {
                Ok(r) => r.source == BindingSource::Room(b) && r.execution_profile
                    == state.execution_profiles@[b.execution_profile_id@],
                Err(f) => f is UnknownExecutionProfile || f is UnknownProvider
                    || f is UnknownWorkspace,
            }
        }),
{
}

/// Without an enabled room binding, the first of the room's spaces (in the order the
/// inventory lists them) whose binding is enabled and applies to child rooms decides
/// the profile; the spaces after it and the bridge default do not matter.
pub proof fn law_first_space_binding_wins(state: CrewGlueState, room_id: Seq<char>, k: int)
    requires
        state.inventory.rooms@.contains_key(room_id),
        !(state.room_bindings@.contains_key(room_id) && state.room_bindings@[room_id].enabled),
        0 <= k < state.inventory.rooms@[room_id].space_ids@.len(),
        applies_to_children(state, state.inventory.rooms@[room_id].space_ids@[k]@),
        forall|j: int|
            0 <= j < k ==> !applies_to_children(
                state,
                #[trigger] state.inventory.rooms@[room_id].space_ids@[j]@,
            ),
    ensures
        ({
            let room = state.inventory.rooms@[room_id];
            let b = state.space_bindings@[room.space_ids@[k]@];
            profile_choice(state, room_id, room) == Ok::<(String, BindingSource), ResolveFailure>(
                (b.execution_profile_id, BindingSource::Space(b)),
            )
        }),
{
    let ids = state.inventory.rooms@[room_id].space_ids@;
    assert forall|j: int| 0 <= j < ids.take(k).len() implies !applies_to_children(
        state,
        #[trigger] ids.take(k)[j]@,
    ) by {
        assert(ids.take(k)[j] == ids[j]);
    }
    lemma_no_applying_space(state, ids.take(k));
    assert(ids.take(k + 1).drop_last() =~= ids.take(k));
    assert(ids.take(k + 1).last() == ids[k]);
    lemma_first_applying_prefix(state, ids, k + 1);
}

/// The bridge default applies only when neither the room nor any of its spaces has
/// an applying binding; without a default such a room has no execution profile.
pub proof fn law_default_is_the_fallback(state: CrewGlueState, room_id: Seq<char>)
    requires
        state.inventory.rooms@.contains_key(room_id),
        !(state.room_bindings@.contains_key(room_id) && state.room_bindings@[room_id].enabled),
        forall|j: int|
            0 <= j < state.inventory.rooms@[room_id].space_ids@.len() ==> !applies_to_children(
                state,
                #[trigger] state.inventory.rooms@[room_id].space_ids@[j]@,
            ),
    ensures
        ({
            let room = state.inventory.rooms@[room_id];
            profile_choice(state, room_id, room) == match state.defaults.execution_profile_id {
                Some(p) => Ok::<(String, BindingSource), ResolveFailure>(
                    (p, BindingSource::Default),
                ),
                None => Err(ResolveFailure::NoExecutionProfile(room.room_id@)),
            }
        }),
{
    lemma_no_applying_space(state, state.inventory.rooms@[room_id].space_ids@);
}

/// Resolution reads only the inventory's rooms and the policy: two states that
/// agree on those resolve every room alike, whatever their user snapshot, space
/// inventory and session table.
pub proof fn law_resolution_reads_rooms_and_policy(
    s1: CrewGlueState,
    s2: CrewGlueState,
    room_id: Seq<char>,
)
    requires
        s1.inventory.rooms@ == s2.inventory.rooms@,
        s1.providers@ == s2.providers@,
        s1.workspaces@ == s2.workspaces@,
        s1.execution_profiles@ == s2.execution_profiles@,
        s1.space_bindings@ == s2.space_bindings@,
        s1.room_bindings@ == s2.room_bindings@,
        s1.defaults == s2.defaults,
    ensures
        resolution(s1, room_id) == resolution(s2, room_id),
{
    if s1.inventory.rooms@.contains_key(room_id) {
        let room = s1.inventory.rooms@[room_id];
        lemma_first_applying_reads_space_bindings(s1, s2, room.space_ids@);
    }
}

/// What a resolution returns belongs together: an unknown room is exactly one
/// missing from the inventory; on success the room is the inventory's entry, the
/// provider is the one the profile names, and the workspace is the one the profile
/// names (none when it names none).
pub proof fn law_resolution_is_consistent(state: CrewGlueState, room_id: Seq<char>)
    ensures
        (resolution(state, room_id) matches Err(ResolveFailure::UnknownRoom(_)))
            <==> !state.inventory.rooms@.contains_key(room_id),
        resolution(state, room_id) matches Err(ResolveFailure::UnknownRoom(id)) ==> id == room_id,
        resolution(state, room_id) matches Ok(b) ==> {
            &&& state.inventory.rooms@.contains_key(room_id)
            &&& b.room == state.inventory.rooms@[room_id]
            &&& state.providers@.contains_key(b.execution_profile.provider_id@)
            &&& b.provider == state.providers@[b.execution_profile.provider_id@]
            &&& match b.execution_profile.workspace_id {
                Some(w) => state.workspaces@.contains_key(w@) && b.workspace == Some(
                    state.workspaces@[w@],
                ),
                None => b.workspace is None,
            }
        },
{
}

/// A space binding that is disabled, or that does not apply to child rooms, is
/// never picked: when no enabled room binding applies and every space of the room
/// has no binding or one of those, the room gets the bridge default (and fails
/// only on a missing profile, provider or workspace), or has no execution profile
/// when there is no default.
pub proof fn law_disabled_space_bindings_never_apply(state: CrewGlueState, room_id: Seq<char>)
    requires
        state.inventory.rooms@.contains_key(room_id),
        !(state.room_bindings@.contains_key(room_id) && state.room_bindings@[room_id].enabled),
        forall|j: int|
            0 <= j < state.inventory.rooms@[room_id].space_ids@.len() ==> {
                let space = #[trigger] state.inventory.rooms@[room_id].space_ids@[j]@;
                !state.space_bindings@.contains_key(space) || !state.space_bindings@[space].enabled
                    || !state.space_bindings@[space].apply_to_children
            },
    ensures
        ({
            let room = state.inventory.rooms@[room_id];
            match state.defaults.execution_profile_id {
                None => resolution(state, room_id) == Err::<ResolvedBinding, ResolveFailure>(
                    ResolveFailure::NoExecutionProfile(room.room_id@),
                ),
                Some(d) => match resolution(state, room_id) {
                    Ok(b) => b.source == BindingSource::Default && state.execution_profiles@.contains_key(d@)
                        && b.execution_profile == state.execution_profiles@[d@],
                    Err(f) => f == ResolveFailure::UnknownExecutionProfile(d@) || f is UnknownProvider
                        || f is UnknownWorkspace,
                },
            }
        }),
{
    let ids = state.inventory.rooms@[room_id].space_ids@;
    assert forall|j: int| 0 <= j < ids.len() implies !applies_to_children(
        state,
        #[trigger] ids[j]@,
    ) by {
        assert(ids[j] == state.inventory.rooms@[room_id].space_ids@[j]);
    }
    lemma_no_applying_space(state, ids);
}

/// The first of the room's spaces whose binding is enabled and applies to child
/// rooms decides the profile when no enabled room binding applies: a successful
/// resolution reports that space binding as its source and uses the profile it
/// names; a failure can only be a missing profile, provider or workspace.
pub proof fn law_first_enabled_space_decides(state: CrewGlueState, room_id: Seq<char>, k: int)
    requires
        state.inventory.rooms@.contains_key(room_id),
        !(state.room_bindings@.contains_key(room_id) && state.room_bindings@[room_id].enabled),
        0 <= k < state.inventory.rooms@[room_id].space_ids@.len(),
        state.space_bindings@.contains_key(state.inventory.rooms@[room_id].space_ids@[k]@),
        state.space_bindings@[state.inventory.rooms@[room_id].space_ids@[k]@].enabled,
        state.space_bindings@[state.inventory.rooms@[room_id].space_ids@[k]@].apply_to_children,
        forall|j: int|
            0 <= j < k ==> {
                let space = #[trigger] state.inventory.rooms@[room_id].space_ids@[j]@;
                !state.space_bindings@.contains_key(space) || !state.space_bindings@[space].enabled
                    || !state.space_bindings@[space].apply_to_children
            },
    ensures
        ({
            let b = state.space_bindings@[state.inventory.rooms@[room_id].space_ids@[k]@];
            match resolution(state, room_id) {
                Ok(r) => r.source == BindingSource::Space(b) && state.execution_profiles@.contains_key(
                    b.execution_profile_id@,
                ) && r.execution_profile == state.execution_profiles@[b.execution_profile_id@],
                Err(f) => f == ResolveFailure::UnknownExecutionProfile(b.execution_profile_id@)
                    || f is UnknownProvider || f is UnknownWorkspace,
            }
        }),
{
    let ids = state.inventory.rooms@[room_id].space_ids@;
    assert forall|j: int| 0 <= j < k implies !applies_to_children(state, #[trigger] ids[j]@) by {
        assert(ids[j] == state.inventory.rooms@[room_id].space_ids@[j]);
    }
    law_first_space_binding_wins(state, room_id, k);
}

/// Resolution follows the profile choice: the chosen profile is used with the
/// chosen source, or resolution fails on a missing profile, provider or workspace;
/// a failed choice is the resolution's failure.
pub proof fn law_resolution_follows_the_choice(state: CrewGlueState, room_id: Seq<char>)
    requires
        state.inventory.rooms@.contains_key(room_id),
    ensures
        match profile_choice(state, room_id, state.inventory.rooms@[room_id]) {
            Err(f) => resolution(state, room_id) == Err::<ResolvedBinding, ResolveFailure>(f),
            Ok((p, source)) => match resolution(state, room_id) {
                Ok(b) => b.source == source && state.execution_profiles@.contains_key(p@)
                    && b.execution_profile == state.execution_profiles@[p@],
                Err(f) => f == ResolveFailure::UnknownExecutionProfile(p@) || f is UnknownProvider
                    || f is UnknownWorkspace,
            },
        },
{
}

/// A room's flags and names do not change how it resolves: two states with the
/// same policy whose entries for the room differ at most in display name, alias,
/// direct-message and stale flags resolve it to the same source, profile,
/// provider and workspace, or fail alike.
pub proof fn law_room_flags_do_not_matter(s1: CrewGlueState, s2: CrewGlueState, room_id: Seq<char>)
    requires
        s1.inventory.rooms@.contains_key(room_id) == s2.inventory.rooms@.contains_key(room_id),
        s1.inventory.rooms@.contains_key(room_id) ==> s1.inventory.rooms@[room_id].room_id
            == s2.inventory.rooms@[room_id].room_id && s1.inventory.rooms@[room_id].space_ids@
            == s2.inventory.rooms@[room_id].space_ids@,
        s1.providers@ == s2.providers@,
        s1.workspaces@ == s2.workspaces@,
        s1.execution_profiles@ == s2.execution_profiles@,
        s1.space_bindings@ == s2.space_bindings@,
        s1.room_bindings@ == s2.room_bindings@,
        s1.defaults == s2.defaults,
    ensures
        match (resolution(s1, room_id), resolution(s2, room_id)) {
            (Ok(a), Ok(b)) => a.source == b.source && a.execution_profile == b.execution_profile
                && a.provider == b.provider && a.workspace == b.workspace,
            (Err(e), Err(f)) => e == f,
            _ => false,
        },
{
    if s1.inventory.rooms@.contains_key(room_id) {
        lemma_first_applying_reads_space_bindings(
            s1,
            s2,
            s1.inventory.rooms@[room_id].space_ids@,
        );
    }
}

} // verus!

//! Persistent bridge state: the Matrix inventory that Robrix refreshes, and the
//! user-controlled policy (providers, workspaces, execution profiles, bindings).
use std::path::PathBuf;

use vstd::prelude::*;

use crate::string_map::StringMap;

verus! {

pub const STATE_VERSION: u32 = 1;

pub type StateVersion = u32;

pub type ProviderId = String;

pub type WorkspaceId = String;

pub type ExecutionProfileId = String;

pub type RoomId = String;

pub type SpaceId = String;

/// Persistent state for the Robrix <-> Crew bridge.
///
/// `inventory` is refreshed by Robrix from live Matrix state.
/// `policy` remains user-controlled and must not be overwritten by login refreshes.
#[derive(Clone, Debug, PartialEq, Eq)]
pub struct CrewGlueState {
    pub version: StateVersion,
    pub user: UserSnapshot,
    pub inventory: InventorySnapshot,
    pub providers: StringMap<ProviderProfile>,
    pub workspaces: StringMap<Workspace>,
    pub execution_profiles: StringMap<ExecutionProfile>,
    pub space_bindings: StringMap<SpaceBinding>,
    pub room_bindings: StringMap<RoomBinding>,
    pub defaults: BridgeDefaults,
    pub runtime: RuntimeState,
}

impl CrewGlueState {
    /// The policy part of the state: everything that a login refresh must leave alone.
    pub open spec fn same_policy(self, other: CrewGlueState) -> bool {
        &&& self.version == other.version
        &&& self.providers == other.providers
        &&& self.workspaces == other.workspaces
        &&& self.execution_profiles == other.execution_profiles
        &&& self.space_bindings == other.space_bindings
        &&& self.room_bindings == other.room_bindings
        &&& self.defaults == other.defaults
        &&& self.runtime == other.runtime
    }

    /// Update the user + discovered Matrix inventory without touching user policy.
    pub fn refresh_inventory(&mut self, user: UserSnapshot, inventory: InventorySnapshot)
        ensures
            final(self).user == user,
            final(self).inventory == inventory,
            final(self).same_policy(*old(self)),
    {
        self.user = user;
        self.inventory = inventory;
    }
}

impl Default for CrewGlueState {
    /// A state at the current version with an empty inventory and an empty policy.
    fn default() -> (s: Self)
        ensures
            s.version == STATE_VERSION,
            s.user == UserSnapshot::empty(),
            s.inventory.rooms@ == Map::<Seq<char>, RoomInventory>::empty(),
            s.inventory.spaces@ == Map::<Seq<char>, SpaceInventory>::empty(),
            s.providers@ == Map::<Seq<char>, ProviderProfile>::empty(),
            s.workspaces@ == Map::<Seq<char>, Workspace>::empty(),
            s.execution_profiles@ == Map::<Seq<char>, ExecutionProfile>::empty(),
            s.space_bindings@ == Map::<Seq<char>, SpaceBinding>::empty(),
            s.room_bindings@ == Map::<Seq<char>, RoomBinding>::empty(),
            s.defaults.execution_profile_id is None,
            s.runtime.active_sessions@ == Map::<Seq<char>, SessionRecord>::empty(),
    {
        Self {
            version: STATE_VERSION,
            user: UserSnapshot::default(),
            inventory: InventorySnapshot::default(),
            providers: StringMap::new(),
            workspaces: StringMap::new(),
            execution_profiles: StringMap::new(),
            space_bindings: StringMap::new(),
            room_bindings: StringMap::new(),
            defaults: BridgeDefaults::default(),
            runtime: RuntimeState::default(),
        }
    }
}

#[derive(Clone, Debug, PartialEq, Eq)]
pub struct UserSnapshot {
    pub matrix_user_id: Option<String>,
    pub homeserver_url: Option<String>,
}

impl UserSnapshot {
    /// A snapshot that knows neither the user nor the homeserver.
    pub open spec fn empty() -> UserSnapshot {
        UserSnapshot { matrix_user_id: None, homeserver_url: None }
    }
}

impl Default for UserSnapshot {
    fn default() -> (s: Self)
        ensures
            s == UserSnapshot::empty(),
    {
        UserSnapshot { matrix_user_id: None, homeserver_url: None }
    }
}

#[derive(Clone, Debug, PartialEq, Eq)]
pub struct InventorySnapshot {
    pub rooms: StringMap<RoomInventory>,
    pub spaces: StringMap<SpaceInventory>,
}

impl Default for InventorySnapshot {
    fn default() -> (s: Self)
        ensures
            s.rooms@ == Map::<Seq<char>, RoomInventory>::empty(),
            s.spaces@ == Map::<Seq<char>, SpaceInventory>::empty(),
    {
        InventorySnapshot { rooms: StringMap::new(), spaces: StringMap::new() }
    }
}

#[derive(Debug, Default, PartialEq, Eq)]
pub struct RoomInventory {
    pub room_id: RoomId,
    pub display_name: Option<String>,
    pub canonical_alias: Option<String>,
    pub space_ids: Vec<SpaceId>,
    pub is_direct: bool,
    pub stale: bool,
}

impl RoomInventory {
    /// Field-by-field equality, the list of spaces compared by its elements.
    pub open spec fn equivalent(self, other: RoomInventory) -> bool {
        &&& self.room_id == other.room_id
        &&& self.display_name == other.display_name
        &&& self.canonical_alias == other.canonical_alias
        &&& self.space_ids@ == other.space_ids@
        &&& self.is_direct == other.is_direct
        &&& self.stale == other.stale
    }
}

impl Clone for RoomInventory {
    fn clone(&self) -> (r: Self)
        ensures
            r.equivalent(*self),
    {
        let space_ids = self.space_ids.clone();
        assert(space_ids@ =~= self.space_ids@);
        RoomInventory {
            room_id: self.room_id.clone(),
            display_name: self.display_name.clone(),
            canonical_alias: self.canonical_alias.clone(),
            space_ids,
            is_direct: self.is_direct,
            stale: self.stale,
        }
    }
}

#[derive(Clone, Debug, Default, PartialEq, Eq)]
pub struct SpaceInventory {
    pub space_id: SpaceId,
    pub display_name: Option<String>,
    pub canonical_alias: Option<String>,
    pub child_room_ids: Vec<RoomId>,
}

#[derive(Debug, Default, PartialEq, Eq)]
pub struct ProviderProfile {
    pub id: ProviderId,
    pub provider: String,
    pub model: Option<String>,
    pub base_url: Option<String>,
    pub api_type: Option<String>,
    pub api_key_env: Option<String>,
    pub description: Option<String>,
}

impl Clone for ProviderProfile {
    fn clone(&self) -> (r: Self)
        ensures
            r == *self,
    {
        ProviderProfile {
            id: self.id.clone(),
            provider: self.provider.clone(),
            model: self.model.clone(),
            base_url: self.base_url.clone(),
            api_type: self.api_type.clone(),
            api_key_env: self.api_key_env.clone(),
            description: self.description.clone(),
        }
    }
}

#[derive(Debug, Default, PartialEq, Eq)]
pub struct Workspace {
    pub id: WorkspaceId,
    pub name: String,
    pub root_dir: PathBuf,
    pub data_dir: Option<PathBuf>,
    pub skills_dirs: Vec<PathBuf>,
    pub description: Option<String>,
}

impl Workspace {
    /// Field-by-field equality, the list of skill directories compared by its elements.
    pub open spec fn equivalent(self, other: Workspace) -> bool {
        &&& self.id == other.id
        &&& self.name == other.name
        &&& self.root_dir == other.root_dir
        &&& self.data_dir == other.data_dir
        &&& self.skills_dirs@ == other.skills_dirs@
        &&& self.description == other.description
    }
}

impl Clone for Workspace {
    fn clone(&self) -> (r: Self)
        ensures
            r.equivalent(*self),
    {
        let skills_dirs = self.skills_dirs.clone();
        assert(skills_dirs@ =~= self.skills_dirs@);
        Workspace {
            id: self.id.clone(),
            name: self.name.clone(),
            root_dir: self.root_dir.clone(),
            data_dir: self.data_dir.clone(),
            skills_dirs,
            description: self.description.clone(),
        }
    }
}

/// User-facing execution target that a room/space binding points to.
#[derive(Debug, Default, PartialEq, Eq)]
pub struct ExecutionProfile {
    pub id: ExecutionProfileId,
    pub name: String,
    pub provider_id: ProviderId,
    pub workspace_id: Option<WorkspaceId>,
    pub system_prompt: Option<String>,
    pub description: Option<String>,
}

impl Clone for ExecutionProfile {
    fn clone(&self) -> (r: Self)
        ensures
            r == *self,
    {
        ExecutionProfile {
            id: self.id.clone(),
            name: self.name.clone(),
            provider_id: self.provider_id.clone(),
            workspace_id: self.workspace_id.clone(),
            system_prompt: self.system_prompt.clone(),
            description: self.description.clone(),
        }
    }
}

#[derive(Debug, PartialEq, Eq)]
pub struct SpaceBinding {
    pub space_id: SpaceId,
    pub execution_profile_id: ExecutionProfileId,
    pub apply_to_children: bool,
    pub enabled: bool,
}

impl Clone for SpaceBinding {
    fn clone(&self) -> (r: Self)
        ensures
            r == *self,
    {
        SpaceBinding {
            space_id: self.space_id.clone(),
            execution_profile_id: self.execution_profile_id.clone(),
            apply_to_children: self.apply_to_children,
            enabled: self.enabled,
        }
    }
}

impl Default for SpaceBinding {
    /// An enabled binding that applies to child rooms, with empty ids.
    fn default() -> (b: Self)
        ensures
            b.space_id@ == Seq::<char>::empty(),
            b.execution_profile_id@ == Seq::<char>::empty(),
            b.apply_to_children,
            b.enabled,
    {
        Self {
            space_id: String::new(),
            execution_profile_id: String::new(),
            apply_to_children: true,
            enabled: true,
        }
    }
}

#[derive(Debug, PartialEq, Eq)]
pub struct RoomBinding {
    pub room_id: RoomId,
    pub execution_profile_id: ExecutionProfileId,
    pub enabled: bool,
}

impl Clone for RoomBinding {
    fn clone(&self) -> (r: Self)
        ensures
            r == *self,
    {
        RoomBinding {
            room_id: self.room_id.clone(),
            execution_profile_id: self.execution_profile_id.clone(),
            enabled: self.enabled,
        }
    }
}

impl Default for RoomBinding {
    /// An enabled binding with empty ids.
    fn default() -> (b: Self)
        ensures
            b.room_id@ == Seq::<char>::empty(),
            b.execution_profile_id@ == Seq::<char>::empty(),
            b.enabled,
    {
        Self { room_id: String::new(), execution_profile_id: String::new(), enabled: true }
    }
}

#[derive(Clone, Debug, PartialEq, Eq)]
pub struct BridgeDefaults {
    pub execution_profile_id: Option<ExecutionProfileId>,
}

impl Default for BridgeDefaults {
    fn default() -> (d: Self)
        ensures
            d.execution_profile_id is None,
    {
        BridgeDefaults { execution_profile_id: None }
    }
}

#[derive(Clone, Debug, PartialEq, Eq)]
pub struct RuntimeState {
    pub active_sessions: StringMap<SessionRecord>,
}

impl Default for RuntimeState {
    fn default() -> (r: Self)
        ensures
            r.active_sessions@ == Map::<Seq<char>, SessionRecord>::empty(),
    {
        RuntimeState { active_sessions: StringMap::new() }
    }
}

#[derive(Clone, Debug, Default, PartialEq, Eq)]
pub struct SessionRecord {
    pub room_id: RoomId,
    pub execution_profile_id: ExecutionProfileId,
    pub session_id: String,
}

/// The version written into states that do not name one.
pub fn default_state_version() -> (v: StateVersion)
    ensures
        v == STATE_VERSION,
{
    STATE_VERSION
}

/// The value of the binding flags that a stored binding leaves out.
pub fn default_true() -> (b: bool)
    ensures
        b,
{
    true
}

} // verus!

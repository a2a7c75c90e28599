//! Bridge domain logic for connecting Robrix rooms to Crew execution profiles.
//!
//! The library keeps the state that Robrix edits (the Matrix inventory and the
//! user's policy), resolves a room into an execution profile, manages the
//! room's Crew session, and frames the Crew event stream. Reading files,
//! the environment and the network is left to the caller.
pub mod boundary;
pub mod manager;
pub mod resolver;
pub mod sse;
pub mod state;
pub mod store;
pub mod string_map;
pub mod text;
pub mod transport;

pub use manager::{BridgeManager, BridgeManagerError};
pub use resolver::{resolve_room_binding, ResolveError};
pub use state::{
    BridgeDefaults, CrewGlueState, ExecutionProfile, InventorySnapshot, ProviderProfile,
    RoomBinding, RoomInventory, RuntimeState, SessionRecord, SpaceBinding, SpaceInventory,
    StateVersion, UserSnapshot, Workspace,
};
pub use store::{StateStore, StateStoreError};
pub use string_map::StringMap;
pub use transport::{BridgeError, CrewEvent, CrewStreamRequest, EventPayload, SseHttpTransport};

use crew_bridge::resolver::{resolve_room_binding, BindingSource, ResolveError};
use crew_bridge::state::{
    BridgeDefaults, CrewGlueState, ExecutionProfile, InventorySnapshot, ProviderProfile,
    RoomBinding, RoomInventory, SpaceBinding, Workspace,
};
use crew_bridge::string_map::StringMap;

#[test]
fn room_binding_wins_over_space_binding() {
    let mut state = CrewGlueState::default();
    state.providers.insert(
        "p1".into(),
        ProviderProfile {
            id: "p1".into(),
            provider: "openai".into(),
            ..Default::default()
        },
    );
    state.providers.insert(
        "p2".into(),
        ProviderProfile {
            id: "p2".into(),
            provider: "anthropic".into(),
            ..Default::default()
        },
    );
    state.execution_profiles.insert(
        "room".into(),
        ExecutionProfile {
            id: "room".into(),
            name: "Room".into(),
            provider_id: "p1".into(),
            ..Default::default()
        },
    );
    state.execution_profiles.insert(
        "space".into(),
        ExecutionProfile {
            id: "space".into(),
            name: "Space".into(),
            provider_id: "p2".into(),
            ..Default::default()
        },
    );
    let mut rooms = StringMap::new();
    rooms.insert(
        "!room:example.org".into(),
        RoomInventory {
            room_id: "!room:example.org".into(),
            space_ids: vec!["!space:example.org".into()],
            ..Default::default()
        },
    );
    state.inventory = InventorySnapshot {
        rooms,
        ..Default::default()
    };
    state.space_bindings.insert(
        "!space:example.org".into(),
        SpaceBinding {
            space_id: "!space:example.org".into(),
            execution_profile_id: "space".into(),
            ..Default::default()
        },
    );
    state.room_bindings.insert(
        "!room:example.org".into(),
        RoomBinding {
            room_id: "!room:example.org".into(),
            execution_profile_id: "room".into(),
            ..Default::default()
        },
    );

    let resolved = resolve_room_binding(&state, "!room:example.org").unwrap();
    assert!(matches!(resolved.source, BindingSource::Room(_)));
    assert_eq!(resolved.execution_profile.id, "room");
}

#[test]
fn resolves_default_profile() {
    let mut state = CrewGlueState::default();
    state.providers.insert(
        "p1".into(),
        ProviderProfile {
            id: "p1".into(),
            provider: "openai".into(),
            ..Default::default()
        },
    );
    state.workspaces.insert(
        "ws".into(),
        Workspace {
            id: "ws".into(),
            name: "Repo".into(),
            root_dir: "/tmp/repo".into(),
            ..Default::default()
        },
    );
    state.execution_profiles.insert(
        "default".into(),
        ExecutionProfile {
            id: "default".into(),
            name: "Default".into(),
            provider_id: "p1".into(),
            workspace_id: Some("ws".into()),
            ..Default::default()
        },
    );
    state.defaults = BridgeDefaults {
        execution_profile_id: Some("default".into()),
    };
    state.inventory.rooms.insert(
        "!room:example.org".into(),
        RoomInventory {
            room_id: "!room:example.org".into(),
            ..Default::default()
        },
    );

    let resolved = resolve_room_binding(&state, "!room:example.org").unwrap();
    assert!(matches!(resolved.source, BindingSource::Default));
    assert_eq!(resolved.workspace.unwrap().id, "ws");
}

fn provider(id: &str) -> ProviderProfile {
    ProviderProfile {
        id: id.into(),
        provider: "openai".into(),
        ..Default::default()
    }
}

fn profile(id: &str, provider_id: &str, workspace_id: Option<&str>) -> ExecutionProfile {
    ExecutionProfile {
        id: id.into(),
        name: id.into(),
        provider_id: provider_id.into(),
        workspace_id: workspace_id.map(|w| w.to_string()),
        ..Default::default()
    }
}

fn room(id: &str, spaces: &[&str]) -> RoomInventory {
    RoomInventory {
        room_id: id.into(),
        space_ids: spaces.iter().map(|s| s.to_string()).collect(),
        ..Default::default()
    }
}

fn space_binding(space: &str, profile_id: &str, enabled: bool, apply: bool) -> SpaceBinding {
    SpaceBinding {
        space_id: space.into(),
        execution_profile_id: profile_id.into(),
        apply_to_children: apply,
        enabled,
    }
}

/// A state with providers p1, profiles a, b, c and the default d, and room !r in spaces !s1, !s2.
fn base_state() -> CrewGlueState {
    let mut state = CrewGlueState::default();
    state.providers.insert("p1".into(), provider("p1"));
    for id in ["a", "b", "c", "d"] {
        state.execution_profiles.insert(id.into(), profile(id, "p1", None));
    }
    state.inventory.rooms.insert("!r".into(), room("!r", &["!s1", "!s2"]));
    state
}

#[test]
fn unknown_room_is_refused() {
    let state = base_state();
    assert_eq!(
        resolve_room_binding(&state, "!missing").unwrap_err(),
        ResolveError::UnknownRoom("!missing".into())
    );
}

#[test]
fn room_without_any_profile_is_refused_with_its_inventory_id() {
    let mut state = base_state();
    state
        .inventory
        .rooms
        .insert("!key".into(), room("!stored-id", &[]));
    assert_eq!(
        resolve_room_binding(&state, "!key").unwrap_err(),
        ResolveError::NoExecutionProfile("!stored-id".into())
    );
}

#[test]
fn disabled_room_binding_falls_back_to_spaces() {
    let mut state = base_state();
    state.room_bindings.insert(
        "!r".into(),
        RoomBinding {
            room_id: "!r".into(),
            execution_profile_id: "a".into(),
            enabled: false,
        },
    );
    state
        .space_bindings
        .insert("!s2".into(), space_binding("!s2", "b", true, true));
    let resolved = resolve_room_binding(&state, "!r").unwrap();
    assert!(matches!(resolved.source, BindingSource::Space(ref b) if b.space_id == "!s2"));
    assert_eq!(resolved.execution_profile.id, "b");
}

#[test]
fn first_applying_space_wins_in_listed_order() {
    let mut state = base_state();
    state
        .space_bindings
        .insert("!s1".into(), space_binding("!s1", "a", true, false));
    state
        .space_bindings
        .insert("!s2".into(), space_binding("!s2", "b", true, true));
    state.defaults.execution_profile_id = Some("d".into());
    let resolved = resolve_room_binding(&state, "!r").unwrap();
    assert_eq!(resolved.execution_profile.id, "b");

    state
        .space_bindings
        .insert("!s1".into(), space_binding("!s1", "c", true, true));
    let resolved = resolve_room_binding(&state, "!r").unwrap();
    assert_eq!(resolved.execution_profile.id, "c");
}

#[test]
fn disabled_space_bindings_leave_the_default() {
    let mut state = base_state();
    state
        .space_bindings
        .insert("!s1".into(), space_binding("!s1", "a", false, true));
    state.defaults.execution_profile_id = Some("d".into());
    let resolved = resolve_room_binding(&state, "!r").unwrap();
    assert!(matches!(resolved.source, BindingSource::Default));
    assert_eq!(resolved.execution_profile.id, "d");
    assert!(resolved.workspace.is_none());
}

#[test]
fn missing_profile_provider_and_workspace_are_reported() {
    let mut state = base_state();
    state.defaults.execution_profile_id = Some("nope".into());
    assert_eq!(
        resolve_room_binding(&state, "!r").unwrap_err(),
        ResolveError::UnknownExecutionProfile("nope".into())
    );

    state
        .execution_profiles
        .insert("x".into(), profile("x", "p9", None));
    state.defaults.execution_profile_id = Some("x".into());
    assert_eq!(
        resolve_room_binding(&state, "!r").unwrap_err(),
        ResolveError::UnknownProvider("p9".into())
    );

    state
        .execution_profiles
        .insert("y".into(), profile("y", "p1", Some("ws9")));
    state.defaults.execution_profile_id = Some("y".into());
    assert_eq!(
        resolve_room_binding(&state, "!r").unwrap_err(),
        ResolveError::UnknownWorkspace("ws9".into())
    );
}

#[test]
fn resolution_ignores_user_and_sessions() {
    let mut state = base_state();
    state.defaults.execution_profile_id = Some("a".into());
    let before = resolve_room_binding(&state, "!r").unwrap();
    state.user.matrix_user_id = Some("@me:example.org".into());
    state.runtime.active_sessions.insert(
        "!r".into(),
        crew_bridge::SessionRecord {
            room_id: "!r".into(),
            execution_profile_id: "zzz".into(),
            session_id: "s".into(),
        },
    );
    let after = resolve_room_binding(&state, "!r").unwrap();
    assert_eq!(before, after);
}

use std::path::{Path, PathBuf};

use crew_bridge::manager::{ensure_session_id, BridgeManager, BridgeManagerError};
use crew_bridge::resolver::{resolve_room_binding, ResolveError};
use crew_bridge::state::{
    CrewGlueState, ExecutionProfile, InventorySnapshot, ProviderProfile, RoomInventory,
    UserSnapshot, STATE_VERSION,
};
use crew_bridge::store::StateStore;
use crew_bridge::string_map::StringMap;
use crew_bridge::transport::BridgeError;

fn state_with(base_url: Option<&str>, api_key_env: Option<&str>) -> CrewGlueState {
    let mut state = CrewGlueState::default();
    state.providers.insert(
        "p1".into(),
        ProviderProfile {
            id: "p1".into(),
            provider: "crew".into(),
            base_url: base_url.map(|s| s.to_string()),
            api_key_env: api_key_env.map(|s| s.to_string()),
            ..Default::default()
        },
    );
    for id in ["a", "b"] {
        state.execution_profiles.insert(
            id.into(),
            ExecutionProfile {
                id: id.into(),
                name: id.into(),
                provider_id: "p1".into(),
                ..Default::default()
            },
        );
    }
    state.defaults.execution_profile_id = Some("a".into());
    state.inventory.rooms.insert(
        "!room:example.org".into(),
        RoomInventory {
            room_id: "!room:example.org".into(),
            ..Default::default()
        },
    );
    state
}

fn manager(state: CrewGlueState) -> BridgeManager {
    BridgeManager::from_parts(StateStore::new(PathBuf::from("/tmp/state.json")), state)
}

fn env(pairs: &[(&str, &str)]) -> StringMap<String> {
    let mut env = StringMap::new();
    for (k, v) in pairs {
        env.insert(k.to_string(), v.to_string());
    }
    env
}

#[test]
fn default_state_is_empty_at_current_version() {
    let state = CrewGlueState::default();
    assert_eq!(state.version, STATE_VERSION);
    assert!(state.providers.is_empty());
    assert!(state.inventory.rooms.is_empty());
    assert!(state.runtime.active_sessions.is_empty());
    assert!(state.defaults.execution_profile_id.is_none());
}

#[test]
fn prepare_room_message_opens_and_reuses_a_session() {
    let mut m = manager(state_with(Some("http://crew.local:8080/base/"), None));
    let (resolved, transport, request) = m
        .prepare_room_message("!room:example.org", "hi".to_string(), &env(&[]))
        .unwrap();
    assert_eq!(resolved.execution_profile.id, "a");
    assert_eq!(request.session_id, "robrix:!room:example.org:a");
    assert_eq!(request.message, "hi");
    assert_eq!(transport.auth_token(), &None);
    assert_eq!(
        transport.chat_url().unwrap().as_str(),
        "http://crew.local:8080/api/chat"
    );
    assert_eq!(
        transport.status_url().unwrap().as_str(),
        "http://crew.local:8080/api/status"
    );

    let (_, _, again) = m
        .prepare_room_message("!room:example.org", "again".to_string(), &env(&[]))
        .unwrap();
    assert_eq!(again.session_id, request.session_id);
    assert_eq!(m.state().runtime.active_sessions.get("!room:example.org").unwrap().session_id,
        "robrix:!room:example.org:a");
}

#[test]
fn switching_profile_opens_a_new_session() {
    let mut m = manager(state_with(Some("http://crew.local/"), None));
    m.prepare_room_message("!room:example.org", "1".to_string(), &env(&[])).unwrap();
    m.state_mut().defaults.execution_profile_id = Some("b".into());
    let (_, _, request) = m
        .prepare_room_message("!room:example.org", "2".to_string(), &env(&[]))
        .unwrap();
    assert_eq!(request.session_id, "robrix:!room:example.org:b");
    let record = m.state().runtime.active_sessions.get("!room:example.org").unwrap();
    assert_eq!(record.execution_profile_id, "b");
    assert_eq!(record.room_id, "!room:example.org");
}

#[test]
fn auth_token_comes_from_a_non_empty_variable() {
    let m = manager(state_with(Some("http://crew.local/"), Some("CREW_TOKEN")));
    let (_, t) = m
        .transport_for_room("!room:example.org", &env(&[("CREW_TOKEN", "secret")]))
        .unwrap();
    assert_eq!(t.auth_token(), &Some("secret".to_string()));
    let (_, t) = m
        .transport_for_room("!room:example.org", &env(&[("CREW_TOKEN", "")]))
        .unwrap();
    assert_eq!(t.auth_token(), &None);
    let (_, t) = m
        .transport_for_room("!room:example.org", &env(&[("OTHER", "x")]))
        .unwrap();
    assert_eq!(t.auth_token(), &None);
}

#[test]
fn missing_and_invalid_base_urls_are_reported() {
    let m = manager(state_with(None, None));
    match m.transport_for_room("!room:example.org", &env(&[])) {
        Err(BridgeManagerError::MissingBaseUrl { provider_id }) => assert_eq!(provider_id, "p1"),
        other => panic!("unexpected: {:?}", other.map(|_| ())),
    }
    let mut m = manager(state_with(Some("not a url"), None));
    match m.prepare_room_message("!room:example.org", "x".to_string(), &env(&[])) {
        Err(BridgeManagerError::InvalidBaseUrl { provider_id, base_url, error }) => {
            assert_eq!(provider_id, "p1");
            assert_eq!(base_url, "not a url");
            assert_eq!(error, url::ParseError::RelativeUrlWithoutBase);
        }
        other => panic!("unexpected: {:?}", other.map(|_| ())),
    }
    assert!(m.state().runtime.active_sessions.is_empty());
}

#[test]
fn unknown_room_is_a_resolve_error() {
    let mut m = manager(state_with(Some("http://crew.local/"), None));
    match m.prepare_room_message("!nope", "x".to_string(), &env(&[])) {
        Err(BridgeManagerError::Resolve(e)) => {
            assert_eq!(e, ResolveError::UnknownRoom("!nope".into()))
        }
        other => panic!("unexpected: {:?}", other.map(|_| ())),
    }
    assert_eq!(
        m.resolve_room("!nope").unwrap_err(),
        ResolveError::UnknownRoom("!nope".into())
    );
}

#[test]
fn join_failures_become_payload_errors() {
    let mut state = state_with(Some("mailto:someone@example.org"), None);
    state.defaults.execution_profile_id = Some("a".into());
    let m = manager(state);
    let (_, t) = m.transport_for_room("!room:example.org", &env(&[])).unwrap();
    assert!(matches!(t.chat_url(), Err(BridgeError::InvalidEventPayload(_))));
}

#[test]
fn refresh_keeps_the_policy() {
    let mut m = manager(state_with(Some("http://crew.local/"), None));
    m.prepare_room_message("!room:example.org", "x".to_string(), &env(&[])).unwrap();
    let mut rooms = StringMap::new();
    rooms.insert(
        "!other".into(),
        RoomInventory {
            room_id: "!other".into(),
            ..Default::default()
        },
    );
    m.refresh_inventory(
        UserSnapshot {
            matrix_user_id: Some("@me:example.org".into()),
            homeserver_url: None,
        },
        InventorySnapshot {
            rooms,
            spaces: StringMap::new(),
        },
    );
    let state = m.state();
    assert_eq!(state.user.matrix_user_id.as_deref(), Some("@me:example.org"));
    assert!(state.inventory.rooms.contains_key("!other"));
    assert!(!state.inventory.rooms.contains_key("!room:example.org"));
    assert!(state.providers.contains_key("p1"));
    assert_eq!(state.defaults.execution_profile_id.as_deref(), Some("a"));
    assert!(state.runtime.active_sessions.contains_key("!room:example.org"));
}

#[test]
fn store_names_the_default_file() {
    let store = StateStore::in_dir(Path::new("/var/lib/robrix"));
    assert_eq!(store.path(), Path::new("/var/lib/robrix/crew_glue_state.v1.json"));
    let m = manager(CrewGlueState::default());
    assert_eq!(m.store().path(), Path::new("/tmp/state.json"));
}

#[test]
fn string_map_keeps_one_value_per_key() {
    let mut map: StringMap<u32> = StringMap::new();
    assert_eq!(map.insert("k".into(), 1), None);
    assert_eq!(map.insert("j".into(), 2), None);
    assert_eq!(map.insert("k".into(), 3), Some(1));
    assert_eq!(map.get("k"), Some(&3));
    assert_eq!(map.get("j"), Some(&2));
    assert_eq!(map.get("x"), None);
    let copy = map.clone();
    assert_eq!(copy.get("k"), Some(&3));
}

#[test]
fn string_map_orders_keys_like_str() {
    let mut a: StringMap<u32> = StringMap::new();
    for (k, v) in [("b", 2), ("a", 1), ("é", 4), ("ab", 3), ("", 0)] {
        a.insert(k.to_string(), v);
    }
    let keys: Vec<&str> = a.entries().iter().map(|(k, _)| k.as_str()).collect();
    let mut expected = vec!["b", "a", "é", "ab", ""];
    expected.sort();
    assert_eq!(keys, expected);

    let mut b: StringMap<u32> = StringMap::new();
    for (k, v) in [("", 0), ("ab", 3), ("é", 4), ("a", 1), ("b", 2)] {
        b.insert(k.to_string(), v);
    }
    assert_eq!(a, b);
    b.insert("b".to_string(), 9);
    assert_ne!(a, b);
}

#[test]
fn transport_targets_the_parsed_base_url() {
    let m = manager(state_with(Some("HTTP://Crew.Local:80/x/../base"), None));
    let (_, t) = m.transport_for_room("!room:example.org", &env(&[])).unwrap();
    assert_eq!(t.chat_url().unwrap().as_str(), "http://crew.local/api/chat");
    let store = StateStore::in_dir(Path::new("/tmp/x"));
    assert_eq!(store.path(), Path::new("/tmp/x/crew_glue_state.v1.json"));
}

#[test]
fn ensuring_a_session_twice_changes_nothing() {
    let mut state = state_with(Some("http://localhost:8080"), None);
    state.runtime.active_sessions.insert(
        "!other:example.org".into(),
        crew_bridge::state::SessionRecord {
            room_id: "!other:example.org".into(),
            execution_profile_id: "b".into(),
            session_id: "robrix:!other:example.org:b".into(),
        },
    );
    let resolved = resolve_room_binding(&state, "!room:example.org").unwrap();
    let first = ensure_session_id(&mut state.runtime, "!room:example.org", &resolved);
    assert_eq!(first, "robrix:!room:example.org:a");
    let after_first = state.runtime.clone();
    let second = ensure_session_id(&mut state.runtime, "!room:example.org", &resolved);
    assert_eq!(second, first);
    assert_eq!(state.runtime, after_first);
    assert_eq!(
        state.runtime.active_sessions.get("!other:example.org").unwrap().session_id,
        "robrix:!other:example.org:b"
    );
}

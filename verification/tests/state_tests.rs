use meeting_minutes_automator::state::AppState;

#[test]
fn test_app_state_new_defaults() {
    let state = AppState::new();
    assert!(!state.is_multi_input_enabled());
    assert!(state.get_selected_device_ids().is_empty());
    assert!(!state.is_recording());
    assert!(state.get_session_id().is_none());
}

#[test]
fn test_multi_input_enabled_toggle() {
    let mut state = AppState::new();
    assert!(!state.is_multi_input_enabled());
    state.set_multi_input_enabled(true);
    assert!(state.is_multi_input_enabled());
    state.set_multi_input_enabled(false);
    assert!(!state.is_multi_input_enabled());
}

#[test]
fn test_selected_device_ids() {
    let mut state = AppState::new();
    assert!(state.get_selected_device_ids().is_empty());

    state.set_selected_device_ids(vec!["mic-1".to_string(), "loopback-1".to_string()]);
    let ids = state.get_selected_device_ids();
    assert_eq!(ids.len(), 2);
    assert_eq!(ids[0], "mic-1");
    assert_eq!(ids[1], "loopback-1");

    state.clear_selected_device_ids();
    assert!(state.get_selected_device_ids().is_empty());
}

#[test]
fn test_effective_device_ids_single_mode() {
    let mut state = AppState::new();
    assert!(!state.is_multi_input_enabled());
    assert!(state.get_effective_device_ids().is_empty());

    state.set_selected_device_id("mic-1".to_string());
    let ids = state.get_effective_device_ids();
    assert_eq!(ids.len(), 1);
    assert_eq!(ids[0], "mic-1");
}

#[test]
fn test_effective_device_ids_multi_mode() {
    let mut state = AppState::new();
    state.set_multi_input_enabled(true);
    state.set_selected_device_ids(vec!["mic-1".to_string(), "loopback-1".to_string()]);
    state.set_selected_device_id("ignored-device".to_string());

    let ids = state.get_effective_device_ids();
    assert_eq!(ids.len(), 2);
    assert_eq!(ids[0], "mic-1");
    assert_eq!(ids[1], "loopback-1");
}

#[test]
fn test_backward_compatibility_single_device() {
    let mut state = AppState::new();
    state.set_selected_device_id("mic-1".to_string());
    assert_eq!(state.get_selected_device_id(), Some("mic-1".to_string()));
    assert!(!state.is_multi_input_enabled());
    assert!(state.get_selected_device_ids().is_empty());
}

#[test]
fn session_id_round_trip() {
    let mut state = AppState::new();
    state.set_session_id("s-1".to_string());
    assert_eq!(state.get_session_id(), Some("s-1".to_string()));
    state.set_recording(true);
    assert!(state.is_recording());
    state.clear_session_id();
    assert!(state.get_session_id().is_none());
    assert!(state.is_recording());
}

#[test]
fn a_start_selects_the_primary_device_and_stops_when_already_recording() {
    let mut state = AppState::new();
    assert!(!state.select_primary_device("mic-1".to_string()));
    assert_eq!(state.get_selected_device_id(), Some("mic-1".to_string()));
    state.begin_recording("session-1".to_string());
    assert!(state.is_recording());
    assert_eq!(state.get_session_id(), Some("session-1".to_string()));
    assert!(state.select_primary_device("mic-2".to_string()));
    assert_eq!(state.get_selected_device_id(), Some("mic-2".to_string()));
    state.end_recording();
    assert!(!state.is_recording());
    assert_eq!(state.get_session_id(), None);
    assert_eq!(state.get_selected_device_id(), Some("mic-2".to_string()));
}

use meeting_minutes_automator::multi_input_manager::{
    input_status, InputBuffer, InputConfig, InputRole, MultiInputEvent, MultiInputManager, StartError,
};

fn cfg(id: &str, role: InputRole) -> InputConfig {
    InputConfig::new(id.to_string(), role)
}

/// Start `configs` where input `i` starts when `outcomes[i]` holds, the way
/// the capture layer reports it.
fn start_with(
    manager: &mut MultiInputManager,
    configs: Vec<InputConfig>,
    outcomes: &[bool],
    continue_on_partial_failure: bool,
) -> Result<usize, StartError> {
    manager.validate_start(&configs)?;
    let started: Vec<bool> = outcomes.to_vec();
    let failures: Vec<String> = configs
        .iter()
        .zip(outcomes.iter())
        .filter(|(_, ok)| !**ok)
        .map(|(c, _)| format!("{}: Mock start failure", c.device_id))
        .collect();
    manager.commit_start(configs, started, failures, continue_on_partial_failure)
}

#[test]
fn test_input_role() {
    assert_eq!(InputRole::Microphone, InputRole::Microphone);
    assert_ne!(InputRole::Microphone, InputRole::Loopback);
}

#[test]
fn test_input_config_new() {
    let config = cfg("mic-1", InputRole::Microphone);
    assert_eq!(config.device_id, "mic-1");
    assert_eq!(config.role, InputRole::Microphone);
    assert!(!config.muted);
}

#[test]
fn test_input_config_with_muted() {
    let config = cfg("mic-1", InputRole::Microphone).with_muted(true);
    assert!(config.muted);
}

#[test]
fn test_input_buffer_push_and_take() {
    let mut buffer = InputBuffer::new(1000);

    let data = vec![1u8, 2, 3, 4, 5];
    let result = buffer.push(&data);
    assert_eq!(result, Some(0));
    assert_eq!(buffer.level(), 5);

    let taken = buffer.take(3);
    assert_eq!(taken, vec![1, 2, 3]);
    assert_eq!(buffer.level(), 2);

    let taken = buffer.take(10);
    assert_eq!(taken, vec![4, 5]);
    assert_eq!(buffer.level(), 0);
}

#[test]
fn test_input_buffer_overflow() {
    let mut buffer = InputBuffer::new(10);

    let result = buffer.push(&[1, 2, 3, 4, 5, 6, 7, 8, 9, 10]);
    assert_eq!(result, Some(0));
    assert_eq!(buffer.level(), 10);

    let result = buffer.push(&[11, 12, 13]);
    assert_eq!(result, Some(3));
    assert_eq!(buffer.level(), 10);

    let data = buffer.take(10);
    assert_eq!(data, vec![4, 5, 6, 7, 8, 9, 10, 11, 12, 13]);
}

#[test]
fn test_input_buffer_clear() {
    let mut buffer = InputBuffer::new(100);
    let _ = buffer.push(&[1, 2, 3, 4, 5]);
    assert_eq!(buffer.level(), 5);

    buffer.clear();
    assert_eq!(buffer.level(), 0);
}

#[test]
fn test_input_buffer_lock_contention_counter() {
    let mut buffer = InputBuffer::new(100);
    assert_eq!(buffer.lock_contention_drops(), 0);

    let _ = buffer.push(&[1, 2, 3]);
    assert_eq!(buffer.lock_contention_drops(), 0);
}

#[test]
fn input_buffer_counts_contention_drops_and_keeps_its_limit() {
    let mut buffer = InputBuffer::new(4);
    buffer.record_lock_contention();
    buffer.record_lock_contention();
    assert_eq!(buffer.lock_contention_drops(), 2);
    assert_eq!(buffer.max_size(), 4);
    // A push larger than the whole buffer reports its overflow and keeps
    // only the newest bytes that fit.
    let result = buffer.push(&[1, 2, 3, 4, 5, 6]);
    assert_eq!(result, Some(2));
    assert_eq!(buffer.level(), 4);
    assert_eq!(buffer.take(10), vec![3, 4, 5, 6]);
}

#[test]
fn an_oversized_push_into_an_empty_buffer_keeps_its_last_bytes() {
    let mut buffer = InputBuffer::new(10);
    let data: Vec<u8> = (1..=13).collect();
    assert_eq!(buffer.push(&data), Some(3));
    assert_eq!(buffer.level(), 10);
    assert_eq!(buffer.take(10), (4..=13).collect::<Vec<u8>>());
}

#[test]
fn test_manager_new() {
    let manager = MultiInputManager::new();
    assert!(!manager.is_recording());
    assert_eq!(manager.active_input_count(), 0);
}

#[test]
fn test_manager_start_single_input() {
    let mut manager = MultiInputManager::new();
    let configs = vec![cfg("mic-1", InputRole::Microphone)];
    let result = start_with(&mut manager, configs, &[true], false);
    assert!(result.is_ok());
    assert_eq!(result.unwrap(), 1);
    assert!(manager.is_recording());
    assert_eq!(manager.active_input_count(), 1);
}

#[test]
fn test_manager_start_two_inputs() {
    let mut manager = MultiInputManager::new();
    let configs = vec![cfg("mic-1", InputRole::Microphone), cfg("loopback-1", InputRole::Loopback)];
    let result = start_with(&mut manager, configs, &[true, true], false);
    assert!(result.is_ok());
    assert_eq!(result.unwrap(), 2);
    assert!(manager.is_recording());
    assert_eq!(manager.active_input_count(), 2);
}

#[test]
fn test_manager_max_2_inputs() {
    let mut manager = MultiInputManager::new();
    let configs = vec![
        cfg("mic-1", InputRole::Microphone),
        cfg("loopback-1", InputRole::Loopback),
        cfg("mic-2", InputRole::Microphone),
    ];
    let result = start_with(&mut manager, configs, &[true, true, true], false);
    assert!(result.is_err());
    assert!(result.unwrap_err().message().contains("Maximum 2 inputs"));
}

#[test]
fn test_manager_empty_inputs() {
    let mut manager = MultiInputManager::new();
    let result = start_with(&mut manager, vec![], &[], false);
    assert!(result.is_err());
    assert!(result.unwrap_err().message().contains("At least one input"));
}

#[test]
fn test_manager_already_recording() {
    let mut manager = MultiInputManager::new();
    let configs = vec![cfg("mic-1", InputRole::Microphone)];
    start_with(&mut manager, configs.clone(), &[true], false).unwrap();

    let result = start_with(&mut manager, configs, &[true], false);
    assert!(result.is_err());
    assert!(result.unwrap_err().message().contains("Already recording"));
}

#[test]
fn test_manager_stop() {
    let mut manager = MultiInputManager::new();
    let configs = vec![cfg("mic-1", InputRole::Microphone), cfg("loopback-1", InputRole::Loopback)];
    start_with(&mut manager, configs, &[true, true], false).unwrap();
    assert!(manager.is_recording());

    let result = manager.stop(&Vec::new());
    assert!(result.is_ok());
    assert!(!manager.is_recording());
    assert_eq!(manager.active_input_count(), 0);
}

#[test]
fn stop_reports_the_devices_that_failed_to_stop_and_clears_anyway() {
    let mut manager = MultiInputManager::new();
    let configs = vec![cfg("mic-1", InputRole::Microphone), cfg("loopback-1", InputRole::Loopback)];
    start_with(&mut manager, configs, &[true, true], false).unwrap();
    let failures = vec![
        ("mic-1".to_string(), "busy".to_string()),
        ("loopback-1".to_string(), "gone".to_string()),
    ];
    let result = manager.stop(&failures);
    assert_eq!(result, Err("Some inputs failed to stop: mic-1: busy; loopback-1: gone".to_string()));
    assert!(!manager.is_recording());
    assert_eq!(manager.active_input_count(), 0);
    assert!(manager.inputs().is_empty());
}

#[test]
fn test_manager_partial_failure_continue() {
    let mut manager = MultiInputManager::new();
    let configs = vec![cfg("mic-1", InputRole::Microphone), cfg("loopback-1", InputRole::Loopback)];
    let result = start_with(&mut manager, configs, &[true, false], true);
    assert!(result.is_ok());
    assert_eq!(result.unwrap(), 1);
    assert!(manager.is_recording());
    assert_eq!(manager.active_input_count(), 1);
}

#[test]
fn test_manager_partial_failure_stop() {
    let mut manager = MultiInputManager::new();
    let configs = vec![cfg("mic-1", InputRole::Microphone), cfg("loopback-1", InputRole::Loopback)];
    let result = start_with(&mut manager, configs, &[true, false], false);
    assert!(result.is_err());
    assert!(result.unwrap_err().message().contains("continue_on_partial_failure=false"));
    assert!(!manager.is_recording());
}

#[test]
fn test_manager_all_inputs_fail() {
    let mut manager = MultiInputManager::new();
    let configs = vec![cfg("mic-1", InputRole::Microphone), cfg("loopback-1", InputRole::Loopback)];
    let result = start_with(&mut manager, configs, &[false, false], true);
    assert!(result.is_err());
    let message = result.unwrap_err().message();
    assert!(message.contains("All inputs failed"));
    assert_eq!(
        message,
        "All inputs failed to start: mic-1: Mock start failure; loopback-1: Mock start failure"
    );
}

#[test]
fn test_manager_get_config() {
    let mut manager = MultiInputManager::new();
    let configs = vec![cfg("mic-1", InputRole::Microphone).with_muted(true)];
    start_with(&mut manager, configs, &[true], false).unwrap();

    let config = manager.get_config("mic-1");
    assert!(config.is_some());
    assert!(config.unwrap().muted);
    assert!(manager.get_config("nonexistent").is_none());
}

#[test]
fn test_manager_duplicate_device_id() {
    let mut manager = MultiInputManager::new();
    let configs = vec![cfg("mic-1", InputRole::Microphone), cfg("mic-1", InputRole::Loopback)];
    let result = start_with(&mut manager, configs, &[true, true], false);
    assert!(result.is_err());
    let err_msg = result.unwrap_err().message();
    assert!(err_msg.contains("Duplicate device_id"));
    assert!(err_msg.contains("mic-1"));
}

#[test]
fn test_manager_different_device_ids_ok() {
    let mut manager = MultiInputManager::new();
    let configs = vec![cfg("mic-1", InputRole::Microphone), cfg("mic-2", InputRole::Loopback)];
    let result = start_with(&mut manager, configs, &[true, true], false);
    assert!(result.is_ok());
    assert_eq!(result.unwrap(), 2);
}

#[test]
fn test_mark_input_lost_sends_input_lost_event() {
    let mut manager = MultiInputManager::new();
    let configs = vec![cfg("mic-1", InputRole::Microphone), cfg("loopback-1", InputRole::Loopback)];
    start_with(&mut manager, configs, &[true, true], false).unwrap();
    assert_eq!(manager.active_input_count(), 2);

    let event = manager.mark_input_lost("mic-1", "Device disconnected").unwrap();
    match event {
        MultiInputEvent::InputLost { device_id, reason, remaining_active } => {
            assert_eq!(device_id, "mic-1");
            assert!(reason.contains("Device disconnected"));
            assert_eq!(remaining_active, 1);
        }
        _ => panic!("Expected InputLost event"),
    }

    assert_eq!(manager.active_input_count(), 1);
    assert!(manager.has_active_inputs());
}

#[test]
fn test_mark_input_lost_sends_all_inputs_lost_event() {
    let mut manager = MultiInputManager::new();
    let configs = vec![cfg("mic-1", InputRole::Microphone)];
    start_with(&mut manager, configs, &[true], false).unwrap();
    assert_eq!(manager.active_input_count(), 1);

    let event = manager.mark_input_lost("mic-1", "Device disconnected").unwrap();
    match event {
        MultiInputEvent::AllInputsLost { reason } => {
            assert!(reason.contains("mic-1"));
            assert!(reason.contains("Device disconnected"));
        }
        _ => panic!("Expected AllInputsLost event"),
    }

    assert_eq!(manager.active_input_count(), 0);
    assert!(!manager.has_active_inputs());
}

#[test]
fn test_mark_input_lost_idempotent() {
    let mut manager = MultiInputManager::new();
    let configs = vec![cfg("mic-1", InputRole::Microphone), cfg("loopback-1", InputRole::Loopback)];
    start_with(&mut manager, configs, &[true, true], false).unwrap();

    let event1 = manager.mark_input_lost("mic-1", "First call");
    let event2 = manager.mark_input_lost("mic-1", "Second call");

    assert!(matches!(event1, Some(MultiInputEvent::InputLost { .. })));
    assert!(event2.is_none());
}

#[test]
fn test_mark_input_lost_nonexistent_device() {
    let mut manager = MultiInputManager::new();
    let configs = vec![cfg("mic-1", InputRole::Microphone)];
    start_with(&mut manager, configs, &[true], false).unwrap();

    let event = manager.mark_input_lost("nonexistent", "Error");
    assert!(event.is_none());
    assert_eq!(manager.active_input_count(), 1);
}

#[test]
fn test_has_active_inputs() {
    let mut manager = MultiInputManager::new();
    assert!(!manager.has_active_inputs());

    let configs = vec![cfg("mic-1", InputRole::Microphone), cfg("loopback-1", InputRole::Loopback)];
    start_with(&mut manager, configs, &[true, true], false).unwrap();
    assert!(manager.has_active_inputs());

    manager.mark_input_lost("mic-1", "Error");
    assert!(manager.has_active_inputs());

    manager.mark_input_lost("loopback-1", "Error");
    assert!(!manager.has_active_inputs());
}

#[test]
fn all_inputs_lost_reason_names_the_input_and_the_cause() {
    let mut manager = MultiInputManager::new();
    start_with(&mut manager, vec![cfg("mic-1", InputRole::Microphone)], &[true], false).unwrap();
    let event = manager.mark_input_lost("mic-1", "gone").unwrap();
    assert_eq!(event, MultiInputEvent::AllInputsLost { reason: "Last input 'mic-1' lost: gone".to_string() });
}

#[test]
fn start_error_messages_are_exact() {
    assert_eq!(StartError::AlreadyRecording.message(), "Already recording");
    assert_eq!(StartError::NoInputs.message(), "At least one input configuration required");
    assert_eq!(StartError::TooManyInputs { count: 3 }.message(), "Maximum 2 inputs supported, got 3");
    assert_eq!(
        StartError::DuplicateDeviceId { device_id: "x".to_string() }.message(),
        "Duplicate device_id detected: 'x'. Each input must use a unique device."
    );
}

#[test]
fn input_status_reports_identity_activity_and_buffer_figures() {
    let mut manager = MultiInputManager::new();
    let configs = vec![
        cfg("mic-1", InputRole::Microphone),
        cfg("loopback-1", InputRole::Loopback).with_muted(true),
    ];
    start_with(&mut manager, configs, &[true, true], false).unwrap();
    let mut mic_buffer = InputBuffer::new(32000);
    mic_buffer.push(&[1, 2, 3, 4]);
    let loop_buffer = InputBuffer::new(32000);

    let inputs = manager.inputs();
    assert_eq!(inputs.len(), 2);
    let mic = input_status(&inputs[0], &mic_buffer);
    assert_eq!(mic.device_id, "mic-1");
    assert_eq!(mic.role, InputRole::Microphone);
    assert!(mic.is_active);
    assert!(!mic.is_muted);
    assert_eq!(mic.buffer_level_bytes, 4);
    assert_eq!(mic.buffer_max_bytes, 32000);
    assert_eq!(mic.lock_contention_drops, 0);

    let lb = input_status(&inputs[1], &loop_buffer);
    assert_eq!(lb.device_id, "loopback-1");
    assert_eq!(lb.role, InputRole::Loopback);
    assert!(lb.is_active);
    assert!(lb.is_muted);
    assert_eq!(lb.buffer_level_bytes, 0);
}

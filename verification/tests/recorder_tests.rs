use meeting_minutes_automator::audio_device_recorder::{
    plan_multi_inputs, ActiveInputs, InputErrorOutcome, MixerConfig, RecorderState, RecordingMode,
};
use meeting_minutes_automator::multi_input_manager::{InputConfig, InputRole, MultiInputEvent};

fn ids(v: &[&str]) -> Vec<String> {
    v.iter().map(|s| s.to_string()).collect()
}

#[test]
fn test_recording_mode_single() {
    let mode = RecordingMode::Single { device_id: "mic-1".to_string() };
    if let RecordingMode::Single { device_id } = mode {
        assert_eq!(device_id, "mic-1");
    } else {
        panic!("Expected Single mode");
    }
}

#[test]
fn test_recording_mode_multi() {
    let mode = RecordingMode::Multi { device_ids: ids(&["mic-1", "loopback-1"]), mixer_config: MixerConfig::default() };
    if let RecordingMode::Multi { device_ids, mixer_config } = mode {
        assert_eq!(device_ids.len(), 2);
        assert_eq!(mixer_config.gain_db_bits.len(), 2);
        assert!(mixer_config.continue_on_partial_failure);
    } else {
        panic!("Expected Multi mode");
    }
}

#[test]
fn test_mixer_config_default() {
    let config = MixerConfig::default();
    assert_eq!(config.gain_db_bits.len(), 2);
    assert_eq!(f32::from_bits(config.gain_db_bits[0]), -6.0);
    assert_eq!(f32::from_bits(config.gain_db_bits[1]), -6.0);
    assert!(config.continue_on_partial_failure);
}

#[test]
fn test_recorder_multi_mode_max_2_inputs() {
    let result = plan_multi_inputs(&ids(&["mic-1", "loopback-1", "mic-2"]), &MixerConfig::default());
    assert!(result.is_err());
    assert!(result.unwrap_err().contains("Maximum 2 inputs"));
}

#[test]
fn test_recorder_multi_mode_empty_inputs() {
    let result = plan_multi_inputs(&vec![], &MixerConfig::default());
    assert!(result.is_err());
    assert!(result.unwrap_err().contains("At least one device"));
}

#[test]
fn test_recorder_multi_mode_valid_2_inputs() {
    let (configs, gains) = plan_multi_inputs(&ids(&["mic-1", "loopback-1"]), &MixerConfig::default()).unwrap();
    assert_eq!(configs.len(), 2);
    assert_eq!(configs[0], InputConfig::new("mic-1".to_string(), InputRole::Microphone));
    assert_eq!(configs[1], InputConfig::new("loopback-1".to_string(), InputRole::Loopback));
    assert_eq!(gains.len(), 2);
}

#[test]
fn test_recorder_multi_mode_custom_gains() {
    let config = MixerConfig { gain_db_bits: vec![(-3.0f32).to_bits()], continue_on_partial_failure: true };
    let (_, gains) = plan_multi_inputs(&ids(&["mic-1", "loopback-1"]), &config).unwrap();
    assert_eq!(f32::from_bits(gains[0]), -3.0);
    assert_eq!(f32::from_bits(gains[1]), -6.0);
}

#[test]
fn test_recorder_already_recording_error() {
    let mut state = RecorderState::new();
    assert!(state.check_start().is_ok());
    state.started(RecordingMode::Single { device_id: "mic-1".to_string() });
    let result = state.check_start();
    assert!(result.is_err());
    assert!(result.unwrap_err().contains("Already recording"));
}

#[test]
fn test_recorder_stop_when_not_recording() {
    let mut state = RecorderState::new();
    assert!(!state.stop());
    assert!(!state.is_recording);
    state.started(RecordingMode::Single { device_id: "mic-1".to_string() });
    assert!(state.stop());
    assert!(state.mode.is_none());
}

#[test]
fn too_many_inputs_message_is_exact() {
    assert_eq!(
        plan_multi_inputs(&ids(&["a", "b", "c"]), &MixerConfig::default()).unwrap_err(),
        "Maximum 2 inputs supported, got 3"
    );
}

#[test]
fn mixing_loop_loses_inputs_one_at_a_time() {
    let configs = vec![
        InputConfig::new("mic-1".to_string(), InputRole::Microphone),
        InputConfig::new("loop-1".to_string(), InputRole::Loopback),
    ];
    let mut active = ActiveInputs::from_configs(&configs);
    assert_eq!(active.count(), 2);
    assert_eq!(active.on_device_error("other", "X"), InputErrorOutcome::Ignored);
    assert_eq!(
        active.on_device_error("mic-1", "Stalled { elapsed_ms: 1300 }"),
        InputErrorOutcome::Continue {
            event: MultiInputEvent::InputLost {
                device_id: "mic-1".to_string(),
                reason: "Stalled { elapsed_ms: 1300 }".to_string(),
                remaining_active: 1,
            }
        }
    );
    assert_eq!(active.on_device_error("mic-1", "again"), InputErrorOutcome::Ignored);
    assert_eq!(
        active.on_device_error("loop-1", "DeviceGone"),
        InputErrorOutcome::Stop {
            event: MultiInputEvent::AllInputsLost { reason: "Last input 'loop-1' error: DeviceGone".to_string() }
        }
    );
    assert_eq!(active.count(), 0);
}

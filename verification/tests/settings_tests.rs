use meeting_minutes_automator::multi_input_manager::InputRole;
use meeting_minutes_automator::multi_input_settings::{
    default_version, validate_devices, DegradationPolicy, MultiInputSettings, DEFAULT_GAIN_DB_BITS,
};

fn gain(s: &MultiInputSettings, id: &str) -> f32 {
    f32::from_bits(s.get_gain(id))
}

#[test]
fn test_settings_default() {
    let settings = MultiInputSettings::new();
    assert!(settings.selected_device_ids.is_empty());
    assert!(!settings.multi_input_enabled);
    assert_eq!(settings.degradation_policy, DegradationPolicy::ContinueWithRemaining);
    assert_eq!(settings.version, 1);
    assert_eq!(DegradationPolicy::default(), DegradationPolicy::ContinueWithRemaining);
    assert_eq!(default_version(), 1);
}

#[test]
fn test_add_remove_device() {
    let mut settings = MultiInputSettings::new();

    settings.add_device("mic-1", InputRole::Microphone);
    assert_eq!(settings.selected_device_ids.len(), 1);
    assert_eq!(settings.input_role("mic-1"), Some(InputRole::Microphone));
    assert_eq!(gain(&settings, "mic-1"), -6.0);
    assert!(!settings.is_muted("mic-1"));

    settings.add_device("loopback-1", InputRole::Loopback);
    assert_eq!(settings.selected_device_ids.len(), 2);

    settings.remove_device("mic-1");
    assert_eq!(settings.selected_device_ids.len(), 1);
    assert!(settings.input_role("mic-1").is_none());
}

#[test]
fn test_gain_and_mute() {
    let mut settings = MultiInputSettings::new();
    settings.add_device("mic-1", InputRole::Microphone);

    settings.set_gain("mic-1", (-12.0f32).to_bits());
    assert_eq!(gain(&settings, "mic-1"), -12.0);

    settings.set_mute("mic-1", true);
    assert!(settings.is_muted("mic-1"));
}

#[test]
fn test_is_valid() {
    let mut settings = MultiInputSettings::new();
    assert!(settings.is_valid());

    settings.add_device("mic-1", InputRole::Microphone);
    settings.add_device("loopback-1", InputRole::Loopback);
    assert!(settings.is_valid());

    settings.selected_device_ids.push("mic-2".to_string());
    assert!(!settings.is_valid());
}

#[test]
fn test_validate_devices() {
    let mut settings = MultiInputSettings::new();
    settings.add_device("mic-1", InputRole::Microphone);
    settings.add_device("loopback-1", InputRole::Loopback);

    let available = vec!["mic-1".to_string(), "other-device".to_string()];
    let unavailable = validate_devices(&settings, &available);

    assert_eq!(unavailable.len(), 1);
    assert!(unavailable.contains(&"loopback-1".to_string()));
}

#[test]
fn default_gain_bits_are_minus_six_db() {
    assert_eq!(f32::from_bits(DEFAULT_GAIN_DB_BITS), -6.0);
    let settings = MultiInputSettings::new();
    assert_eq!(gain(&settings, "unknown"), -6.0);
    assert!(!settings.is_muted("unknown"));
}

#[test]
fn adding_twice_keeps_one_selection_and_the_set_gain() {
    let mut settings = MultiInputSettings::new();
    settings.add_device("mic-1", InputRole::Microphone);
    settings.set_gain("mic-1", (-3.0f32).to_bits());
    settings.set_mute("mic-1", true);
    settings.add_device("mic-1", InputRole::Loopback);
    assert_eq!(settings.selected_device_ids, vec!["mic-1".to_string()]);
    assert_eq!(settings.input_role("mic-1"), Some(InputRole::Loopback));
    assert_eq!(gain(&settings, "mic-1"), -3.0);
    assert!(settings.is_muted("mic-1"));
}

#[test]
fn removing_a_device_forgets_everything_about_it() {
    let mut settings = MultiInputSettings::new();
    settings.add_device("mic-1", InputRole::Microphone);
    settings.set_gain("mic-1", (-1.0f32).to_bits());
    settings.set_mute("mic-1", true);
    settings.selected_device_ids.push("mic-1".to_string());
    settings.remove_device("mic-1");
    assert!(settings.selected_device_ids.is_empty());
    assert_eq!(gain(&settings, "mic-1"), -6.0);
    assert!(!settings.is_muted("mic-1"));
    assert!(settings.gain_entries().is_empty());
    assert!(settings.mute_entries().is_empty());
    assert!(settings.role_entries().is_empty());
}

#[test]
fn validate_devices_keeps_selection_order() {
    let mut settings = MultiInputSettings::new();
    settings.add_device("b", InputRole::Microphone);
    settings.add_device("a", InputRole::Loopback);
    let unavailable = validate_devices(&settings, &[]);
    assert_eq!(unavailable, vec!["b".to_string(), "a".to_string()]);
    let none = validate_devices(&settings, &["a".to_string(), "b".to_string()]);
    assert!(none.is_empty());
}

use microphone_volume_max::config::{
    ConfigError, EnforcementConfig, DEFAULT_POLL_INTERVAL_SECONDS, MINIMUM_POLL_INTERVAL_SECONDS,
    TARGET_LEVEL_BITS,
};
use microphone_volume_max::level::Level;

fn fragments(list: &[&str]) -> Vec<String> {
    list.iter().map(|text| text.to_string()).collect()
}

#[test]
fn the_target_level_is_full_scale() {
    assert_eq!(TARGET_LEVEL_BITS, 1.0f32.to_bits());
    let config = EnforcementConfig::new(60, fragments(&["krisp"])).unwrap();
    assert_eq!(config.target_level(), Level::full_scale());
    assert_eq!(EnforcementConfig::default().target_level(), Level::full_scale());
}

#[test]
fn an_interval_of_zero_is_turned_down() {
    assert!(matches!(
        EnforcementConfig::new(0, fragments(&["krisp"])),
        Err(ConfigError::IntervalTooShort)
    ));
    assert!(matches!(EnforcementConfig::new(0, Vec::new()), Err(ConfigError::IntervalTooShort)));
}

#[test]
fn the_shortest_interval_is_one_second() {
    assert_eq!(MINIMUM_POLL_INTERVAL_SECONDS, 1);
    let config = EnforcementConfig::new(1, Vec::new()).unwrap();
    assert_eq!(config.poll_interval_seconds(), 1);
}

#[test]
fn a_configuration_keeps_what_it_was_given() {
    let config = EnforcementConfig::new(u64::MAX, fragments(&["krisp", "Backup"])).unwrap();
    assert_eq!(config.poll_interval_seconds(), u64::MAX);
    assert_eq!(config.alternate_name_fragments(), &fragments(&["krisp", "Backup"]));
}

#[test]
fn a_repeated_fragment_counts_once() {
    let config =
        EnforcementConfig::new(5, fragments(&["krisp", "usb", "krisp", "Krisp", "usb", "krisp"]))
            .unwrap();
    assert_eq!(config.alternate_name_fragments(), &fragments(&["krisp", "usb", "Krisp"]));
}

#[test]
fn the_default_is_a_minute_and_no_alternates() {
    assert_eq!(DEFAULT_POLL_INTERVAL_SECONDS, 60);
    let config = EnforcementConfig::default();
    assert_eq!(config.poll_interval_seconds(), 60);
    assert!(config.alternate_name_fragments().is_empty());
}

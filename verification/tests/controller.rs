use microphone_volume_max::controller::correct_if_below_target;
use microphone_volume_max::level::Level;

fn level(value: f32) -> Level {
    Level::from_bits(value.to_bits()).expect("a value between silence and full scale")
}

#[test]
fn a_device_below_the_target_is_set_to_the_target() {
    assert_eq!(correct_if_below_target(level(0.40), level(1.0)), Some(level(1.0)));
    assert_eq!(correct_if_below_target(level(0.0), level(1.0)), Some(level(1.0)));
    assert_eq!(correct_if_below_target(level(0.999_999_94), level(1.0)), Some(level(1.0)));
    assert_eq!(correct_if_below_target(level(0.25), level(0.5)), Some(level(0.5)));
}

#[test]
fn a_device_at_the_target_is_left_alone() {
    assert_eq!(correct_if_below_target(level(1.0), level(1.0)), None);
    assert_eq!(correct_if_below_target(level(0.5), level(0.5)), None);
}

#[test]
fn a_device_above_the_target_is_left_alone() {
    assert_eq!(correct_if_below_target(level(0.75), level(0.5)), None);
    assert_eq!(correct_if_below_target(level(1.0), level(0.0)), None);
}

#[test]
fn the_correction_after_a_correction_writes_nothing() {
    let target = level(1.0);
    let mut device = level(0.40);
    let mut writes = 0;
    for _ in 0..5 {
        if let Some(written) = correct_if_below_target(device, target) {
            device = written;
            writes += 1;
        }
    }
    assert_eq!(writes, 1);
    assert_eq!(device, target);
}

#[test]
fn corrections_at_the_target_never_write() {
    let target = level(1.0);
    for _ in 0..5 {
        assert_eq!(correct_if_below_target(target, target), None);
    }
}

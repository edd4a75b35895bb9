use du_analog_inputs::axis_state::{pack_5axis, pack_6axis, SelfMadeAxis, CANARY_5AXIS, CANARY_6AXIS};
use du_analog_inputs::mapping::AxisVariations;

#[test]
fn new_state_is_at_rest() {
    let s = SelfMadeAxis::new(0i32);
    assert_eq!(s.x_axis1, 0);
    assert_eq!(s.lesser_axis2, 0);
    assert!(!s.debug);
}

#[test]
fn toggle_debug_switches() {
    let mut s = SelfMadeAxis::new(0u8);
    assert!(s.toggle_debug());
    assert!(s.debug);
    assert!(!s.toggle_debug());
    assert!(!s.debug);
}

#[test]
fn update_sets_exactly_the_mapped_axis() {
    let mut s = SelfMadeAxis::new(0i32);
    s.update_axis_state(&AxisVariations::YAxis2, 7);
    assert_eq!(s.y_axis2, 7);
    assert_eq!(s.y_axis1, 0);
    assert_eq!(s.x_axis2, 0);
    s.update_axis_state(&AxisVariations::LesserAxis1, -3);
    assert_eq!(s.lesser_axis1, -3);
    s.update_axis_state(&AxisVariations::Nothing, 99);
    assert_eq!(
        (s.x_axis1, s.x_axis2, s.y_axis1, s.y_axis2, s.z_axis1, s.z_axis2, s.lesser_axis1, s.lesser_axis2),
        (0, 0, 0, 7, 0, 0, -3, 0)
    );
}

#[test]
fn five_axis_packing() {
    assert_eq!(pack_5axis(0, 0, 0), CANARY_5AXIS);
    assert_eq!(pack_5axis(0, 0, 0), 4194304);
    assert_eq!(pack_5axis(63, 255, 255), 8388607);
    assert_eq!(pack_5axis(10, 200, 129), 7479370);
}

#[test]
fn six_axis_packing() {
    assert_eq!(pack_6axis(0, 0, 0), CANARY_6AXIS);
    assert_eq!(pack_6axis(127, 127, 127), 4194303);
    assert_eq!(pack_6axis(5, 100, 64), 3743749);
}

#[test]
fn five_axis_fields_read_back() {
    let m = pack_5axis(10, 200, 129);
    assert_eq!(m % 64, 10);
    assert_eq!((m / 64) % 256, 129);
    assert_eq!((m / 16384) % 256, 200);
    assert!(CANARY_5AXIS <= m && m < 2 * CANARY_5AXIS);
    assert!(2 * (m as i64) >= 2 * CANARY_5AXIS as i64);
}

#[test]
fn six_axis_fields_read_back() {
    let m = pack_6axis(5, 100, 64);
    assert_eq!(m % 128, 5);
    assert_eq!((m / 128) % 128, 64);
    assert_eq!((m / 16384) % 128, 100);
    assert!(CANARY_6AXIS <= m && m < 2 * CANARY_6AXIS);
}

use du_analog_inputs::device_codes::{
    gamepad_axis_number, gamepad_button_number, get_hat_numbers, GamepadAxis, GamepadButton,
    HatPosition,
};

#[test]
fn axis_numbers_follow_the_controller_layout() {
    assert_eq!(gamepad_axis_number(GamepadAxis::LeftX), 0);
    assert_eq!(gamepad_axis_number(GamepadAxis::LeftY), 1);
    assert_eq!(gamepad_axis_number(GamepadAxis::RightX), 2);
    assert_eq!(gamepad_axis_number(GamepadAxis::RightY), 3);
    assert_eq!(gamepad_axis_number(GamepadAxis::TriggerLeft), 4);
    assert_eq!(gamepad_axis_number(GamepadAxis::TriggerRight), 5);
}

#[test]
fn button_numbers_follow_the_readme() {
    assert_eq!(gamepad_button_number(GamepadButton::Start), 7);
    assert_eq!(gamepad_button_number(GamepadButton::Back), 6);
    assert_eq!(gamepad_button_number(GamepadButton::LeftShoulder), 4);
    assert_eq!(gamepad_button_number(GamepadButton::RightShoulder), 5);
    assert_eq!(gamepad_button_number(GamepadButton::DPadUp), 10);
    assert_eq!(gamepad_button_number(GamepadButton::DPadDown), 11);
    assert_eq!(gamepad_button_number(GamepadButton::X), 2);
    assert_eq!(gamepad_button_number(GamepadButton::Guide), 128);
    assert_eq!(gamepad_button_number(GamepadButton::Touchpad), 19);
}

#[test]
fn button_numbers_are_distinct_and_below_hats() {
    let all = [
        GamepadButton::A, GamepadButton::B, GamepadButton::X, GamepadButton::Y,
        GamepadButton::Back, GamepadButton::Guide, GamepadButton::Start,
        GamepadButton::LeftStick, GamepadButton::RightStick, GamepadButton::LeftShoulder,
        GamepadButton::RightShoulder, GamepadButton::DPadUp, GamepadButton::DPadDown,
        GamepadButton::DPadLeft, GamepadButton::DPadRight, GamepadButton::Misc1,
        GamepadButton::Paddle1, GamepadButton::Paddle2, GamepadButton::Paddle3,
        GamepadButton::Paddle4, GamepadButton::Touchpad,
    ];
    let mut seen = Vec::new();
    for b in all.iter() {
        let n = gamepad_button_number(*b);
        assert!(n <= 128);
        assert!(!seen.contains(&n));
        seen.push(n);
    }
}

#[test]
fn first_hat_up_activates_its_second_code() {
    let codes = get_hat_numbers(0, HatPosition::Up);
    assert_eq!(
        codes,
        vec![
            (129, false), (130, true), (131, false), (132, false), (133, false),
            (134, false), (135, false), (136, false), (137, false)
        ]
    );
}

#[test]
fn centered_hat_activates_its_first_code() {
    let codes = get_hat_numbers(1, HatPosition::Centered);
    assert_eq!(codes.len(), 9);
    assert_eq!(codes[0], (138, true));
    assert!(codes[1..].iter().all(|c| !c.1));
    assert_eq!(codes[8].0, 146);
}

#[test]
fn last_hat_fits_below_256() {
    let codes = get_hat_numbers(13, HatPosition::LeftDown);
    assert_eq!(codes[0], (246, false));
    assert_eq!(codes[8], (254, true));
    assert_eq!(codes.iter().filter(|c| c.1).count(), 1);
}

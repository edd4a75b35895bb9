use du_analog_inputs::device_codes::{GamepadAxis, GamepadButton, HatPosition};
use du_analog_inputs::keys::KeyPressHandler;
use du_analog_inputs::mapping::{AxisMap, AxisVariations, KeyList, KeyMap, XBOX_GAMEPAD_GUID};
use du_analog_inputs::send_loop::{apply_input_event, InputEvent, SendLoop};
use std::collections::{HashMap, HashSet};

#[test]
fn releasing_the_toggle_key_switches_input() {
    let mut s = SendLoop::new(6);
    assert_eq!(s.counter, 1);
    assert!(!s.key_toggle);
    s.keyboard_update(&vec![65, 220]);
    assert!(s.key_on);
    assert!(!s.key_toggle);
    s.keyboard_update(&vec![163]);
    assert!(s.key_on);
    assert!(!s.key_toggle);
    s.keyboard_update(&vec![65]);
    assert!(!s.key_on);
    assert!(s.key_toggle);
    s.keyboard_update(&vec![]);
    assert!(s.key_toggle);
    s.keyboard_update(&vec![163]);
    s.keyboard_update(&vec![]);
    assert!(!s.key_toggle);
}

#[test]
fn mouse_is_sent_every_division_polls_while_on() {
    let mut s = SendLoop::new(3);
    s.keyboard_update(&vec![220]);
    s.keyboard_update(&vec![]);
    assert!(s.key_toggle);
    assert_eq!(s.counter, 0);
    assert!(!s.tick());
    assert_eq!(s.counter, 1);
    assert!(!s.tick());
    assert!(s.tick());
    assert_eq!(s.counter, 0);
    assert!(!s.tick());
    assert!(!s.tick());
    assert!(s.tick());
}

#[test]
fn switching_on_restarts_the_counter() {
    let mut s = SendLoop::new(6);
    for _ in 0..99 {
        assert!(!s.tick());
    }
    assert_eq!(s.counter, 100);
    let mut sends = 0;
    s.keyboard_update(&vec![163]);
    for poll in 0..6 {
        s.keyboard_update(&vec![]);
        if s.tick() {
            sends += 1;
            assert_eq!(poll, 5);
        }
    }
    assert_eq!(sends, 1);
}

#[test]
fn switching_off_keeps_the_counter() {
    let mut s = SendLoop::new(6);
    s.keyboard_update(&vec![220]);
    s.keyboard_update(&vec![]);
    assert!(s.key_toggle);
    s.tick();
    s.tick();
    s.keyboard_update(&vec![220]);
    s.keyboard_update(&vec![]);
    assert!(!s.key_toggle);
    assert_eq!(s.counter, 2);
}

#[test]
fn nothing_is_sent_while_off_and_the_counter_wraps() {
    let mut s = SendLoop::new(3);
    for _ in 0..254 {
        assert!(!s.tick());
    }
    assert_eq!(s.counter, 255);
    assert!(!s.tick());
    assert_eq!(s.counter, 0);
}

fn maps() -> (AxisMap, KeyMap, String) {
    let guid = String::from(XBOX_GAMEPAD_GUID);
    let mut keys = KeyMap::xbox_default();
    keys.mapping[0].1.insert(130, KeyList { key_list: vec![87] });
    keys.mapping[0].1.insert(131, KeyList { key_list: vec![68] });
    (AxisMap::xbox_default(), keys, guid)
}

#[test]
fn axis_events_name_the_mapped_axis() {
    let (a, k, g) = maps();
    let mut h = KeyPressHandler::new();
    assert_eq!(
        apply_input_event(&a, &k, &g, &InputEvent::ControllerAxisMotion { axis: GamepadAxis::TriggerLeft }, &mut h),
        Some(AxisVariations::ZAxis2)
    );
    assert_eq!(apply_input_event(&a, &k, &g, &InputEvent::JoyAxisMotion { axis_idx: 2 }, &mut h), Some(AxisVariations::XAxis2));
    assert_eq!(apply_input_event(&a, &k, &g, &InputEvent::JoyAxisMotion { axis_idx: 9 }, &mut h), None);
    assert_eq!(apply_input_event(&a, &k, &String::from("none"), &InputEvent::JoyAxisMotion { axis_idx: 0 }, &mut h), None);
    assert!(h.current_key_state.is_empty());
}

#[test]
fn button_events_press_and_release_mapped_keys() {
    let (a, k, g) = maps();
    let mut h = KeyPressHandler::new();
    assert_eq!(apply_input_event(&a, &k, &g, &InputEvent::ControllerButtonDown { button: GamepadButton::Start }, &mut h), None);
    assert_eq!(h.current_key_state, [220u16, 66].iter().cloned().collect::<HashSet<u16>>());
    apply_input_event(&a, &k, &g, &InputEvent::JoyButtonUp { button_idx: 2 }, &mut h);
    assert_eq!(h.current_off_key_state, [88u16].iter().cloned().collect::<HashSet<u16>>());
    apply_input_event(&a, &k, &g, &InputEvent::JoyButtonDown { button_idx: 99 }, &mut h);
    assert_eq!(h.current_key_state.len(), 2);
}

#[test]
fn hat_events_press_the_active_code_and_release_the_others() {
    let (a, k, g) = maps();
    let mut h = KeyPressHandler::new();
    apply_input_event(&a, &k, &g, &InputEvent::JoyHatMotion { hat_idx: 0, state: HatPosition::Right }, &mut h);
    assert_eq!(h.current_key_state, [68u16].iter().cloned().collect::<HashSet<u16>>());
    assert_eq!(h.current_off_key_state, [87u16].iter().cloned().collect::<HashSet<u16>>());
    let mut other = KeyPressHandler::new();
    apply_input_event(&a, &k, &String::from("none"), &InputEvent::JoyHatMotion { hat_idx: 0, state: HatPosition::Up }, &mut other);
    assert!(other.current_key_state.is_empty() && other.current_off_key_state.is_empty());
}

#[test]
fn other_events_change_nothing() {
    let (a, k, g) = maps();
    let mut h = KeyPressHandler::new();
    assert_eq!(apply_input_event(&a, &k, &g, &InputEvent::JoyBallMotion { ball_idx: 0 }, &mut h), None);
    assert_eq!(apply_input_event(&a, &k, &g, &InputEvent::Other, &mut h), None);
    assert!(h.current_key_state.is_empty() && h.current_off_key_state.is_empty());
    let _unused: HashMap<u8, u8> = HashMap::new();
}

use du_analog_inputs::send_loop::{Encoding, InputLoop, LoopAction, LoopEvent};

#[test]
fn input_loop_runs_a_poll() {
    let (a, k, g) = maps();
    let mut l = InputLoop::new(1, true, false, 0.0f32);
    assert!(matches!(l.step(&a, &k, LoopEvent::Poll { pressed: vec![220], shutdown: false }), LoopAction::ReadEvents));
    assert!(matches!(l.step(&a, &k, LoopEvent::Poll { pressed: vec![], shutdown: false }), LoopAction::ReadEvents));
    assert!(l.send.key_toggle);
    let r = l.step(
        &a,
        &k,
        LoopEvent::Received {
            guid: g.clone(),
            event: InputEvent::ControllerAxisMotion { axis: GamepadAxis::LeftX },
            value: Some(0.5),
        },
    );
    assert!(matches!(r, LoopAction::ReadEvents));
    assert_eq!(l.axes.x_axis1, 0.5);
    l.step(&a, &k, LoopEvent::Received {
        guid: g.clone(),
        event: InputEvent::ControllerButtonDown { button: GamepadButton::X },
        value: None,
    });
    match l.step(&a, &k, LoopEvent::ChannelEmpty) {
        LoopAction::EndPoll { keys, mouse } => {
            assert_eq!(keys.presses, vec![88]);
            assert!(keys.releases.is_empty());
            assert_eq!(mouse, Some(Encoding::SixAxis));
        }
        other => panic!("unexpected {:?}", other),
    }
    assert!(l.keys.held.contains(&88));
}

#[test]
fn input_loop_releases_held_keys_when_stopping() {
    let (a, k, g) = maps();
    let mut l = InputLoop::new(6, false, true, 0.0f32);
    assert!(l.axes.debug);
    l.step(&a, &k, LoopEvent::Poll { pressed: vec![], shutdown: false });
    l.step(&a, &k, LoopEvent::Received {
        guid: g.clone(),
        event: InputEvent::JoyButtonDown { button_idx: 7 },
        value: None,
    });
    match l.step(&a, &k, LoopEvent::ChannelEmpty) {
        LoopAction::EndPoll { mouse, .. } => assert_eq!(mouse, None),
        other => panic!("unexpected {:?}", other),
    }
    match l.step(&a, &k, LoopEvent::Poll { pressed: vec![], shutdown: true }) {
        LoopAction::Stop { release, lost_input } => {
            let mut release = release;
            release.sort();
            assert_eq!(release, vec![66, 220]);
            assert!(!lost_input);
        }
        other => panic!("unexpected {:?}", other),
    }
    match l.step(&a, &k, LoopEvent::Disconnected) {
        LoopAction::Stop { release, lost_input } => {
            assert_eq!(release.len(), 2);
            assert!(lost_input);
        }
        other => panic!("unexpected {:?}", other),
    }
}

#[test]
fn hat_events_of_unmapped_devices_may_use_any_index() {
    let (a, k, _) = maps();
    let mut h = KeyPressHandler::new();
    let r = apply_input_event(&a, &k, &String::from("none"), &InputEvent::JoyHatMotion { hat_idx: 200, state: HatPosition::Up }, &mut h);
    assert_eq!(r, None);
    assert!(h.current_key_state.is_empty());
}

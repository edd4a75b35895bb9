use du_analog_inputs::keys::KeyPressHandler;
use std::collections::HashSet;

fn set(v: &[u16]) -> HashSet<u16> {
    v.iter().cloned().collect()
}

#[test]
fn new_handler_is_empty() {
    let h = KeyPressHandler::new();
    assert!(h.current_key_state.is_empty());
    assert!(h.current_off_key_state.is_empty());
    assert!(h.held.is_empty());
}

#[test]
fn presses_and_releases_are_gathered() {
    let mut h = KeyPressHandler::new();
    h.update_key_presses((vec![220, 66], true));
    h.update_key_presses((vec![17], false));
    assert_eq!(h.current_key_state, set(&[220, 66]));
    assert_eq!(h.current_off_key_state, set(&[17]));
}

#[test]
fn a_pressed_key_is_not_released() {
    let mut h = KeyPressHandler::new();
    h.update_key_presses((vec![220, 66], true));
    h.update_key_presses((vec![220, 9], false));
    assert_eq!(h.current_key_state, set(&[220, 66]));
    assert_eq!(h.current_off_key_state, set(&[9]));

    let mut g = KeyPressHandler::new();
    g.update_key_presses((vec![220, 9], false));
    g.update_key_presses((vec![220, 66], true));
    assert_eq!(g.current_key_state, h.current_key_state);
    assert_eq!(g.current_off_key_state, h.current_off_key_state);
}

#[test]
fn drain_hands_out_each_key_once_and_forgets() {
    let mut h = KeyPressHandler::new();
    h.update_key_presses((vec![82, 82, 84], true));
    h.update_key_presses((vec![18], false));
    let p = h.drain_key_presses();
    let mut presses = p.presses.clone();
    presses.sort();
    assert_eq!(presses, vec![82, 84]);
    assert_eq!(p.releases, vec![18]);
    assert!(h.current_key_state.is_empty());
    assert!(h.current_off_key_state.is_empty());
    assert_eq!(h.held, set(&[82, 84]));
}

#[test]
fn sent_keys_stay_held_until_released() {
    let mut h = KeyPressHandler::new();
    h.update_key_presses((vec![220, 66], true));
    h.drain_key_presses();
    assert_eq!(h.held, set(&[220, 66]));
    let mut keys = h.keys_to_return_to_0();
    keys.sort();
    assert_eq!(keys, vec![66, 220]);
    h.update_key_presses((vec![66], false));
    let p = h.drain_key_presses();
    assert_eq!(p.releases, vec![66]);
    assert_eq!(h.held, set(&[220]));
    h.update_key_presses((vec![17], true));
    let mut keys = h.keys_to_return_to_0();
    keys.sort();
    assert_eq!(keys, vec![17, 220]);
}

#[test]
fn keys_to_return_are_the_pressed_ones() {
    let mut h = KeyPressHandler::new();
    h.update_key_presses((vec![220, 66], true));
    h.update_key_presses((vec![17], false));
    let mut keys = h.keys_to_return_to_0();
    keys.sort();
    assert_eq!(keys, vec![66, 220]);
    assert_eq!(h.current_key_state, set(&[220, 66]));
}

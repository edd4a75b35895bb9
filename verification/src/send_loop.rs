//! The decisions of the input loop: when analog input is switched on and off,
//! what a device event changes, and on which polls the mouse is sent.

use vstd::prelude::*;
use crate::device_codes::{
    axis_number, button_number, gamepad_axis_number, gamepad_button_number, get_hat_numbers,
    hat_codes, GamepadAxis, GamepadButton, HatPosition, MAX_HAT_INDEX,
};
use crate::axis_state::SelfMadeAxis;
use crate::keys::{after_update, code_ops, key_run, KeyOp, KeyPressHandler, KeyPresses};
use crate::mapping::{code_lookup, device_lookup, AxisMap, AxisVariations, KeyList, KeyMap};

verus! {

/// The key codes that switch analog input: `^` and right Ctrl.
pub open spec fn is_toggle_key(k: u16) -> bool {
    k == 163 || k == 220
}

/// Whether a toggle key is among the pressed keyboard keys.
pub open spec fn toggle_key_held(pressed: Seq<u16>) -> bool {
    exists|i: int| 0 <= i < pressed.len() && is_toggle_key(#[trigger] pressed[i])
}

/// The counter after one poll: one more, wrapping from 255 to 0.
pub open spec fn next_counter(counter: u8) -> u8 {
    if counter == 255 {
        0
    } else {
        (counter + 1) as u8
    }
}

/// The state that the input loop keeps from one poll to the next.
#[derive(Clone, Copy, Debug, PartialEq, Eq, Structural)]
pub struct SendLoop {
    /// Polls since the last mouse send.
    pub counter: u8,
    /// Whether a toggle key was held at the last poll.
    pub key_on: bool,
    /// Whether analog input is switched on.
    pub key_toggle: bool,
    /// Polls between two mouse sends.
    pub input_sendrate_division: u8,
}

/// The state after the keyboard keys of a poll: a release of the toggle
/// key switches analog input, and switching it on restarts the counter so
/// that the first send comes a full division later.
pub open spec fn keyboard_step(s: SendLoop, pressed: Seq<u16>) -> SendLoop {
    let on = toggle_key_held(pressed);
    let released = s.key_on && !on;
    let toggle = s.key_toggle != released;
    SendLoop {
        counter: if released && toggle { 0 } else { s.counter },
        key_on: on,
        key_toggle: toggle,
        input_sendrate_division: s.input_sendrate_division,
    }
}

/// The state after counting a poll, and whether the mouse is sent: when the
/// counter reaches the send rate division while analog input is on; the
/// counter then restarts from zero.
pub open spec fn tick_step(s: SendLoop) -> (SendLoop, bool) {
    let c = next_counter(s.counter);
    if c == s.input_sendrate_division && s.key_toggle {
        (SendLoop { counter: 0, ..s }, true)
    } else {
        (SendLoop { counter: c, ..s }, false)
    }
}

impl SendLoop {
    /// The state at the start: analog input off, counter at one.
    pub fn new(input_sendrate_division: u8) -> (s: SendLoop)
        ensures
            s == (SendLoop { counter: 1, key_on: false, key_toggle: false, input_sendrate_division }),
    {
        SendLoop { counter: 1, key_on: false, key_toggle: false, input_sendrate_division }
    }

    /// Takes in the pressed keyboard keys of this poll. Releasing the toggle
    /// key switches analog input on or off; switching it on restarts the
    /// counter.
    pub fn keyboard_update(&mut self, pressed: &Vec<u16>)
        ensures
            *final(self) == keyboard_step(*old(self), pressed@),
    {
        let old_key_on = self.key_on;
        let mut key_on = false;
        let mut i: usize = 0;
        while i < pressed.len() && !key_on
            invariant
                i <= pressed@.len(),
                key_on ==> toggle_key_held(pressed@),
                !key_on ==> forall|j: int| 0 <= j < i ==> !is_toggle_key(#[trigger] pressed@[j]),
            decreases pressed@.len() - i,
        {
            let k = pressed[i];
            if k == 163 || k == 220 {
                key_on = true;
                assert(is_toggle_key(pressed@[i as int]));
            }
            i = i + 1;
        }
        self.key_on = key_on;
        if !key_on && old_key_on {
            self.key_toggle = !self.key_toggle;
            if self.key_toggle {
                self.counter = 0;
            }
        }
    }

    /// Counts a poll; tells whether the mouse is sent on this poll.
    pub fn tick(&mut self) -> (send: bool)
        ensures
            (*final(self), send) == tick_step(*old(self)),
    {
        self.counter = if self.counter == 255 { 0 } else { self.counter + 1 };
        if self.counter != self.input_sendrate_division || !self.key_toggle {
            false
        } else {
            self.counter = 0;
            true
        }
    }
}

/// One poll: the keyboard keys, then the count.
pub open spec fn poll_step(s: SendLoop, pressed: Seq<u16>) -> (SendLoop, bool) {
    tick_step(keyboard_step(s, pressed))
}

/// The state after a run of polls, each given by its pressed keyboard keys.
pub open spec fn run_polls(s: SendLoop, polls: Seq<Seq<u16>>) -> SendLoop
    decreases polls.len(),
{
    if polls.len() == 0 {
        s
    } else {
        poll_step(run_polls(s, polls.drop_last()), polls.last()).0
    }
}

/// Whether poll `p` of a run sends the mouse.
pub open spec fn sends_in_poll(s: SendLoop, polls: Seq<Seq<u16>>, p: int) -> bool {
    poll_step(run_polls(s, polls.take(p)), polls[p]).1
}

/// Whether a toggle key was held before poll `p` of a run.
pub open spec fn held_before(s: SendLoop, polls: Seq<Seq<u16>>, p: int) -> bool {
    if p == 0 {
        s.key_on
    } else {
        toggle_key_held(polls[p - 1])
    }
}

/// Whether the toggle key is released in poll `p`: held before, not held in
/// it.
pub open spec fn released_in_poll(s: SendLoop, polls: Seq<Seq<u16>>, p: int) -> bool {
    held_before(s, polls, p) && !toggle_key_held(polls[p])
}

/// The number of releases of the toggle key in the first `n` polls.
pub open spec fn release_count(s: SendLoop, polls: Seq<Seq<u16>>, n: int) -> nat
    decreases n,
{
    if n <= 0 {
        0
    } else {
        release_count(s, polls, n - 1) + if released_in_poll(s, polls, n - 1) { 1nat } else { 0nat }
    }
}

proof fn lemma_run_one_more(s: SendLoop, polls: Seq<Seq<u16>>, n: int)
    requires
        0 <= n < polls.len(),
    ensures
        run_polls(s, polls.take(n + 1)) == poll_step(run_polls(s, polls.take(n)), polls[n]).0,
{
    assert(polls.take(n + 1).drop_last() =~= polls.take(n));
    assert(polls.take(n + 1).last() == polls[n]);
}

/// Analog input is on after a run exactly when it was on before and the
/// toggle key was released an even number of times, or it was off and
/// released an odd number of times; the run remembers whether the toggle key
/// is held.
pub proof fn lemma_toggle_parity(s: SendLoop, polls: Seq<Seq<u16>>, n: int)
    requires
        0 <= n <= polls.len(),
    ensures
        run_polls(s, polls.take(n)).key_toggle == (s.key_toggle != (release_count(s, polls, n) % 2
            == 1)),
        run_polls(s, polls.take(n)).key_on == held_before(s, polls, n),
        run_polls(s, polls.take(n)).input_sendrate_division == s.input_sendrate_division,
    decreases n,
{
    if n == 0 {
        assert(polls.take(0) =~= Seq::<Seq<u16>>::empty());
    } else {
        lemma_toggle_parity(s, polls, n - 1);
        lemma_run_one_more(s, polls, n - 1);
    }
}

/// From the start, the mouse is sent in a poll only after an odd number of
/// releases of the toggle key (`^` or right Ctrl), counting that poll.
pub proof fn lemma_send_needs_odd_releases(d: u8, polls: Seq<Seq<u16>>, p: int)
    requires
        0 <= p < polls.len(),
    ensures
        ({
            let s = SendLoop { counter: 1, key_on: false, key_toggle: false, input_sendrate_division: d };
            sends_in_poll(s, polls, p) ==> release_count(s, polls, p + 1) % 2 == 1
        }),
{
    let s = SendLoop { counter: 1, key_on: false, key_toggle: false, input_sendrate_division: d };
    lemma_toggle_parity(s, polls, p + 1);
    lemma_run_one_more(s, polls, p);
}

/// When the toggle key switches analog input on in poll `p` and is not
/// released again, the mouse is sent `d` polls later counting poll `p`, and
/// not before; `d` is the send rate division, at least one.
pub proof fn lemma_first_send_after_switch_on(s: SendLoop, polls: Seq<Seq<u16>>, p: int, k: int)
    requires
        s.input_sendrate_division >= 1,
        0 <= p,
        0 <= k < s.input_sendrate_division,
        p + k < polls.len(),
        !run_polls(s, polls.take(p)).key_toggle,
        released_in_poll(s, polls, p),
        forall|q: int| p < q <= p + k ==> !released_in_poll(s, polls, q),
    ensures
        run_polls(s, polls.take(p + k + 1)).key_toggle,
        sends_in_poll(s, polls, p + k) == (k + 1 == s.input_sendrate_division),
        run_polls(s, polls.take(p + k + 1)).counter == if k + 1 == s.input_sendrate_division {
            0
        } else {
            k + 1
        },
    decreases k,
{
    let d = s.input_sendrate_division;
    lemma_run_one_more(s, polls, p + k);
    lemma_toggle_parity(s, polls, p + k);
    if k == 0 {
        let st = run_polls(s, polls.take(p));
        assert(st.key_on == held_before(s, polls, p));
        assert(keyboard_step(st, polls[p]).key_toggle);
        assert(keyboard_step(st, polls[p]).counter == 0);
    } else {
        lemma_first_send_after_switch_on(s, polls, p, k - 1);
        let st = run_polls(s, polls.take(p + k));
        assert(st.key_on == held_before(s, polls, p + k));
        assert(!released_in_poll(s, polls, p + k));
        assert(keyboard_step(st, polls[p + k]).key_toggle);
        assert(keyboard_step(st, polls[p + k]).counter == k);
    }
}

/// With analog input on and not switched, and a send rate division `d` of
/// at least one, the mouse is sent every `d` polls: after a send (counter
/// zero) the next `d - 1` polls send nothing and the `d`-th sends.
pub proof fn lemma_send_every_division(s: SendLoop, polls: Seq<Seq<u16>>, k: int)
    requires
        s.input_sendrate_division >= 1,
        s.key_toggle,
        s.counter == 0,
        0 <= k < s.input_sendrate_division,
        k < polls.len(),
        forall|q: int| 0 <= q <= k ==> !released_in_poll(s, polls, q),
    ensures
        run_polls(s, polls.take(k + 1)).key_toggle,
        sends_in_poll(s, polls, k) == (k + 1 == s.input_sendrate_division),
        run_polls(s, polls.take(k + 1)).counter == if k + 1 == s.input_sendrate_division {
            0
        } else {
            k + 1
        },
    decreases k,
{
    assert(polls.take(0) =~= Seq::<Seq<u16>>::empty());
    lemma_run_one_more(s, polls, k);
    lemma_toggle_parity(s, polls, k);
    let st = run_polls(s, polls.take(k));
    assert(st.key_on == held_before(s, polls, k));
    assert(!released_in_poll(s, polls, k));
    if k == 0 {
        assert(st == s);
    } else {
        lemma_send_every_division(s, polls, k - 1);
    }
    assert(keyboard_step(st, polls[k]).key_toggle);
    assert(keyboard_step(st, polls[k]).counter == k);
}

/// While analog input is on, the counter is below the send rate division.
pub open spec fn counter_below_division(s: SendLoop) -> bool {
    s.key_toggle ==> s.counter < s.input_sendrate_division
}

/// A poll keeps the counter below the division while input is on.
pub proof fn lemma_poll_keeps_counter_below(s: SendLoop, pressed: Seq<u16>)
    requires
        s.input_sendrate_division >= 1,
        counter_below_division(s),
    ensures
        counter_below_division(poll_step(s, pressed).0),
        poll_step(s, pressed).0.input_sendrate_division == s.input_sendrate_division,
{
}

/// From the start, the counter is below the division whenever input is on.
pub proof fn lemma_counter_below_from_start(d: u8, polls: Seq<Seq<u16>>, n: int)
    requires
        d >= 1,
        0 <= n <= polls.len(),
    ensures
        counter_below_division(
            run_polls(SendLoop { counter: 1, key_on: false, key_toggle: false, input_sendrate_division: d }, polls.take(n)),
        ),
    decreases n,
{
    let s = SendLoop { counter: 1, key_on: false, key_toggle: false, input_sendrate_division: d };
    if n == 0 {
        assert(polls.take(0) =~= Seq::<Seq<u16>>::empty());
    } else {
        lemma_counter_below_from_start(d, polls, n - 1);
        lemma_run_one_more(s, polls, n - 1);
        lemma_toggle_parity(s, polls, n - 1);
        lemma_poll_keeps_counter_below(run_polls(s, polls.take(n - 1)), polls[n - 1]);
    }
}

proof fn lemma_counts_while_on(s: SendLoop, polls: Seq<Seq<u16>>, start: int, q: int)
    requires
        s.input_sendrate_division >= 1,
        0 <= start <= q < polls.len(),
        counter_below_division(run_polls(s, polls.take(start))),
        forall|r: int| start <= r <= q ==> (#[trigger] run_polls(s, polls.take(r + 1))).key_toggle,
        forall|r: int| start <= r <= q ==> !#[trigger] sends_in_poll(s, polls, r),
    ensures
        run_polls(s, polls.take(q + 1)).counter >= q - start + 1,
        counter_below_division(run_polls(s, polls.take(q + 1))),
    decreases q - start,
{
    lemma_run_one_more(s, polls, q);
    lemma_toggle_parity(s, polls, q);
    let st = run_polls(s, polls.take(q));
    assert(run_polls(s, polls.take(q + 1)).key_toggle);
    assert(!sends_in_poll(s, polls, q));
    if q > start {
        lemma_counts_while_on(s, polls, start, q - 1);
        assert(run_polls(s, polls.take(q - 1 + 1)).key_toggle);
        assert(polls.take(q - 1 + 1) =~= polls.take(q));
    }
    lemma_poll_keeps_counter_below(st, polls[q]);
}

/// While analog input stays on for `d` polls in a row (the send rate
/// division, at least one), the mouse is sent in one of them: from the start
/// (or from any state with the counter below the division while input is on)
/// no run of `d` polls with input on goes without a send.
pub proof fn lemma_send_while_on(s: SendLoop, polls: Seq<Seq<u16>>, start: int)
    requires
        s.input_sendrate_division >= 1,
        0 <= start,
        start + s.input_sendrate_division <= polls.len(),
        counter_below_division(run_polls(s, polls.take(start))),
        forall|q: int|
            start <= q < start + s.input_sendrate_division ==> (#[trigger] run_polls(s, polls.take(q + 1))).key_toggle,
    ensures
        exists|q: int| start <= q < start + s.input_sendrate_division && #[trigger] sends_in_poll(s, polls, q),
{
    let d = s.input_sendrate_division;
    if forall|q: int| start <= q < start + d ==> !#[trigger] sends_in_poll(s, polls, q) {
        lemma_counts_while_on(s, polls, start, start + d - 1);
        lemma_toggle_parity(s, polls, start + d);
        assert(false);
    }
}

/// The device input events that the input loop acts on; the axis values
/// travel beside them.
#[derive(Clone, Copy, Debug, PartialEq, Eq, Structural)]
pub enum InputEvent {
    JoyAxisMotion { axis_idx: u8 },
    JoyBallMotion { ball_idx: u8 },
    JoyHatMotion { hat_idx: u8, state: HatPosition },
    JoyButtonDown { button_idx: u8 },
    JoyButtonUp { button_idx: u8 },
    ControllerAxisMotion { axis: GamepadAxis },
    ControllerButtonDown { button: GamepadButton },
    ControllerButtonUp { button: GamepadButton },
    Other,
}

/// The button codes that an event presses (`true`) or releases, in order.
pub open spec fn event_codes(event: InputEvent) -> Seq<(u8, bool)> {
    match event {
        InputEvent::JoyHatMotion { hat_idx, state } => hat_codes(hat_idx, state),
        InputEvent::JoyButtonDown { button_idx } => seq![(button_idx, true)],
        InputEvent::JoyButtonUp { button_idx } => seq![(button_idx, false)],
        InputEvent::ControllerButtonDown { button } => seq![(button_number(button), true)],
        InputEvent::ControllerButtonUp { button } => seq![(button_number(button), false)],
        _ => Seq::empty(),
    }
}

/// The axis code that an event moves, if any.
pub open spec fn event_axis(event: InputEvent) -> Option<u8> {
    match event {
        InputEvent::JoyAxisMotion { axis_idx } => Some(axis_idx),
        InputEvent::ControllerAxisMotion { axis } => Some(axis_number(axis)),
        _ => None,
    }
}

/// The pressed and released keys after the codes are applied in order, each
/// mapped code with the keys it is mapped to.
pub open spec fn apply_codes(
    on: Set<u16>,
    off: Set<u16>,
    device: Map<u8, KeyList>,
    codes: Seq<(u8, bool)>,
) -> (Set<u16>, Set<u16>)
    decreases codes.len(),
{
    if codes.len() == 0 {
        (on, off)
    } else {
        let prev = apply_codes(on, off, device, codes.drop_last());
        let code = codes.last();
        if device.contains_key(code.0) {
            after_update(prev.0, prev.1, device[code.0].key_list@.to_set(), code.1)
        } else {
            prev
        }
    }
}

/// Applying codes is the run of their updates: the pressed and released keys
/// are those of the run, and the held keys stay.
pub proof fn lemma_apply_codes_is_a_run(
    on: Set<u16>,
    off: Set<u16>,
    held: Set<u16>,
    device: Map<u8, KeyList>,
    codes: Seq<(u8, bool)>,
)
    ensures
        key_run((on, off, held), code_ops(device, codes)) == (
            apply_codes(on, off, device, codes).0,
            apply_codes(on, off, device, codes).1,
            held,
        ),
    decreases codes.len(),
{
    if codes.len() > 0 {
        lemma_apply_codes_is_a_run(on, off, held, device, codes.drop_last());
        let prev = code_ops(device, codes.drop_last());
        let c = codes.last();
        if device.contains_key(c.0) {
            let ops = prev.push(KeyOp::Update(device[c.0].key_list@.to_set(), c.1));
            assert(ops.drop_last() =~= prev);
        }
    }
}

/// What a button event does to the pressed and released keys, told without
/// the update rule: when the button is mapped to keys `K`, a press adds `K`
/// to the pressed keys and takes them out of the released ones; a release
/// adds to the released keys those of `K` not pressed since the last send,
/// and leaves the pressed keys alone. An unmapped button changes nothing.
pub open spec fn button_press_effect(
    on: Set<u16>,
    off: Set<u16>,
    new_on: Set<u16>,
    new_off: Set<u16>,
    mapped: Option<KeyList>,
    pressed: bool,
) -> bool {
    match mapped {
        Some(kl) => if pressed {
            &&& new_on == on.union(kl.key_list@.to_set())
            &&& forall|k: u16| kl.key_list@.contains(k) ==> new_on.contains(k) && !new_off.contains(k)
            &&& new_off == off.difference(new_on)
        } else {
            &&& new_on == on
            &&& forall|k: u16| kl.key_list@.contains(k) && !on.contains(k) ==> #[trigger] new_off.contains(k)
            &&& forall|k: u16| off.contains(k) && !on.contains(k) ==> #[trigger] new_off.contains(k)
            &&& new_off == off.union(kl.key_list@.to_set()).difference(on)
        },
        None => new_on == on && new_off == off,
    }
}

/// Applying the code of one button.
proof fn lemma_apply_one_code(on: Set<u16>, off: Set<u16>, device: Map<u8, KeyList>, code: u8, pressed: bool)
    ensures
        button_press_effect(
            on,
            off,
            apply_codes(on, off, device, seq![(code, pressed)]).0,
            apply_codes(on, off, device, seq![(code, pressed)]).1,
            if device.contains_key(code) { Some(device[code]) } else { None },
            pressed,
        ),
{
    let codes = seq![(code, pressed)];
    assert(codes.drop_last() =~= Seq::<(u8, bool)>::empty());
    assert(codes.last() == (code, pressed));
    assert(apply_codes(on, off, device, Seq::<(u8, bool)>::empty()) == (on, off));
    let r = apply_codes(on, off, device, codes);
    if device.contains_key(code) {
        let ks = device[code].key_list@;
        assert(r == after_update(on, off, ks.to_set(), pressed));
        assert forall|k: u16| ks.contains(k) implies ks.to_set().contains(k) by {}
        if pressed {
            assert(r.0 == on.union(ks.to_set()));
        } else {
            assert(r.1 == off.union(ks.to_set()).difference(on));
        }
    }
}

/// Whether an event can be applied: a HAT index must leave room for its nine
/// codes below 256.
pub open spec fn event_in_range(event: InputEvent) -> bool {
    match event {
        InputEvent::JoyHatMotion { hat_idx, .. } => hat_idx <= MAX_HAT_INDEX,
        _ => true,
    }
}

/// Applies the codes of a button or HAT event to the key presses.
fn apply_key_codes(key_map: &KeyMap, guid: &String, codes: &Vec<(u8, bool)>, keys: &mut KeyPressHandler)
    requires
        device_lookup(key_map.mapping@, guid@) is Some,
    ensures
        (final(keys).current_key_state@, final(keys).current_off_key_state@) == apply_codes(
            old(keys).current_key_state@,
            old(keys).current_off_key_state@,
            device_lookup(key_map.mapping@, guid@)->0,
            codes@,
        ),
        final(keys).held@ == old(keys).held@,
{
    let ghost device = device_lookup(key_map.mapping@, guid@)->0;
    let ghost on0 = keys.current_key_state@;
    let ghost off0 = keys.current_off_key_state@;
    let ghost held0 = keys.held@;
    let mut i: usize = 0;
    assert(codes@.take(0) =~= Seq::<(u8, bool)>::empty());
    while i < codes.len()
        invariant
            i <= codes@.len(),
            device == device_lookup(key_map.mapping@, guid@)->0,
            device_lookup(key_map.mapping@, guid@) is Some,
            keys.held@ == held0,
            (keys.current_key_state@, keys.current_off_key_state@) == apply_codes(
                on0,
                off0,
                device,
                codes@.take(i as int),
            ),
        decreases codes@.len() - i,
    {
        let (code, active) = codes[i];
        assert(codes@.take(i + 1).drop_last() =~= codes@.take(i as int));
        assert(codes@.take(i + 1).last() == (code, active));
        match key_map.get(guid, code) {
            Some(kl) => {
                let list = kl.key_list.clone();
                assert(list@ =~= kl.key_list@);
                keys.update_key_presses((list, active));
            },
            None => {},
        }
        i = i + 1;
    }
    assert(codes@.take(i as int) =~= codes@);
}

/// Applies one event of device `guid` to the key presses, and tells which
/// input axis is to take the event's axis value, if any.
///
/// Button and HAT events of a device without key mappings change nothing;
/// the codes of a HAT event are applied in order.
pub fn apply_input_event(
    axis_map: &AxisMap,
    key_map: &KeyMap,
    guid: &String,
    event: &InputEvent,
    keys: &mut KeyPressHandler,
) -> (target: Option<AxisVariations>)
    requires
        event_in_range(*event) || device_lookup(key_map.mapping@, guid@) is None,
    ensures
        target == match event_axis(*event) {
            Some(code) => code_lookup(axis_map.mapping@, guid@, code),
            None => None,
        },
        (final(keys).current_key_state@, final(keys).current_off_key_state@) == match device_lookup(
            key_map.mapping@,
            guid@,
        ) {
            Some(device) => apply_codes(
                old(keys).current_key_state@,
                old(keys).current_off_key_state@,
                device,
                event_codes(*event),
            ),
            None => (old(keys).current_key_state@, old(keys).current_off_key_state@),
        },
        final(keys).held@ == old(keys).held@,
        match *event {
            InputEvent::ControllerButtonDown { button } => button_press_effect(
                old(keys).current_key_state@,
                old(keys).current_off_key_state@,
                final(keys).current_key_state@,
                final(keys).current_off_key_state@,
                code_lookup(key_map.mapping@, guid@, button_number(button)),
                true,
            ),
            InputEvent::ControllerButtonUp { button } => button_press_effect(
                old(keys).current_key_state@,
                old(keys).current_off_key_state@,
                final(keys).current_key_state@,
                final(keys).current_off_key_state@,
                code_lookup(key_map.mapping@, guid@, button_number(button)),
                false,
            ),
            InputEvent::JoyButtonDown { button_idx } => button_press_effect(
                old(keys).current_key_state@,
                old(keys).current_off_key_state@,
                final(keys).current_key_state@,
                final(keys).current_off_key_state@,
                code_lookup(key_map.mapping@, guid@, button_idx),
                true,
            ),
            InputEvent::JoyButtonUp { button_idx } => button_press_effect(
                old(keys).current_key_state@,
                old(keys).current_off_key_state@,
                final(keys).current_key_state@,
                final(keys).current_off_key_state@,
                code_lookup(key_map.mapping@, guid@, button_idx),
                false,
            ),
            InputEvent::ControllerAxisMotion { axis } => target == code_lookup(
                axis_map.mapping@,
                guid@,
                axis_number(axis),
            ) && final(keys).current_key_state@ == old(keys).current_key_state@
                && final(keys).current_off_key_state@ == old(keys).current_off_key_state@,
            InputEvent::JoyAxisMotion { axis_idx } => target == code_lookup(axis_map.mapping@, guid@, axis_idx)
                && final(keys).current_key_state@ == old(keys).current_key_state@
                && final(keys).current_off_key_state@ == old(keys).current_off_key_state@,
            _ => target is None,
        },
{
    proof {
        let on = keys.current_key_state@;
        let off = keys.current_off_key_state@;
        if let Some(device) = device_lookup(key_map.mapping@, guid@) {
            match *event {
                InputEvent::ControllerButtonDown { button } => lemma_apply_one_code(on, off, device, button_number(button), true),
                InputEvent::ControllerButtonUp { button } => lemma_apply_one_code(on, off, device, button_number(button), false),
                InputEvent::JoyButtonDown { button_idx } => lemma_apply_one_code(on, off, device, button_idx, true),
                InputEvent::JoyButtonUp { button_idx } => lemma_apply_one_code(on, off, device, button_idx, false),
                _ => {},
            }
        }
    }
    let device_mapped = key_map.get_device_exists(guid);
    let codes: Vec<(u8, bool)> = match *event {
        InputEvent::JoyAxisMotion { axis_idx } => return axis_map.get(guid, axis_idx),
        InputEvent::ControllerAxisMotion { axis } => return axis_map.get(
            guid,
            gamepad_axis_number(axis),
        ),
        InputEvent::JoyHatMotion { hat_idx, state } => {
            if device_mapped {
                get_hat_numbers(hat_idx, state)
            } else {
                Vec::new()
            }
        },
        InputEvent::JoyButtonDown { button_idx } => vec![(button_idx, true)],
        InputEvent::JoyButtonUp { button_idx } => vec![(button_idx, false)],
        InputEvent::ControllerButtonDown { button } => vec![(gamepad_button_number(button), true)],
        InputEvent::ControllerButtonUp { button } => vec![(gamepad_button_number(button), false)],
        InputEvent::JoyBallMotion { .. } => Vec::new(),
        InputEvent::Other => Vec::new(),
    };
    if device_mapped {
        assert(codes@ =~= event_codes(*event));
        apply_key_codes(key_map, guid, &codes, keys);
    }
    None
}

/// What the input loop learns, in the order of a poll: the poll starts with
/// the keyboard, then the device events come one by one until the channel is
/// empty (or gone).
#[derive(Debug)]
pub enum LoopEvent<T> {
    /// A poll starts: the keyboard keys held, and whether the program stops.
    Poll { pressed: Vec<u16>, shutdown: bool },
    /// An event of device `guid`, with its axis value if it has one.
    Received { guid: String, event: InputEvent, value: Option<T> },
    /// No device event is left for this poll.
    ChannelEmpty,
    /// The channel of device events is gone.
    Disconnected,
}

/// The two mouse encodings.
#[derive(Clone, Copy, Debug, PartialEq, Eq, Structural)]
pub enum Encoding {
    FiveAxis,
    SixAxis,
}

/// What the input loop does next.
#[derive(Debug)]
pub enum LoopAction {
    /// Read the next device event.
    ReadEvents,
    /// The poll ends: send these keys, then the mouse in the given encoding
    /// if there is one, then wait for the next poll.
    EndPoll { keys: KeyPresses, mouse: Option<Encoding> },
    /// Stop: release these keys first; `lost_input` when the channel of
    /// device events is gone, which is reported.
    Stop { release: Vec<u16>, lost_input: bool },
}

/// Everything the input loop keeps between steps.
#[derive(Debug)]
pub struct InputLoop<T> {
    pub send: SendLoop,
    pub keys: KeyPressHandler,
    pub axes: SelfMadeAxis<T>,
    pub sixaxis: bool,
}

impl<T: Copy> InputLoop<T> {
    /// The input loop at the start: analog input off, no key pressed, every
    /// axis at `rest`, debugging as configured.
    pub fn new(input_sendrate_division: u8, sixaxis: bool, debug: bool, rest: T) -> (l: InputLoop<T>)
        ensures
            l.send == (SendLoop { counter: 1, key_on: false, key_toggle: false, input_sendrate_division }),
            l.keys.current_key_state@ == Set::<u16>::empty(),
            l.keys.current_off_key_state@ == Set::<u16>::empty(),
            l.keys.held@ == Set::<u16>::empty(),
            l.axes == (SelfMadeAxis {
                x_axis1: rest,
                x_axis2: rest,
                y_axis1: rest,
                y_axis2: rest,
                z_axis1: rest,
                z_axis2: rest,
                lesser_axis1: rest,
                lesser_axis2: rest,
                debug,
            }),
            l.sixaxis == sixaxis,
    {
        let mut axes = SelfMadeAxis::new(rest);
        if debug {
            axes.toggle_debug();
        }
        InputLoop { send: SendLoop::new(input_sendrate_division), keys: KeyPressHandler::new(), axes, sixaxis }
    }

    /// One step of the input loop.
    ///
    /// A poll first takes the keyboard, and stops (releasing every held or
    /// pressed key) when the program stops. Each device event then changes
    /// the key presses and the axes. When no event is left, the poll is
    /// counted, its keys are handed out and the mouse is sent if due. When
    /// the channel is gone, the loop stops, releasing every held or pressed
    /// key.
    pub fn step(&mut self, axis_map: &AxisMap, key_map: &KeyMap, event: LoopEvent<T>) -> (a: LoopAction)
        requires
            event matches LoopEvent::Received { guid, event: e, .. } ==> (event_in_range(e)
                || device_lookup(key_map.mapping@, guid@) is None),
        ensures
            final(self).sixaxis == old(self).sixaxis,
            match event {
                LoopEvent::Poll { pressed, shutdown } => {
                    &&& final(self).send == keyboard_step(old(self).send, pressed@)
                    &&& final(self).axes == old(self).axes
                    &&& final(self).keys.current_key_state@ == old(self).keys.current_key_state@
                    &&& final(self).keys.current_off_key_state@ == old(self).keys.current_off_key_state@
                    &&& final(self).keys.held@ == old(self).keys.held@
                    &&& if shutdown {
                        a matches LoopAction::Stop { release, lost_input } && !lost_input
                            && release@.to_set() == old(self).keys.held@.union(
                            old(self).keys.current_key_state@,
                        ) && release@.no_duplicates()
                    } else {
                        a is ReadEvents
                    }
                },
                LoopEvent::Received { guid, event: e, value } => {
                    let target = match event_axis(e) {
                        Some(code) => code_lookup(axis_map.mapping@, guid@, code),
                        None => None,
                    };
                    &&& a is ReadEvents
                    &&& final(self).send == old(self).send
                    &&& final(self).axes == match (target, value) {
                        (Some(axis), Some(v)) => old(self).axes.with_axis(axis, v),
                        _ => old(self).axes,
                    }
                    &&& (final(self).keys.current_key_state@, final(self).keys.current_off_key_state@)
                        == match device_lookup(key_map.mapping@, guid@) {
                        Some(device) => apply_codes(
                            old(self).keys.current_key_state@,
                            old(self).keys.current_off_key_state@,
                            device,
                            event_codes(e),
                        ),
                        None => (old(self).keys.current_key_state@, old(self).keys.current_off_key_state@),
                    }
                    &&& final(self).keys.held@ == old(self).keys.held@
                },
                LoopEvent::ChannelEmpty => {
                    let (next, sent) = tick_step(old(self).send);
                    &&& final(self).send == next
                    &&& final(self).axes == old(self).axes
                    &&& a matches LoopAction::EndPoll { keys, mouse } && {
                        &&& keys.releases@.to_set() == old(self).keys.current_off_key_state@
                        &&& keys.releases@.no_duplicates()
                        &&& keys.presses@.to_set() == old(self).keys.current_key_state@
                        &&& keys.presses@.no_duplicates()
                        &&& mouse == if !sent {
                            None
                        } else if old(self).sixaxis {
                            Some(Encoding::SixAxis)
                        } else {
                            Some(Encoding::FiveAxis)
                        }
                    }
                    &&& final(self).keys.current_key_state@ == Set::<u16>::empty()
                    &&& final(self).keys.current_off_key_state@ == Set::<u16>::empty()
                    &&& final(self).keys.held@ == old(self).keys.held@.difference(
                        old(self).keys.current_off_key_state@,
                    ).union(old(self).keys.current_key_state@)
                },
                LoopEvent::Disconnected => {
                    &&& final(self).send == old(self).send
                    &&& final(self).axes == old(self).axes
                    &&& a matches LoopAction::Stop { release, lost_input } && lost_input
                        && release@.to_set() == old(self).keys.held@.union(
                        old(self).keys.current_key_state@,
                    ) && release@.no_duplicates()
                },
            },
    {
        match event {
            LoopEvent::Poll { pressed, shutdown } => {
                self.send.keyboard_update(&pressed);
                if shutdown {
                    LoopAction::Stop { release: self.keys.keys_to_return_to_0(), lost_input: false }
                } else {
                    LoopAction::ReadEvents
                }
            },
            LoopEvent::Received { guid, event: e, value } => {
                let target = apply_input_event(axis_map, key_map, &guid, &e, &mut self.keys);
                match (target, value) {
                    (Some(axis), Some(v)) => self.axes.update_axis_state(&axis, v),
                    _ => {},
                }
                LoopAction::ReadEvents
            },
            LoopEvent::ChannelEmpty => {
                let sent = self.send.tick();
                let keys = self.keys.drain_key_presses();
                let mouse = if !sent {
                    None
                } else if self.sixaxis {
                    Some(Encoding::SixAxis)
                } else {
                    Some(Encoding::FiveAxis)
                };
                LoopAction::EndPoll { keys, mouse }
            },
            LoopEvent::Disconnected => {
                LoopAction::Stop { release: self.keys.keys_to_return_to_0(), lost_input: true }
            },
        }
    }
}

} // verus!

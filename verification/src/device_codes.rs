//! Numbering of game controller axes, buttons and HAT states.
//!
//! Axes and buttons of a game controller get the small numbers that the
//! mapping files use. The space above 128 is reserved for HATs: each HAT owns
//! nine consecutive codes, one for each of its positions.

use vstd::prelude::*;

verus! {

/// The axes of a game controller.
#[derive(Clone, Copy, Debug, PartialEq, Eq, Structural)]
pub enum GamepadAxis {
    LeftX,
    LeftY,
    RightX,
    RightY,
    TriggerLeft,
    TriggerRight,
}

/// The number that the mapping files use for an axis.
pub open spec fn axis_number(axis: GamepadAxis) -> u8 {
    match axis {
        GamepadAxis::LeftX => 0,
        GamepadAxis::LeftY => 1,
        GamepadAxis::RightX => 2,
        GamepadAxis::RightY => 3,
        GamepadAxis::TriggerLeft => 4,
        GamepadAxis::TriggerRight => 5,
    }
}

/// Numbers a controller axis.
pub fn gamepad_axis_number(axis: GamepadAxis) -> (n: u8)
    ensures
        n == axis_number(axis),
{
    match axis {
        GamepadAxis::LeftX => 0,
        GamepadAxis::LeftY => 1,
        GamepadAxis::RightX => 2,
        GamepadAxis::RightY => 3,
        GamepadAxis::TriggerLeft => 4,
        GamepadAxis::TriggerRight => 5,
    }
}


/// The buttons of a game controller.
#[derive(Clone, Copy, Debug, PartialEq, Eq, Structural)]
pub enum GamepadButton {
    A,
    B,
    X,
    Y,
    Back,
    Guide,
    Start,
    LeftStick,
    RightStick,
    LeftShoulder,
    RightShoulder,
    DPadUp,
    DPadDown,
    DPadLeft,
    DPadRight,
    Misc1,
    Paddle1,
    Paddle2,
    Paddle3,
    Paddle4,
    Touchpad,
}

/// The number that the mapping files use for a controller button.
pub open spec fn button_number(button: GamepadButton) -> u8 {
    match button {
        GamepadButton::A => 0,
        GamepadButton::B => 1,
        GamepadButton::X => 2,
        GamepadButton::Y => 3,
        GamepadButton::Back => 6,
        GamepadButton::Guide => 128,
        GamepadButton::Start => 7,
        GamepadButton::LeftStick => 8,
        GamepadButton::RightStick => 9,
        GamepadButton::LeftShoulder => 4,
        GamepadButton::RightShoulder => 5,
        GamepadButton::DPadUp => 10,
        GamepadButton::DPadDown => 11,
        GamepadButton::DPadLeft => 12,
        GamepadButton::DPadRight => 13,
        GamepadButton::Misc1 => 14,
        GamepadButton::Paddle1 => 15,
        GamepadButton::Paddle2 => 16,
        GamepadButton::Paddle3 => 17,
        GamepadButton::Paddle4 => 18,
        GamepadButton::Touchpad => 19,
    }
}

/// Numbers a controller button.
pub fn gamepad_button_number(button: GamepadButton) -> (n: u8)
    ensures
        n == button_number(button),
{
    match button {
        GamepadButton::A => 0,
        GamepadButton::B => 1,
        GamepadButton::X => 2,
        GamepadButton::Y => 3,
        GamepadButton::Back => 6,
        GamepadButton::Guide => 128,
        GamepadButton::Start => 7,
        GamepadButton::LeftStick => 8,
        GamepadButton::RightStick => 9,
        GamepadButton::LeftShoulder => 4,
        GamepadButton::RightShoulder => 5,
        GamepadButton::DPadUp => 10,
        GamepadButton::DPadDown => 11,
        GamepadButton::DPadLeft => 12,
        GamepadButton::DPadRight => 13,
        GamepadButton::Misc1 => 14,
        GamepadButton::Paddle1 => 15,
        GamepadButton::Paddle2 => 16,
        GamepadButton::Paddle3 => 17,
        GamepadButton::Paddle4 => 18,
        GamepadButton::Touchpad => 19,
    }
}

/// The positions of a HAT (an eight way switch with a rest position).
#[derive(Clone, Copy, Debug, PartialEq, Eq, Structural)]
pub enum HatPosition {
    Centered,
    Up,
    Right,
    Down,
    Left,
    RightUp,
    RightDown,
    LeftUp,
    LeftDown,
}

/// The offset of a HAT position inside the nine codes of its HAT.
pub open spec fn hat_offset(state: HatPosition) -> int {
    match state {
        HatPosition::Centered => 0,
        HatPosition::Up => 1,
        HatPosition::Right => 2,
        HatPosition::Down => 3,
        HatPosition::Left => 4,
        HatPosition::RightUp => 5,
        HatPosition::RightDown => 6,
        HatPosition::LeftUp => 7,
        HatPosition::LeftDown => 8,
    }
}

/// The highest HAT index whose nine codes still fit below 256.
pub const MAX_HAT_INDEX: u8 = 13;

/// The first of the nine codes of a HAT.
pub open spec fn hat_base(hat_idx: u8) -> int {
    129 + 9 * hat_idx
}

/// The codes of a HAT in a reading: each of its nine codes paired with
/// whether it is the active one.
pub open spec fn hat_codes(hat_idx: u8, state: HatPosition) -> Seq<(u8, bool)> {
    Seq::new(9, |k: int| ((hat_base(hat_idx) + k) as u8, k == hat_offset(state)))
}

/// Turns a HAT reading into button codes.
///
/// HAT `hat_idx` owns the codes `129 + 9 * hat_idx` to `137 + 9 * hat_idx`,
/// one for each position. The code of the position read is active, the other
/// eight are released; the centered position has a code of its own too.
pub fn get_hat_numbers(hat_idx: u8, state: HatPosition) -> (codes: Vec<(u8, bool)>)
    requires
        hat_idx <= MAX_HAT_INDEX,
    ensures
        codes@ == hat_codes(hat_idx, state),
        codes@.len() == 9,
        forall|k: int| 0 <= k < 9 ==> #[trigger] codes@[k].0 == 129 + 9 * hat_idx + k,
        codes@[0].1 == (state == HatPosition::Centered),
        codes@[1].1 == (state == HatPosition::Up),
        codes@[2].1 == (state == HatPosition::Right),
        codes@[3].1 == (state == HatPosition::Down),
        codes@[4].1 == (state == HatPosition::Left),
        codes@[5].1 == (state == HatPosition::RightUp),
        codes@[6].1 == (state == HatPosition::RightDown),
        codes@[7].1 == (state == HatPosition::LeftUp),
        codes@[8].1 == (state == HatPosition::LeftDown),
{
    proof {
        lemma_hat_position_codes(hat_idx, state);
    }
    let base: u8 = 129 + hat_idx * 9;
    let active: u8 = match state {
        HatPosition::Centered => 0,
        HatPosition::Up => 1,
        HatPosition::Right => 2,
        HatPosition::Down => 3,
        HatPosition::Left => 4,
        HatPosition::RightUp => 5,
        HatPosition::RightDown => 6,
        HatPosition::LeftUp => 7,
        HatPosition::LeftDown => 8,
    };
    let mut codes: Vec<(u8, bool)> = Vec::new();
    let mut k: u8 = 0;
    while k < 9
        invariant
            k <= 9,
            base == hat_base(hat_idx),
            base <= 246,
            active == hat_offset(state),
            codes@.len() == k,
            forall|j: int| 0 <= j < k ==> codes@[j] == hat_codes(hat_idx, state)[j],
        decreases 9 - k,
    {
        codes.push((base + k, k == active));
        k = k + 1;
    }
    assert(codes@ =~= hat_codes(hat_idx, state));
    codes
}

/// Two different axes never share a number.
pub proof fn lemma_axis_numbers_distinct(a: GamepadAxis, b: GamepadAxis)
    requires
        a != b,
    ensures
        axis_number(a) != axis_number(b),
{
}

/// Two different buttons never share a number, and no button number reaches
/// into the codes above 128 that are kept for HATs.
pub proof fn lemma_button_numbers_distinct(a: GamepadButton, b: GamepadButton)
    ensures
        a != b ==> button_number(a) != button_number(b),
        button_number(a) <= 128,
{
}

/// A HAT reading has nine codes, all above every button number, and exactly
/// the code of the position read is active.
pub proof fn lemma_hat_codes_shape(hat_idx: u8, state: HatPosition)
    requires
        hat_idx <= MAX_HAT_INDEX,
    ensures
        hat_codes(hat_idx, state).len() == 9,
        forall|k: int|
            0 <= k < 9 ==> 128 < #[trigger] hat_codes(hat_idx, state)[k].0 as int,
        forall|k: int|
            0 <= k < 9 ==> (#[trigger] hat_codes(hat_idx, state)[k].1 <==> k == hat_offset(state)),
{
}

/// The code of each HAT position: the HAT's base code plus 0 for centered, 1
/// up, 2 right, 3 down, 4 left, 5 right-up, 6 right-down, 7 left-up and 8
/// left-down; that code is active and no other.
pub proof fn lemma_hat_position_codes(hat_idx: u8, state: HatPosition)
    requires
        hat_idx <= MAX_HAT_INDEX,
    ensures
        hat_codes(hat_idx, state).len() == 9,
        forall|k: int| 0 <= k < 9 ==> #[trigger] hat_codes(hat_idx, state)[k].0 == 129 + 9 * hat_idx + k,
        hat_codes(hat_idx, state)[0].1 == (state == HatPosition::Centered),
        hat_codes(hat_idx, state)[1].1 == (state == HatPosition::Up),
        hat_codes(hat_idx, state)[2].1 == (state == HatPosition::Right),
        hat_codes(hat_idx, state)[3].1 == (state == HatPosition::Down),
        hat_codes(hat_idx, state)[4].1 == (state == HatPosition::Left),
        hat_codes(hat_idx, state)[5].1 == (state == HatPosition::RightUp),
        hat_codes(hat_idx, state)[6].1 == (state == HatPosition::RightDown),
        hat_codes(hat_idx, state)[7].1 == (state == HatPosition::LeftUp),
        hat_codes(hat_idx, state)[8].1 == (state == HatPosition::LeftDown),
{
}

/// The codes of two different HATs never overlap, and the nine codes of one
/// HAT are pairwise different.
pub proof fn lemma_hat_codes_disjoint(h1: u8, h2: u8, s1: HatPosition, s2: HatPosition, i: int, j: int)
    requires
        h1 <= MAX_HAT_INDEX,
        h2 <= MAX_HAT_INDEX,
        0 <= i < 9,
        0 <= j < 9,
        h1 != h2 || i != j,
    ensures
        hat_codes(h1, s1)[i].0 != hat_codes(h2, s2)[j].0,
{
    assert(hat_codes(h1, s1)[i].0 == 129 + 9 * h1 + i);
    assert(hat_codes(h2, s2)[j].0 == 129 + 9 * h2 + j);
    if h1 < h2 {
        assert(9 * h1 + 9 <= 9 * h2);
    } else if h2 < h1 {
        assert(9 * h2 + 9 <= 9 * h1);
    }
}

} // verus!

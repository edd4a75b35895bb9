//! The state of the input axes, and how their quantized values are packed
//! into one relative mouse movement per mouse axis.
//!
//! Each mouse axis carries a canary bit above all axis fields. The receiving
//! side accepts a reading only while the canary bit is the highest bit set,
//! which drops readings of zero and readings that the game multiplied.

use vstd::prelude::*;
use crate::mapping::AxisVariations;

verus! {

/// The current value of every input axis. Lesser axes (triggers, throttles)
/// only carry magnitudes; the other axes carry both directions.
#[derive(Clone, Copy, Debug)]
pub struct SelfMadeAxis<T> {
    pub x_axis1: T,
    pub x_axis2: T,
    pub y_axis1: T,
    pub y_axis2: T,
    pub z_axis1: T,
    pub z_axis2: T,
    pub lesser_axis1: T,
    pub lesser_axis2: T,
    pub debug: bool,
}

impl<T: Copy> SelfMadeAxis<T> {
    /// The value of an input axis; `Nothing` has none.
    pub open spec fn axis_value(self, axis: AxisVariations) -> Option<T> {
        match axis {
            AxisVariations::XAxis1 => Some(self.x_axis1),
            AxisVariations::XAxis2 => Some(self.x_axis2),
            AxisVariations::YAxis1 => Some(self.y_axis1),
            AxisVariations::YAxis2 => Some(self.y_axis2),
            AxisVariations::ZAxis1 => Some(self.z_axis1),
            AxisVariations::ZAxis2 => Some(self.z_axis2),
            AxisVariations::LesserAxis1 => Some(self.lesser_axis1),
            AxisVariations::LesserAxis2 => Some(self.lesser_axis2),
            AxisVariations::Nothing => None,
        }
    }

    /// The state with one input axis set to `value`.
    pub open spec fn with_axis(self, axis: AxisVariations, value: T) -> SelfMadeAxis<T> {
        match axis {
            AxisVariations::XAxis1 => SelfMadeAxis { x_axis1: value, ..self },
            AxisVariations::XAxis2 => SelfMadeAxis { x_axis2: value, ..self },
            AxisVariations::YAxis1 => SelfMadeAxis { y_axis1: value, ..self },
            AxisVariations::YAxis2 => SelfMadeAxis { y_axis2: value, ..self },
            AxisVariations::ZAxis1 => SelfMadeAxis { z_axis1: value, ..self },
            AxisVariations::ZAxis2 => SelfMadeAxis { z_axis2: value, ..self },
            AxisVariations::LesserAxis1 => SelfMadeAxis { lesser_axis1: value, ..self },
            AxisVariations::LesserAxis2 => SelfMadeAxis { lesser_axis2: value, ..self },
            AxisVariations::Nothing => self,
        }
    }

    /// All axes at `rest`, with debugging off.
    pub fn new(rest: T) -> (s: SelfMadeAxis<T>)
        ensures
            s.x_axis1 == rest,
            s.x_axis2 == rest,
            s.y_axis1 == rest,
            s.y_axis2 == rest,
            s.z_axis1 == rest,
            s.z_axis2 == rest,
            s.lesser_axis1 == rest,
            s.lesser_axis2 == rest,
            !s.debug,
    {
        SelfMadeAxis {
            x_axis1: rest,
            x_axis2: rest,
            y_axis1: rest,
            y_axis2: rest,
            z_axis1: rest,
            z_axis2: rest,
            lesser_axis1: rest,
            lesser_axis2: rest,
            debug: false,
        }
    }

    /// Switches debugging on or off, and tells whether it is now on.
    pub fn toggle_debug(&mut self) -> (on: bool)
        ensures
            *final(self) == (SelfMadeAxis { debug: !old(self).debug, ..*old(self) }),
            on == final(self).debug,
    {
        self.debug = !self.debug;
        self.debug
    }

    /// Sets the input axis that a device axis is mapped to.
    pub fn update_axis_state(&mut self, axis: &AxisVariations, value: T)
        ensures
            *final(self) == old(self).with_axis(*axis, value),
    {
        match axis {
            AxisVariations::XAxis1 => self.x_axis1 = value,
            AxisVariations::XAxis2 => self.x_axis2 = value,
            AxisVariations::YAxis1 => self.y_axis1 = value,
            AxisVariations::YAxis2 => self.y_axis2 = value,
            AxisVariations::ZAxis1 => self.z_axis1 = value,
            AxisVariations::ZAxis2 => self.z_axis2 = value,
            AxisVariations::LesserAxis1 => self.lesser_axis1 = value,
            AxisVariations::LesserAxis2 => self.lesser_axis2 = value,
            AxisVariations::Nothing => {},
        }
    }
}

/// Setting an input axis changes that axis and no other; `Nothing` changes
/// nothing.
pub proof fn lemma_update_reads_back<T: Copy>(
    s: SelfMadeAxis<T>,
    axis: AxisVariations,
    value: T,
    other: AxisVariations,
)
    ensures
        axis != AxisVariations::Nothing ==> s.with_axis(axis, value).axis_value(axis) == Some(value),
        other != axis ==> s.with_axis(axis, value).axis_value(other) == s.axis_value(other),
        s.with_axis(axis, value).debug == s.debug,
        s.with_axis(AxisVariations::Nothing, value) == s,
{
}

/// Switching debugging twice gives the state back.
pub proof fn lemma_toggle_debug_twice<T: Copy>(s: SelfMadeAxis<T>)
    ensures
        (SelfMadeAxis { debug: !(SelfMadeAxis { debug: !s.debug, ..s }).debug, ..s }) == s,
{
}

/// The canary bit of the five axis encoding.
pub const CANARY_5AXIS: i32 = 4194304;

/// The canary bit of the six axis encoding.
pub const CANARY_6AXIS: i32 = 2097152;

/// The largest quantized field that `pack_5axis` and `pack_6axis` take.
pub const MAX_FIELD: i32 = 65535;

/// One mouse axis of the five axis encoding: the canary, the lesser axis in
/// the lowest bits, the first axis from bit 6 and the second axis from bit 14.
pub open spec fn packed_5axis(lesser: int, axis2: int, axis1: int) -> int {
    CANARY_5AXIS + lesser + axis2 * 16384 + axis1 * 64
}

/// One mouse axis of the six axis encoding: the canary, the z axis in the
/// lowest bits, the first axis from bit 7 and the second axis from bit 14.
pub open spec fn packed_6axis(z: int, axis2: int, axis1: int) -> int {
    CANARY_6AXIS + z + axis2 * 16384 + axis1 * 128
}

/// Packs the quantized lesser, second and first axis of one mouse axis for
/// five axis devices (gamepads).
pub fn pack_5axis(lesser: i32, axis2: i32, axis1: i32) -> (m: i32)
    requires
        0 <= lesser <= MAX_FIELD,
        0 <= axis2 <= MAX_FIELD,
        0 <= axis1 <= MAX_FIELD,
    ensures
        m == packed_5axis(lesser as int, axis2 as int, axis1 as int),
{
    assert(lesser << 0i32 == lesser) by (bit_vector)
        requires
            0 <= lesser <= 65535,
    ;
    assert(axis2 << 14i32 == axis2 * 16384) by (bit_vector)
        requires
            0 <= axis2 <= 65535,
    ;
    assert(axis1 << 6i32 == axis1 * 64) by (bit_vector)
        requires
            0 <= axis1 <= 65535,
    ;
    let mut m: i32 = CANARY_5AXIS;
    m += lesser << 0i32;
    m += axis2 << 14i32;
    m += axis1 << 6i32;
    m
}

/// Packs the quantized z, second and first axis of one mouse axis for six
/// axis devices (joysticks).
pub fn pack_6axis(z: i32, axis2: i32, axis1: i32) -> (m: i32)
    requires
        0 <= z <= MAX_FIELD,
        0 <= axis2 <= MAX_FIELD,
        0 <= axis1 <= MAX_FIELD,
    ensures
        m == packed_6axis(z as int, axis2 as int, axis1 as int),
{
    assert(z << 0i32 == z) by (bit_vector)
        requires
            0 <= z <= 65535,
    ;
    assert(axis2 << 14i32 == axis2 * 16384) by (bit_vector)
        requires
            0 <= axis2 <= 65535,
    ;
    assert(axis1 << 7i32 == axis1 * 128) by (bit_vector)
        requires
            0 <= axis1 <= 65535,
    ;
    let mut m: i32 = CANARY_6AXIS;
    m += z << 0i32;
    m += axis2 << 14i32;
    m += axis1 << 7i32;
    m
}

/// The receiving side keeps a reading only while the canary bit is its
/// highest bit.
pub open spec fn canary_accepts(reading: int, canary: int) -> bool {
    canary <= reading < 2 * canary
}

/// With every field in its range (lesser axis 0 to 63, the other axes 0 to
/// 255), the five axis encoding is accepted, each field can be read back from
/// its bits, and a reading of zero or of a multiple of two or more is
/// rejected.
pub proof fn lemma_5axis_decodes(lesser: int, axis2: int, axis1: int, k: int)
    requires
        0 <= lesser < 64,
        0 <= axis2 < 256,
        0 <= axis1 < 256,
        k == 0 || k >= 2,
    ensures
        canary_accepts(packed_5axis(lesser, axis2, axis1), CANARY_5AXIS as int),
        packed_5axis(lesser, axis2, axis1) % 64 == lesser,
        (packed_5axis(lesser, axis2, axis1) / 64) % 256 == axis1,
        (packed_5axis(lesser, axis2, axis1) / 16384) % 256 == axis2,
        !canary_accepts(k * packed_5axis(lesser, axis2, axis1), CANARY_5AXIS as int),
{
    let m = packed_5axis(lesser, axis2, axis1);
    assert(m == 4194304 + lesser + axis2 * 16384 + axis1 * 64);
    assert(m % 64 == lesser && (m / 64) % 256 == axis1 && (m / 16384) % 256 == axis2) by (nonlinear_arith)
        requires
            m == 4194304 + lesser + axis2 * 16384 + axis1 * 64,
            0 <= lesser < 64,
            0 <= axis2 < 256,
            0 <= axis1 < 256,
    ;
    assert(k * m == 0 || k * m >= 2 * m) by (nonlinear_arith)
        requires
            k == 0 || k >= 2,
            m >= 0,
    ;
}

/// With every field in its range (0 to 127 each), the six axis encoding is
/// accepted, each field can be read back from its bits, and a reading of zero
/// or of a multiple of two or more is rejected.
pub proof fn lemma_6axis_decodes(z: int, axis2: int, axis1: int, k: int)
    requires
        0 <= z < 128,
        0 <= axis2 < 128,
        0 <= axis1 < 128,
        k == 0 || k >= 2,
    ensures
        canary_accepts(packed_6axis(z, axis2, axis1), CANARY_6AXIS as int),
        packed_6axis(z, axis2, axis1) % 128 == z,
        (packed_6axis(z, axis2, axis1) / 128) % 128 == axis1,
        (packed_6axis(z, axis2, axis1) / 16384) % 128 == axis2,
        !canary_accepts(k * packed_6axis(z, axis2, axis1), CANARY_6AXIS as int),
{
    let m = packed_6axis(z, axis2, axis1);
    assert(m == 2097152 + z + axis2 * 16384 + axis1 * 128);
    assert(m % 128 == z && (m / 128) % 128 == axis1 && (m / 16384) % 128 == axis2) by (nonlinear_arith)
        requires
            m == 2097152 + z + axis2 * 16384 + axis1 * 128,
            0 <= z < 128,
            0 <= axis2 < 128,
            0 <= axis1 < 128,
    ;
    assert(k * m == 0 || k * m >= 2 * m) by (nonlinear_arith)
        requires
            k == 0 || k >= 2,
            m >= 0,
    ;
}

} // verus!

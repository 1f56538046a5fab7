//! Status LED colors and the pulse pattern they expand to.
//!
//! The LED driver writes a 24-bit color code out as one pulse pair per bit;
//! the bit extraction is computed here, the pulse hardware lives in the
//! unverified shell.

use vstd::prelude::*;

verus! {

#[derive(Debug, Clone, Copy, PartialEq, Eq, Structural)]
pub enum StatColor {
    Red,
    Green,
    Blue,
    Black,
}

/// The 24-bit color code each status color drives the LED with.
pub open spec fn color_code(c: StatColor) -> u32 {
    match c {
        StatColor::Red => 0x99_00_00u32,
        StatColor::Green => 0x00_99_00u32,
        StatColor::Blue => 0x00_00_99u32,
        StatColor::Black => 0x00_00_00u32,
    }
}

impl core::convert::From<StatColor> for u32 {
    fn from(c: StatColor) -> (r: u32)
        ensures
            r == color_code(c),
    {
        match c {
            StatColor::Red => 0x99_00_00u32,
            StatColor::Green => 0x00_99_00u32,
            StatColor::Blue => 0x00_00_99u32,
            StatColor::Black => 0x00_00_00u32,
        }
    }
}

impl vstd::std_specs::convert::FromSpecImpl<StatColor> for u32 {
    open spec fn obeys_from_spec() -> bool {
        true
    }

    open spec fn from_spec(c: StatColor) -> u32 {
        color_code(c)
    }
}

/// Whether bit `i` of the color code is driven high.
pub open spec fn color_bit(rgb: u32, i: int) -> bool {
    (rgb >> (i as u32)) & 1 == 1
}

/// The 24 bit levels of a color code, least significant first: one entry per
/// pulse pair the LED driver emits.
pub fn color_bits(rgb: u32) -> (v: Vec<bool>)
    ensures
        v@.len() == 24,
        forall|i: int| 0 <= i < 24 ==> v@[i] == color_bit(rgb, i),
{
    let mut v: Vec<bool> = Vec::new();
    let mut i: u32 = 0;
    while i < 24
        invariant
            i <= 24,
            v@.len() == i,
            forall|j: int| 0 <= j < i ==> v@[j] == color_bit(rgb, j),
        decreases 24 - i,
    {
        v.push((rgb >> i) & 1 == 1);
        i = i + 1;
    }
    v
}

/// Relies on core::time::Duration::from_nanos, for the LED pulse timings.
#[verifier::external_body]
pub fn ns(nanos: u64) -> core::time::Duration {
    core::time::Duration::from_nanos(nanos)
}

} // verus!

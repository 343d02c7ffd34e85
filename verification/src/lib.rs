//! Maps a CSS `z-index` (a 32-bit signed integer) onto the bit pattern of an
//! IEEE-754 single-precision value in `[0.0, 1.0]`, preserving strict order.
//!
//! A naive linear division of a 32-bit range into a 24-bit mantissa space loses
//! precision catastrophically near either end. Instead, the supported domain is
//! split into three contiguous partitions (lower / middle / upper); each
//! partition's outputs are drawn from one power-of-two "octave" of subnormal
//! steps below an anchor. Decrementing the raw bit pattern of a positive
//! finite single-precision value by one yields the next smaller representable
//! positive value, so stepping the anchor's bit pattern down walks through
//! strictly decreasing, densely packed floats.
//!
//! Everything here is integer arithmetic on bit patterns, stated and proved
//! exactly. A caller that wants the float itself reinterprets the returned
//! `u32` with `f32::from_bits`; on patterns with a clear sign bit (all patterns
//! returned here are at most [`BITS_OF_ONE`]) that reinterpretation is strictly
//! increasing, so every ordering fact proved about the bit patterns holds of
//! the floats as well.

use vstd::prelude::*;

pub mod normalizer;
pub mod ranges;

verus! {

/// The largest CSS z-index.
pub const MAX_CSS_Z: i32 = 2_147_483_647;

/// The number of representable subnormal steps per octave: 2^23.
pub const MANTISSA: i32 = 8_388_608;

/// Default upper partition: `[RANGE_UPPER_L, RANGE_UPPER_U]`.
pub const RANGE_UPPER_U: i32 = MAX_CSS_Z;
pub const RANGE_UPPER_L: i32 = MAX_CSS_Z - MANTISSA + 1;

/// Default middle partition: `[RANGE_MIDDLE_L, RANGE_MIDDLE_U]`,
/// half a mantissa span on either side of zero.
pub const RANGE_MIDDLE_U: i32 = 4_194_304;
pub const RANGE_MIDDLE_L: i32 = -4_194_303;

/// Default lower partition: `[RANGE_LOWER_L, RANGE_LOWER_U]`.
pub const RANGE_LOWER_U: i32 = -MAX_CSS_Z + MANTISSA;
pub const RANGE_LOWER_L: i32 = -MAX_CSS_Z;

/// IEEE-754 single-precision bit pattern of `1.0` (127 · 2^23).
pub const BITS_OF_ONE: u32 = 1_065_353_216;

/// IEEE-754 single-precision bit pattern of `0.5` (126 · 2^23).
pub const BITS_OF_HALF: u32 = 1_056_964_608;

/// IEEE-754 single-precision bit pattern of `0.25` (125 · 2^23).
pub const BITS_OF_QUARTER: u32 = 1_048_576_000;

/// What `normalize` returns, as a mathematical function of `z`.
///
/// The two global endpoints map to the exact patterns of `0.0` and `1.0`.
/// Interior values of a partition map to the anchor pattern of that
/// partition's octave (`0.25`, `0.5` or `1.0`) minus the distance from the
/// partition's upper bound, so within each partition the pattern grows by
/// exactly one elementary step per integer.
pub open spec fn normalize_spec(z: int) -> Option<u32> {
    if z == RANGE_LOWER_L {
        Some(0u32)
    } else if z == RANGE_UPPER_U {
        Some(BITS_OF_ONE)
    } else if RANGE_LOWER_L <= z && z <= RANGE_LOWER_U {
        Some((BITS_OF_QUARTER - (RANGE_LOWER_U - z)) as u32)
    } else if RANGE_MIDDLE_L <= z && z <= RANGE_MIDDLE_U {
        Some((BITS_OF_HALF - (RANGE_MIDDLE_U - z)) as u32)
    } else if RANGE_UPPER_L <= z && z <= RANGE_UPPER_U {
        Some((BITS_OF_ONE - (RANGE_UPPER_U - z)) as u32)
    } else {
        None
    }
}

/// Returns the bit pattern that sits `upper - z` elementary steps below the
/// normal anchor `2^(-exp_offset)`, the anchor pattern being
/// `(127 - exp_offset) · 2^23`.
fn steps_below(z: i32, upper: i32, exp_offset: i32) -> (r: u32)
    requires
        0 <= exp_offset <= 2,
        z <= upper,
        upper - z < MANTISSA,
    ensures
        r == (127 - exp_offset) * 0x80_0000 - (upper - z),
{
    let diff = upper - z;
    let quo = diff / MANTISSA;
    let rem = diff % MANTISSA;
    assert(quo == 0 && rem == diff);
    let exp: u32 = (127 - quo - exp_offset) as u32;
    exp * 0x80_0000 - (rem as u32)
}

/// Normalizes a CSS z-index over the default partitions, returning the
/// IEEE-754 single-precision bit pattern of a value in `[0.0, 1.0]`, or
/// `None` when `z` lies outside all three default partitions.
pub fn normalize(z: i32) -> (r: Option<u32>)
    ensures
        r == normalize_spec(z as int),
{
    if z == RANGE_LOWER_L {
        Some(0)
    } else if z == RANGE_UPPER_U {
        Some(BITS_OF_ONE)
    } else if RANGE_LOWER_L <= z && z <= RANGE_LOWER_U {
        Some(steps_below(z, RANGE_LOWER_U, 2))
    } else if RANGE_MIDDLE_L <= z && z <= RANGE_MIDDLE_U {
        Some(steps_below(z, RANGE_MIDDLE_U, 1))
    } else if RANGE_UPPER_L <= z && z <= RANGE_UPPER_U {
        Some(steps_below(z, RANGE_UPPER_U, 0))
    } else {
        None
    }
}

/// Over the default partitions, larger supported z-indexes yield strictly
/// larger bit patterns (and hence strictly larger floats).
pub proof fn lemma_normalize_monotonic(z1: int, z2: int)
    requires
        z1 < z2,
        normalize_spec(z1) is Some,
        normalize_spec(z2) is Some,
    ensures
        normalize_spec(z1)->Some_0 < normalize_spec(z2)->Some_0,
{
}

} // verus!

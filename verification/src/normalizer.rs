//! The partition-configurable normalizer.
//!
//! A [`Normalizer`] owns a validated partition configuration and maps each
//! supported z-index to the IEEE-754 single-precision bit pattern of a value
//! in `[0.0, 1.0]`. The two global extremes map to the exact patterns of
//! `0.0` and `1.0`; every other supported value is ranked by its ordinal
//! offset within the partitions and stepped down from a power-of-two anchor.

use vstd::prelude::*;

use crate::ranges::{LMU, Ranges};
use crate::{BITS_OF_HALF, BITS_OF_ONE, BITS_OF_QUARTER, MANTISSA};

verus! {

/// The number of distinct z-index values any configuration may support:
/// three octaves of subnormal steps plus one extra for the exact endpoints.
pub const NUM_OF_SUPPORTED_Z: i32 = MANTISSA * 3 + 1;

/// A stateless normalizer: a partition configuration owned read-only.
pub struct Normalizer {
    pub ranges: LMU,
    pub div_lm: i32,
    pub div_u: i32,
    pub offset_1: i32,
    pub offset_2: i32,
    pub first: i32,
    pub last: i32,
}

impl Normalizer {
    /// The combined inclusive length of the three partitions.
    pub open spec fn total_spec(self) -> int {
        self.ranges.0.len_spec() + self.ranges.1.len_spec() + self.ranges.2.len_spec()
    }

    /// The normalizer built over a configuration: a field-for-field copy.
    pub open spec fn from_config(c: Ranges) -> Normalizer {
        Normalizer {
            ranges: c.ranges,
            div_lm: c.div_lm,
            div_u: c.div_u,
            offset_1: c.offset_1,
            offset_2: c.offset_2,
            first: c.first,
            last: c.last,
        }
    }

    /// Mirrors [`Ranges::wf`] on the copied fields.
    pub open spec fn wf(self) -> bool {
        let l = self.ranges.0;
        let m = self.ranges.1;
        let u = self.ranges.2;
        &&& l.wf()
        &&& m.wf()
        &&& u.wf()
        &&& l.end <= m.start
        &&& m.end <= u.start
        &&& self.first == l.start
        &&& self.last == u.end
        &&& self.offset_1 == l.len_spec()
        &&& self.offset_2 == l.len_spec() + m.len_spec()
        &&& 1 <= self.div_lm <= MANTISSA
        &&& 1 <= self.div_u <= MANTISSA + 1
        &&& self.total_spec() <= NUM_OF_SUPPORTED_Z
        &&& self.total_spec() <= 2 * self.div_lm + self.div_u + 1
    }

    /// Whether some partition contains `z`.
    pub open spec fn in_ranges(self, z: int) -> bool {
        ||| self.ranges.0.contains_spec(z)
        ||| self.ranges.1.contains_spec(z)
        ||| self.ranges.2.contains_spec(z)
    }

    /// The ordinal offset of `z`: its distance from the start of the first
    /// partition containing it, plus the cumulative length of the partitions
    /// below — a single index into the supported domain, ascending in `z`.
    pub open spec fn rank(self, z: int) -> int {
        if self.ranges.0.contains_spec(z) {
            z - self.ranges.0.start
        } else if self.ranges.1.contains_spec(z) {
            self.offset_1 + z - self.ranges.1.start
        } else {
            self.offset_2 + z - self.ranges.2.start
        }
    }

    /// The bit pattern for ordinal offset `n`: the anchor pattern of the
    /// octave that `n` falls in (`0.25`, `0.5` or `1.0`), minus the number of
    /// elementary steps that remain to the top of that octave.
    pub open spec fn bits_for(self, n: int) -> int {
        if n < self.div_lm {
            BITS_OF_QUARTER - (self.div_lm - n)
        } else if n < 2 * self.div_lm {
            BITS_OF_HALF - (2 * self.div_lm - n)
        } else {
            BITS_OF_ONE - (self.div_u - (n - 2 * self.div_lm))
        }
    }

    /// The supported domain: the two extremes and the partition union.
    pub open spec fn supported(self, z: int) -> bool {
        z == self.first || z == self.last || self.in_ranges(z)
    }

    /// What `calc` returns, as a mathematical function of the configuration
    /// and `z`.
    pub open spec fn calc_spec(self, z: int) -> Option<u32> {
        if z == self.first {
            Some(0u32)
        } else if z == self.last {
            Some(BITS_OF_ONE)
        } else if self.in_ranges(z) {
            Some(self.bits_for(self.rank(z)) as u32)
        } else {
            None
        }
    }

    /// Builds a normalizer over the given configuration, or over the built-in
    /// default one when none is given.
    pub fn new(ranges: Option<Ranges>) -> (r: Self)
        requires
            ranges matches Some(c) ==> c.wf(),
        ensures
            r.wf(),
            ranges matches Some(c) ==> r == Normalizer::from_config(c),
            ranges is None ==> r == Normalizer::from_config(Ranges::default_config()),
    {
        match ranges {
            Some(c) => Normalizer::from(c),
            None => Normalizer::from(Ranges::default()),
        }
    }

    /// Normalizes a z-index over the owned configuration, returning the
    /// IEEE-754 single-precision bit pattern of a value in `[0.0, 1.0]`, or
    /// `None` when `z` lies outside the supported domain.
    pub fn calc(&self, z: i32) -> (r: Option<u32>)
        requires
            self.wf(),
        ensures
            r == self.calc_spec(z as int),
    {
        if z == self.first {
            Some(0)
        } else if z == self.last {
            Some(BITS_OF_ONE)
        } else if self.ranges.0.contains(z) {
            let n = z - self.ranges.0.start;
            Some(self.nth_pattern(n))
        } else if self.ranges.1.contains(z) {
            let n = z - self.ranges.1.start + self.offset_1;
            Some(self.nth_pattern(n))
        } else if self.ranges.2.contains(z) {
            let n = z - self.ranges.2.start + self.offset_2;
            Some(self.nth_pattern(n))
        } else {
            None
        }
    }

    /// The bit pattern for ordinal offset `n`, dispatched to the octave that
    /// `n` falls in.
    fn nth_pattern(&self, n: i32) -> (r: u32)
        requires
            self.wf(),
            0 <= n <= self.total_spec() - 2,
        ensures
            r == self.bits_for(n as int),
    {
        let bound_mu = 2 * self.div_lm;
        if n < self.div_lm {
            nth_subnormal(n, self.div_lm, -2)
        } else if n < bound_mu {
            nth_subnormal(n - self.div_lm, self.div_lm, -1)
        } else {
            nth_subnormal(n - bound_mu, self.div_u, 0)
        }
    }
}

/// Returns the pattern `div - (n % div)` elementary steps below the normal
/// anchor `2^p`, the anchor pattern being `(127 + p) · 2^23`.
fn nth_subnormal(n: i32, div: i32, p: i32) -> (r: u32)
    requires
        -2 <= p <= 0,
        1 <= div <= MANTISSA + 1,
        0 <= n < div,
    ensures
        r == (127 + p) * 0x80_0000 - (div - n),
{
    let rem = n % div;
    proof {
        vstd::arithmetic::div_mod::lemma_small_mod(n as nat, div as nat);
    }
    assert(rem == n);
    let exp: u32 = (127 + p) as u32;
    exp * 0x80_0000 - ((div - rem) as u32)
}

impl From<Ranges> for Normalizer {
    fn from(ranges: Ranges) -> (r: Self) {
        Normalizer {
            ranges: ranges.ranges,
            div_lm: ranges.div_lm,
            div_u: ranges.div_u,
            offset_1: ranges.offset_1,
            offset_2: ranges.offset_2,
            first: ranges.first,
            last: ranges.last,
        }
    }
}

impl vstd::std_specs::convert::FromSpecImpl<Ranges> for Normalizer {
    open spec fn obeys_from_spec() -> bool {
        true
    }

    open spec fn from_spec(t: Ranges) -> Normalizer {
        Normalizer::from_config(t)
    }
}

/// Interior ordinals — those of supported values other than the two
/// extremes — lie strictly between the first and the last ordinal.
proof fn lemma_rank_bounds(nz: Normalizer, z: int)
    requires
        nz.wf(),
        nz.in_ranges(z),
        z != nz.first,
        z != nz.last,
    ensures
        1 <= nz.rank(z) <= nz.total_spec() - 2,
{
}

/// The ordinal offset is strictly ascending over the partition union.
proof fn lemma_rank_monotonic(nz: Normalizer, z1: int, z2: int)
    requires
        nz.wf(),
        nz.in_ranges(z1),
        nz.in_ranges(z2),
        z1 < z2,
    ensures
        nz.rank(z1) < nz.rank(z2),
{
}

/// Interior ordinals map to patterns strictly between those of `0.0` and
/// `1.0`.
proof fn lemma_bits_bounds(nz: Normalizer, n: int)
    requires
        nz.wf(),
        0 <= n <= nz.total_spec() - 2,
    ensures
        0 < nz.bits_for(n) < BITS_OF_ONE,
{
}

/// With divisors of at most one octave, the pattern grows strictly with the
/// ordinal — both inside each octave and across the two octave seams.
proof fn lemma_bits_monotonic(nz: Normalizer, n1: int, n2: int)
    requires
        nz.wf(),
        nz.div_u <= MANTISSA,
        0 <= n1 < n2 <= nz.total_spec() - 2,
    ensures
        nz.bits_for(n1) < nz.bits_for(n2),
{
}

/// Monotonicity: over any well-formed configuration whose upper divisor does
/// not exceed one octave of steps, two supported z-indexes in ascending order
/// map to strictly ascending bit patterns — and so, after `f32::from_bits`,
/// to strictly ascending floats.
///
/// The divisor bound holds of the built-in default configuration and of
/// every built configuration except those whose combined length rounds the
/// upper divisor past a full octave.
pub proof fn lemma_calc_monotonic(nz: Normalizer, z1: int, z2: int)
    requires
        nz.wf(),
        nz.div_u <= MANTISSA,
        z1 < z2,
        nz.calc_spec(z1) is Some,
        nz.calc_spec(z2) is Some,
    ensures
        nz.calc_spec(z1)->Some_0 < nz.calc_spec(z2)->Some_0,
{
    if z1 == nz.first {
        if z2 != nz.last && nz.in_ranges(z2) {
            lemma_rank_bounds(nz, z2);
            lemma_bits_bounds(nz, nz.rank(z2));
        }
    } else if z1 == nz.last {
        assert(false);
    } else {
        lemma_rank_bounds(nz, z1);
        lemma_bits_bounds(nz, nz.rank(z1));
        if z2 != nz.first && z2 != nz.last {
            lemma_rank_bounds(nz, z2);
            lemma_bits_bounds(nz, nz.rank(z2));
            lemma_rank_monotonic(nz, z1, z2);
            lemma_bits_monotonic(nz, nz.rank(z1), nz.rank(z2));
        }
    }
}

/// Endpoint exactness: the smallest supported z-index maps to the pattern of
/// `0.0`, and — whenever the domain holds more than one value — the largest
/// maps to the pattern of `1.0`.
pub proof fn lemma_endpoint_exactness(nz: Normalizer)
    requires
        nz.wf(),
    ensures
        nz.calc_spec(nz.first as int) == Some(0u32),
        nz.first != nz.last ==> nz.calc_spec(nz.last as int) == Some(BITS_OF_ONE),
{
}

/// Totality outside the domain: anything below the smallest supported
/// z-index, above the largest, or in a gap between the partitions yields
/// `None`.
pub proof fn lemma_none_outside(nz: Normalizer, z: int)
    requires
        nz.wf(),
        z < nz.first || z > nz.last || !nz.in_ranges(z),
    ensures
        nz.calc_spec(z) is None,
{
}

/// Boundary continuity: with properly separated partitions, the output at
/// the last integer of one partition is strictly below the output at the
/// first integer of the next.
pub proof fn lemma_boundary_continuity(nz: Normalizer)
    requires
        nz.wf(),
        nz.div_u <= MANTISSA,
        nz.ranges.0.end < nz.ranges.1.start,
        nz.ranges.1.end < nz.ranges.2.start,
    ensures
        nz.calc_spec(nz.ranges.0.end as int)->Some_0
            < nz.calc_spec(nz.ranges.1.start as int)->Some_0,
        nz.calc_spec(nz.ranges.1.end as int)->Some_0
            < nz.calc_spec(nz.ranges.2.start as int)->Some_0,
{
    lemma_calc_monotonic(nz, nz.ranges.0.end as int, nz.ranges.1.start as int);
    lemma_calc_monotonic(nz, nz.ranges.1.end as int, nz.ranges.2.start as int);
}

/// The fixed-range [`crate::normalize`] and a normalizer over the built-in
/// default configuration agree on every input.
pub proof fn lemma_normalize_matches_default(z: int)
    ensures
        crate::normalize_spec(z) == Normalizer::from_config(Ranges::default_config()).calc_spec(z),
{
}

impl Default for Normalizer {
    fn default() -> (r: Self)
        ensures
            r == Normalizer::from_config(Ranges::default_config()),
            r.wf(),
    {
        Normalizer::from(Ranges::default())
    }
}

} // verus!

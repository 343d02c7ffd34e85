//! Integer ranges, the partition configuration, and its builder.
//!
//! A configuration is built once from up to three caller-supplied ranges. The
//! builder does not trust the caller's labelling: it collects the six boundary
//! values, sorts them ascending, and re-derives the lower / middle / upper
//! partitions from the sorted order. The derived divisors and offsets then
//! assign each partition its own octave of subnormal steps.

use vstd::prelude::*;
use vstd::relations::{sorted_by, total_ordering};
use vstd::seq_lib::lemma_sorted_unique;

use crate::normalizer::NUM_OF_SUPPORTED_Z;
use crate::{MANTISSA, RANGE_LOWER_L, RANGE_LOWER_U, RANGE_MIDDLE_L, RANGE_MIDDLE_U,
    RANGE_UPPER_L, RANGE_UPPER_U};

verus! {

/// A closed interval `[start, end]` of 32-bit z-index values, inclusive on
/// both ends.
#[derive(Clone, Copy, PartialEq, Eq, Structural)]
pub struct ZRange {
    pub start: i32,
    pub end: i32,
}

impl ZRange {
    /// A well-formed range has at least one element.
    pub open spec fn wf(self) -> bool {
        self.start <= self.end
    }

    /// The inclusive count of integers in the range.
    pub open spec fn len_spec(self) -> int {
        self.end - self.start + 1
    }

    pub open spec fn contains_spec(self, z: int) -> bool {
        self.start <= z <= self.end
    }

    /// Builds a range; bounds that do not strictly increase are a
    /// construction-time contract violation.
    pub fn new(start: i32, end: i32) -> (r: ZRange)
        requires
            start < end,
        ensures
            r == (ZRange { start, end }),
    {
        ZRange { start, end }
    }

    pub fn contains(&self, z: i32) -> (b: bool)
        ensures
            b == self.contains_spec(z as int),
    {
        self.start <= z && z <= self.end
    }
}

/// The inclusive length of a range.
pub fn len(r: &ZRange) -> (n: i32)
    requires
        r.wf(),
        r.len_spec() <= i32::MAX,
    ensures
        n == r.len_spec(),
{
    r.end - r.start + 1
}

/// The lower, middle and upper partitions, in that order.
#[derive(Clone, Copy)]
pub struct LMU(pub ZRange, pub ZRange, pub ZRange);

impl LMU {
    /// The built-in default partitions: asymmetric spans covering the extreme
    /// low, central, and extreme high z-index values.
    pub open spec fn default_config() -> LMU {
        LMU(
            ZRange { start: RANGE_LOWER_L, end: RANGE_LOWER_U },
            ZRange { start: RANGE_MIDDLE_L, end: RANGE_MIDDLE_U },
            ZRange { start: RANGE_UPPER_L, end: RANGE_UPPER_U },
        )
    }

    /// The partitions in lower-to-upper order, for iteration.
    pub fn iter(&self) -> (v: Vec<ZRange>)
        ensures
            v@ == seq![self.0, self.1, self.2],
    {
        let mut v: Vec<ZRange> = Vec::new();
        v.push(self.0);
        v.push(self.1);
        v.push(self.2);
        proof {
            assert(v@ =~= seq![self.0, self.1, self.2]);
        }
        v
    }

    /// Consumes the triple, yielding the partitions in order.
    pub fn into_iter(self) -> (v: Vec<ZRange>)
        ensures
            v@ == seq![self.0, self.1, self.2],
    {
        self.iter()
    }
}

impl Default for LMU {
    fn default() -> (r: Self)
        ensures
            r == LMU::default_config(),
    {
        LMU(
            ZRange { start: RANGE_LOWER_L, end: RANGE_LOWER_U },
            ZRange { start: RANGE_MIDDLE_L, end: RANGE_MIDDLE_U },
            ZRange { start: RANGE_UPPER_L, end: RANGE_UPPER_U },
        )
    }
}

/// A validated, immutable partition configuration: three ordered partitions,
/// the per-octave divisors, the cumulative offsets that place each partition
/// in its own octave, and the global extremes.
pub struct Ranges {
    pub ranges: LMU,
    pub div_lm: i32,
    pub div_u: i32,
    pub offset_1: i32,
    pub offset_2: i32,
    pub first: i32,
    pub last: i32,
}

impl Ranges {
    /// The combined inclusive length of the three partitions.
    pub open spec fn total_spec(self) -> int {
        self.ranges.0.len_spec() + self.ranges.1.len_spec() + self.ranges.2.len_spec()
    }

    /// Well-formedness: the partitions are non-empty and ascending (adjacent
    /// partitions may share at most a boundary value), the offsets are the
    /// cumulative partition lengths, the extremes are the outermost bounds,
    /// the divisors are positive and at most one octave wide, and the total
    /// span both fits the supported maximum and is covered by the three
    /// octave windows of `calc`.
    pub open spec fn wf(self) -> bool {
        let l = self.ranges.0;
        let m = self.ranges.1;
        let u = self.ranges.2;
        &&& l.wf()
        &&& m.wf()
        &&& u.wf()
        &&& l.end <= m.start
        &&& m.end <= u.start
        &&& self.first == l.start
        &&& self.last == u.end
        &&& self.offset_1 == l.len_spec()
        &&& self.offset_2 == l.len_spec() + m.len_spec()
        &&& 1 <= self.div_lm <= MANTISSA
        &&& 1 <= self.div_u <= MANTISSA + 1
        &&& self.total_spec() <= NUM_OF_SUPPORTED_Z
        &&& self.total_spec() <= 2 * self.div_lm + self.div_u + 1
    }

    /// The built-in default configuration over [`LMU::default_config`].
    pub open spec fn default_config() -> Ranges {
        Ranges {
            ranges: LMU::default_config(),
            div_lm: MANTISSA,
            div_u: MANTISSA,
            offset_1: (MANTISSA + 1) as i32,
            offset_2: (2 * MANTISSA + 1) as i32,
            first: RANGE_LOWER_L,
            last: RANGE_UPPER_U,
        }
    }
}

impl Default for Ranges {
    fn default() -> (r: Self)
        ensures
            r == Ranges::default_config(),
            r.wf(),
    {
        Ranges {
            ranges: LMU::default(),
            div_lm: MANTISSA,
            div_u: MANTISSA,
            offset_1: MANTISSA + 1,
            offset_2: 2 * MANTISSA + 1,
            first: RANGE_LOWER_L,
            last: RANGE_UPPER_U,
        }
    }
}

/// The ascending order on 32-bit values, as a relation value for vstd's
/// sorting vocabulary.
pub open spec fn z_leq() -> spec_fn(i32, i32) -> bool {
    |a: i32, b: i32| a <= b
}

/// A sequence whose elements never decrease.
pub open spec fn ascending(s: Seq<i32>) -> bool {
    forall|p: int, q: int| 0 <= p < q < s.len() ==> s[p] <= s[q]
}

/// An ascending sequence with the same elements as `s` is the sorted
/// rearrangement of `s`.
proof fn lemma_ascending_is_sort(s: Seq<i32>, t: Seq<i32>)
    requires
        ascending(t),
        t.to_multiset() == s.to_multiset(),
    ensures
        t == s.sort_by(z_leq()),
{
    let leq = z_leq();
    s.lemma_sort_by_ensures(leq);
    assert(total_ordering(leq));
    assert(sorted_by(t, leq));
    lemma_sorted_unique(t, s.sort_by(leq), leq);
    assert(t =~= s.sort_by(leq));
}

/// Insertion sort: returns the values of `vals` rearranged ascending.
fn sort_values(vals: Vec<i32>) -> (out: Vec<i32>)
    ensures
        out@.len() == vals@.len(),
        ascending(out@),
        out@ == vals@.sort_by(z_leq()),
{
    let mut out: Vec<i32> = Vec::new();
    let mut i: usize = 0;
    proof {
        assert(out@ =~= vals@.subrange(0, 0));
    }
    while i < vals.len()
        invariant
            i <= vals@.len(),
            out@.len() == i,
            ascending(out@),
            out@.to_multiset() == vals@.subrange(0, i as int).to_multiset(),
        decreases vals@.len() - i,
    {
        let x = vals[i];
        let mut j: usize = 0;
        while j < out.len() && out[j] <= x
            invariant
                j <= out@.len(),
                forall|k: int| 0 <= k < j ==> out@[k] <= x,
            decreases out@.len() - j,
        {
            j += 1;
        }
        proof {
            let prev = out@;
            prev.insert_ensures(j as int, x);
            assert(ascending(prev.insert(j as int, x))) by {
                assert forall|p: int, q: int|
                    0 <= p < q < prev.insert(j as int, x).len()
                    implies prev.insert(j as int, x)[p] <= prev.insert(j as int, x)[q] by {
                    let s = prev.insert(j as int, x);
                    if q < j {
                    } else if p < j && q == j {
                    } else if p < j && q > j {
                        assert(s[q] == prev[q - 1]);
                    } else if p == j {
                        assert(s[q] == prev[q - 1]);
                        assert(prev[q - 1] >= prev[j as int]);
                    } else {
                        assert(s[p] == prev[p - 1] && s[q] == prev[q - 1]);
                    }
                }
            }
            broadcast use vstd::seq_lib::to_multiset_insert;
            assert(vals@.subrange(0, i + 1) =~= vals@.subrange(0, i as int).push(vals@[i as int]));
            broadcast use vstd::seq_lib::to_multiset_build;
        }
        out.insert(j, x);
        i += 1;
    }
    proof {
        assert(vals@.subrange(0, vals@.len() as int) =~= vals@);
        lemma_ascending_is_sort(vals@, out@);
        vals@.lemma_sort_by_ensures(z_leq());
        broadcast use vstd::seq_lib::group_to_multiset_ensures;
        assert(out@.len() == out@.to_multiset().len());
        assert(vals@.len() == vals@.to_multiset().len());
    }
    out
}

pub open spec fn min3(a: int, b: int, c: int) -> int {
    if a <= b && a <= c {
        a
    } else if b <= c {
        b
    } else {
        c
    }
}

pub open spec fn max3(a: int, b: int, c: int) -> int {
    if a >= b && a >= c {
        a
    } else if b >= c {
        b
    } else {
        c
    }
}

/// Scans the three partitions for the global extremes: the smallest start and
/// the largest end.
fn set_first_last(ranges: &LMU) -> (r: (i32, i32))
    ensures
        r.0 == min3(ranges.0.start as int, ranges.1.start as int, ranges.2.start as int),
        r.1 == max3(ranges.0.end as int, ranges.1.end as int, ranges.2.end as int),
{
    let mut first = ranges.0.start;
    let mut last = ranges.0.end;
    if ranges.1.start < first {
        first = ranges.1.start;
    }
    if ranges.2.start < first {
        first = ranges.2.start;
    }
    if ranges.1.end > last {
        last = ranges.1.end;
    }
    if ranges.2.end > last {
        last = ranges.2.end;
    }
    (first, last)
}

/// Accumulates up to three caller-supplied ranges; unset ranges stay at the
/// `[0, 0]` placeholder.
pub struct RangesBuilder {
    pub lower: ZRange,
    pub middle: ZRange,
    pub upper: ZRange,
}

impl RangesBuilder {
    /// All three ranges still hold the placeholder, so `build` yields the
    /// built-in default configuration.
    pub open spec fn is_placeholder(self) -> bool {
        &&& self.lower == (ZRange { start: 0, end: 0 })
        &&& self.middle == (ZRange { start: 0, end: 0 })
        &&& self.upper == (ZRange { start: 0, end: 0 })
    }

    /// The six boundary values in the order they were supplied.
    pub open spec fn boundary_seq(self) -> Seq<i32> {
        seq![
            self.lower.start,
            self.lower.end,
            self.middle.start,
            self.middle.end,
            self.upper.start,
            self.upper.end,
        ]
    }

    /// The six boundary values rearranged ascending; `build` re-derives the
    /// three partitions from consecutive pairs of this sequence.
    pub open spec fn sorted_boundaries(self) -> Seq<i32> {
        self.boundary_seq().sort_by(z_leq())
    }

    pub fn new() -> (r: Self)
        ensures
            r.is_placeholder(),
    {
        RangesBuilder {
            lower: ZRange { start: 0, end: 0 },
            middle: ZRange { start: 0, end: 0 },
            upper: ZRange { start: 0, end: 0 },
        }
    }

    pub fn with_lower(self, r: ZRange) -> (res: Self)
        ensures
            res.lower == r,
            res.middle == self.middle,
            res.upper == self.upper,
    {
        RangesBuilder { lower: r, middle: self.middle, upper: self.upper }
    }

    pub fn with_middle(self, r: ZRange) -> (res: Self)
        ensures
            res.lower == self.lower,
            res.middle == r,
            res.upper == self.upper,
    {
        RangesBuilder { lower: self.lower, middle: r, upper: self.upper }
    }

    pub fn with_upper(self, r: ZRange) -> (res: Self)
        ensures
            res.lower == self.lower,
            res.middle == self.middle,
            res.upper == r,
    {
        RangesBuilder { lower: self.lower, middle: self.middle, upper: r }
    }
}

impl Default for RangesBuilder {
    fn default() -> (r: Self)
        ensures
            r.is_placeholder(),
    {
        RangesBuilder {
            lower: ZRange { start: 0, end: 0 },
            middle: ZRange { start: 0, end: 0 },
            upper: ZRange { start: 0, end: 0 },
        }
    }
}

/// The configuration derived from six ascending boundary values: consecutive
/// pairs become the partitions, the combined length is split by three with
/// the remainder assigned to the upper divisor, and the offsets are the
/// cumulative lengths of the partitions below.
pub open spec fn config_from_sorted(s: Seq<i32>) -> Ranges {
    let l = ZRange { start: s[0], end: s[1] };
    let m = ZRange { start: s[2], end: s[3] };
    let u = ZRange { start: s[4], end: s[5] };
    let total = l.len_spec() + m.len_spec() + u.len_spec();
    Ranges {
        ranges: LMU(l, m, u),
        div_lm: (total / 3) as i32,
        div_u: (total / 3 + total % 3) as i32,
        offset_1: l.len_spec() as i32,
        offset_2: (l.len_spec() + m.len_spec()) as i32,
        first: s[0],
        last: s[5],
    }
}

/// The combined inclusive length of the partitions that
/// [`config_from_sorted`] derives from `s`.
pub open spec fn total_from_sorted(s: Seq<i32>) -> int {
    (s[1] - s[0] + 1) + (s[3] - s[2] + 1) + (s[5] - s[4] + 1)
}

/// The builder's divisor split stays within one octave — the divisor bound
/// under which the normalizer's output is strictly monotonic — at every
/// combined length except the two where rounding pushes the upper divisor one
/// step past a full octave.
pub proof fn lemma_divisor_bound(s: Seq<i32>)
    requires
        3 <= total_from_sorted(s) <= NUM_OF_SUPPORTED_Z,
        total_from_sorted(s) != 3 * MANTISSA - 1,
        total_from_sorted(s) != 3 * MANTISSA + 1,
    ensures
        config_from_sorted(s).div_u <= MANTISSA,
{
}

impl RangesBuilder {
    /// Derives the partition configuration: the default one if no range was
    /// ever set, otherwise the one re-derived from the sorted boundary
    /// values — unless their combined inclusive length exceeds
    /// [`NUM_OF_SUPPORTED_Z`], the construction-time capacity violation.
    pub fn build(self) -> (res: Option<Ranges>)
        ensures
            self.is_placeholder() ==> res == Some(Ranges::default_config()),
            !self.is_placeholder() && total_from_sorted(self.sorted_boundaries())
                > NUM_OF_SUPPORTED_Z ==> res is None,
            !self.is_placeholder() && total_from_sorted(self.sorted_boundaries())
                <= NUM_OF_SUPPORTED_Z ==> res == Some(config_from_sorted(self.sorted_boundaries())),
            res matches Some(r) ==> r.wf(),
    {
        if self.lower.start == 0 && self.lower.end == 0 && self.middle.start == 0
            && self.middle.end == 0 && self.upper.start == 0 && self.upper.end == 0 {
            return Some(Ranges::default());
        }

        let mut vals: Vec<i32> = Vec::new();
        vals.push(self.lower.start);
        vals.push(self.lower.end);
        vals.push(self.middle.start);
        vals.push(self.middle.end);
        vals.push(self.upper.start);
        vals.push(self.upper.end);
        proof {
            assert(vals@ =~= self.boundary_seq());
        }
        let s = sort_values(vals);
        let lower = ZRange { start: s[0], end: s[1] };
        let middle = ZRange { start: s[2], end: s[3] };
        let upper = ZRange { start: s[4], end: s[5] };

        let len_l: i64 = lower.end as i64 - lower.start as i64 + 1;
        let len_m: i64 = middle.end as i64 - middle.start as i64 + 1;
        let len_u: i64 = upper.end as i64 - upper.start as i64 + 1;
        let total: i64 = len_l + len_m + len_u;

        if total > NUM_OF_SUPPORTED_Z as i64 {
            return None;
        }

        let div: i32 = (total / 3) as i32;
        let div_u: i32 = div + (total % 3) as i32;
        let lmu = LMU(lower, middle, upper);
        let (first, last) = set_first_last(&lmu);

        let res = Ranges {
            ranges: lmu,
            div_lm: div,
            div_u,
            offset_1: len_l as i32,
            offset_2: (len_l + len_m) as i32,
            first,
            last,
        };
        proof {
            assert(res.wf());
        }
        Some(res)
    }
}

} // verus!

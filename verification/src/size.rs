//! One-dimensional size parameter that grows by repeated multiplication,
//! clamped at a configured ceiling.

use vstd::prelude::*;

verus! {

/// A range of natural sizes: `start` grows towards `end` by repeated
/// multiplication with `multiplier`, never overshooting `end`.
#[derive(Copy, Clone, Debug, PartialEq, Eq, Structural)]
pub struct Range {
    /// Current size; grows on every step. At least 1 in a valid range.
    pub start: usize,
    /// Ceiling for the growth; `start` never exceeds it.
    pub end: usize,
    /// Growth factor applied on every step. At least 2 in a valid range.
    pub multiplier: usize,
}

impl Range {
    /// A range is valid when it starts at a positive size, grows by at
    /// least doubling, and its ceiling is not below its start.
    pub open spec fn valid(self) -> bool {
        self.start >= 1 && self.multiplier >= 2 && self.end >= self.start
    }

    /// The size after one growth step: `start * multiplier`, clamped at `end`.
    pub open spec fn grown_start(self) -> int {
        if self.start * self.multiplier <= self.end {
            self.start * self.multiplier
        } else {
            self.end as int
        }
    }

    /// Applies one growth step in place and returns the new `start`.
    ///
    /// Growth is monotone while `start < end` and a no-op once
    /// `start == end`, so repeated calls reach a fixed point at the ceiling.
    pub fn next(&mut self) -> (new_start: usize)
        ensures
            final(self).start == old(self).grown_start(),
            final(self).end == old(self).end,
            final(self).multiplier == old(self).multiplier,
            new_start == final(self).start,
    {
        if self.multiplier == 0 {
            proof {
                assert(self.start * self.multiplier == 0) by (nonlinear_arith)
                    requires self.multiplier == 0;
            }
            self.start = 0;
        } else if self.start <= self.end / self.multiplier {
            proof {
                lemma_product_within_ceiling(
                    self.start as int,
                    self.multiplier as int,
                    self.end as int,
                );
            }
            self.start = self.start * self.multiplier;
        } else {
            proof {
                lemma_product_beyond_ceiling(
                    self.start as int,
                    self.multiplier as int,
                    self.end as int,
                );
            }
            self.start = self.end;
        }
        self.start
    }

    /// Default initial size used when a configuration leaves it out.
    pub fn start_default() -> (v: usize)
        ensures
            v == 10,
    {
        10
    }

    /// Default ceiling used when a configuration leaves it out.
    pub fn end_default() -> (v: usize)
        ensures
            v == usize::MAX,
    {
        usize::MAX
    }

    /// Default growth factor used when a configuration leaves it out.
    pub fn multiplier_default() -> (v: usize)
        ensures
            v == 2,
    {
        2
    }
}

/// One growth step keeps a valid range valid: the grown start is still
/// positive and still at most the ceiling.
pub proof fn lemma_grown_range_valid(r: Range)
    requires
        r.valid(),
    ensures
        (Range { start: r.grown_start() as usize, end: r.end, multiplier: r.multiplier }).valid(),
        1 <= r.grown_start() <= r.end,
{
    assert(r.start * r.multiplier >= r.start) by (nonlinear_arith)
        requires r.start >= 0 && r.multiplier >= 1;
}

/// Once a valid range has reached its ceiling, further growth steps keep it
/// there: growing is idempotent at the fixed point.
pub proof fn law_growth_fixed_point(r: Range)
    requires
        r.valid(),
        r.start == r.end,
    ensures
        r.grown_start() == r.start,
{
    assert(r.start * r.multiplier >= r.start * 2) by (nonlinear_arith)
        requires r.start >= 1 && r.multiplier >= 2;
}

proof fn lemma_product_within_ceiling(s: int, m: int, e: int)
    requires
        m >= 1,
        s >= 0,
        e >= 0,
        s <= e / m,
    ensures
        s * m <= e,
{
    assert(s * m <= (e / m) * m) by (nonlinear_arith)
        requires s <= e / m && m >= 1 && e / m >= 0;
    assert(m * (e / m) <= e) by {
        vstd::arithmetic::div_mod::lemma_fundamental_div_mod(e, m);
        vstd::arithmetic::div_mod::lemma_mod_bound(e, m);
    }
    assert((e / m) * m == m * (e / m)) by (nonlinear_arith);
}

proof fn lemma_product_beyond_ceiling(s: int, m: int, e: int)
    requires
        m >= 1,
        s >= 0,
        e >= 0,
        s > e / m,
    ensures
        s * m > e,
{
    assert(s * m >= (e / m + 1) * m) by (nonlinear_arith)
        requires s >= e / m + 1 && m >= 1;
    assert((e / m + 1) * m == m * (e / m) + m) by (nonlinear_arith);
    assert(m * (e / m) + m > e) by {
        vstd::arithmetic::div_mod::lemma_fundamental_div_mod(e, m);
        vstd::arithmetic::div_mod::lemma_mod_bound(e, m);
    }
}

} // verus!

//! Least-squares fitting of per-generation timings against candidate growth
//! curves, and selection of the best-fitting curve.
//!
//! All arithmetic is exact: durations are integer nanoseconds, polynomial
//! curves are evaluated exactly, and the binary logarithm is a fixed-point
//! value with 16 fractional bits ([`LOG_ONE`] is one). The fitted
//! coefficient is an exact fraction, and the squared normalized error an
//! exact ratio, so curve ranking never depends on rounding behaviour of any
//! machine float.

use vstd::prelude::*;
use vstd::arithmetic::div_mod::{
    lemma_div_is_ordered,
    lemma_div_multiples_vanish,
    lemma_div_pos_is_pos,
    lemma_fundamental_div_mod,
    lemma_mod_bound,
};
use crate::run::Run;

verus! {

/// Most measurements one fit accepts.
pub const FIT_RUNS_LIMIT: usize = 1000;

/// Largest per-measurement argument length one fit accepts.
pub const FIT_LEN_LIMIT: u64 = 100_000;

/// Largest per-measurement duration one fit accepts, in nanoseconds
/// (2^42 ns, a little over 73 minutes).
pub const FIT_TIME_LIMIT: u64 = 4_398_046_511_104;

/// Fixed-point one of the binary logarithm: 2^16.
pub const LOG_ONE: u64 = 65536;

/// Every candidate curve stays below 2^50 on admitted lengths.
pub const CURVE_LIMIT: u128 = 1_125_899_906_842_624;

/// The candidate growth curves, and the placeholder `Unknown` that a fit
/// starts from and never returns.
#[derive(Debug, Clone, Copy, PartialEq, Eq, Structural)]
pub enum Complexity {
    /// Constant time.
    O1,
    /// Logarithmic time.
    OLogN,
    /// Linear time.
    ON,
    /// Linearithmic time.
    ONLogN,
    /// Quadratic time.
    ONSquared,
    /// Cubic time.
    ONCubed,
    /// Initialization placeholder, never a final answer.
    Unknown,
}

/// Two to the power `k`.
pub open spec fn p2(k: nat) -> nat
    decreases k,
{
    if k == 0 {
        1
    } else {
        2 * p2((k - 1) as nat)
    }
}

/// The integer part of the binary logarithm (zero below two).
pub open spec fn floor_log2(n: nat) -> nat
    decreases n,
{
    if n < 2 {
        0
    } else {
        1 + floor_log2(n / 2)
    }
}

/// `k` fractional bits of the binary logarithm of `x / `[`LOG_ONE`],
/// computed by repeated fixed-point squaring. Meaningful for `x` between
/// one and two in fixed point.
pub open spec fn log_frac(x: nat, k: nat) -> nat
    decreases k,
{
    if k == 0 {
        0
    } else {
        let y = (x * x) / 65536;
        if y >= 131072 {
            p2((k - 1) as nat) + log_frac(y / 2, (k - 1) as nat)
        } else {
            log_frac(y, (k - 1) as nat)
        }
    }
}

/// The binary logarithm of `n` in fixed point with 16 fractional bits;
/// zero at zero and one, exact at powers of two.
pub open spec fn log2_fp(n: nat) -> nat {
    if n == 0 {
        0
    } else {
        floor_log2(n) * 65536 + log_frac((n * 65536) / p2(floor_log2(n)), 16)
    }
}

/// The value of candidate curve `c` at length `len`. Logarithmic curves are
/// scaled by [`LOG_ONE`]; polynomial curves are exact.
pub open spec fn curve_g(c: Complexity, len: nat) -> nat {
    match c {
        Complexity::O1 => 1,
        Complexity::OLogN => log2_fp(len),
        Complexity::ON => len,
        Complexity::ONLogN => len * log2_fp(len),
        Complexity::ONSquared => len * len,
        Complexity::ONCubed => len * len * len,
        Complexity::Unknown => 1,
    }
}

/// The fixed-point scale that curve `c`'s values carry: [`LOG_ONE`] for the
/// logarithmic curves, one for the rest.
pub open spec fn curve_scale(c: Complexity) -> int {
    match c {
        Complexity::OLogN => 65536,
        Complexity::ONLogN => 65536,
        _ => 1,
    }
}

/// The display label of the curve.
pub open spec fn label_text(c: Complexity) -> Seq<char> {
    match c {
        Complexity::O1 => "O(1)"@,
        Complexity::OLogN => "O(logN)"@,
        Complexity::ON => "O(N)"@,
        Complexity::ONLogN => "O(NlogN)"@,
        Complexity::ONSquared => "O(N^2)"@,
        Complexity::ONCubed => "O(N^3)"@,
        Complexity::Unknown => "Unknown"@,
    }
}

proof fn lemma_p2_pos(k: nat)
    ensures
        p2(k) >= 1,
    decreases k,
{
    if k > 0 {
        lemma_p2_pos((k - 1) as nat);
    }
}

proof fn lemma_p2_mono(a: nat, b: nat)
    requires
        a <= b,
    ensures
        p2(a) <= p2(b),
    decreases b,
{
    if a < b {
        lemma_p2_mono(a, (b - 1) as nat);
        lemma_p2_pos((b - 1) as nat);
    }
}

/// The integer binary logarithm brackets its argument between two adjacent
/// powers of two.
proof fn lemma_floor_log2_brackets(n: nat)
    requires
        n >= 1,
    ensures
        p2(floor_log2(n)) <= n,
        n < p2(floor_log2(n) + 1),
    decreases n,
{
    if n < 2 {
        assert(p2(0) == 1);
        assert(p2(1) == 2);
    } else {
        lemma_floor_log2_brackets(n / 2);
        let f = floor_log2(n / 2);
        lemma_fundamental_div_mod(n as int, 2);
        lemma_mod_bound(n as int, 2);
        assert(p2(f + 1) == 2 * p2(f));
        assert(p2(f + 2) == 2 * p2(f + 1));
    }
}

/// Any argument below `p2(k)` has an integer binary logarithm below `k`.
proof fn lemma_floor_log2_below(n: nat, k: nat)
    requires
        n >= 1,
        n < p2(k),
    ensures
        floor_log2(n) < k,
{
    lemma_floor_log2_brackets(n);
    if floor_log2(n) >= k {
        lemma_p2_mono(k, floor_log2(n));
    }
}

/// The fractional bits of the binary logarithm stay below their scale.
proof fn lemma_log_frac_below(x: nat, k: nat)
    ensures
        log_frac(x, k) < p2(k),
    decreases k,
{
    if k > 0 {
        let y = (x * x) / 65536;
        lemma_log_frac_below(y / 2, (k - 1) as nat);
        lemma_log_frac_below(y, (k - 1) as nat);
    }
}

/// On admitted lengths the fixed-point logarithm stays below 17 in fixed
/// point.
proof fn lemma_log2_fp_below(n: nat)
    requires
        n <= 100_000,
    ensures
        log2_fp(n) <= 1114111,
{
    if n >= 1 {
        assert(p2(17) == 131072) by {
            reveal_with_fuel(p2, 18);
        }
        lemma_floor_log2_below(n, 17);
        lemma_log_frac_below((n * 65536) / p2(floor_log2(n)), 16);
        assert(p2(16) == 65536) by {
            reveal_with_fuel(p2, 17);
        }
        let f = floor_log2(n);
        let x = (n * 65536) / p2(f);
        assert(f <= 16);
        assert(log_frac(x, 16) <= 65535);
        assert(f * 65536 + log_frac(x, 16) <= 1114111) by (nonlinear_arith)
            requires
                f <= 16,
                log_frac(x, 16) <= 65535,
        ;
        assert(log2_fp(n) == f * 65536 + log_frac(x, 16));
        assert(log2_fp(n) <= 1114111);
    } else {
        assert(log2_fp(n) == 0);
    }
}

/// Every candidate curve stays below [`CURVE_LIMIT`] on admitted lengths.
pub proof fn lemma_curve_below_limit(c: Complexity, len: nat)
    requires
        len <= 100_000,
    ensures
        curve_g(c, len) < CURVE_LIMIT,
{
    lemma_log2_fp_below(len);
    assert(len * log2_fp(len) <= 100_000 * 1114111) by (nonlinear_arith)
        requires len <= 100_000 && log2_fp(len) <= 1114111;
    assert(len * len <= 100_000 * 100_000) by (nonlinear_arith)
        requires len <= 100_000;
    assert(len * len * len <= 100_000 * 100_000 * 100_000) by (nonlinear_arith)
        requires len <= 100_000;
}

/// Two to the power `k`, executable.
fn p2_exec(k: u64) -> (r: u64)
    requires
        k <= 17,
    ensures
        r == p2(k as nat),
        r <= 131072,
    decreases k,
{
    proof {
        assert(p2(17) == 131072) by {
            reveal_with_fuel(p2, 18);
        }
        lemma_p2_mono(k as nat, 17);
    }
    if k == 0 {
        1
    } else {
        2 * p2_exec(k - 1)
    }
}

/// The integer part of the binary logarithm, executable.
fn floor_log2_exec(n: u64) -> (r: u64)
    requires
        1 <= n < 131072,
    ensures
        r == floor_log2(n as nat),
        r <= 16,
    decreases n,
{
    proof {
        assert(p2(17) == 131072) by {
            reveal_with_fuel(p2, 18);
        }
        lemma_floor_log2_below(n as nat, 17);
    }
    if n < 2 {
        0
    } else {
        1 + floor_log2_exec(n / 2)
    }
}

/// The fractional bits of the binary logarithm, executable. `x` is the
/// mantissa in fixed point: at least one, below two.
fn log_frac_exec(x: u64, k: u64) -> (r: u64)
    requires
        k <= 16,
        65536 <= x < 131072,
    ensures
        r == log_frac(x as nat, k as nat),
        r < p2(k as nat),
    decreases k,
{
    if k == 0 {
        proof {
            lemma_p2_pos(0);
        }
        0
    } else {
        proof {
            assert((x as int) * (x as int) < 131072int * 131072) by (nonlinear_arith)
                requires x < 131072;
            assert(65536int * 65536 <= (x as int) * (x as int)) by (nonlinear_arith)
                requires 65536 <= x;
        }
        let y = (x * x) / 65536;
        proof {
            lemma_div_is_ordered(65536int * 65536, (x as int) * (x as int), 65536);
            lemma_div_multiples_vanish(65536, 65536);
            lemma_div_is_ordered((x as int) * (x as int), 131072int * 131072 - 1, 65536);
            assert((131072int * 131072 - 1) / 65536 == 262143);
        }
        if y >= 131072 {
            let rest = log_frac_exec(y / 2, k - 1);
            let r = p2_exec(k - 1) + rest;
            r
        } else {
            let r = log_frac_exec(y, k - 1);
            proof {
                lemma_p2_mono((k - 1) as nat, k as nat);
            }
            r
        }
    }
}

/// The binary logarithm of `n` in fixed point with 16 fractional bits.
fn log2_fp_exec(n: u64) -> (r: u64)
    requires
        n <= FIT_LEN_LIMIT,
    ensures
        r == log2_fp(n as nat),
{
    if n == 0 {
        0
    } else {
        let ip = floor_log2_exec(n);
        let den = p2_exec(ip);
        proof {
            lemma_floor_log2_brackets(n as nat);
            lemma_p2_pos(ip as nat);
            // The scaled mantissa is at least one in fixed point:
            assert(den * 65536 <= n * 65536) by (nonlinear_arith)
                requires den <= n;
            lemma_div_is_ordered((den * 65536) as int, (n * 65536) as int, den as int);
            lemma_div_multiples_vanish(65536, den as int);
            // And below two in fixed point:
            assert(n * 65536 <= (2 * den - 1) * 65536) by (nonlinear_arith)
                requires n <= 2 * den - 1;
            assert((2 * den - 1) * 65536 == den * 131072 - 65536) by (nonlinear_arith);
            lemma_div_is_ordered((n * 65536) as int, den as int * 131072 - 65536, den as int);
            lemma_fundamental_div_mod(den as int * 131072 - 65536, den as int);
            lemma_mod_bound(den as int * 131072 - 65536, den as int);
            assert((den as int * 131072 - 65536) / (den as int) < 131072) by {
                if (den as int * 131072 - 65536) / (den as int) >= 131072 {
                    assert(den as int * ((den as int * 131072 - 65536) / (den as int)) >= den as int
                        * 131072) by (nonlinear_arith)
                        requires
                            den >= 1,
                            (den as int * 131072 - 65536) / (den as int) >= 131072,
                    ;
                }
            }
        }
        let x0 = (n * 65536) / den;
        let frac = log_frac_exec(x0, 16);
        proof {
            assert(p2(16) == 65536) by {
                reveal_with_fuel(p2, 17);
            }
            assert(ip * 65536 <= 16 * 65536) by (nonlinear_arith)
                requires ip <= 16;
        }
        ip * 65536 + frac
    }
}

impl Complexity {
    /// The value of the curve at length `len`. Logarithmic curves are in
    /// fixed point scaled by [`LOG_ONE`]; polynomial curves are exact.
    pub fn curve(&self, len: u64) -> (g: u128)
        requires
            len <= FIT_LEN_LIMIT,
        ensures
            g == curve_g(*self, len as nat),
    {
        match self {
            Complexity::O1 => 1,
            Complexity::OLogN => log2_fp_exec(len) as u128,
            Complexity::ON => len as u128,
            Complexity::ONLogN => {
                let lg = log2_fp_exec(len);
                proof {
                    lemma_log2_fp_below(len as nat);
                    assert((len as int) * (lg as int) <= 100_000int * 1114111) by (nonlinear_arith)
                        requires len <= 100_000 && lg <= 1114111;
                }
                (len as u128) * (lg as u128)
            },
            Complexity::ONSquared => {
                proof {
                    assert((len as int) * (len as int) <= 100_000int * 100_000) by (nonlinear_arith)
                        requires len <= 100_000;
                }
                (len as u128) * (len as u128)
            },
            Complexity::ONCubed => {
                proof {
                    assert((len as int) * (len as int) <= 100_000int * 100_000) by (nonlinear_arith)
                        requires len <= 100_000;
                }
                let sq = (len as u128) * (len as u128);
                proof {
                    assert((sq as int) * (len as int) <= 10_000_000_000int
                        * 100_000) by (nonlinear_arith)
                        requires sq <= 10_000_000_000 && len <= 100_000;
                }
                sq * (len as u128)
            },
            Complexity::Unknown => 1,
        }
    }

    /// The display label of the curve.
    pub fn text(&self) -> (s: &'static str)
        ensures
            s@ == label_text(*self),
    {
        match self {
            Complexity::O1 => "O(1)",
            Complexity::OLogN => "O(logN)",
            Complexity::ON => "O(N)",
            Complexity::ONLogN => "O(NlogN)",
            Complexity::ONSquared => "O(N^2)",
            Complexity::ONCubed => "O(N^3)",
            Complexity::Unknown => "Unknown",
        }
    }
}

/// The measurements a fit admits: at most [`FIT_RUNS_LIMIT`] of them, each
/// with a length at most [`FIT_LEN_LIMIT`] and a shortest duration at most
/// [`FIT_TIME_LIMIT`]. These bounds keep every intermediate product of the
/// fit inside 128-bit arithmetic.
pub open spec fn fit_bounds_ok(runs: Seq<Run>) -> bool {
    runs.len() <= FIT_RUNS_LIMIT && forall|i: int|
        0 <= i < runs.len() ==> (#[trigger] runs[i]).len <= FIT_LEN_LIMIT && runs[i].min
            <= FIT_TIME_LIMIT
}

/// Sum of the shortest durations.
pub open spec fn sum_m(runs: Seq<Run>) -> int
    decreases runs.len(),
{
    if runs.len() == 0 {
        0
    } else {
        sum_m(runs.drop_last()) + runs.last().min
    }
}

/// Sum of duration times curve value: the numerator of the least-squares
/// coefficient.
pub open spec fn sum_mg(runs: Seq<Run>, c: Complexity) -> int
    decreases runs.len(),
{
    if runs.len() == 0 {
        0
    } else {
        sum_mg(runs.drop_last(), c) + runs.last().min * curve_g(c, runs.last().len as nat)
    }
}

/// Sum of squared curve values: the denominator of the least-squares
/// coefficient.
pub open spec fn sum_gg(runs: Seq<Run>, c: Complexity) -> int
    decreases runs.len(),
{
    if runs.len() == 0 {
        0
    } else {
        sum_gg(runs.drop_last(), c) + curve_g(c, runs.last().len as nat) * curve_g(
            c,
            runs.last().len as nat,
        )
    }
}

/// The least-squares coefficient of curve `c` in fixed point with 16
/// fractional bits (zero when the curve vanishes everywhere).
pub open spec fn coef_fixed(runs: Seq<Run>, c: Complexity) -> int {
    if sum_gg(runs, c) == 0 {
        0
    } else {
        (sum_mg(runs, c) * 65536) / sum_gg(runs, c)
    }
}

/// The fitted duration of curve `c` at length `len`: the fixed-point
/// coefficient times the curve value, descaled. At the measured lengths it
/// never exceeds the total observed duration (see
/// [`lemma_fit_within_total`]), which keeps the residual arithmetic in
/// machine range.
pub open spec fn fit_at(runs: Seq<Run>, c: Complexity, len: nat) -> int {
    let g = curve_g(c, len) as int;
    if g == 0 {
        0
    } else {
        (coef_fixed(runs, c) * g) / 65536
    }
}

/// The squared residual of measurement `i` under curve `c`.
pub open spec fn diff_sq(runs: Seq<Run>, c: Complexity, i: int) -> int {
    let d = runs[i].min - fit_at(runs, c, runs[i].len as nat);
    d * d
}

/// Sum of the squared residuals of the first `k` measurements.
pub open spec fn residual_to(runs: Seq<Run>, c: Complexity, k: int) -> int
    decreases k,
{
    if k <= 0 {
        0
    } else {
        residual_to(runs, c, k - 1) + diff_sq(runs, c, k - 1)
    }
}

/// Sum of the squared residuals of all measurements under curve `c`: the
/// quantity the curves compete on.
pub open spec fn residual(runs: Seq<Run>, c: Complexity) -> int {
    residual_to(runs, c, runs.len() as int)
}

proof fn lemma_bounds_prefix(runs: Seq<Run>, k: int)
    requires
        fit_bounds_ok(runs),
        0 <= k <= runs.len(),
    ensures
        fit_bounds_ok(runs.subrange(0, k)),
{
    assert forall|i: int| 0 <= i < k implies (#[trigger] runs.subrange(0, k)[i]).len
        <= FIT_LEN_LIMIT && runs.subrange(0, k)[i].min <= FIT_TIME_LIMIT by {
        assert(runs.subrange(0, k)[i] == runs[i]);
    }
}

proof fn lemma_bounds_drop_last(runs: Seq<Run>)
    requires
        fit_bounds_ok(runs),
        runs.len() >= 1,
    ensures
        fit_bounds_ok(runs.drop_last()),
{
    assert forall|i: int| 0 <= i < runs.drop_last().len() implies (#[trigger] runs.drop_last()[
        i
    ]).len <= FIT_LEN_LIMIT && runs.drop_last()[i].min <= FIT_TIME_LIMIT by {
        assert(runs.drop_last()[i] == runs[i]);
    }
}

/// All four sums are nonnegative and grow at most linearly with the
/// measurement count, with per-term bounds from the admission limits.
proof fn lemma_sums_bounded(runs: Seq<Run>, c: Complexity)
    requires
        fit_bounds_ok(runs),
    ensures
        0 <= sum_m(runs) <= runs.len() * (FIT_TIME_LIMIT as int),
        0 <= sum_mg(runs, c) <= runs.len() * ((FIT_TIME_LIMIT as int) * (CURVE_LIMIT as int)),
        0 <= sum_gg(runs, c) <= runs.len() * ((CURVE_LIMIT as int) * (CURVE_LIMIT as int)),
    decreases runs.len(),
{
    if runs.len() > 0 {
        lemma_bounds_drop_last(runs);
        lemma_sums_bounded(runs.drop_last(), c);
        let last = runs.last();
        assert(last == runs[runs.len() - 1]);
        lemma_curve_below_limit(c, last.len as nat);
        let m = last.min as int;
        let g = curve_g(c, last.len as nat) as int;
        assert(0 <= m * g <= (FIT_TIME_LIMIT as int) * (CURVE_LIMIT as int)) by (nonlinear_arith)
            requires
                0 <= m <= FIT_TIME_LIMIT as int,
                0 <= g <= CURVE_LIMIT as int,
        ;
        assert(0 <= g * g <= (CURVE_LIMIT as int) * (CURVE_LIMIT as int)) by (nonlinear_arith)
            requires 0 <= g <= CURVE_LIMIT as int;
    }
}

proof fn lemma_sum_gg_nonneg(runs: Seq<Run>, c: Complexity)
    ensures
        sum_gg(runs, c) >= 0,
    decreases runs.len(),
{
    if runs.len() > 0 {
        lemma_sum_gg_nonneg(runs.drop_last(), c);
        let g = curve_g(c, runs.last().len as nat) as int;
        assert(g * g >= 0) by (nonlinear_arith)
            requires g >= 0;
    }
}

/// Each squared curve value is a term of the sum of squares, so it never
/// exceeds it.
proof fn lemma_gg_term_le(runs: Seq<Run>, c: Complexity, j: int)
    requires
        0 <= j < runs.len(),
    ensures
        (curve_g(c, runs[j].len as nat) as int) * (curve_g(c, runs[j].len as nat) as int)
            <= sum_gg(runs, c),
    decreases runs.len(),
{
    lemma_sum_gg_nonneg(runs.drop_last(), c);
    if j < runs.len() - 1 {
        assert(runs.drop_last()[j] == runs[j]);
        lemma_gg_term_le(runs.drop_last(), c, j);
        let g = curve_g(c, runs.last().len as nat) as int;
        assert(g * g >= 0) by (nonlinear_arith)
            requires g >= 0;
    }
}

/// The product of any two of the runs' curve values never exceeds the sum
/// of squares.
proof fn lemma_pair_within_gg(runs: Seq<Run>, c: Complexity, i: int, j: int)
    requires
        0 <= i < runs.len(),
        0 <= j < runs.len(),
    ensures
        (curve_g(c, runs[i].len as nat) as int) * (curve_g(c, runs[j].len as nat) as int)
            <= sum_gg(runs, c),
{
    let gi = curve_g(c, runs[i].len as nat) as int;
    let gj = curve_g(c, runs[j].len as nat) as int;
    lemma_gg_term_le(runs, c, i);
    lemma_gg_term_le(runs, c, j);
    if gi <= gj {
        assert(gi * gj <= gj * gj) by (nonlinear_arith)
            requires 0 <= gi <= gj;
    } else {
        assert(gi * gj <= gi * gi) by (nonlinear_arith)
            requires 0 <= gj <= gi;
    }
}

/// Scaling the mixed sum by a factor that every curve value dominates:
/// if `g_j * factor <= bound` termwise, then
/// `sum_mg * factor <= sum_m * bound`.
proof fn lemma_sum_mg_times(runs: Seq<Run>, c: Complexity, factor: int, bound: int)
    requires
        factor >= 0,
        bound >= 0,
        forall|j: int|
            0 <= j < runs.len() ==> (curve_g(c, (#[trigger] runs[j]).len as nat) as int) * factor
                <= bound,
    ensures
        sum_mg(runs, c) * factor <= sum_m(runs) * bound,
    decreases runs.len(),
{
    if runs.len() == 0 {
        assert(0 * factor == 0 && 0 * bound == 0) by (nonlinear_arith);
    } else {
        assert forall|j: int| 0 <= j < runs.drop_last().len() implies (curve_g(
            c,
            (#[trigger] runs.drop_last()[j]).len as nat,
        ) as int) * factor <= bound by {
            assert(runs.drop_last()[j] == runs[j]);
        }
        lemma_sum_mg_times(runs.drop_last(), c, factor, bound);
        let m = runs.last().min as int;
        let g = curve_g(c, runs.last().len as nat) as int;
        assert(runs.last() == runs[runs.len() - 1]);
        let head_mg = sum_mg(runs.drop_last(), c);
        let head_m = sum_m(runs.drop_last());
        assert((head_mg + m * g) * factor == head_mg * factor + (m * g)
            * factor) by (nonlinear_arith);
        assert((m * g) * factor == m * (g * factor)) by (nonlinear_arith);
        assert(m * (g * factor) <= m * bound) by (nonlinear_arith)
            requires m >= 0 && g * factor <= bound;
        assert((head_m + m) * bound == head_m * bound + m * bound) by (nonlinear_arith);
    }
}

/// The fitted duration at any measured length never exceeds the total
/// observed duration: the coefficient is a duration-weighted average over
/// the curve values, so scaling it back by one of those values cannot pass
/// the duration total. This keeps the residual arithmetic within machine
/// range without any artificial cap.
pub proof fn lemma_fit_within_total(runs: Seq<Run>, c: Complexity, i: int)
    requires
        fit_bounds_ok(runs),
        0 <= i < runs.len(),
    ensures
        0 <= coef_fixed(runs, c) * (curve_g(c, runs[i].len as nat) as int) <= sum_m(runs) * 65536,
        0 <= fit_at(runs, c, runs[i].len as nat) <= sum_m(runs),
{
    lemma_sums_bounded(runs, c);
    let g = curve_g(c, runs[i].len as nat) as int;
    let sgg = sum_gg(runs, c);
    let num = sum_mg(runs, c);
    let coef = coef_fixed(runs, c);
    let total = sum_m(runs);
    assert(total * 65536 >= 0) by (nonlinear_arith)
        requires total >= 0;
    if sgg == 0 {
        assert(coef * g == 0) by (nonlinear_arith)
            requires coef == 0;
    } else {
        lemma_div_pos_is_pos(num * 65536, sgg);
        assert(num * 65536 >= 0) by (nonlinear_arith)
            requires num >= 0;
        assert(coef * g >= 0) by (nonlinear_arith)
            requires coef >= 0 && g >= 0;
        assert forall|j: int| 0 <= j < runs.len() implies (curve_g(
            c,
            (#[trigger] runs[j]).len as nat,
        ) as int) * g <= sgg by {
            lemma_pair_within_gg(runs, c, j, i);
        }
        lemma_sum_mg_times(runs, c, g, sgg);
        lemma_fundamental_div_mod(num * 65536, sgg);
        lemma_mod_bound(num * 65536, sgg);
        assert(sgg * coef <= num * 65536);
        assert((sgg * coef) * g <= (num * 65536) * g) by (nonlinear_arith)
            requires sgg * coef <= num * 65536 && g >= 0;
        assert((num * 65536) * g == (num * g) * 65536) by (nonlinear_arith);
        assert((num * g) * 65536 <= (total * sgg) * 65536) by (nonlinear_arith)
            requires num * g <= total * sgg;
        assert((sgg * coef) * g == sgg * (coef * g)) by (nonlinear_arith);
        assert((total * sgg) * 65536 == sgg * (total * 65536)) by (nonlinear_arith);
        assert(coef * g <= total * 65536) by (nonlinear_arith)
            requires
                sgg >= 1,
                sgg * (coef * g) <= sgg * (total * 65536),
        ;
    }
    if g != 0 {
        lemma_div_is_ordered(coef * g, total * 65536, 65536);
        lemma_div_multiples_vanish(total, 65536);
        assert(total * 65536 == 65536 * total) by (nonlinear_arith);
        lemma_div_pos_is_pos(coef * g, 65536);
    }
}

/// The running residual is nonnegative and grows at most linearly, each
/// squared difference staying below the square of the largest admissible
/// total duration.
proof fn lemma_residual_to_bounded(runs: Seq<Run>, c: Complexity, k: int)
    requires
        fit_bounds_ok(runs),
        0 <= k <= runs.len(),
    ensures
        0 <= residual_to(runs, c, k) <= k * (4_398_046_511_104_000int * 4_398_046_511_104_000),
    decreases k,
{
    if k > 0 {
        lemma_residual_to_bounded(runs, c, k - 1);
        lemma_fit_within_total(runs, c, k - 1);
        lemma_sums_bounded(runs, c);
        let d = runs[k - 1].min - fit_at(runs, c, runs[k - 1].len as nat);
        assert(0 <= d * d <= 4_398_046_511_104_000int * 4_398_046_511_104_000) by (nonlinear_arith)
            requires -4_398_046_511_104_000 <= d <= 4_398_046_511_104_000;
    }
}

/// The three sums that the least-squares fit of one curve needs.
struct Sums {
    m: u128,
    mg: u128,
    gg: u128,
}

/// Computes the three sums of curve `c` over all measurements.
fn compute_sums(runs: &Vec<Run>, c: Complexity) -> (s: Sums)
    requires
        fit_bounds_ok(runs@),
    ensures
        s.m == sum_m(runs@),
        s.mg == sum_mg(runs@, c),
        s.gg == sum_gg(runs@, c),
{
    let mut m_acc: u128 = 0;
    let mut mg_acc: u128 = 0;
    let mut gg_acc: u128 = 0;
    let n = runs.len();
    let mut i: usize = 0;
    proof {
        assert(runs@.subrange(0, 0) =~= Seq::<Run>::empty());
    }
    while i < n
        invariant
            i <= n,
            n == runs@.len(),
            fit_bounds_ok(runs@),
            m_acc == sum_m(runs@.subrange(0, i as int)),
            mg_acc == sum_mg(runs@.subrange(0, i as int), c),
            gg_acc == sum_gg(runs@.subrange(0, i as int), c),
        decreases n - i,
    {
        let r = runs[i];
        let g: u128 = c.curve(r.len as u64);
        let m: u128 = r.min as u128;
        proof {
            lemma_curve_below_limit(c, r.len as nat);
            lemma_bounds_prefix(runs@, i + 1);
            lemma_sums_bounded(runs@.subrange(0, i + 1), c);
            assert(runs@.subrange(0, i + 1).drop_last() =~= runs@.subrange(0, i as int));
            assert(runs@.subrange(0, i + 1).last() == runs@[i as int]);
            assert((m as int) * (g as int) <= (FIT_TIME_LIMIT as int)
                * (CURVE_LIMIT as int)) by (nonlinear_arith)
                requires
                    0 <= m <= FIT_TIME_LIMIT as int,
                    0 <= g <= CURVE_LIMIT as int,
            ;
            assert((g as int) * (g as int) <= (CURVE_LIMIT as int)
                * (CURVE_LIMIT as int)) by (nonlinear_arith)
                requires 0 <= g <= CURVE_LIMIT as int;
        }
        m_acc = m_acc + m;
        mg_acc = mg_acc + m * g;
        gg_acc = gg_acc + g * g;
        i = i + 1;
    }
    proof {
        assert(runs@.subrange(0, n as int) =~= runs@);
    }
    Sums { m: m_acc, mg: mg_acc, gg: gg_acc }
}

/// One curve's least-squares fit.
///
/// The coefficient is the exact fraction `coef_num / coef_den` in
/// nanoseconds per curve unit; the squared normalized root-mean-square
/// error is the exact fraction `rms2_num / rms2_den`. Both denominators
/// are positive for any fit this library produces.
#[derive(Debug, Clone, Copy, PartialEq, Eq, Structural)]
pub struct LeastSquares {
    /// Numerator of the fitted coefficient.
    pub coef_num: u128,
    /// Denominator of the fitted coefficient.
    pub coef_den: u128,
    /// The curve this fit belongs to; `Unknown` until a selection names it.
    pub complexity: Complexity,
    /// Numerator of the squared normalized error.
    pub rms2_num: u128,
    /// Denominator of the squared normalized error.
    pub rms2_den: u128,
}

impl LeastSquares {
    /// Fits curve `c` to the measurements: the closed-form least-squares
    /// coefficient that best scales the curve to the observed shortest
    /// durations, and the squared normalized root-mean-square residual.
    pub fn minimal_least_squares(runs: &Vec<Run>, c: Complexity) -> (r: LeastSquares)
        requires
            fit_bounds_ok(runs@),
            sum_gg(runs@, c) > 0,
        ensures
            r.complexity == Complexity::Unknown,
            r.coef_num == sum_mg(runs@, c) * curve_scale(c),
            r.coef_den == sum_gg(runs@, c),
            r.rms2_num == runs@.len() * residual(runs@, c),
            r.rms2_den == sum_m(runs@) * sum_m(runs@),
    {
        let s = compute_sums(runs, c);
        proof {
            lemma_sums_bounded(runs@, c);
        }
        let coef_fp: u128 = (s.mg * 65536) / s.gg;
        proof {
            assert(coef_fp == coef_fixed(runs@, c));
        }
        let n = runs.len();
        let mut acc: u128 = 0;
        let mut i: usize = 0;
        while i < n
            invariant
                i <= n,
                n == runs@.len(),
                fit_bounds_ok(runs@),
                sum_gg(runs@, c) > 0,
                s.m == sum_m(runs@),
                s.mg == sum_mg(runs@, c),
                s.gg == sum_gg(runs@, c),
                coef_fp == coef_fixed(runs@, c),
                acc == residual_to(runs@, c, i as int),
            decreases n - i,
        {
            let r = runs[i];
            let g: u128 = c.curve(r.len as u64);
            let m: u128 = r.min as u128;
            proof {
                lemma_fit_within_total(runs@, c, i as int);
                lemma_sums_bounded(runs@, c);
            }
            let fit: u128 = if g == 0 {
                0
            } else {
                (coef_fp * g) / 65536
            };
            proof {
                assert(fit == fit_at(runs@, c, r.len as nat));
                assert(fit <= s.m);
            }
            let diff: u128 = if m >= fit {
                m - fit
            } else {
                fit - m
            };
            proof {
                lemma_residual_to_bounded(runs@, c, i as int);
                lemma_residual_to_bounded(runs@, c, i + 1);
                let d = runs@[i as int].min - fit_at(runs@, c, runs@[i as int].len as nat);
                assert((diff as int) * (diff as int) == d * d) by (nonlinear_arith)
                    requires diff as int == d || diff as int == -d;
                assert(residual_to(runs@, c, i + 1) == residual_to(runs@, c, i as int) + diff_sq(
                    runs@,
                    c,
                    i as int,
                ));
            }
            acc = acc + diff * diff;
            i = i + 1;
        }
        proof {
            lemma_residual_to_bounded(runs@, c, n as int);
            assert((n as int) * (acc as int) <= 1000 * (1000
                * (4_398_046_511_104_000int * 4_398_046_511_104_000))) by (nonlinear_arith)
                requires
                    0 <= n <= 1000,
                    0 <= acc as int <= 1000 * (4_398_046_511_104_000int * 4_398_046_511_104_000),
            ;
            assert((s.m as int) * (s.m as int) <= 4_398_046_511_104_000int
                * 4_398_046_511_104_000) by (nonlinear_arith)
                requires 0 <= s.m as int <= 4_398_046_511_104_000;
        }
        let scale: u128 = match c {
            Complexity::OLogN => 65536,
            Complexity::ONLogN => 65536,
            _ => 1,
        };
        proof {
            assert((s.mg as int) * (scale as int) <= (1000 * ((FIT_TIME_LIMIT as int)
                * (CURVE_LIMIT as int))) * 65536) by (nonlinear_arith)
                requires
                    0 <= s.mg as int <= 1000 * ((FIT_TIME_LIMIT as int) * (CURVE_LIMIT as int)),
                    1 <= scale <= 65536,
            ;
        }
        LeastSquares {
            coef_num: s.mg * scale,
            coef_den: s.gg,
            complexity: Complexity::Unknown,
            rms2_num: (n as u128) * acc,
            rms2_den: s.m * s.m,
        }
    }
}

/// Whether the measurements are inside the bounds one fit admits; callers
/// check this before asking for a fit.
pub fn within_fit_bounds(runs: &Vec<Run>) -> (b: bool)
    ensures
        b == fit_bounds_ok(runs@),
{
    if runs.len() > FIT_RUNS_LIMIT {
        return false;
    }
    let mut i: usize = 0;
    while i < runs.len()
        invariant
            i <= runs@.len(),
            runs@.len() <= FIT_RUNS_LIMIT,
            forall|j: int|
                0 <= j < i ==> (#[trigger] runs@[j]).len <= FIT_LEN_LIMIT && runs@[j].min
                    <= FIT_TIME_LIMIT,
        decreases runs@.len() - i,
    {
        let r = runs[i];
        if (r.len as u64) > FIT_LEN_LIMIT || r.min > FIT_TIME_LIMIT {
            return false;
        }
        i = i + 1;
    }
    true
}

/// Why a fit could not be produced.
#[derive(Debug, Clone, Copy, PartialEq, Eq, Structural)]
pub enum FitError {
    /// Fewer than two distinct lengths, or a candidate curve that vanishes
    /// on every measurement: the least-squares system has no meaningful
    /// solution.
    DegenerateInput,
}

/// Every measurement has the same length as the first one.
pub open spec fn all_same_len(runs: Seq<Run>) -> bool {
    forall|i: int| 0 <= i < runs.len() ==> (#[trigger] runs[i]).len == runs[0].len
}

/// Inputs on which no fit exists: no measurement at all, fewer than two
/// distinct lengths, or a candidate curve whose sum of squares vanishes.
pub open spec fn degenerate(runs: Seq<Run>) -> bool {
    ||| runs.len() == 0
    ||| all_same_len(runs)
    ||| sum_gg(runs, Complexity::O1) == 0
    ||| sum_gg(runs, Complexity::OLogN) == 0
    ||| sum_gg(runs, Complexity::ON) == 0
    ||| sum_gg(runs, Complexity::ONLogN) == 0
    ||| sum_gg(runs, Complexity::ONSquared) == 0
    ||| sum_gg(runs, Complexity::ONCubed) == 0
}

/// The curve the selection settles on: the constant curve is the initial
/// best, the remaining five are tried in fixed order, and a candidate
/// replaces the best only on a strictly smaller residual, so ties favour
/// the earlier, lower-complexity curve.
pub open spec fn selected_curve(runs: Seq<Run>) -> Complexity {
    let c1 = if residual(runs, Complexity::OLogN) < residual(runs, Complexity::O1) {
        Complexity::OLogN
    } else {
        Complexity::O1
    };
    let c2 = if residual(runs, Complexity::ON) < residual(runs, c1) {
        Complexity::ON
    } else {
        c1
    };
    let c3 = if residual(runs, Complexity::ONLogN) < residual(runs, c2) {
        Complexity::ONLogN
    } else {
        c2
    };
    let c4 = if residual(runs, Complexity::ONSquared) < residual(runs, c3) {
        Complexity::ONSquared
    } else {
        c3
    };
    if residual(runs, Complexity::ONCubed) < residual(runs, c4) {
        Complexity::ONCubed
    } else {
        c4
    }
}

/// Whether all measurements share one length.
fn lens_all_equal(runs: &Vec<Run>) -> (b: bool)
    requires
        runs@.len() >= 1,
    ensures
        b == all_same_len(runs@),
{
    let first = runs[0].len;
    let mut i: usize = 0;
    while i < runs.len()
        invariant
            i <= runs@.len(),
            runs@.len() >= 1,
            first == runs@[0].len,
            forall|j: int| 0 <= j < i ==> (#[trigger] runs@[j]).len == first,
        decreases runs@.len() - i,
    {
        if runs[i].len != first {
            return false;
        }
        i = i + 1;
    }
    true
}

/// `r` is the least-squares fit of curve `c` over `runs`, labelled with `c`.
pub open spec fn is_fit_of(r: LeastSquares, runs: Seq<Run>, c: Complexity) -> bool {
    &&& r.complexity == c
    &&& r.coef_num == sum_mg(runs, c) * curve_scale(c)
    &&& r.coef_den == sum_gg(runs, c)
    &&& r.rms2_num == runs.len() * residual(runs, c)
    &&& r.rms2_den == sum_m(runs) * sum_m(runs)
}

/// Replaces the best fit so far when the candidate curve `c` has a strictly
/// smaller residual.
fn challenge(best: LeastSquares, runs: &Vec<Run>, c: Complexity) -> (r: LeastSquares)
    requires
        fit_bounds_ok(runs@),
        runs@.len() >= 1,
        sum_gg(runs@, c) > 0,
        is_fit_of(best, runs@, best.complexity),
    ensures
        r.complexity == if residual(runs@, c) < residual(runs@, best.complexity) {
            c
        } else {
            best.complexity
        },
        is_fit_of(r, runs@, r.complexity),
{
    let mut candidate = LeastSquares::minimal_least_squares(runs, c);
    proof {
        lemma_residual_to_bounded(runs@, c, runs@.len() as int);
        lemma_residual_to_bounded(runs@, best.complexity, runs@.len() as int);
        let n = runs@.len() as int;
        let a = residual(runs@, c);
        let b = residual(runs@, best.complexity);
        assert((n * a < n * b) == (a < b)) by (nonlinear_arith)
            requires n >= 1 && a >= 0 && b >= 0;
    }
    if candidate.rms2_num < best.rms2_num {
        candidate.complexity = c;
        candidate
    } else {
        best
    }
}

impl LeastSquares {
    /// Fits all six candidate curves to the measurements and picks the one
    /// with the smallest residual, ties favouring the earlier,
    /// lower-complexity candidate. Fails exactly on degenerate input: no
    /// measurements, fewer than two distinct lengths, or a candidate curve
    /// vanishing everywhere.
    pub fn computate_big_o(runs: &Vec<Run>) -> (result: Result<LeastSquares, FitError>)
        requires
            fit_bounds_ok(runs@),
        ensures
            result is Err <==> degenerate(runs@),
            match result {
                Result::Err(e) => e == FitError::DegenerateInput,
                Result::Ok(ls) => {
                    &&& is_fit_of(ls, runs@, selected_curve(runs@))
                    &&& residual(runs@, ls.complexity) <= residual(runs@, Complexity::O1)
                    &&& residual(runs@, ls.complexity) <= residual(runs@, Complexity::OLogN)
                    &&& residual(runs@, ls.complexity) <= residual(runs@, Complexity::ON)
                    &&& residual(runs@, ls.complexity) <= residual(runs@, Complexity::ONLogN)
                    &&& residual(runs@, ls.complexity) <= residual(runs@, Complexity::ONSquared)
                    &&& residual(runs@, ls.complexity) <= residual(runs@, Complexity::ONCubed)
                },
            },
    {
        if runs.len() == 0 {
            return Err(FitError::DegenerateInput);
        }
        if lens_all_equal(runs) {
            return Err(FitError::DegenerateInput);
        }
        let s1 = compute_sums(runs, Complexity::O1);
        let s2 = compute_sums(runs, Complexity::OLogN);
        let s3 = compute_sums(runs, Complexity::ON);
        let s4 = compute_sums(runs, Complexity::ONLogN);
        let s5 = compute_sums(runs, Complexity::ONSquared);
        let s6 = compute_sums(runs, Complexity::ONCubed);
        if s1.gg == 0 || s2.gg == 0 || s3.gg == 0 || s4.gg == 0 || s5.gg == 0 || s6.gg == 0 {
            return Err(FitError::DegenerateInput);
        }
        let mut best = LeastSquares::minimal_least_squares(runs, Complexity::O1);
        best.complexity = Complexity::O1;
        let best = challenge(best, runs, Complexity::OLogN);
        let best = challenge(best, runs, Complexity::ON);
        let best = challenge(best, runs, Complexity::ONLogN);
        let best = challenge(best, runs, Complexity::ONSquared);
        let best = challenge(best, runs, Complexity::ONCubed);
        Ok(best)
    }
}

/// When every duration is exactly `k` times its curve value, the mixed sum
/// is `k` times the sum of squares.
proof fn lemma_perfect_sums(runs: Seq<Run>, c: Complexity, k: nat)
    requires
        forall|i: int|
            0 <= i < runs.len() ==> (#[trigger] runs[i]).min == k * curve_g(c, runs[i].len as nat),
    ensures
        sum_mg(runs, c) == k * sum_gg(runs, c),
    decreases runs.len(),
{
    if runs.len() == 0 {
        assert(k * 0 == 0) by (nonlinear_arith);
    } else {
        assert forall|i: int| 0 <= i < runs.drop_last().len() implies (#[trigger] runs.drop_last()[
            i
        ]).min == k * curve_g(c, runs.drop_last()[i].len as nat) by {
            assert(runs.drop_last()[i] == runs[i]);
        }
        lemma_perfect_sums(runs.drop_last(), c, k);
        let g = curve_g(c, runs.last().len as nat);
        assert(runs.last() == runs[runs.len() - 1]);
        assert((k * g) * g == k * (g * g)) by (nonlinear_arith);
        assert(k * sum_gg(runs.drop_last(), c) + k * (g * g) == k * (sum_gg(runs.drop_last(), c) + g
            * g)) by (nonlinear_arith);
    }
}

proof fn lemma_zero_diffs_zero_residual(runs: Seq<Run>, c: Complexity, j: int)
    requires
        forall|i: int| 0 <= i < j ==> diff_sq(runs, c, i) == 0,
    ensures
        residual_to(runs, c, j) == 0,
    decreases j,
{
    if j > 0 {
        lemma_zero_diffs_zero_residual(runs, c, j - 1);
    }
}

/// A curve that explains the data exactly fits with coefficient exactly `k`
/// and residual exactly zero: when every shortest duration is `k` times the
/// curve's value at its length, the least-squares fit recovers `k` (as the
/// fraction `sum_mg / sum_gg`) and leaves no residual at all.
pub proof fn law_perfect_fit(runs: Seq<Run>, c: Complexity, k: nat)
    requires
        fit_bounds_ok(runs),
        sum_gg(runs, c) > 0,
        forall|i: int|
            0 <= i < runs.len() ==> (#[trigger] runs[i]).min == k * curve_g(c, runs[i].len as nat),
    ensures
        sum_mg(runs, c) == k * sum_gg(runs, c),
        residual(runs, c) == 0,
{
    lemma_perfect_sums(runs, c, k);
    let sgg = sum_gg(runs, c);
    assert((k * sgg) * 65536 == sgg * (k * 65536)) by (nonlinear_arith);
    lemma_div_multiples_vanish(k as int * 65536, sgg);
    assert(coef_fixed(runs, c) == k * 65536);
    assert forall|i: int| 0 <= i < runs.len() implies diff_sq(runs, c, i) == 0 by {
        let g = curve_g(c, runs[i].len as nat) as int;
        let m = runs[i].min as int;
        if g == 0 {
            assert(m == k * 0);
            assert(k * 0 == 0) by (nonlinear_arith);
            assert(fit_at(runs, c, runs[i].len as nat) == 0);
        } else {
            assert((k * 65536) * g == 65536 * (k * g)) by (nonlinear_arith);
            lemma_div_multiples_vanish(k as int * g, 65536);
            assert(fit_at(runs, c, runs[i].len as nat) == k * g);
            assert(m == k * g);
        }
        let d = runs[i].min - fit_at(runs, c, runs[i].len as nat);
        assert(d == 0);
        assert(d * d == 0) by (nonlinear_arith)
            requires d == 0;
    }
    lemma_zero_diffs_zero_residual(runs, c, runs.len() as int);
}

/// A single measurement, or measurements that all share one length, are
/// degenerate input: no fit is owed on them, and `computate_big_o` reports
/// the degeneracy instead of producing a fit.
pub proof fn law_degenerate_lens(runs: Seq<Run>)
    requires
        runs.len() == 1 || all_same_len(runs),
    ensures
        degenerate(runs),
{
    if runs.len() == 1 {
        assert(all_same_len(runs));
    }
}

} // verus!

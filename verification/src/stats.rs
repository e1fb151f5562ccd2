//! Latency statistics: percentiles of a sorted list of durations, and the mean.

use vstd::arithmetic::div_mod::{
    lemma_div_is_ordered, lemma_fundamental_div_mod, lemma_fundamental_div_mod_converse_div,
};
use vstd::prelude::*;

verus! {

/// The average and the two upper percentiles of a list of durations, in milliseconds.
#[derive(Debug, Clone, Copy, PartialEq, Eq, Structural)]
pub struct LatencyStats {
    pub avg_ms: i64,
    pub p95_ms: i64,
    pub p99_ms: i64,
}

/// The index of a percentile in a sorted list of `n` values, `n` at least 1: the
/// percentile's share of `n - 1`, rounded to the nearest index, halves upwards, and no
/// larger than `n - 1`.
pub open spec fn percentile_rank(n: nat, percentile: nat) -> nat {
    let rounded = (2 * percentile * (n - 1) + 100) / 200;
    if rounded > n - 1 {
        (n - 1) as nat
    } else {
        rounded as nat
    }
}

/// The percentile of a sorted list: the value at the percentile's index, and 0 for the
/// empty list.
pub open spec fn percentile_of(sorted: Seq<i64>, percentile: nat) -> int {
    if sorted.len() == 0 {
        0
    } else {
        sorted[percentile_rank(sorted.len(), percentile) as int] as int
    }
}

/// Whether a list is sorted, smallest first.
pub open spec fn is_sorted(values: Seq<i64>) -> bool {
    forall|i: int, j: int| 0 <= i <= j < values.len() ==> values[i] <= values[j]
}

/// Whether `max` is the largest value of a list.
pub open spec fn is_max(values: Seq<i64>, max: int) -> bool {
    &&& exists|i: int| 0 <= i < values.len() && values[i] == max
    &&& forall|i: int| 0 <= i < values.len() ==> values[i] <= max
}

/// The index of a percentile in a sorted list of `n` values.
pub fn percentile_index(n: usize, percentile: u32) -> (index: usize)
    requires
        n >= 1,
    ensures
        index == percentile_rank(n as nat, percentile as nat),
        index < n,
{
    let last: u128 = (n - 1) as u128;
    let doubled: u128 = 2 * (percentile as u128);
    assert(doubled * last <= 0x2_0000_0000 * 0xffff_ffff_ffff_ffff) by (nonlinear_arith)
        requires
            doubled <= 0x2_0000_0000,
            last <= 0xffff_ffff_ffff_ffff,
    ;
    let rounded: u128 = (doubled * last + 100) / 200;
    if rounded > last {
        n - 1
    } else {
        rounded as usize
    }
}

/// The percentile of a sorted list of values; 0 for the empty list.
pub fn calculate_percentile(sorted_values: &[i64], percentile: u32) -> (value: i64)
    ensures
        value == percentile_of(sorted_values@, percentile as nat),
{
    if sorted_values.len() == 0 {
        return 0;
    }
    sorted_values[percentile_index(sorted_values.len(), percentile)]
}

/// A larger percentile has an index at least as large.
pub proof fn lemma_rank_monotone(n: nat, p: nat, q: nat)
    requires
        n >= 1,
        p <= q,
    ensures
        percentile_rank(n, p) <= percentile_rank(n, q) <= n - 1,
{
    let m = (n - 1) as nat;
    assert(2 * p * m <= 2 * q * m) by (nonlinear_arith)
        requires
            p <= q,
            m >= 0,
    ;
}

/// In a sorted list, a larger percentile is at least as large, and no percentile is larger
/// than the largest value.
pub proof fn lemma_percentile_monotone(values: Seq<i64>, p: nat, q: nat)
    requires
        values.len() >= 1,
        is_sorted(values),
        p <= q,
    ensures
        percentile_of(values, p) <= percentile_of(values, q) <= values.last(),
        is_max(values, values.last() as int),
{
    lemma_rank_monotone(values.len(), p, q);
}

/// Of a sorted list that is not empty, the 95th percentile is at most the 99th, the 99th at
/// most the largest value, and the median at most the 95th percentile.
pub proof fn lemma_percentile_bounds(values: Seq<i64>, max: int)
    requires
        values.len() >= 1,
        is_sorted(values),
        is_max(values, max),
    ensures
        percentile_of(values, 50) <= percentile_of(values, 95) <= percentile_of(values, 99) <= max,
{
    lemma_percentile_monotone(values, 50, 95);
}

/// The fraction `num / den`, `den` positive, rounded to the nearest whole number, halves
/// away from zero.
pub open spec fn rounded(num: int, den: int) -> int {
    if num >= 0 {
        (2 * num + den) / (2 * den)
    } else {
        -((2 * (-num) + den) / (2 * den))
    }
}

/// The sum of a list of values.
pub open spec fn sum_of(values: Seq<i64>) -> int
    decreases values.len(),
{
    if values.len() == 0 {
        0
    } else {
        sum_of(values.drop_last()) + values.last()
    }
}

/// The mean of a list of durations in nanoseconds, in whole milliseconds.
pub open spec fn mean_ms(values: Seq<i64>) -> int {
    rounded(sum_of(values), (values.len() * 1_000_000) as int)
}

/// A duration in nanoseconds, in whole milliseconds.
pub open spec fn to_ms(ns: int) -> int {
    rounded(ns, 1_000_000)
}

/// The statistics of a sorted list of durations in nanoseconds; all zero for the empty list.
pub open spec fn stats_of(sorted: Seq<i64>) -> LatencyStats {
    if sorted.len() == 0 {
        LatencyStats { avg_ms: 0, p95_ms: 0, p99_ms: 0 }
    } else {
        LatencyStats {
            avg_ms: mean_ms(sorted) as i64,
            p95_ms: to_ms(percentile_of(sorted, 95)) as i64,
            p99_ms: to_ms(percentile_of(sorted, 99)) as i64,
        }
    }
}

/// Rounding a fraction that is not negative: the whole part of the quotient, and one more
/// where the rest is at least half of the divisor.
pub proof fn lemma_rounded_steps(m: int, den: int)
    requires
        m >= 0,
        den > 0,
    ensures
        (2 * m + den) / (2 * den) == m / den + if 2 * (m % den) >= den {
            1int
        } else {
            0int
        },
        0 <= m % den < den,
        m / den >= 0,
{
    let q = m / den;
    let r = m % den;
    lemma_fundamental_div_mod(m, den);
    if 2 * r >= den {
        assert(2 * m + den == (q + 1) * (2 * den) + (2 * r - den)) by (nonlinear_arith)
            requires
                m == den * q + r,
        ;
        lemma_fundamental_div_mod_converse_div(2 * m + den, 2 * den, q + 1, 2 * r - den);
    } else {
        assert(2 * m + den == q * (2 * den) + (2 * r + den)) by (nonlinear_arith)
            requires
                m == den * q + r,
        ;
        lemma_fundamental_div_mod_converse_div(2 * m + den, 2 * den, q, 2 * r + den);
    }
}

/// Divides and rounds to the nearest whole number, halves away from zero.
pub fn round_div(num: i128, den: u128) -> (r: i128)
    requires
        den > 0,
        num > i128::MIN,
    ensures
        r == rounded(num as int, den as int),
{
    let magnitude: u128 = if num >= 0 {
        num as u128
    } else {
        (-num) as u128
    };
    let q: u128 = magnitude / den;
    let r: u128 = magnitude % den;
    proof {
        lemma_rounded_steps(magnitude as int, den as int);
        lemma_fundamental_div_mod(magnitude as int, den as int);
        assert(q <= den * q) by (nonlinear_arith)
            requires
                den >= 1,
                q >= 0,
        ;
    }
    let whole: u128 = if r >= den - r {
        q + 1
    } else {
        q
    };
    if num >= 0 {
        whole as i128
    } else {
        -(whole as i128)
    }
}

/// A duration in nanoseconds, in whole milliseconds.
pub fn ns_to_ms(ns: i64) -> (ms: i64)
    ensures
        ms == to_ms(ns as int),
{
    let r = round_div(ns as i128, 1_000_000);
    proof {
        let m: int = if ns >= 0 {
            ns as int
        } else {
            -(ns as int)
        };
        lemma_rounded_steps(m, 1_000_000);
    }
    r as i64
}

/// The sum of values of 64 bits is within as many times the bounds of 64 bits.
proof fn lemma_sum_bounds(values: Seq<i64>)
    ensures
        -0x8000_0000_0000_0000 * values.len() <= sum_of(values) <= 0x7fff_ffff_ffff_ffff
            * values.len(),
    decreases values.len(),
{
    if values.len() > 0 {
        lemma_sum_bounds(values.drop_last());
    }
}

/// The mean of a list of durations in nanoseconds that is not empty, in whole milliseconds.
pub fn mean_in_ms(values: &[i64]) -> (ms: i64)
    requires
        values.len() > 0,
    ensures
        ms == mean_ms(values@),
{
    let n: usize = values.len();
    let mut sum: i128 = 0;
    let mut i: usize = 0;
    while i < n
        invariant
            i <= n,
            n == values.len(),
            sum == sum_of(values@.take(i as int)),
        decreases n - i,
    {
        proof {
            assert(values@.take(i + 1).drop_last() =~= values@.take(i as int));
            lemma_sum_bounds(values@.take(i as int));
        }
        sum = sum + values[i] as i128;
        i += 1;
    }
    proof {
        assert(values@.take(n as int) =~= values@);
        lemma_sum_bounds(values@);
    }
    let den: u128 = (n as u128) * 1_000_000;
    let r = round_div(sum, den);
    proof {
        // The mean of values of 64 bits is a value of 64 bits, and so is its thousandth.
        let m: int = if sum >= 0 {
            sum as int
        } else {
            -(sum as int)
        };
        lemma_rounded_steps(m, den as int);
        lemma_fundamental_div_mod(m, den as int);
        let q = m / (den as int);
        assert(q < 0x4000_0000_0000_0000) by (nonlinear_arith)
            requires
                m == den * q + m % (den as int),
                m % (den as int) >= 0,
                m <= 0x8000_0000_0000_0000 * n,
                den == n * 1_000_000,
                n >= 1,
                q >= 0,
        ;
    }
    r as i64
}

/// The average and the upper percentiles of a sorted list of durations in nanoseconds, in
/// whole milliseconds; all zero for the empty list.
pub fn latency_stats(sorted_durations_ns: &[i64]) -> (stats: LatencyStats)
    ensures
        stats == stats_of(sorted_durations_ns@),
{
    if sorted_durations_ns.len() == 0 {
        return LatencyStats { avg_ms: 0, p95_ms: 0, p99_ms: 0 };
    }
    LatencyStats {
        avg_ms: mean_in_ms(sorted_durations_ns),
        p95_ms: ns_to_ms(calculate_percentile(sorted_durations_ns, 95)),
        p99_ms: ns_to_ms(calculate_percentile(sorted_durations_ns, 99)),
    }
}

} // verus!

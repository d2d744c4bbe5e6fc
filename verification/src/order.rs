//! Choosing the orders of an ARMA model from its autocorrelations, and the
//! sizes that the autocorrelation estimators work with.

use vstd::prelude::*;
use crate::scalar::Scalar;

verus! {

/// The orders of an ARMA model: `p` autoregressive and `q` moving-average terms.
#[derive(Clone, Copy, Debug, PartialEq, Eq, Structural)]
pub struct ModelOrder {
    pub p: usize,
    pub q: usize,
}

/// `|v| < bound`: the coefficient lies inside the confidence band.
pub open spec fn inside_band(v: Scalar, bound: Scalar) -> bool {
    v.magnitude_scalar().less(bound)
}

/// `|v| >= bound`: the coefficient reaches the confidence band.
pub open spec fn significant(v: Scalar, bound: Scalar) -> bool {
    bound.at_most(v.magnitude_scalar())
}

/// `k` is the number of leading coefficients before the first one that lies
/// inside the band, or the number of all of them if none does.
pub open spec fn is_first_drop(vals: Seq<Scalar>, bound: Scalar, k: int) -> bool {
    &&& 0 <= k <= vals.len()
    &&& forall|j: int| 0 <= j < k ==> !inside_band(#[trigger] vals[j], bound)
    &&& k < vals.len() ==> inside_band(vals[k], bound)
}

/// `q` is the lag of the last coefficient that reaches the band, the first
/// coefficient being that of lag 1, or 0 if none does.
pub open spec fn is_largest_significant(vals: Seq<Scalar>, bound: Scalar, q: int) -> bool {
    &&& 0 <= q <= vals.len()
    &&& q > 0 ==> significant(vals[q - 1], bound)
    &&& forall|j: int| q <= j < vals.len() ==> !significant(#[trigger] vals[j], bound)
}

/// `n` is a power of two.
pub open spec fn is_power_of_two(n: int) -> bool
    decreases n,
{
    if n <= 1 {
        n == 1
    } else {
        n % 2 == 0 && is_power_of_two(n / 2)
    }
}

/// The first drop of a series of coefficients is unique.
pub proof fn lemma_first_drop_unique(vals: Seq<Scalar>, bound: Scalar, k1: int, k2: int)
    requires
        is_first_drop(vals, bound, k1),
        is_first_drop(vals, bound, k2),
    ensures
        k1 == k2,
{
    if k1 < k2 {
        assert(!inside_band(vals[k1], bound));
    } else if k2 < k1 {
        assert(!inside_band(vals[k2], bound));
    }
}

/// The largest significant lag of a series of coefficients is unique.
pub proof fn lemma_largest_significant_unique(vals: Seq<Scalar>, bound: Scalar, q1: int, q2: int)
    requires
        is_largest_significant(vals, bound, q1),
        is_largest_significant(vals, bound, q2),
    ensures
        q1 == q2,
{
    if q1 < q2 {
        assert(!significant(vals[q2 - 1], bound));
    } else if q2 < q1 {
        assert(!significant(vals[q1 - 1], bound));
    }
}

/// The first drop never lies beyond the largest significant lag.
pub proof fn lemma_first_drop_at_most_largest(vals: Seq<Scalar>, bound: Scalar, k: int, q: int)
    requires
        is_first_drop(vals, bound, k),
        is_largest_significant(vals, bound, q),
        !bound.nan(),
        forall|j: int| 0 <= j < vals.len() ==> !(#[trigger] vals[j]).nan(),
    ensures
        k <= q,
{
    if q < k {
        assert(!inside_band(vals[q], bound));
        assert(!significant(vals[q], bound));
    }
}

/// The largest lag that an estimator can reach: the one asked for, capped at
/// one less than the length of the series.
pub fn effective_lag(n: usize, max_lag: usize) -> (m: usize)
    requires
        n >= 1,
    ensures
        m == if max_lag <= n - 1 {
            max_lag as int
        } else {
            n - 1
        },
        m < n,
{
    if max_lag <= n - 1 {
        max_lag
    } else {
        n - 1
    }
}

/// Whether `|v| < bound`.
pub fn is_inside_band(v: &Scalar, bound: &Scalar) -> (b: bool)
    ensures
        b == inside_band(*v, *bound),
{
    v.abs().lt(bound)
}

/// Whether `|v| >= bound`.
pub fn is_significant(v: &Scalar, bound: &Scalar) -> (b: bool)
    ensures
        b == significant(*v, *bound),
{
    v.abs().ge(bound)
}

/// The number of coefficients from index `from` on that come before the first
/// one inside the band.
fn first_drop_from(vals: &[Scalar], from: usize, bound: &Scalar) -> (k: usize)
    requires
        from <= vals.len(),
    ensures
        is_first_drop(vals@.subrange(from as int, vals.len() as int), *bound, k as int),
{
    let ghost tail = vals@.subrange(from as int, vals.len() as int);
    let mut i: usize = from;
    while i < vals.len()
        invariant
            from <= i <= vals.len(),
            tail == vals@.subrange(from as int, vals.len() as int),
            forall|j: int| 0 <= j < i - from ==> !inside_band(#[trigger] tail[j], *bound),
        decreases vals.len() - i,
    {
        if is_inside_band(&vals[i], bound) {
            assert(tail[i - from] == vals@[i as int]);
            return i - from;
        }
        assert(tail[i - from] == vals@[i as int]);
        i = i + 1;
    }
    i - from
}

/// The autoregressive order by the first-drop rule: the number of leading
/// partial autocorrelations, from lag 1 on, before the first that lies inside
/// the confidence band of half-width `bound`.
pub fn choose_p_cutoff_first_drop(pacf_vals: &[Scalar], bound: Scalar) -> (p: usize)
    ensures
        is_first_drop(pacf_vals@, bound, p as int),
{
    assert(pacf_vals@.subrange(0, pacf_vals.len() as int) =~= pacf_vals@);
    first_drop_from(pacf_vals, 0, &bound)
}

/// The moving-average order by the first-drop rule: the number of leading
/// autocorrelations, from lag 1 on, before the first that lies inside the
/// confidence band of half-width `bound`.
pub fn choose_q_first_drop(acf_vals: &[Scalar], bound: Scalar) -> (q: usize)
    ensures
        is_first_drop(acf_vals@, bound, q as int),
{
    assert(acf_vals@.subrange(0, acf_vals.len() as int) =~= acf_vals@);
    first_drop_from(acf_vals, 0, &bound)
}

/// The moving-average order by the other rule: the largest lag whose
/// autocorrelation reaches the confidence band, 0 if none does.
pub fn choose_q_largest_significant(acf_vals: &[Scalar], bound: Scalar) -> (q: usize)
    ensures
        is_largest_significant(acf_vals@, bound, q as int),
{
    let mut last_sig: usize = 0;
    let mut i: usize = 0;
    while i < acf_vals.len()
        invariant
            i <= acf_vals.len(),
            last_sig <= i,
            last_sig > 0 ==> significant(acf_vals@[last_sig - 1], bound),
            forall|j: int| last_sig <= j < i ==> !significant(#[trigger] acf_vals@[j], bound),
        decreases acf_vals.len() - i,
    {
        if is_significant(&acf_vals[i], &bound) {
            last_sig = i + 1;
        }
        i = i + 1;
    }
    last_sig
}

/// The moving-average order from autocorrelations that start at lag 0: the
/// first-drop rule on the lags from 1 on.
pub fn acf_and_choose_q(acf_from_lag_zero: &[Scalar], bound: Scalar) -> (q: usize)
    requires
        acf_from_lag_zero.len() >= 1,
    ensures
        is_first_drop(
            acf_from_lag_zero@.subrange(1, acf_from_lag_zero.len() as int),
            bound,
            q as int,
        ),
{
    first_drop_from(acf_from_lag_zero, 1, &bound)
}

/// The autoregressive order where two estimators each suggest one: the larger.
pub fn select_ar_order(p_levinson: usize, p_ols: usize) -> (p: usize)
    ensures
        p >= p_levinson,
        p >= p_ols,
        p == p_levinson || p == p_ols,
{
    if p_levinson >= p_ols {
        p_levinson
    } else {
        p_ols
    }
}

/// The orders of a model from the autocorrelations of its series: `p` is the
/// larger of the first drops of the two partial autocorrelation estimates,
/// which start at lag 1, and `q` the first drop of the autocorrelations from
/// lag 1 on, which start at lag 0. Each kind is read against its own band.
pub fn choose_order(
    pacf_levinson: &[Scalar],
    pacf_ols: &[Scalar],
    pacf_bound: Scalar,
    acf_from_lag_zero: &[Scalar],
    acf_bound: Scalar,
) -> (order: ModelOrder)
    requires
        acf_from_lag_zero.len() >= 1,
    ensures
        is_first_drop(pacf_levinson@, pacf_bound, order.p as int) || is_first_drop(
            pacf_ols@,
            pacf_bound,
            order.p as int,
        ),
        forall|k: int|
            is_first_drop(pacf_levinson@, pacf_bound, k) || is_first_drop(pacf_ols@, pacf_bound, k)
                ==> k <= order.p,
        is_first_drop(
            acf_from_lag_zero@.subrange(1, acf_from_lag_zero.len() as int),
            acf_bound,
            order.q as int,
        ),
{
    let p_levinson = choose_p_cutoff_first_drop(pacf_levinson, pacf_bound);
    let p_ols = choose_p_cutoff_first_drop(pacf_ols, pacf_bound);
    let q = acf_and_choose_q(acf_from_lag_zero, acf_bound);
    let p = select_ar_order(p_levinson, p_ols);
    proof {
        assert forall|k: int|
            is_first_drop(pacf_levinson@, pacf_bound, k) || is_first_drop(
                pacf_ols@,
                pacf_bound,
                k,
            ) implies k <= p by {
            if is_first_drop(pacf_levinson@, pacf_bound, k) {
                lemma_first_drop_unique(pacf_levinson@, pacf_bound, k, p_levinson as int);
            } else {
                lemma_first_drop_unique(pacf_ols@, pacf_bound, k, p_ols as int);
            }
        }
    }
    ModelOrder { p, q }
}

/// What the shifts of `next_pow2` make of `y`: every bit below its highest set
/// bit is set too.
pub open spec fn smeared(y: u64) -> u64 {
    let a = y | (y >> 1);
    let b = a | (a >> 2);
    let c = b | (b >> 4);
    let d = c | (c >> 8);
    let e = d | (d >> 16);
    e | (e >> 32)
}

proof fn lemma_smeared(y: u64)
    by (bit_vector)
    requires
        y < 0x8000_0000_0000_0000u64,
    ensures
        smeared(y) >= y,
        smeared(y) < 0x8000_0000_0000_0000u64,
        smeared(y) & ((smeared(y) + 1) as u64) == 0,
        smeared(y) <= 2 * y,
{
}

proof fn lemma_halve_single_bit(r: u64)
    by (bit_vector)
    requires
        r > 1,
        r & ((r - 1) as u64) == 0,
    ensures
        r % 2 == 0,
        r / 2 > 0,
        (r / 2) & ((r / 2 - 1) as u64) == 0,
{
}

proof fn lemma_single_bit_is_power(r: u64)
    requires
        r > 0,
        r & ((r - 1) as u64) == 0,
    ensures
        is_power_of_two(r as int),
    decreases r,
{
    if r > 1 {
        lemma_halve_single_bit(r);
        lemma_single_bit_is_power(r / 2);
    }
}

/// Of two different powers of two, the larger is at least twice the smaller.
pub proof fn lemma_powers_of_two_apart(a: int, b: int)
    requires
        is_power_of_two(a),
        is_power_of_two(b),
        a < b,
    ensures
        2 * a <= b,
    decreases b,
{
    if a > 1 {
        lemma_powers_of_two_apart(a / 2, b / 2);
    }
}

/// A power of two that is at least `x` and below `2 * x` is the least power
/// of two that is at least `x`.
pub proof fn lemma_next_pow2_least(x: int, r: int, other: int)
    requires
        is_power_of_two(r),
        x <= r < 2 * x,
        is_power_of_two(other),
        x <= other,
    ensures
        r <= other,
{
    if other < r {
        lemma_powers_of_two_apart(other, r);
    }
}

/// The least power of two that is at least `x`; 1 for 0.
pub fn next_pow2(x: usize) -> (r: usize)
    requires
        x <= usize::MAX / 2 + 1,
    ensures
        is_power_of_two(r as int),
        r >= x,
        r >= 1,
        r < 2 * x || x == 0,
{
    if x == 0 {
        return 1;
    }
    let y: u64 = (x - 1) as u64;
    let mut v: u64 = y;
    v = v | (v >> 1);
    v = v | (v >> 2);
    v = v | (v >> 4);
    v = v | (v >> 8);
    v = v | (v >> 16);
    v = v | (v >> 32);
    proof {
        lemma_smeared(y);
        let r = (v + 1) as u64;
        assert(r & ((r - 1) as u64) == 0) by (bit_vector)
            requires
                v & r == 0,
                r == v + 1,
                v < 0x8000_0000_0000_0000u64,
        ;
        lemma_single_bit_is_power(r);
    }
    (v + 1) as usize
}

/// The length to which a series of `n` points is padded with zeros before its
/// spectrum is taken: the least power of two that is at least `2 * n`.
pub fn padded_length(n: usize) -> (l: usize)
    requires
        n <= usize::MAX / 4 + 1,
    ensures
        is_power_of_two(l as int),
        l >= 2 * n,
        l >= 1,
        l < 4 * n || n == 0,
{
    next_pow2(2 * n)
}

} // verus!

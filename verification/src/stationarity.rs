//! Lag and bandwidth choices for the stationarity tests, and the reading of
//! their statistics against fixed critical values.

use vstd::prelude::*;
use crate::scalar::Scalar;

verus! {

/// Critical values of the augmented Dickey-Fuller statistic at 1%, 5% and 10%:
/// the patterns of -3.46, -2.88 and -2.57.
pub const ADF_CRITICAL_BITS: [u64; 3] = [
    0xC00B_AE14_7AE1_47AE,
    0xC007_0A3D_70A3_D70A,
    0xC004_8F5C_28F5_C28F,
];

/// Critical values of the KPSS statistic at 10%, 5%, 2.5% and 1%: the patterns
/// of 0.347, 0.463, 0.574 and 0.739.
pub const KPSS_CRITICAL_BITS: [u64; 4] = [
    0x3FD6_353F_7CED_9168,
    0x3FDD_A1CA_C083_126F,
    0x3FE2_5E35_3F7C_ED91,
    0x3FE7_A5E3_53F7_CED9,
];

/// The shortest series on which the checks are run.
pub const MIN_CHECKED_LENGTH: usize = 10;

/// What the augmented Dickey-Fuller statistic says of the unit-root null.
#[derive(Clone, Copy, Debug, PartialEq, Eq, Structural)]
pub enum AdfVerdict {
    /// Rejected at 1%: stationary.
    RejectAt1Percent,
    /// Rejected at 5%: stationary.
    RejectAt5Percent,
    /// Rejected at 10%: likely stationary.
    RejectAt10Percent,
    /// Not rejected: unit root.
    FailToReject,
}

/// What the KPSS statistic says of the null of level stationarity.
#[derive(Clone, Copy, Debug, PartialEq, Eq, Structural)]
pub enum KpssVerdict {
    /// Rejected at 1%: not stationary.
    RejectAt1Percent,
    /// Rejected at 2.5%: not stationary.
    RejectAt2Point5Percent,
    /// Rejected at 5%: not stationary.
    RejectAt5Percent,
    /// Rejected at 10%: likely not stationary.
    RejectAt10Percent,
    /// Not rejected: level-stationary.
    FailToReject,
}

/// The sizes of the regression behind the augmented Dickey-Fuller test.
#[derive(Clone, Copy, Debug, PartialEq, Eq, Structural)]
pub struct AdfShape {
    /// Rows of the design matrix: the effective sample size.
    pub rows: usize,
    /// Columns: intercept, lagged level, and one per lagged difference.
    pub cols: usize,
    /// Degrees of freedom of the residual variance, at least 1.
    pub dof: usize,
}

/// The lag count and the bandwidth with which a series is checked.
#[derive(Clone, Copy, Debug, PartialEq, Eq, Structural)]
pub struct StationarityPlan {
    pub lags: usize,
    pub bandwidth: usize,
}

/// The scalar with the given pattern.
pub open spec fn scalar_of(bits: u64) -> Scalar {
    Scalar { bits }
}

/// The verdict on a statistic `t`: the strictest level whose critical value it
/// does not exceed.
pub open spec fn adf_verdict(t: Scalar) -> AdfVerdict {
    if t.at_most(scalar_of(ADF_CRITICAL_BITS[0])) {
        AdfVerdict::RejectAt1Percent
    } else if t.at_most(scalar_of(ADF_CRITICAL_BITS[1])) {
        AdfVerdict::RejectAt5Percent
    } else if t.at_most(scalar_of(ADF_CRITICAL_BITS[2])) {
        AdfVerdict::RejectAt10Percent
    } else {
        AdfVerdict::FailToReject
    }
}

/// The verdict on a statistic `stat`: the strictest level whose critical value
/// it exceeds.
pub open spec fn kpss_verdict(stat: Scalar) -> KpssVerdict {
    if scalar_of(KPSS_CRITICAL_BITS[3]).less(stat) {
        KpssVerdict::RejectAt1Percent
    } else if scalar_of(KPSS_CRITICAL_BITS[2]).less(stat) {
        KpssVerdict::RejectAt2Point5Percent
    } else if scalar_of(KPSS_CRITICAL_BITS[1]).less(stat) {
        KpssVerdict::RejectAt5Percent
    } else if scalar_of(KPSS_CRITICAL_BITS[0]).less(stat) {
        KpssVerdict::RejectAt10Percent
    } else {
        KpssVerdict::FailToReject
    }
}

/// The fourth power.
pub open spec fn fourth_power(b: int) -> int {
    b * b * b * b
}

/// `b` is the KPSS bandwidth for `n` points: the integer part of
/// `12 * (n / 100)^(1/4)`, kept between 1 and 24. In whole numbers, the
/// integer part is the largest `b` with `100 * b^4 <= 12^4 * n`.
pub open spec fn is_bandwidth(b: int, n: int) -> bool {
    if n <= 0 {
        b == 1
    } else if n >= 1600 {
        b == 24
    } else {
        1 <= b < 24 && 25 * fourth_power(b) <= 5184 * n < 25 * fourth_power(b + 1)
    }
}

/// `r` is the integer nearest to the square root of `n`.
pub open spec fn is_rounded_root(r: int, n: int) -> bool {
    r >= 1 && (r - 1) * r < n <= r * (r + 1)
}

/// The lag count suggested for a series of `n` points.
pub open spec fn suggested_lag(l: int, n: int) -> bool {
    if n < 25 {
        l == 1
    } else if n > 240 {
        l == 16
    } else {
        is_rounded_root(l, n)
    }
}

/// Suggests a lag count for a series of `n` points: 1 below 25 points, else
/// the square root of `n` rounded to the nearest integer and capped at 16.
pub fn suggest_lag(n: usize) -> (l: usize)
    ensures
        suggested_lag(l as int, n as int),
        1 <= l <= 16,
{
    if n < 25 {
        return 1;
    }
    if n > 240 {
        return 16;
    }
    let mut r: usize = 5;
    loop
        invariant
            5 <= r <= 15,
            25 <= n <= 240,
            (r - 1) * r < n,
        ensures
            5 <= r <= 15,
            is_rounded_root(r as int, n as int),
        decreases 16 - r,
    {
        assert(r * (r + 1) <= 240 && (r < 15 || r * (r + 1) == 240)) by (nonlinear_arith)
            requires
                5 <= r <= 15,
        ;
        if r * (r + 1) >= n {
            break;
        }
        r = r + 1;
    }
    r
}

/// The rounded root is unique.
pub proof fn lemma_rounded_root_unique(r1: int, r2: int, n: int)
    requires
        is_rounded_root(r1, n),
        is_rounded_root(r2, n),
    ensures
        r1 == r2,
{
    if r1 < r2 {
        assert(r1 * (r1 + 1) <= (r2 - 1) * r2) by (nonlinear_arith)
            requires
                1 <= r1 < r2,
        ;
    } else if r2 < r1 {
        assert(r2 * (r2 + 1) <= (r1 - 1) * r1) by (nonlinear_arith)
            requires
                1 <= r2 < r1,
        ;
    }
}

/// A series of at least 10 points is long enough for the regression with the
/// suggested lag count, which needs two points more than lags.
pub proof fn lemma_suggested_lag_fits(l: int, n: int)
    requires
        n >= 10,
        suggested_lag(l, n),
    ensures
        l + 2 <= n,
{
    if 25 <= n <= 240 {
        assert(l <= 15) by (nonlinear_arith)
            requires
                l >= 1,
                (l - 1) * l < n,
                n <= 240,
        ;
    }
}

/// The bandwidth is unique.
pub proof fn lemma_bandwidth_unique(b1: int, b2: int, n: int)
    requires
        is_bandwidth(b1, n),
        is_bandwidth(b2, n),
    ensures
        b1 == b2,
{
    if 0 < n < 1600 {
        if b1 < b2 {
            lemma_fourth_power_grows(b1 + 1, b2);
        } else if b2 < b1 {
            lemma_fourth_power_grows(b2 + 1, b1);
        }
    }
}

/// The fourth power grows with its argument.
pub proof fn lemma_fourth_power_grows(a: int, b: int)
    requires
        0 <= a <= b,
    ensures
        fourth_power(a) <= fourth_power(b),
{
    assert(a * a <= b * b) by (nonlinear_arith)
        requires
            0 <= a <= b,
    ;
    let a2 = a * a;
    let b2 = b * b;
    assert(a2 * a2 <= b2 * b2) by (nonlinear_arith)
        requires
            0 <= a2 <= b2,
    ;
    assert(fourth_power(a) == a2 * a2) by (nonlinear_arith)
        requires
            a2 == a * a,
    ;
    assert(fourth_power(b) == b2 * b2) by (nonlinear_arith)
        requires
            b2 == b * b,
    ;
}

/// The fourth power of a small number, computed.
fn fourth(b: u64) -> (f: u64)
    requires
        b <= 24,
    ensures
        f == fourth_power(b as int),
        f <= 331776,
{
    proof {
        lemma_fourth_power_grows(b as int, 24);
        assert(fourth_power(24) == 331776) by (nonlinear_arith);
        assert(b * b <= 576) by (nonlinear_arith)
            requires
                b <= 24,
        ;
        assert((b * b) * (b * b) == fourth_power(b as int)) by (nonlinear_arith);
    }
    let sq: u64 = b * b;
    sq * sq
}

/// The bandwidth of the long-run variance in the KPSS test on `n` points:
/// the integer part of `12 * (n / 100)^(1/4)`, kept between 1 and 24.
pub fn kpss_bandwidth(n: usize) -> (b: usize)
    ensures
        is_bandwidth(b as int, n as int),
        1 <= b <= 24,
{
    if n == 0 {
        return 1;
    }
    if n >= 1600 {
        return 24;
    }
    let scaled: u64 = 5184 * (n as u64);
    let mut b: u64 = 1;
    loop
        invariant
            1 <= b < 24,
            0 < n < 1600,
            scaled == 5184 * n,
            25 * fourth_power(b as int) <= scaled,
        ensures
            1 <= b < 24,
            is_bandwidth(b as int, n as int),
        decreases 24 - b,
    {
        let next = fourth(b + 1);
        if 25 * next > scaled {
            break;
        }
        proof {
            if b == 23 {
                assert(fourth_power(24) == 331776) by (nonlinear_arith);
            }
        }
        b = b + 1;
    }
    b as usize
}

/// The sizes of the regression of the augmented Dickey-Fuller test on a series
/// of `n` points with `lags` lagged differences.
pub fn adf_shape(n: usize, lags: usize) -> (shape: AdfShape)
    requires
        n >= lags + 2,
    ensures
        shape.rows == n - lags - 1,
        shape.cols == lags + 2,
        shape.dof == if shape.rows > shape.cols {
            shape.rows - shape.cols
        } else {
            1
        },
        shape.rows >= 1,
        shape.dof >= 1,
{
    let rows = n - lags - 1;
    let cols = lags + 2;
    let dof = if rows > cols {
        rows - cols
    } else {
        1
    };
    AdfShape { rows, cols, dof }
}

/// The critical values of the augmented Dickey-Fuller statistic at 1%, 5% and
/// 10%.
pub fn adf_critical_values() -> (crit: [Scalar; 3])
    ensures
        forall|i: int| 0 <= i < 3 ==> crit[i] == scalar_of(#[trigger] ADF_CRITICAL_BITS[i]),
{
    [
        Scalar::from_bits(ADF_CRITICAL_BITS[0]),
        Scalar::from_bits(ADF_CRITICAL_BITS[1]),
        Scalar::from_bits(ADF_CRITICAL_BITS[2]),
    ]
}

/// The critical values of the KPSS statistic at 10%, 5%, 2.5% and 1%.
pub fn kpss_critical_values() -> (crit: [Scalar; 4])
    ensures
        forall|i: int| 0 <= i < 4 ==> crit[i] == scalar_of(#[trigger] KPSS_CRITICAL_BITS[i]),
{
    [
        Scalar::from_bits(KPSS_CRITICAL_BITS[0]),
        Scalar::from_bits(KPSS_CRITICAL_BITS[1]),
        Scalar::from_bits(KPSS_CRITICAL_BITS[2]),
        Scalar::from_bits(KPSS_CRITICAL_BITS[3]),
    ]
}

/// Reads the statistic of the augmented Dickey-Fuller test against its
/// critical values: at or below a value, the unit root is rejected at that level.
pub fn adf_interpret_level(t_stat: Scalar) -> (verdict: AdfVerdict)
    ensures
        verdict == adf_verdict(t_stat),
{
    let crit = adf_critical_values();
    if t_stat.le(&crit[0]) {
        AdfVerdict::RejectAt1Percent
    } else if t_stat.le(&crit[1]) {
        AdfVerdict::RejectAt5Percent
    } else if t_stat.le(&crit[2]) {
        AdfVerdict::RejectAt10Percent
    } else {
        AdfVerdict::FailToReject
    }
}

/// Reads the statistic of the KPSS test against its critical values: above a
/// value, level stationarity is rejected at that level.
pub fn kpss_interpret_level(stat: Scalar) -> (verdict: KpssVerdict)
    ensures
        verdict == kpss_verdict(stat),
{
    let crit = kpss_critical_values();
    if stat.gt(&crit[3]) {
        KpssVerdict::RejectAt1Percent
    } else if stat.gt(&crit[2]) {
        KpssVerdict::RejectAt2Point5Percent
    } else if stat.gt(&crit[1]) {
        KpssVerdict::RejectAt5Percent
    } else if stat.gt(&crit[0]) {
        KpssVerdict::RejectAt10Percent
    } else {
        KpssVerdict::FailToReject
    }
}

impl AdfVerdict {
    /// The verdict in words.
    pub fn message(&self) -> (msg: &'static str)
        ensures
            msg@ == match *self {
                AdfVerdict::RejectAt1Percent => "Reject H0 at 1% -> stationary"@,
                AdfVerdict::RejectAt5Percent => "Reject H0 at 5% -> stationary"@,
                AdfVerdict::RejectAt10Percent => "Reject H0 at 10% -> likely stationary"@,
                AdfVerdict::FailToReject => "Fail to reject H0 -> unit root (non-stationary)"@,
            },
    {
        match self {
            AdfVerdict::RejectAt1Percent => "Reject H0 at 1% -> stationary",
            AdfVerdict::RejectAt5Percent => "Reject H0 at 5% -> stationary",
            AdfVerdict::RejectAt10Percent => "Reject H0 at 10% -> likely stationary",
            AdfVerdict::FailToReject => "Fail to reject H0 -> unit root (non-stationary)",
        }
    }
}

impl KpssVerdict {
    /// The verdict in words.
    pub fn message(&self) -> (msg: &'static str)
        ensures
            msg@ == match *self {
                KpssVerdict::RejectAt1Percent => "Reject H0 at 1% -> NOT stationary"@,
                KpssVerdict::RejectAt2Point5Percent => "Reject H0 at 2.5% -> NOT stationary"@,
                KpssVerdict::RejectAt5Percent => "Reject H0 at 5% -> NOT stationary"@,
                KpssVerdict::RejectAt10Percent => "Reject H0 at 10% -> likely NOT stationary"@,
                KpssVerdict::FailToReject => "Fail to reject H0 -> level-stationary"@,
            },
    {
        match self {
            KpssVerdict::RejectAt1Percent => "Reject H0 at 1% -> NOT stationary",
            KpssVerdict::RejectAt2Point5Percent => "Reject H0 at 2.5% -> NOT stationary",
            KpssVerdict::RejectAt5Percent => "Reject H0 at 5% -> NOT stationary",
            KpssVerdict::RejectAt10Percent => "Reject H0 at 10% -> likely NOT stationary",
            KpssVerdict::FailToReject => "Fail to reject H0 -> level-stationary",
        }
    }
}

/// The bandwidth of a KPSS test on `n` points: the one asked for, else the
/// default for `n`.
pub fn kpss_bandwidth_or(n: usize, bw_override: Option<usize>) -> (bw: usize)
    ensures
        bw_override matches Some(given) ==> bw == given,
        bw_override is None ==> is_bandwidth(bw as int, n as int),
{
    match bw_override {
        Some(given) => given,
        None => kpss_bandwidth(n),
    }
}

/// With what a series of `n` points is checked for stationarity: nothing below
/// 10 points; else the suggested lag count, with which the regression has the
/// points it needs, and the default bandwidth.
pub fn plan_stationarity_checks(n: usize) -> (plan: Option<StationarityPlan>)
    ensures
        n < MIN_CHECKED_LENGTH ==> plan is None,
        n >= MIN_CHECKED_LENGTH ==> {
            &&& plan matches Some(p)
            &&& suggested_lag(p.lags as int, n as int)
            &&& is_bandwidth(p.bandwidth as int, n as int)
            &&& n >= p.lags + 2
        },
{
    if n < MIN_CHECKED_LENGTH {
        return None;
    }
    let lags = suggest_lag(n);
    let bandwidth = kpss_bandwidth(n);
    proof {
        lemma_suggested_lag_fits(lags as int, n as int);
    }
    Some(StationarityPlan { lags, bandwidth })
}

} // verus!

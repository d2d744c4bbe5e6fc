//! Up/down signals of trading rules, and their evaluation against the moves
//! that followed.

use vstd::prelude::*;
use crate::eval::{
    divide, lemma_tallies_cover, quotient, step_outcomes, tally, EvalReport, Outcome, Ratio,
    TargetKind, ZeroRule,
};
use crate::scalar::Scalar;

verus! {

/// A rule that calls the next move up or down.
#[derive(Clone, Copy, Debug, PartialEq, Eq, Structural)]
pub enum Strategy {
    /// Up while the exponential average is above the simple average.
    EmaGtSma { ema: usize, sma: usize },
    /// Up while the fast exponential average is above the slow one.
    EmaFastGtEmaSlow { fast: usize, slow: usize },
    /// Up while the forecast of the next change is positive.
    ArimaDeltaPos { window: usize },
}

/// A moving average of a series, with its period.
#[derive(Clone, Copy, Debug, PartialEq, Eq, Structural)]
pub enum Indicator {
    /// Exponential moving average.
    Ema(usize),
    /// Simple moving average.
    Sma(usize),
}

/// Periods of the three rules that are evaluated side by side.
#[derive(Clone, Copy, Debug)]
pub struct ThreeEvalConfig {
    pub ema_vs_sma: (usize, usize),
    pub ema_fast_vs_slow: (usize, usize),
    pub arima_window: usize,
}

/// Accuracy of a rule, and precision, recall and F1 of its up calls. `None`
/// where the denominator is zero and the quotient is undefined.
#[derive(Clone, Copy, Debug, PartialEq, Eq, Structural)]
pub struct EvalMetrics {
    pub accuracy: Option<Ratio>,
    pub precision_up: Option<Ratio>,
    pub recall_up: Option<Ratio>,
    pub f1_up: Option<Ratio>,
}

/// The counts of a rule with the metrics derived from them.
#[derive(Clone, Copy, Debug, PartialEq, Eq, Structural)]
pub struct EvaluatedStrategy {
    pub report: EvalReport,
    pub metrics: EvalMetrics,
}

/// The three rules, evaluated on one series.
#[derive(Clone, Copy, Debug, PartialEq, Eq, Structural)]
pub struct ThreeEval {
    pub ema_gt_sma: EvaluatedStrategy,
    pub ema_fast_gt_slow: EvaluatedStrategy,
    pub arima_delta_pos: EvaluatedStrategy,
}

/// The metrics of one evaluated crossover.
#[derive(Clone, Copy, Debug, PartialEq, Eq, Structural)]
pub struct EvalSnapshot {
    pub metrics: EvalMetrics,
}

/// The window that the forecast rule uses when none is asked for.
pub const DEFAULT_ARIMA_WINDOW: usize = 252;

/// The larger of two counts.
pub open spec fn larger(a: int, b: int) -> int {
    if a >= b {
        a
    } else {
        b
    }
}

/// The signal of a crossover at one point: up where the left average is above
/// the right one, none while either average is still missing.
pub open spec fn crossover_at(lhs: Option<Scalar>, rhs: Option<Scalar>) -> Option<bool> {
    match (lhs, rhs) {
        (Some(a), Some(b)) => Some(b.less(a)),
        _ => None,
    }
}

/// The signals of a crossover, as long as the shorter of the two series.
pub open spec fn crossover(lhs: Seq<Option<Scalar>>, rhs: Seq<Option<Scalar>>) -> Seq<
    Option<bool>,
> {
    Seq::new(
        if lhs.len() <= rhs.len() {
            lhs.len()
        } else {
            rhs.len()
        },
        |i: int| crossover_at(lhs[i], rhs[i]),
    )
}

/// A series of `n` missing signals.
pub open spec fn no_signals(n: nat) -> Seq<Option<bool>> {
    Seq::new(n, |i: int| None::<bool>)
}

/// The signal at `t`, none beyond the end of the series.
pub open spec fn signal_at(signal: Seq<Option<bool>>, t: int) -> Option<bool> {
    if 0 <= t < signal.len() {
        signal[t]
    } else {
        None
    }
}

/// The outcome of the step from `current` to `next` under a signal. A move that
/// is not up counts as down.
pub open spec fn signal_outcome(current: Scalar, next: Scalar, signal: Option<bool>) -> Outcome {
    match signal {
        None => Outcome::Skipped,
        Some(called_up) => {
            if called_up {
                if current.less(next) {
                    Outcome::UpUp
                } else {
                    Outcome::UpDown
                }
            } else {
                if current.less(next) {
                    Outcome::DownUp
                } else {
                    Outcome::DownDown
                }
            }
        },
    }
}

/// The outcomes of all steps of a series under a signal series: step `t` leads
/// from `close[t]` to `close[t + 1]` and is judged against signal `t`.
pub open spec fn signal_outcomes(close: Seq<Scalar>, signal: Seq<Option<bool>>) -> Seq<Outcome> {
    Seq::new(
        if close.len() < 2 {
            0nat
        } else {
            (close.len() - 1) as nat
        },
        |t: int| signal_outcome(close[t], close[t + 1], signal_at(signal, t)),
    )
}

/// How many forecasts a walk forward over `n` levels with the given window
/// takes: one for each step that has a full window behind it.
pub open spec fn forecast_count(n: int, window: int) -> int {
    if window < 2 || n <= window {
        0
    } else {
        n - window
    }
}

/// The signals of a walk forward: forecast `k` is made at step `window - 1 + k`
/// and calls the move up where it is positive.
pub open spec fn walk_forward_signals(n: nat, window: int, forecasts: Seq<Scalar>) -> Seq<
    Option<bool>,
> {
    Seq::new(
        n,
        |t: int|
            if window >= 2 && window - 1 <= t < n - 1 {
                Some((Scalar { bits: 0 }).less(forecasts[t - (window - 1)]))
            } else {
                None
            },
    )
}

impl Strategy {
    /// The two averages that a crossover rule compares, left above right
    /// meaning up. The forecast rule compares none.
    pub open spec fn indicator_pair(self) -> Option<(Indicator, Indicator)> {
        match self {
            Strategy::EmaGtSma { ema, sma } => Some((Indicator::Ema(ema), Indicator::Sma(sma))),
            Strategy::EmaFastGtEmaSlow { fast, slow } => Some(
                (Indicator::Ema(fast), Indicator::Ema(slow)),
            ),
            Strategy::ArimaDeltaPos { window } => None,
        }
    }

    /// The two averages that the rule compares, if it is a crossover rule.
    pub fn indicators(&self) -> (pair: Option<(Indicator, Indicator)>)
        ensures
            pair == self.indicator_pair(),
    {
        match self {
            Strategy::EmaGtSma { ema, sma } => Some((Indicator::Ema(*ema), Indicator::Sma(*sma))),
            Strategy::EmaFastGtEmaSlow { fast, slow } => Some(
                (Indicator::Ema(*fast), Indicator::Ema(*slow)),
            ),
            Strategy::ArimaDeltaPos { .. } => None,
        }
    }
}

impl ThreeEvalConfig {
    /// The three rules that the configuration stands for.
    pub fn strategies(&self) -> (s: (Strategy, Strategy, Strategy))
        ensures
            s.0 == (Strategy::EmaGtSma { ema: self.ema_vs_sma.0, sma: self.ema_vs_sma.1 }),
            s.1 == (Strategy::EmaFastGtEmaSlow {
                fast: self.ema_fast_vs_slow.0,
                slow: self.ema_fast_vs_slow.1,
            }),
            s.2 == (Strategy::ArimaDeltaPos { window: self.arima_window }),
    {
        (
            Strategy::EmaGtSma { ema: self.ema_vs_sma.0, sma: self.ema_vs_sma.1 },
            Strategy::EmaFastGtEmaSlow {
                fast: self.ema_fast_vs_slow.0,
                slow: self.ema_fast_vs_slow.1,
            },
            Strategy::ArimaDeltaPos { window: self.arima_window },
        )
    }
}

impl EvalReport {
    /// Twice precision times recall over their sum, which comes to twice the
    /// up-up count over the steps called up plus the steps that went up.
    /// Undefined where precision or recall is undefined or both are zero.
    pub open spec fn f1_value(self) -> Option<Ratio> {
        if self.up_up == 0 {
            None
        } else {
            quotient(2 * self.up_up, 2 * self.up_up + self.up_down + self.down_up)
        }
    }

    /// The four metrics of the report.
    pub open spec fn metrics(self) -> EvalMetrics {
        EvalMetrics {
            accuracy: self.accuracy_value(),
            precision_up: self.precision_value(),
            recall_up: self.recall_value(),
            f1_up: self.f1_value(),
        }
    }
}

/// Where F1 is defined so are precision and recall, and F1 times their sum is
/// twice their product.
pub proof fn lemma_f1_is_harmonic_mean(report: EvalReport)
    requires
        report.f1_value() is Some,
    ensures
        report.precision_value() is Some,
        report.recall_value() is Some,
        ({
            let f = report.f1_value().unwrap();
            let p = report.precision_value().unwrap();
            let r = report.recall_value().unwrap();
            f.num * (p.num * r.den + r.num * p.den) == 2 * p.num * r.num * f.den
        }),
{
    let tp = report.up_up as int;
    let pp = report.up_up + report.up_down;
    let ap = report.up_up + report.down_up;
    assert((2 * tp) * (tp * ap + tp * pp) == 2 * tp * tp * (pp + ap)) by (nonlinear_arith);
    assert(2 * tp + report.up_down + report.down_up == pp + ap);
}

/// F1 is undefined exactly where precision or recall is undefined or their sum
/// is zero.
pub proof fn lemma_f1_defined(report: EvalReport)
    ensures
        report.f1_value() is None <==> (report.precision_value() is None
            || report.recall_value() is None || report.up_up == 0),
{
}

/// The metrics of a series of outcomes: those of the report that counts them.
pub open spec fn outcome_metrics(outcomes: Seq<Outcome>) -> EvalMetrics {
    let up_up = tally(outcomes, Outcome::UpUp);
    let up_down = tally(outcomes, Outcome::UpDown);
    let down_up = tally(outcomes, Outcome::DownUp);
    let down_down = tally(outcomes, Outcome::DownDown);
    let flat = tally(outcomes, Outcome::Flat);
    EvalMetrics {
        accuracy: quotient(
            (up_up + down_down) as int,
            (up_up + down_down + up_down + down_up + flat) as int,
        ),
        precision_up: quotient(up_up as int, (up_up + up_down) as int),
        recall_up: quotient(up_up as int, (up_up + down_up) as int),
        f1_up: if up_up == 0 {
            None
        } else {
            quotient((2 * up_up) as int, (2 * up_up + up_down + down_up) as int)
        },
    }
}

/// The metrics of a report that counts some outcomes are the metrics of those
/// outcomes.
pub proof fn lemma_metrics_of_counts(report: EvalReport, outcomes: Seq<Outcome>)
    requires
        report.counts(outcomes),
    ensures
        report.metrics() == outcome_metrics(outcomes),
{
}

/// The signals that forecasts of the next change stand for: up where the
/// forecast is positive.
pub open spec fn signals_of_forecasts(pred_next: Seq<Scalar>) -> Seq<Option<bool>> {
    Seq::new(pred_next.len(), |i: int| Some(pred_next[i].sign() > 0))
}

/// On a series of finite levels without a flat step, and with finite forecasts
/// of the next change none of which is zero, judging the forecasts and judging
/// the signals they stand for come to the same outcomes, under either rule for
/// flat steps.
pub proof fn lemma_signals_agree_with_forecasts(
    close: Seq<Scalar>,
    pred_next: Seq<Scalar>,
    zero_rule: ZeroRule,
)
    requires
        close.len() >= 2,
        pred_next.len() >= close.len() - 1,
        forall|i: int| 0 <= i < close.len() ==> (#[trigger] close[i]).finite(),
        forall|i: int| 0 <= i < close.len() - 1 ==> close[i].code() != (#[trigger] close[i + 1]).code(),
        forall|i: int|
            0 <= i < pred_next.len() ==> (#[trigger] pred_next[i]).finite() && pred_next[i].sign()
                != 0,
    ensures
        step_outcomes(close, pred_next, TargetKind::Diff, zero_rule) == signal_outcomes(
            close,
            signals_of_forecasts(pred_next),
        ),
{
    let by_forecast = step_outcomes(close, pred_next, TargetKind::Diff, zero_rule);
    let by_signal = signal_outcomes(close, signals_of_forecasts(pred_next));
    assert forall|i: int| 0 <= i < by_forecast.len() implies by_forecast[i] == by_signal[i] by {
        assert(close[i].finite());
        assert(close[i + 1].finite());
        assert(pred_next[i].finite());
    }
    assert(by_forecast =~= by_signal);
}

/// The configuration that goes with an exponential and a simple period: the
/// slow exponential period is the simple period where that is the longer one,
/// else one more than the fast period, and the forecast window is the default
/// unless a period is longer.
pub fn default_three_eval_config(ema_period: usize, sma_period: usize) -> (c: ThreeEvalConfig)
    requires
        ema_period < sma_period || ema_period < usize::MAX,
    ensures
        c.ema_vs_sma == (ema_period, sma_period),
        c.ema_fast_vs_slow.0 == ema_period,
        c.ema_fast_vs_slow.1 == if ema_period < sma_period {
            sma_period as int
        } else {
            ema_period + 1
        },
        c.arima_window == larger(DEFAULT_ARIMA_WINDOW as int, c.ema_fast_vs_slow.1 as int),
        c.ema_fast_vs_slow.0 < c.ema_fast_vs_slow.1,
        c.arima_window >= 2,
{
    let ema_slow_adjusted: usize = if ema_period < sma_period {
        sma_period
    } else {
        ema_period + 1
    };
    let longest: usize = if ema_period >= ema_slow_adjusted {
        ema_period
    } else {
        ema_slow_adjusted
    };
    let arima_window: usize = if DEFAULT_ARIMA_WINDOW >= longest {
        DEFAULT_ARIMA_WINDOW
    } else {
        longest
    };
    ThreeEvalConfig {
        ema_vs_sma: (ema_period, sma_period),
        ema_fast_vs_slow: (ema_period, ema_slow_adjusted),
        arima_window,
    }
}

/// The signals of a crossover of two averages.
pub fn crossover_signals(lhs: &[Option<Scalar>], rhs: &[Option<Scalar>]) -> (out: Vec<
    Option<bool>,
>)
    ensures
        out@ == crossover(lhs@, rhs@),
{
    let n = if lhs.len() <= rhs.len() {
        lhs.len()
    } else {
        rhs.len()
    };
    let mut out: Vec<Option<bool>> = Vec::with_capacity(n);
    let mut i: usize = 0;
    while i < n
        invariant
            i <= n,
            n <= lhs.len(),
            n <= rhs.len(),
            n == crossover(lhs@, rhs@).len(),
            out@ == crossover(lhs@, rhs@).take(i as int),
        decreases n - i,
    {
        let s = match (lhs[i], rhs[i]) {
            (Some(a), Some(b)) => Some(a.gt(&b)),
            _ => None,
        };
        out.push(s);
        i = i + 1;
        assert(out@ =~= crossover(lhs@, rhs@).take(i as int));
    }
    assert(crossover(lhs@, rhs@).take(n as int) =~= crossover(lhs@, rhs@));
    out
}

/// A series of `n` missing signals.
pub fn missing_signals(n: usize) -> (out: Vec<Option<bool>>)
    ensures
        out@ == no_signals(n as nat),
{
    let mut out: Vec<Option<bool>> = Vec::with_capacity(n);
    let mut i: usize = 0;
    while i < n
        invariant
            i <= n,
            out@ == no_signals(i as nat),
        decreases n - i,
    {
        out.push(None);
        i = i + 1;
        assert(out@ =~= no_signals(i as nat));
    }
    out
}

/// The signals of a rule over a series of `data_len` points. For a crossover
/// rule `lhs` and `rhs` are the two averages that `indicators` names; the
/// forecast rule gives no signal here.
pub fn signal_series_basic(
    data_len: usize,
    strat: Strategy,
    lhs: &[Option<Scalar>],
    rhs: &[Option<Scalar>],
) -> (out: Vec<Option<bool>>)
    ensures
        strat.indicator_pair() is Some ==> out@ == crossover(lhs@, rhs@),
        strat.indicator_pair() is None ==> out@ == no_signals(data_len as nat),
{
    match strat {
        Strategy::EmaGtSma { .. } => crossover_signals(lhs, rhs),
        Strategy::EmaFastGtEmaSlow { .. } => crossover_signals(lhs, rhs),
        Strategy::ArimaDeltaPos { .. } => missing_signals(data_len),
    }
}

/// The signals of the rule "exponential above simple average".
pub fn decide_series(ema: &[Option<Scalar>], sma: &[Option<Scalar>]) -> (out: Vec<Option<bool>>)
    ensures
        out@ == crossover(ema@, sma@),
{
    crossover_signals(ema, sma)
}

/// The calls of the rule "exponential above simple average" for every point
/// of a series, from its two averages.
pub fn prediction(ema_fast: &[Option<Scalar>], sma_slow: &[Option<Scalar>]) -> (out: Vec<
    Option<bool>,
>)
    ensures
        out@ == crossover(ema_fast@, sma_slow@),
{
    decide_series(ema_fast, sma_slow)
}

/// The windows of a walk forward over `n` levels, in the order in which the
/// forecasts are made: window `k` holds the `window` levels from `k` on, and
/// its forecast is for the step from its last level. Each is given by its
/// first and its last index.
pub fn forecast_windows(n: usize, window: usize) -> (windows: Vec<(usize, usize)>)
    ensures
        windows@.len() == forecast_count(n as int, window as int),
        forall|k: int|
            0 <= k < windows@.len() ==> #[trigger] windows@[k] == (k as usize, (k + window - 1) as usize),
        forall|k: int| 0 <= k < windows@.len() ==> (#[trigger] windows@[k]).1 < n - 1,
{
    let mut windows: Vec<(usize, usize)> = Vec::new();
    if window < 2 || n <= window {
        return windows;
    }
    let count = n - window;
    let mut k: usize = 0;
    while k < count
        invariant
            k <= count,
            count == n - window,
            window >= 2,
            windows@.len() == k,
            forall|j: int|
                0 <= j < k ==> #[trigger] windows@[j] == (j as usize, (j + window - 1) as usize),
        decreases count - k,
    {
        windows.push((k, k + (window - 1)));
        k = k + 1;
    }
    windows
}

/// The signals of a walk forward over `n` levels. The caller has made one
/// forecast of the next change for each step with a full window behind it, in
/// order; a positive forecast calls the move up.
pub fn signal_series_arima(n: usize, window: usize, forecasts: &[Scalar]) -> (out: Vec<
    Option<bool>,
>)
    requires
        forecasts.len() == forecast_count(n as int, window as int),
    ensures
        out@ == walk_forward_signals(n as nat, window as int, forecasts@),
{
    let ghost want = walk_forward_signals(n as nat, window as int, forecasts@);
    let mut out: Vec<Option<bool>> = Vec::with_capacity(n);
    let zero = Scalar::zero();
    let mut t: usize = 0;
    while t < n
        invariant
            t <= n,
            zero.bits == 0,
            forecasts.len() == forecast_count(n as int, window as int),
            want == walk_forward_signals(n as nat, window as int, forecasts@),
            out@ == want.take(t as int),
        decreases n - t,
    {
        let s = if window >= 2 && t >= window - 1 && t < n - 1 {
            Some(zero.lt(&forecasts[t - (window - 1)]))
        } else {
            None
        };
        out.push(s);
        t = t + 1;
        assert(out@ =~= want.take(t as int));
    }
    assert(want.take(n as int) =~= want);
    out
}

/// Counts, over a series of closing levels, how the signals called the moves
/// that followed. A step without a signal is skipped. Every other step is
/// counted in one of the four cells of the table, a move that is not up
/// counting as down.
pub fn eval_with_signals(close: &[Scalar], signal: &[Option<bool>]) -> (report: EvalReport)
    ensures
        report.counts(signal_outcomes(close@, signal@)),
        report.consistent(),
        report.total + report.skipped == signal_outcomes(close@, signal@).len(),
        report.total == report.up_up + report.up_down + report.down_up + report.down_down,
{
    let n = close.len();
    let ghost all = signal_outcomes(close@, signal@);
    let mut r = EvalReport::empty();
    assert(all.take(0) =~= Seq::<Outcome>::empty());
    if n < 2 {
        assert(all =~= Seq::<Outcome>::empty());
        return r;
    }
    let last = n - 1;
    let mut t: usize = 0;
    while t < last
        invariant
            t <= last,
            last == close.len() - 1,
            all == signal_outcomes(close@, signal@),
            all.len() == last,
            r.counts(all.take(t as int)),
            tally(all.take(t as int), Outcome::Flat) == 0,
            r.total + r.skipped == t,
        decreases last - t,
    {
        let sig = if t < signal.len() {
            signal[t]
        } else {
            None
        };
        proof {
            assert(all.take(t + 1).drop_last() =~= all.take(t as int));
            lemma_tallies_cover(all.take(t as int));
        }
        match sig {
            Some(pred_up) => {
                let actual_up = close[t + 1].gt(&close[t]);
                r.total = r.total + 1;
                if pred_up {
                    if actual_up {
                        r.hits = r.hits + 1;
                        r.up_up = r.up_up + 1;
                    } else {
                        r.up_down = r.up_down + 1;
                    }
                } else {
                    if actual_up {
                        r.down_up = r.down_up + 1;
                    } else {
                        r.hits = r.hits + 1;
                        r.down_down = r.down_down + 1;
                    }
                }
            },
            None => {
                r.skipped = r.skipped + 1;
            },
        }
        t = t + 1;
    }
    proof {
        assert(all.take(last as int) =~= all);
        lemma_tallies_cover(all);
    }
    r
}

/// Accuracy of a report, and precision, recall and F1 of its up calls.
pub fn compute_metrics(r: &EvalReport) -> (m: EvalMetrics)
    ensures
        m == r.metrics(),
{
    let tp = r.up_up as u128;
    let fp = r.up_down as u128;
    let fn_ = r.down_up as u128;
    let f1_up = if tp == 0 {
        None
    } else {
        divide(2 * tp, 2 * tp + fp + fn_)
    };
    EvalMetrics {
        accuracy: r.accuracy(),
        precision_up: r.precision(),
        recall_up: r.recall(),
        f1_up,
    }
}

/// Evaluates a signal series against a series of closing levels.
pub fn finalize(close: &[Scalar], signal: &[Option<bool>]) -> (e: EvaluatedStrategy)
    ensures
        e.report.counts(signal_outcomes(close@, signal@)),
        e.report.consistent(),
        e.metrics == outcome_metrics(signal_outcomes(close@, signal@)),
{
    let report = eval_with_signals(close, signal);
    let metrics = compute_metrics(&report);
    proof {
        lemma_metrics_of_counts(report, signal_outcomes(close@, signal@));
    }
    EvaluatedStrategy { report, metrics }
}

/// The report of the rule "exponential above simple average" on a series of
/// closing levels, from the two averages of that series.
pub fn build_eval_report(close: &[Scalar], ema: &[Option<Scalar>], sma: &[Option<Scalar>]) -> (report:
    EvalReport)
    ensures
        report.counts(signal_outcomes(close@, crossover(ema@, sma@))),
        report.consistent(),
{
    let signal = crossover_signals(ema, sma);
    let e = finalize(close, signal.as_slice());
    e.report
}

/// The metrics of a crossover of two averages on a series of closing levels;
/// none for an empty series or for an average of another length.
pub fn evaluate_crossover(close: &[Scalar], lhs: &[Option<Scalar>], rhs: &[Option<Scalar>]) -> (snapshot:
    Option<EvalSnapshot>)
    ensures
        snapshot == if close.len() == 0 || lhs.len() != close.len() || rhs.len() != close.len() {
            None
        } else {
            Some(
                EvalSnapshot {
                    metrics: outcome_metrics(signal_outcomes(close@, crossover(lhs@, rhs@))),
                },
            )
        },
{
    if close.len() == 0 || lhs.len() != close.len() || rhs.len() != close.len() {
        return None;
    }
    let signals = crossover_signals(lhs, rhs);
    let report = eval_with_signals(close, signals.as_slice());
    let metrics = compute_metrics(&report);
    proof {
        lemma_metrics_of_counts(report, signal_outcomes(close@, crossover(lhs@, rhs@)));
    }
    Some(EvalSnapshot { metrics })
}

/// Evaluates the signals of the three rules against one series of closing
/// levels.
pub fn run_three_eval(
    close: &[Scalar],
    ema_gt_sma: &[Option<bool>],
    ema_fast_gt_slow: &[Option<bool>],
    arima_delta_pos: &[Option<bool>],
) -> (e: ThreeEval)
    ensures
        e.ema_gt_sma.report.counts(signal_outcomes(close@, ema_gt_sma@)),
        e.ema_gt_sma.metrics == outcome_metrics(signal_outcomes(close@, ema_gt_sma@)),
        e.ema_fast_gt_slow.report.counts(signal_outcomes(close@, ema_fast_gt_slow@)),
        e.ema_fast_gt_slow.metrics == outcome_metrics(signal_outcomes(close@, ema_fast_gt_slow@)),
        e.arima_delta_pos.report.counts(signal_outcomes(close@, arima_delta_pos@)),
        e.arima_delta_pos.metrics == outcome_metrics(signal_outcomes(close@, arima_delta_pos@)),
{
    ThreeEval {
        ema_gt_sma: finalize(close, ema_gt_sma),
        ema_fast_gt_slow: finalize(close, ema_fast_gt_slow),
        arima_delta_pos: finalize(close, arima_delta_pos),
    }
}

} // verus!

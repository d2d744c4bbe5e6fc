//! Directional evaluation: how often a forecast called the direction of the
//! next move, and in which way it was right or wrong.

use vstd::prelude::*;
use crate::scalar::Scalar;

verus! {

/// What a forecast value stands for.
#[derive(Clone, Copy, Debug, PartialEq, Eq, Structural)]
pub enum TargetKind {
    /// The next level itself; its direction is read against the current level.
    Level,
    /// The next change; its direction is its own sign.
    Diff,
}

/// What to do with a step on which the actual or the predicted move is flat.
#[derive(Clone, Copy, Debug, PartialEq, Eq, Structural)]
pub enum ZeroRule {
    /// The step counts, and is no hit.
    CountAsMiss,
    /// The step is skipped.
    Ignore,
}

/// How one step of an evaluation ended.
#[derive(Clone, Copy, Debug, PartialEq, Eq, Structural)]
pub enum Outcome {
    /// Left out of the total.
    Skipped,
    /// Counted, no hit, in no cell of the table: a flat move under `CountAsMiss`.
    Flat,
    /// Predicted up, went up.
    UpUp,
    /// Predicted up, went down.
    UpDown,
    /// Predicted down, went up.
    DownUp,
    /// Predicted down, went down.
    DownDown,
}

/// Counts of an evaluation pass.
#[derive(Clone, Copy, Debug, PartialEq, Eq, Structural)]
pub struct EvalReport {
    pub total: usize,
    pub hits: usize,
    pub skipped: usize,
    pub up_up: usize,
    pub up_down: usize,
    pub down_up: usize,
    pub down_down: usize,
}

/// A quotient of two counts, kept exact. The denominator is never zero.
#[derive(Clone, Copy, Debug, PartialEq, Eq, Structural)]
pub struct Ratio {
    pub num: u128,
    pub den: u128,
}

/// Accuracy, precision and recall of a report. `None` where the denominator
/// is zero and the quotient is undefined.
#[derive(Clone, Copy, Debug, PartialEq, Eq, Structural)]
pub struct ClassificationMetrics {
    pub accuracy: Option<Ratio>,
    pub precision: Option<Ratio>,
    pub recall: Option<Ratio>,
}

/// The quotient `num / den`, undefined for a zero denominator.
pub open spec fn quotient(num: int, den: int) -> Option<Ratio> {
    if den == 0 {
        None
    } else {
        Some(Ratio { num: num as u128, den: den as u128 })
    }
}

/// The direction of the move from `from` to `to`: 1 up, -1 down, 0 flat.
/// For finite scalars this is the sign of their difference.
pub open spec fn direction(from: Scalar, to: Scalar) -> int {
    if from.less(to) {
        1
    } else if to.less(from) {
        -1
    } else {
        0
    }
}

/// The direction that a forecast `pred` calls at level `current`.
pub open spec fn predicted_direction(current: Scalar, pred: Scalar, kind: TargetKind) -> int {
    match kind {
        TargetKind::Level => direction(current, pred),
        TargetKind::Diff => pred.sign(),
    }
}

/// The outcome of the step from `current` to `next` under forecast `pred`.
pub open spec fn step_outcome(
    current: Scalar,
    next: Scalar,
    pred: Scalar,
    kind: TargetKind,
    zero_rule: ZeroRule,
) -> Outcome {
    let actual = direction(current, next);
    let called = predicted_direction(current, pred, kind);
    if !current.finite() || !next.finite() || !pred.finite() {
        Outcome::Skipped
    } else if actual == 0 || called == 0 {
        match zero_rule {
            ZeroRule::CountAsMiss => Outcome::Flat,
            ZeroRule::Ignore => Outcome::Skipped,
        }
    } else if called > 0 {
        if actual > 0 {
            Outcome::UpUp
        } else {
            Outcome::UpDown
        }
    } else {
        if actual > 0 {
            Outcome::DownUp
        } else {
            Outcome::DownDown
        }
    }
}

/// The outcomes of all steps of a series: step `i` leads from level `i` to
/// level `i + 1` and is judged against forecast `i`.
pub open spec fn step_outcomes(
    actual_levels: Seq<Scalar>,
    pred_next: Seq<Scalar>,
    kind: TargetKind,
    zero_rule: ZeroRule,
) -> Seq<Outcome> {
    Seq::new(
        (actual_levels.len() - 1) as nat,
        |i: int| step_outcome(actual_levels[i], actual_levels[i + 1], pred_next[i], kind, zero_rule),
    )
}

/// How many of `outcomes` are `which`.
pub open spec fn tally(outcomes: Seq<Outcome>, which: Outcome) -> nat
    decreases outcomes.len(),
{
    if outcomes.len() == 0 {
        0
    } else {
        tally(outcomes.drop_last(), which) + if outcomes.last() == which {
            1nat
        } else {
            0nat
        }
    }
}

impl EvalReport {
    /// The report counts exactly the given outcomes.
    pub open spec fn counts(self, outcomes: Seq<Outcome>) -> bool {
        &&& self.skipped == tally(outcomes, Outcome::Skipped)
        &&& self.up_up == tally(outcomes, Outcome::UpUp)
        &&& self.up_down == tally(outcomes, Outcome::UpDown)
        &&& self.down_up == tally(outcomes, Outcome::DownUp)
        &&& self.down_down == tally(outcomes, Outcome::DownDown)
        &&& self.hits == self.up_up + self.down_down
        &&& self.total == self.hits + self.up_down + self.down_up + tally(outcomes, Outcome::Flat)
    }

    /// Hits are the two agreeing cells, and the total covers hits and misses.
    pub open spec fn consistent(self) -> bool {
        &&& self.hits == self.up_up + self.down_down
        &&& self.hits + self.up_down + self.down_up <= self.total
    }

    /// Steps that were counted and were no hit.
    pub open spec fn misses(self) -> int {
        self.total - self.hits
    }

    /// Hits over total.
    pub open spec fn accuracy_value(self) -> Option<Ratio> {
        quotient(self.hits as int, self.total as int)
    }

    /// Of the steps called up, the share that went up.
    pub open spec fn precision_value(self) -> Option<Ratio> {
        quotient(self.up_up as int, self.up_up + self.up_down)
    }

    /// Of the steps that went up, the share called up.
    pub open spec fn recall_value(self) -> Option<Ratio> {
        quotient(self.up_up as int, self.up_up + self.down_up)
    }

    /// The report of an evaluation that has seen no step.
    pub fn empty() -> (r: EvalReport)
        ensures
            r.counts(Seq::<Outcome>::empty()),
            r.total == 0,
            r.skipped == 0,
    {
        EvalReport { total: 0, hits: 0, skipped: 0, up_up: 0, up_down: 0, down_up: 0, down_down: 0 }
    }

    /// Hits over total; `None` when nothing was counted.
    pub fn accuracy(&self) -> (r: Option<Ratio>)
        ensures
            r == self.accuracy_value(),
    {
        divide(self.hits as u128, self.total as u128)
    }

    /// Up-up over all steps called up; `None` when none was called up.
    pub fn precision(&self) -> (r: Option<Ratio>)
        ensures
            r == self.precision_value(),
    {
        divide(self.up_up as u128, self.up_up as u128 + self.up_down as u128)
    }

    /// Up-up over all steps that went up; `None` when none went up.
    pub fn recall(&self) -> (r: Option<Ratio>)
        ensures
            r == self.recall_value(),
    {
        divide(self.up_up as u128, self.up_up as u128 + self.down_up as u128)
    }
}

impl Default for EvalReport {
    fn default() -> (r: EvalReport)
        ensures
            r == (EvalReport {
                total: 0,
                hits: 0,
                skipped: 0,
                up_up: 0,
                up_down: 0,
                down_up: 0,
                down_down: 0,
            }),
    {
        EvalReport::empty()
    }
}

/// `num / den` as a ratio, `None` for a zero denominator.
pub fn divide(num: u128, den: u128) -> (r: Option<Ratio>)
    ensures
        r == quotient(num as int, den as int),
{
    if den == 0 {
        None
    } else {
        Some(Ratio { num, den })
    }
}

/// Accuracy, precision and recall of a report.
pub fn calculate(report: &EvalReport) -> (m: ClassificationMetrics)
    ensures
        m.accuracy == report.accuracy_value(),
        m.precision == report.precision_value(),
        m.recall == report.recall_value(),
{
    ClassificationMetrics {
        accuracy: report.accuracy(),
        precision: report.precision(),
        recall: report.recall(),
    }
}

/// The sign of a scalar: 1, -1, or 0 for a zero and for NaN.
pub fn sgn(x: Scalar) -> (s: i8)
    ensures
        s == x.sign(),
{
    x.signum()
}

/// The direction of the move from `from` to `to`.
pub fn move_direction(from: &Scalar, to: &Scalar) -> (d: i8)
    ensures
        d == direction(*from, *to),
{
    if from.lt(to) {
        1
    } else if to.lt(from) {
        -1
    } else {
        0
    }
}

/// Judges one step.
pub fn judge_step(
    current: &Scalar,
    next: &Scalar,
    pred: &Scalar,
    kind: TargetKind,
    zero_rule: ZeroRule,
) -> (o: Outcome)
    ensures
        o == step_outcome(*current, *next, *pred, kind, zero_rule),
{
    let actual = move_direction(current, next);
    let called = match kind {
        TargetKind::Level => move_direction(current, pred),
        TargetKind::Diff => sgn(*pred),
    };
    if !current.is_finite() || !next.is_finite() || !pred.is_finite() {
        return Outcome::Skipped;
    }
    if actual == 0 || called == 0 {
        return match zero_rule {
            ZeroRule::CountAsMiss => Outcome::Flat,
            ZeroRule::Ignore => Outcome::Skipped,
        };
    }
    if called > 0 {
        if actual > 0 {
            Outcome::UpUp
        } else {
            Outcome::UpDown
        }
    } else {
        if actual > 0 {
            Outcome::DownUp
        } else {
            Outcome::DownDown
        }
    }
}

/// Every outcome is one of the six, so the six tallies add up to the length.
pub proof fn lemma_tallies_cover(outcomes: Seq<Outcome>)
    ensures
        tally(outcomes, Outcome::Skipped) + tally(outcomes, Outcome::Flat) + tally(
            outcomes,
            Outcome::UpUp,
        ) + tally(outcomes, Outcome::UpDown) + tally(outcomes, Outcome::DownUp) + tally(
            outcomes,
            Outcome::DownDown,
        ) == outcomes.len(),
    decreases outcomes.len(),
{
    if outcomes.len() > 0 {
        lemma_tallies_cover(outcomes.drop_last());
    }
}

/// A report that counts some outcomes is consistent, and its total and its
/// skipped steps together are all the steps there were.
pub proof fn lemma_report_accounts_for_all(report: EvalReport, outcomes: Seq<Outcome>)
    requires
        report.counts(outcomes),
    ensures
        report.consistent(),
        report.total + report.skipped == outcomes.len(),
        report.misses() == report.up_down + report.down_up + tally(outcomes, Outcome::Flat),
{
    lemma_tallies_cover(outcomes);
}

/// Under `Ignore` no step is flat: every counted step falls in one of the four
/// cells of the table.
pub proof fn lemma_ignore_leaves_no_flat(
    actual_levels: Seq<Scalar>,
    pred_next: Seq<Scalar>,
    kind: TargetKind,
    upto: int,
)
    requires
        0 <= upto <= actual_levels.len() - 1,
    ensures
        tally(
            step_outcomes(actual_levels, pred_next, kind, ZeroRule::Ignore).take(upto),
            Outcome::Flat,
        ) == 0,
    decreases upto,
{
    let all = step_outcomes(actual_levels, pred_next, kind, ZeroRule::Ignore);
    if upto > 0 {
        lemma_ignore_leaves_no_flat(actual_levels, pred_next, kind, upto - 1);
        assert(all.take(upto).drop_last() =~= all.take(upto - 1));
    }
}

/// Counts hits and misses of one-step-ahead forecasts over a series of levels.
///
/// Step `i` leads from `actual_levels[i]` to `actual_levels[i + 1]` and is
/// judged against `pred_next[i]`. A step with a level or a forecast that is not
/// finite is skipped. A step on which the actual or the called direction is
/// flat goes by `zero_rule`. Every other step is counted in one of the four
/// cells of the table, and is a hit where the two directions agree.
pub fn evaluate_directional_accuracy(
    actual_levels: &[Scalar],
    pred_next: &[Scalar],
    kind: TargetKind,
    zero_rule: ZeroRule,
) -> (report: EvalReport)
    requires
        actual_levels.len() >= 2,
        pred_next.len() >= actual_levels.len() - 1,
    ensures
        report.counts(step_outcomes(actual_levels@, pred_next@, kind, zero_rule)),
        report.consistent(),
        report.total + report.skipped == actual_levels.len() - 1,
        zero_rule == ZeroRule::Ignore ==> report.total == report.up_up + report.up_down
            + report.down_up + report.down_down,
{
    let n_needed = actual_levels.len() - 1;
    let ghost all = step_outcomes(actual_levels@, pred_next@, kind, zero_rule);
    let mut report = EvalReport::empty();
    let mut i: usize = 0;
    assert(all.take(0) =~= Seq::<Outcome>::empty());
    while i < n_needed
        invariant
            i <= n_needed,
            n_needed == actual_levels.len() - 1,
            pred_next.len() >= n_needed,
            all == step_outcomes(actual_levels@, pred_next@, kind, zero_rule),
            all.len() == n_needed,
            report.counts(all.take(i as int)),
            report.total + report.skipped == i,
        decreases n_needed - i,
    {
        let outcome = judge_step(
            &actual_levels[i],
            &actual_levels[i + 1],
            &pred_next[i],
            kind,
            zero_rule,
        );
        proof {
            assert(all.take(i + 1).drop_last() =~= all.take(i as int));
            lemma_tallies_cover(all.take(i as int));
        }
        match outcome {
            Outcome::Skipped => {
                report.skipped = report.skipped + 1;
            },
            Outcome::Flat => {
                report.total = report.total + 1;
            },
            Outcome::UpUp => {
                report.total = report.total + 1;
                report.hits = report.hits + 1;
                report.up_up = report.up_up + 1;
            },
            Outcome::DownDown => {
                report.total = report.total + 1;
                report.hits = report.hits + 1;
                report.down_down = report.down_down + 1;
            },
            Outcome::UpDown => {
                report.total = report.total + 1;
                report.up_down = report.up_down + 1;
            },
            Outcome::DownUp => {
                report.total = report.total + 1;
                report.down_up = report.down_up + 1;
            },
        }
        i = i + 1;
    }
    proof {
        assert(all.take(n_needed as int) =~= all);
        lemma_report_accounts_for_all(report, all);
        if zero_rule == ZeroRule::Ignore {
            lemma_ignore_leaves_no_flat(actual_levels@, pred_next@, kind, n_needed as int);
        }
    }
    report
}

} // verus!

use arma_pipeline::eval::{
    calculate, divide, evaluate_directional_accuracy, judge_step, move_direction, sgn, EvalReport,
    Outcome, Ratio, TargetKind, ZeroRule,
};
use arma_pipeline::scalar::Scalar;

fn levels(values: &[f64]) -> Vec<Scalar> {
    values.iter().map(|v| Scalar::from_bits(v.to_bits())).collect()
}

fn one(x: f64) -> Scalar {
    Scalar::from_bits(x.to_bits())
}

fn as_number(r: Option<Ratio>) -> f64 {
    match r {
        Some(r) => r.num as f64 / r.den as f64,
        None => f64::NAN,
    }
}

#[test]
fn level_forecasts_that_call_every_move() {
    let close = levels(&[1.0, 2.0, 1.0, 3.0]);
    let pred = levels(&[2.0, 1.0, 3.0]);
    let rep = evaluate_directional_accuracy(&close, &pred, TargetKind::Level, ZeroRule::Ignore);
    assert_eq!(rep.total, 3);
    assert_eq!(rep.hits, 3);
    assert_eq!(rep.up_up, 2);
    assert_eq!(rep.down_down, 1);
    assert_eq!(rep.up_down, 0);
    assert_eq!(rep.down_up, 0);
    assert_eq!(rep.skipped, 0);
    assert_eq!(as_number(rep.accuracy()), 1.0);
    let m = calculate(&rep);
    assert_eq!(as_number(m.accuracy), 1.0);
    assert_eq!(as_number(m.precision), 1.0);
    assert_eq!(as_number(m.recall), 1.0);
}

#[test]
fn diff_forecasts_go_by_their_own_sign() {
    let close = levels(&[1.0, 2.0, 1.0, 3.0]);
    let pred = levels(&[0.5, -0.5, 0.25]);
    let rep = evaluate_directional_accuracy(&close, &pred, TargetKind::Diff, ZeroRule::Ignore);
    assert_eq!((rep.total, rep.hits, rep.up_up, rep.down_down), (3, 3, 2, 1));
    // Read as levels, 0.5 lies below 1.0 and calls the first move down.
    let rep = evaluate_directional_accuracy(&close, &pred, TargetKind::Level, ZeroRule::Ignore);
    assert_eq!(
        rep,
        EvalReport {
            total: 3,
            hits: 1,
            skipped: 0,
            up_up: 0,
            up_down: 0,
            down_up: 2,
            down_down: 1
        }
    );
}

#[test]
fn all_four_cells() {
    // moves: up, down, up, down; calls: up, up, down, down
    let close = levels(&[10.0, 11.0, 10.0, 12.0, 9.0]);
    let pred = levels(&[1.0, 1.0, -1.0, -1.0]);
    let rep = evaluate_directional_accuracy(&close, &pred, TargetKind::Diff, ZeroRule::Ignore);
    assert_eq!(
        rep,
        EvalReport {
            total: 4,
            hits: 2,
            skipped: 0,
            up_up: 1,
            up_down: 1,
            down_up: 1,
            down_down: 1
        }
    );
    assert_eq!(rep.accuracy(), Some(Ratio { num: 2, den: 4 }));
    assert_eq!(rep.precision(), Some(Ratio { num: 1, den: 2 }));
    assert_eq!(rep.recall(), Some(Ratio { num: 1, den: 2 }));
    assert_eq!(as_number(rep.accuracy()), 0.5);
}

#[test]
fn flat_steps_go_by_the_zero_rule() {
    // moves: flat, up, up; calls: up, flat, up
    let close = levels(&[1.0, 1.0, 2.0, 3.0]);
    let pred = levels(&[1.0, 0.0, 1.0]);
    let miss =
        evaluate_directional_accuracy(&close, &pred, TargetKind::Diff, ZeroRule::CountAsMiss);
    assert_eq!(
        miss,
        EvalReport {
            total: 3,
            hits: 1,
            skipped: 0,
            up_up: 1,
            up_down: 0,
            down_up: 0,
            down_down: 0
        }
    );
    let ignore = evaluate_directional_accuracy(&close, &pred, TargetKind::Diff, ZeroRule::Ignore);
    assert_eq!(
        ignore,
        EvalReport {
            total: 1,
            hits: 1,
            skipped: 2,
            up_up: 1,
            up_down: 0,
            down_up: 0,
            down_down: 0
        }
    );
    assert_eq!(as_number(miss.accuracy()), 1.0 / 3.0);
    assert_eq!(as_number(ignore.accuracy()), 1.0);
}

#[test]
fn steps_that_are_not_finite_are_skipped_under_either_rule() {
    let close = levels(&[1.0, f64::NAN, 2.0, f64::INFINITY, 3.0, 4.0, 5.0]);
    let pred = levels(&[1.0, 1.0, 1.0, 1.0, f64::NAN, 1.0]);
    for rule in [ZeroRule::CountAsMiss, ZeroRule::Ignore] {
        let rep = evaluate_directional_accuracy(&close, &pred, TargetKind::Diff, rule);
        assert_eq!(rep.skipped, 5);
        assert_eq!(rep.total, 1);
        assert_eq!(rep.hits, 1);
        assert_eq!(rep.up_up, 1);
    }
}

#[test]
fn forecasts_beyond_the_last_step_are_not_read() {
    let close = levels(&[1.0, 2.0]);
    let pred = levels(&[5.0, -1.0, -1.0, -1.0]);
    let rep = evaluate_directional_accuracy(&close, &pred, TargetKind::Level, ZeroRule::Ignore);
    assert_eq!((rep.total, rep.hits, rep.up_up, rep.skipped), (1, 1, 1, 0));
}

#[test]
fn totals_add_up_on_a_mixed_series() {
    let raw = [3.0, 1.0, 4.0, 1.0, 5.0, 9.0, 2.0, 6.0, 5.0, 3.0, 5.0, 5.0, f64::NAN, 8.0, 9.0];
    let fore = [0.1, -0.2, 0.0, 0.3, 0.1, -0.4, 0.5, 0.2, -0.1, 0.3, 0.2, 0.1, 0.1, -0.1];
    let close = levels(&raw);
    let pred = levels(&fore);
    for rule in [ZeroRule::CountAsMiss, ZeroRule::Ignore] {
        let rep = evaluate_directional_accuracy(&close, &pred, TargetKind::Diff, rule);
        assert_eq!(rep.total + rep.skipped, raw.len() - 1);
        assert_eq!(rep.hits, rep.up_up + rep.down_down);
        assert!(rep.total >= rep.hits + rep.up_down + rep.down_up);
        if matches!(rule, ZeroRule::Ignore) {
            assert_eq!(rep.total, rep.hits + rep.up_down + rep.down_up);
        }
        // the same count made step by step
        let mut hits = 0;
        for i in 0..raw.len() - 1 {
            let up = raw[i + 1] > raw[i];
            let down = raw[i + 1] < raw[i];
            if !raw[i].is_finite() || !raw[i + 1].is_finite() {
                continue;
            }
            if (up && fore[i] > 0.0) || (down && fore[i] < 0.0) {
                hits += 1;
            }
        }
        assert_eq!(rep.hits, hits);
    }
}

#[test]
fn single_steps() {
    let judge = |a: f64, b: f64, p: f64, kind, rule| judge_step(&one(a), &one(b), &one(p), kind, rule);
    assert_eq!(judge(1.0, 2.0, 3.0, TargetKind::Level, ZeroRule::Ignore), Outcome::UpUp);
    assert_eq!(judge(1.0, 2.0, 0.5, TargetKind::Level, ZeroRule::Ignore), Outcome::DownUp);
    assert_eq!(judge(2.0, 1.0, 3.0, TargetKind::Level, ZeroRule::Ignore), Outcome::UpDown);
    assert_eq!(judge(2.0, 1.0, 1.5, TargetKind::Level, ZeroRule::Ignore), Outcome::DownDown);
    assert_eq!(judge(2.0, 1.0, 2.0, TargetKind::Level, ZeroRule::Ignore), Outcome::Skipped);
    assert_eq!(judge(2.0, 1.0, 2.0, TargetKind::Level, ZeroRule::CountAsMiss), Outcome::Flat);
    assert_eq!(judge(2.0, 1.0, -0.0, TargetKind::Diff, ZeroRule::CountAsMiss), Outcome::Flat);
    assert_eq!(
        judge(2.0, f64::NEG_INFINITY, -1.0, TargetKind::Diff, ZeroRule::CountAsMiss),
        Outcome::Skipped
    );
}

#[test]
fn directions_and_signs() {
    assert_eq!(move_direction(&one(1.0), &one(1.5)), 1);
    assert_eq!(move_direction(&one(1.0), &one(0.5)), -1);
    assert_eq!(move_direction(&one(0.0), &one(-0.0)), 0);
    assert_eq!(move_direction(&one(1.0), &one(f64::NAN)), 0);
    assert_eq!(sgn(one(1.0e-300)), 1);
    assert_eq!(sgn(one(-1.0e-300)), -1);
    assert_eq!(sgn(one(0.0)), 0);
    // the direction of a move between finite levels is the sign of their difference
    let xs = [-2.5, -1.0, -1.0e-310, 0.0, 1.0e-310, 1.0, 1.0000000000000002, 7.0e307];
    for &a in &xs {
        for &b in &xs {
            let diff: f64 = b - a;
            let want: i8 = if diff > 0.0 {
                1
            } else if diff < 0.0 {
                -1
            } else {
                0
            };
            assert_eq!(move_direction(&one(a), &one(b)), want, "{a} -> {b}");
        }
    }
}

#[test]
fn empty_report_has_no_metrics() {
    let rep = EvalReport::default();
    assert_eq!(rep, EvalReport::empty());
    assert_eq!(rep.total, 0);
    assert_eq!(rep.accuracy(), None);
    assert_eq!(rep.precision(), None);
    assert_eq!(rep.recall(), None);
    assert!(as_number(rep.accuracy()).is_nan());
}

#[test]
fn precision_and_recall_have_their_own_denominators() {
    let rep = EvalReport {
        total: 10,
        hits: 6,
        skipped: 0,
        up_up: 0,
        up_down: 0,
        down_up: 4,
        down_down: 6,
    };
    assert_eq!(rep.accuracy(), Some(Ratio { num: 6, den: 10 }));
    assert_eq!(rep.precision(), None);
    assert_eq!(rep.recall(), Some(Ratio { num: 0, den: 4 }));
    assert_eq!(divide(3, 0), None);
    assert_eq!(divide(0, 3), Some(Ratio { num: 0, den: 3 }));
}

#[test]
fn counts_near_the_top_of_the_range_do_not_overflow() {
    let rep = EvalReport {
        total: usize::MAX,
        hits: usize::MAX,
        skipped: 0,
        up_up: usize::MAX,
        up_down: usize::MAX,
        down_up: usize::MAX,
        down_down: 0,
    };
    let p = rep.precision().unwrap();
    assert_eq!(p.num, usize::MAX as u128);
    assert_eq!(p.den, 2 * (usize::MAX as u128));
}

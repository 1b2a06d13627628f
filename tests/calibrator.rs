use window_trader::calibrator::{Calibrator, Score};

#[test]
fn calibrator_records_and_counts() {
    let mut cal = Calibrator::new(5);
    cal.record(8_000, true);
    cal.record(6_000, false);
    cal.record(9_000, true);
    assert_eq!(cal.count(), 3);
    assert!(!cal.should_recalibrate());
}

#[test]
fn calibrator_triggers_at_threshold() {
    let mut cal = Calibrator::new(5);
    for i in 0..5 {
        cal.record(7_000, i % 2 == 0);
    }
    assert!(cal.should_recalibrate());
}

#[test]
fn calibrator_never_triggers_when_disabled() {
    let mut cal = Calibrator::new(0);
    cal.record(7_000, true);
    assert!(!cal.should_recalibrate());
}

#[test]
fn calibrator_brier_score() {
    let mut cal = Calibrator::new(10);
    cal.record(10_000, true);
    cal.record(0, false);
    let bs = cal.brier_score();
    assert_eq!(bs, Score { sum: 0, count: 2 });
}

#[test]
fn calibrator_brier_score_bad() {
    let mut cal = Calibrator::new(10);
    for _ in 0..5 {
        cal.record(9_000, false);
    }
    let bs = cal.brier_score();
    // 0.81 in basis points squared.
    assert_eq!(bs, Score { sum: 5 * 81_000_000, count: 5 });
    assert!(bs.sum > 5 * 50_000_000);
}

#[test]
fn calibrator_empty_brier_is_one() {
    let cal = Calibrator::new(10);
    assert_eq!(cal.brier_score(), Score { sum: 100_000_000, count: 1 });
}

#[test]
fn calibrator_optimal_multiplier() {
    let mut cal = Calibrator::new(5);
    cal.record(9_000, true);
    cal.record(9_000, false);
    cal.record(9_000, true);
    cal.record(9_000, false);
    cal.record(9_000, true);
    let c = cal.recalibrate().expect("entries were recorded");
    assert!((100..=800).contains(&c.multiplier), "multiplier {}", c.multiplier);
    assert!(c.score.sum <= 100_000_000 * c.score.count as u128);
    // 60% of 90% calls came true: at 4.0 each prediction becomes 60%,
    // the best calibrated; errors 0.4^2 (x3) and 0.6^2 (x2).
    assert_eq!(c.multiplier, 400);
    assert_eq!(c.score, Score { sum: 3 * 4_000 * 4_000 + 2 * 6_000 * 6_000, count: 5 });
}

#[test]
fn calibrator_keeps_sharp_predictions() {
    let mut cal = Calibrator::new(3);
    for _ in 0..3 {
        cal.record(9_000, true);
    }
    let c = cal.recalibrate().unwrap();
    // Every call came true: the sharpest candidate (1.0) wins.
    assert_eq!(c.multiplier, 100);
}

#[test]
fn calibrator_resets_after_recalibrate() {
    let mut cal = Calibrator::new(3);
    for _ in 0..3 {
        cal.record(7_000, true);
    }
    assert!(cal.should_recalibrate());
    let _ = cal.recalibrate();
    assert_eq!(cal.count(), 0);
    assert!(!cal.should_recalibrate());
}

#[test]
fn calibrator_empty_recalibrate_is_none() {
    let mut cal = Calibrator::new(3);
    assert!(cal.recalibrate().is_none());
}

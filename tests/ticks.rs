use window_trader::ticks::{Ratio, WindowTicks};

#[test]
fn window_ticks_momentum_ratio_directional() {
    let mut wt = WindowTicks::new();
    for i in 0..10u64 {
        wt.tick(100 + i, i * 100);
    }
    let mr = wt.momentum_ratio();
    assert_eq!(mr, Ratio { num: 9, den: 9 });
    assert!(mr.num * 10 > mr.den * 8);
}

#[test]
fn window_ticks_momentum_ratio_choppy() {
    let mut wt = WindowTicks::new();
    for i in 0..10u64 {
        wt.tick(if i % 2 == 0 { 100 } else { 101 }, i * 100);
    }
    let mr = wt.momentum_ratio();
    assert_eq!(mr, Ratio { num: 5, den: 9 });
    assert!(mr.num * 10 < mr.den * 6);
}

#[test]
fn window_ticks_empty_defaults() {
    let wt = WindowTicks::new();
    assert_eq!(wt.momentum_ratio(), Ratio { num: 1, den: 1 });
    assert_eq!(wt.sign_changes(), 0);
    assert_eq!(wt.max_drawdown_bps(), 0);
    assert_eq!(wt.time_above_start_s(0), 0);
}

#[test]
fn window_ticks_single_price_defaults() {
    let mut wt = WindowTicks::new();
    wt.tick(100, 0);
    assert_eq!(wt.momentum_ratio(), Ratio { num: 1, den: 1 });
}

#[test]
fn window_ticks_flat_has_default_momentum() {
    let mut wt = WindowTicks::new();
    for i in 0..5u64 {
        wt.tick(100, i);
    }
    assert_eq!(wt.momentum_ratio(), Ratio { num: 1, den: 1 });
}

#[test]
fn window_ticks_sign_changes() {
    let mut wt = WindowTicks::new();
    for (i, &p) in [100u64, 101, 102, 101, 100, 101].iter().enumerate() {
        wt.tick(p, i as u64 * 100);
    }
    assert_eq!(wt.sign_changes(), 2);
}

#[test]
fn window_ticks_sign_changes_skip_flat_moves() {
    let mut wt = WindowTicks::new();
    for (i, &p) in [100u64, 101, 101, 100, 100, 100, 99].iter().enumerate() {
        wt.tick(p, i as u64);
    }
    assert_eq!(wt.sign_changes(), 1);
}

#[test]
fn window_ticks_max_drawdown_bps() {
    // Prices in hundredths: peak 100.10, trough 99.90, a fall of 19.98 bps.
    let mut wt = WindowTicks::new();
    for (i, &p) in [10_000u64, 10_010, 10_005, 9_990, 10_000].iter().enumerate() {
        wt.tick(p, i as u64 * 100);
    }
    assert_eq!(wt.max_drawdown_bps(), 19);
}

#[test]
fn window_ticks_time_above_start() {
    let mut wt = WindowTicks::new();
    wt.tick(1_000, 0);
    wt.tick(1_005, 1_000);
    wt.tick(1_003, 2_000);
    wt.tick(998, 3_000);
    assert_eq!(wt.time_above_start_s(1_000), 2);
}

#[test]
fn window_ticks_ticks_count() {
    let mut wt = WindowTicks::new();
    wt.tick(100, 0);
    wt.tick(101, 100);
    wt.tick(102, 200);
    assert_eq!(wt.ticks_count(), 3);
    assert_eq!(wt.price_list(), &[100, 101, 102]);
    wt.clear();
    assert_eq!(wt.ticks_count(), 0);
}

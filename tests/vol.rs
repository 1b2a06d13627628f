use window_trader::vol::VolTracker;

// Volatilities in millionths of a percent: 0.12% = 120_000.
const DEFAULT_VOL: u64 = 120_000;

#[test]
fn vol_tracker_with_no_data_returns_default() {
    let vt = VolTracker::new(20, DEFAULT_VOL);
    assert_eq!(vt.current_vol(), DEFAULT_VOL);
}

#[test]
fn vol_tracker_with_few_samples_returns_default() {
    let mut vt = VolTracker::new(20, DEFAULT_VOL);
    vt.record_move(100_000, 100_100);
    vt.record_move(100_000, 99_900);
    assert_eq!(vt.current_vol(), DEFAULT_VOL);
}

#[test]
fn vol_tracker_adapts() {
    let mut vt = VolTracker::new(10, DEFAULT_VOL);
    for i in 0..10 {
        if i % 2 == 0 {
            vt.record_move(100_000, 100_200);
        } else {
            vt.record_move(100_000, 99_800);
        }
    }
    // Median +0.2%, deviations 0 and 0.4%, MAD 0.4%: 1.4826 * 0.4% = 0.593%.
    let vol = vt.current_vol();
    assert!(vol > 150_000, "got {vol}");
    assert_eq!(vol, 593_040);
}

#[test]
fn vol_tracker_evicts_old_samples() {
    let mut vt = VolTracker::new(3, DEFAULT_VOL);
    vt.record_move(100_000, 100_100);
    vt.record_move(100_000, 99_900);
    vt.record_move(100_000, 100_050);
    vt.record_move(100_000, 99_950);
    assert_eq!(vt.sample_count(), 3);
}

#[test]
fn vol_tracker_mad_resists_outlier() {
    let mut vt = VolTracker::new(20, DEFAULT_VOL);
    for _ in 0..9 {
        vt.record_move(100_000, 100_050);
    }
    let vol_before = vt.current_vol();
    vt.record_move(100_000, 102_000);
    let vol_after = vt.current_vol();
    assert!(vol_after < vol_before * 2, "before={vol_before} after={vol_after}");
}

#[test]
fn vol_tracker_clamps_to_bounds() {
    let mut flat = VolTracker::new(5, DEFAULT_VOL);
    for _ in 0..5 {
        flat.record_move(100_000, 100_000);
    }
    assert_eq!(flat.current_vol(), 10_000);
    let mut wild = VolTracker::new(5, DEFAULT_VOL);
    for end in [110_000, 90_000, 105_000, 95_000, 100_000] {
        wild.record_move(100_000, end);
    }
    assert_eq!(wild.current_vol(), 1_000_000);
}

#[test]
fn vol_tracker_ignores_zero_start() {
    let mut vt = VolTracker::new(5, DEFAULT_VOL);
    vt.record_move(0, 100);
    assert_eq!(vt.sample_count(), 0);
}

use window_trader::sizing::{dynamic_fee, fractional_kelly};

const USDC: i64 = 1_000_000;

#[test]
fn dynamic_fee_at_50_50() {
    // 0.25 * 0.25^2 = 0.015625: 156 basis points, rounded down.
    assert_eq!(dynamic_fee(5_000, 2_500), 156);
}

#[test]
fn dynamic_fee_at_80_20() {
    assert_eq!(dynamic_fee(8_000, 2_500), 64);
}

#[test]
fn dynamic_fee_at_95_05() {
    assert_eq!(dynamic_fee(9_500, 2_500), 5);
}

#[test]
fn dynamic_fee_vanishes_at_extremes() {
    assert_eq!(dynamic_fee(0, 2_500), 0);
    assert_eq!(dynamic_fee(10_000, 2_500), 0);
}

#[test]
fn kelly_positive_edge() {
    let size = fractional_kelly(7_000, 5_000, 2_500, 5_000, 40 * USDC, 5_000_000);
    assert!(size > 0 && size <= 5_000_000, "got {size}");
}

#[test]
fn kelly_no_edge() {
    assert_eq!(fractional_kelly(5_000, 5_000, 2_500, 5_000, 40 * USDC, 5_000_000), 0);
}

#[test]
fn kelly_bad_odds() {
    assert_eq!(fractional_kelly(3_000, 5_000, 2_500, 5_000, 40 * USDC, 5_000_000), 0);
}

#[test]
fn kelly_fraction_proportional() {
    let half = fractional_kelly(7_000, 5_000, 2_500, 5_000, 40 * USDC, 50_000_000);
    let quarter = fractional_kelly(7_000, 5_000, 2_500, 2_500, 40 * USDC, 50_000_000);
    assert!((half as i64 - 2 * quarter as i64).abs() < 10_000, "half={half} quarter={quarter}");
}

#[test]
fn kelly_fee_adjusted_smaller_than_naive() {
    let with_fee = fractional_kelly(7_000, 5_000, 2_500, 5_000, 40 * USDC, 50_000_000);
    let no_fee = fractional_kelly(7_000, 5_000, 0, 5_000, 40 * USDC, 50_000_000);
    assert!(with_fee < no_fee, "with_fee={with_fee} no_fee={no_fee}");
    assert_eq!(no_fee, 8_000_000);
}

#[test]
fn kelly_bankroll_scales_size() {
    let small = fractional_kelly(7_000, 5_000, 2_500, 5_000, 20 * USDC, 100_000_000);
    let large = fractional_kelly(7_000, 5_000, 2_500, 5_000, 40 * USDC, 100_000_000);
    assert!((large as i64 - 2 * small as i64).abs() < 10_000, "large={large} small={small}");
    assert_eq!(large, 2 * small);
}

#[test]
fn kelly_zero_bankroll_returns_zero() {
    assert_eq!(fractional_kelly(7_000, 5_000, 2_500, 5_000, 0, 5_000_000), 0);
}

#[test]
fn kelly_negative_bankroll_returns_zero() {
    assert_eq!(fractional_kelly(7_000, 5_000, 2_500, 5_000, -5 * USDC, 5_000_000), 0);
}

#[test]
fn kelly_worked_example() {
    // p = 0.7, price = 0.5, fee rate 0.25, half Kelly, bankroll 40, cap 50:
    // fee 0.0156, b_net 0.9844, kelly 0.395, size about 7.9 USDC.
    let size = fractional_kelly(7_000, 5_000, 2_500, 5_000, 40 * USDC, 50 * USDC as u64);
    assert_eq!(size, 7_904_916);
}

#[test]
fn kelly_clamped_to_max_bet() {
    assert_eq!(fractional_kelly(7_000, 5_000, 2_500, 5_000, 40 * USDC, 1_000_000), 1_000_000);
}

#[test]
fn kelly_higher_fee_rate_never_larger() {
    let mut last = u64::MAX;
    for rate in [0u64, 1_000, 2_500, 5_000, 10_000, 100_000] {
        let size = fractional_kelly(7_000, 5_000, rate, 5_000, 40 * USDC, 50_000_000);
        assert!(size <= last, "rate {rate}: {size} > {last}");
        last = size;
    }
}

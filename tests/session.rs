use window_trader::session::{Session, WinRate};

const USDC: i64 = 1_000_000;

#[test]
fn session_bankroll_tracks_pnl() {
    let mut s = Session::new(40 * USDC);
    assert_eq!(s.bankroll(), 40 * USDC);
    s.record_trade(5 * USDC);
    assert_eq!(s.bankroll(), 45 * USDC);
    s.record_trade(-3 * USDC);
    assert_eq!(s.bankroll(), 42 * USDC);
}

#[test]
fn session_default_has_zero_bankroll() {
    let s = Session::default();
    assert_eq!(s.bankroll(), 0);
}

#[test]
fn rolling_wr_tracks_recent() {
    let mut s = Session::new(40 * USDC);
    for _ in 0..3 {
        s.record_trade(-USDC);
    }
    assert_eq!(s.rolling_wr(3), Some(WinRate { wins: 0, total: 3 }));
    s.record_trade(2 * USDC);
    // Last three: loss, loss, win.
    assert_eq!(s.rolling_wr(3), Some(WinRate { wins: 1, total: 3 }));
}

#[test]
fn rolling_wr_none_when_not_enough() {
    let mut s = Session::new(40 * USDC);
    s.record_trade(USDC);
    s.record_trade(-USDC);
    assert_eq!(s.rolling_wr(5), None);
    assert_eq!(s.rolling_wr(0), None);
}

#[test]
fn circuit_breaker_triggers() {
    let mut s = Session::new(40 * USDC);
    // 3 wins then 12 losses: 20% < 25%.
    for i in 0..15 {
        if i < 3 {
            s.record_trade(USDC);
        } else {
            s.record_trade(-USDC);
        }
    }
    assert!(!s.is_circuit_broken(1000));
    s.check_circuit_breaker(15, 2500, 1800, 1000);
    assert!(s.is_circuit_broken(1000));
    assert!(s.is_circuit_broken(2799));
    assert!(!s.is_circuit_broken(2800));
}

#[test]
fn circuit_breaker_does_not_trigger_above_threshold() {
    let mut s = Session::new(40 * USDC);
    // 5 wins then 10 losses: 33% > 25%.
    for i in 0..15 {
        if i < 5 {
            s.record_trade(USDC);
        } else {
            s.record_trade(-USDC);
        }
    }
    s.check_circuit_breaker(15, 2500, 1800, 1000);
    assert!(!s.is_circuit_broken(1000));
}

#[test]
fn circuit_breaker_disabled_by_zero_window_or_threshold() {
    let mut s = Session::new(40 * USDC);
    for _ in 0..15 {
        s.record_trade(-USDC);
    }
    s.check_circuit_breaker(0, 2500, 1800, 1000);
    assert!(!s.is_circuit_broken(1000));
    s.check_circuit_breaker(15, 0, 1800, 1000);
    assert!(!s.is_circuit_broken(1000));
}

#[test]
fn circuit_breaker_exact_threshold_does_not_trip() {
    // 1 win in 4 is exactly 25%: not below the threshold.
    let mut s = Session::new(40 * USDC);
    s.record_trade(USDC);
    for _ in 0..3 {
        s.record_trade(-USDC);
    }
    s.check_circuit_breaker(4, 2500, 60, 10);
    assert!(!s.is_circuit_broken(10));
}

#[test]
fn consecutive_losses_tracked() {
    let mut s = Session::new(40 * USDC);
    s.record_trade(-USDC);
    s.record_trade(-USDC);
    s.record_trade(-USDC);
    assert_eq!(s.consecutive_losses, 3);
    s.record_trade(USDC);
    assert_eq!(s.consecutive_losses, 0);
    s.record_trade(-USDC);
    assert_eq!(s.consecutive_losses, 1);
}

#[test]
fn consecutive_wins_tracked() {
    let mut s = Session::new(40 * USDC);
    s.record_trade(USDC);
    s.record_trade(USDC);
    assert_eq!(s.consecutive_wins, 2);
    s.record_trade(-USDC);
    assert_eq!(s.consecutive_wins, 0);
    s.record_trade(USDC);
    assert_eq!(s.consecutive_wins, 1);
}

#[test]
fn break_even_counts_as_loss() {
    let mut s = Session::new(40 * USDC);
    s.record_trade(0);
    assert_eq!(s.wins, 0);
    assert_eq!(s.trades, 1);
    assert_eq!(s.consecutive_losses, 1);
    assert_eq!(s.win_rate(), WinRate { wins: 0, total: 1 });
}

#[test]
fn session_drawdown_pct_calculation() {
    let mut s = Session::new(40 * USDC);
    s.record_trade(-5 * USDC);
    // 12.5% of the bankroll, in basis points.
    assert_eq!(s.session_drawdown_pct(), 1250);
    s.record_trade(10 * USDC);
    assert_eq!(s.session_drawdown_pct(), 1250);
    assert_eq!(s.min_pnl, -5 * USDC);
}

#[test]
fn drawdown_zero_without_bankroll_or_losses() {
    let mut s = Session::new(0);
    s.record_trade(-USDC);
    assert_eq!(s.session_drawdown_pct(), 0);
    let t = Session::new(40 * USDC);
    assert_eq!(t.session_drawdown_pct(), 0);
}

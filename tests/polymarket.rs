use window_trader::polymarket::{
    after_placement, after_wait, book_stats, order_amounts, BookLevel, OrderAmounts, OrderStep, Side,
};

#[test]
fn buy_order_gives_usdc_takes_shares() {
    // 2 USDC at 0.65 buys 3.076923 shares.
    assert_eq!(
        order_amounts(Side::Buy, 2_000_000, 6_500),
        OrderAmounts { maker_amount: 2_000_000, taker_amount: 3_076_923 }
    );
}

#[test]
fn sell_order_gives_shares_takes_usdc() {
    assert_eq!(
        order_amounts(Side::Sell, 2_000_000, 5_000),
        OrderAmounts { maker_amount: 4_000_000, taker_amount: 2_000_000 }
    );
}

#[test]
fn order_amounts_round_to_nearest() {
    // 1 micro-USDC at 0.3 is 3.33 millionths of a share; at 0.4 it is 2.5.
    assert_eq!(order_amounts(Side::Buy, 1, 3_000).taker_amount, 3);
    assert_eq!(order_amounts(Side::Buy, 1, 4_000).taker_amount, 3);
}

#[test]
fn book_summary() {
    let bids = [
        BookLevel { price: 4_900, size: 100_000_000 },
        BookLevel { price: 4_800, size: 50_000_000 },
    ];
    let asks = [BookLevel { price: 5_100, size: 80_000_000 }];
    let b = book_stats(&bids, &asks);
    assert_eq!(b.best_bid, 4_900);
    assert_eq!(b.best_ask, 5_100);
    assert_eq!(b.spread, 200);
    assert_eq!(b.bid_depth_usdc, 730_000_000_000);
    assert_eq!(b.ask_depth_usdc, 408_000_000_000);
    assert_eq!(b.imbalance, 6_414);
    assert_eq!(b.num_bid_levels, 2);
    assert_eq!(b.num_ask_levels, 1);
}

#[test]
fn empty_book_defaults() {
    let b = book_stats(&[], &[]);
    assert_eq!(b.best_bid, 0);
    assert_eq!(b.best_ask, 10_000);
    assert_eq!(b.spread, 10_000);
    assert_eq!(b.imbalance, 5_000);
}

#[test]
fn fill_or_kill_fills_or_drops() {
    assert_eq!(after_placement(false, "matched", 156), OrderStep::Filled { fee_bps: 156 });
    assert_eq!(after_placement(false, "unmatched", 156), OrderStep::Dropped);
}

#[test]
fn resting_order_waits_then_fills_without_fee_or_cancels() {
    assert_eq!(after_placement(true, "matched", 156), OrderStep::Filled { fee_bps: 156 });
    assert_eq!(after_placement(true, "live", 156), OrderStep::WaitThenCheck);
    assert_eq!(after_wait(Some("matched")), OrderStep::Filled { fee_bps: 0 });
    assert_eq!(after_wait(Some("live")), OrderStep::Cancel);
    assert_eq!(after_wait(None), OrderStep::Cancel);
}

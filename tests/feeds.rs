use window_trader::feeds::{
    aggregate, fresh_price, next_backoff, pick_price, AggregatedPrice, Exchange, OracleReport,
    PriceSource, Slot,
};

const NOW: u64 = 1_700_000_000_000;

fn slot(price: u64, updated_ms: u64) -> Option<Slot> {
    Some(Slot { price, updated_ms })
}

#[test]
fn median_three_sources() {
    let agg = aggregate(&[slot(97_100, NOW), slot(97_200, NOW), slot(97_150, NOW)], NOW);
    assert_eq!(agg.num_sources, 3);
    assert_eq!(agg.median_price, 97_150);
}

#[test]
fn median_two_sources() {
    let agg = aggregate(&[slot(97_100, NOW), slot(97_200, NOW), None], NOW);
    assert_eq!(agg.num_sources, 2);
    assert_eq!(agg.median_price, 97_150);
}

#[test]
fn median_one_source() {
    let agg = aggregate(&[slot(97_100, NOW), None, None], NOW);
    assert_eq!(agg.num_sources, 1);
    assert_eq!(agg.median_price, 97_100);
}

#[test]
fn stale_sources_excluded() {
    let agg = aggregate(&[slot(97_100, NOW), slot(97_200, NOW - 10_000), None], NOW);
    assert_eq!(agg.num_sources, 1);
    assert_eq!(agg.median_price, 97_100);
}

#[test]
fn no_sources_returns_default() {
    let agg = aggregate(&[None, None, None], NOW);
    assert_eq!(agg, AggregatedPrice { median_price: 0, num_sources: 0, last_update_ms: 0 });
}

#[test]
fn freshness_boundary_is_five_seconds() {
    // Exactly 5000 ms old is still fresh; 5001 ms is stale.
    let agg = aggregate(&[slot(100, NOW - 5_000), slot(200, NOW - 5_001), None], NOW);
    assert_eq!(agg.num_sources, 1);
    assert_eq!(agg.median_price, 100);
    assert_eq!(agg.last_update_ms, NOW - 5_000);
    assert_eq!(fresh_price(slot(7, NOW - 5_000), NOW), Some(7));
}

#[test]
fn median_of_unsorted_three() {
    let agg = aggregate(&[slot(30, NOW), slot(10, NOW - 1), slot(20, NOW - 2)], NOW);
    assert_eq!(agg.median_price, 20);
    assert_eq!(agg.last_update_ms, NOW);
}

#[test]
fn mean_of_two_rounds_down() {
    let agg = aggregate(&[None, slot(101, NOW), slot(100, NOW)], NOW);
    assert_eq!(agg.median_price, 100);
}

#[test]
fn rtds_feed_returns_fresh_price() {
    assert_eq!(fresh_price(slot(97_150, NOW - 1_000), NOW), Some(97_150));
}

#[test]
fn rtds_feed_returns_none_when_stale() {
    assert_eq!(fresh_price(slot(97_150, NOW - 6_000), NOW), None);
}

#[test]
fn rtds_feed_returns_none_when_empty() {
    assert_eq!(fresh_price(None, NOW), None);
}

#[test]
fn backoff_doubles_on_error_up_to_cap() {
    assert_eq!(next_backoff(2, false), 4);
    assert_eq!(next_backoff(8, false), 16);
    assert_eq!(next_backoff(16, false), 30);
    assert_eq!(next_backoff(30, false), 30);
    assert_eq!(next_backoff(30, true), 2);
}

#[test]
fn exchange_labels() {
    assert_eq!(Exchange::Binance.label(), "Binance");
    assert_eq!(Exchange::Coinbase.label(), "Coinbase");
    assert_eq!(Exchange::Kraken.label(), "Kraken");
}

#[test]
fn price_source_precedence() {
    let ws = AggregatedPrice { median_price: 97_150, num_sources: 2, last_update_ms: NOW };
    let none = AggregatedPrice { median_price: 0, num_sources: 0, last_update_ms: 0 };
    let oracle = Some(OracleReport { price: 97_000, updated_at: 1_700_000_000 });
    assert_eq!(pick_price(Some(97_200), ws, oracle, 1_700_000_010), Some((97_200, PriceSource::Settlement)));
    assert_eq!(pick_price(None, ws, oracle, 1_700_000_010), Some((97_150, PriceSource::Exchanges)));
    assert_eq!(pick_price(None, none, oracle, 1_700_003_700), Some((97_000, PriceSource::Oracle)));
    assert_eq!(pick_price(None, none, oracle, 1_700_003_701), None);
    assert_eq!(pick_price(None, none, None, 1_700_000_010), None);
}

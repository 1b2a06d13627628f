use vstd::prelude::*;

verus! {

/// Strategy parameters. Units: money in micro-USDC; probabilities, market
/// prices, rates, spreads, ratios and fractions in basis points of one;
/// price moves and volatilities in millionths of a percent; the confidence
/// multiplier and the Student-t degrees of freedom in hundredths; the
/// z-score floor in thousandths.
#[derive(Clone, Debug)]
pub struct StrategyConfig {
    pub max_bet_usdc: u64,
    pub min_bet_usdc: u64,
    pub min_shares: u64,
    /// Minimum net edge.
    pub min_edge_pct: u64,
    pub entry_seconds_before_end: u64,
    pub session_profit_target_usdc: i64,
    pub session_loss_limit_usdc: i64,
    pub fee_rate: u64,
    pub min_market_price: u64,
    pub max_market_price: u64,
    pub min_delta_pct: u64,
    pub max_spread: u64,
    pub kelly_fraction: u64,
    pub initial_bankroll_usdc: i64,
    pub always_trade: bool,
    pub vol_confidence_multiplier: u64,
    pub min_payout_ratio: u64,
    pub min_book_imbalance: u64,
    pub max_vol_5min_pct: u64,
    pub min_ws_sources: u32,
    pub circuit_breaker_window: usize,
    pub circuit_breaker_min_wr: u64,
    pub circuit_breaker_cooldown_s: u64,
    /// Minimum model confidence `max(p, 1 - p)` to trade (0 = off).
    pub min_implied_prob: u64,
    /// Consecutive losses from which trading pauses (0 = off).
    pub max_consecutive_losses: u32,
    /// Degrees of freedom of the Student-t model (0 = normal model).
    pub student_t_df: u64,
    /// Minimum |z-score| to trade (0 = off).
    pub min_z_score: u64,
    /// Largest allowed distance between model and market (0 = off).
    pub max_model_divergence: u64,
}

/// Default polling interval of the settlement feed, in milliseconds.
pub fn default_poll_interval_ws() -> (r: u64)
    ensures
        r == 1000,
{
    1000
}

/// Default address of the settlement price stream.
pub fn default_rtds_ws() -> (r: String)
    ensures
        r@ == "wss://ws-live-data.polymarket.com"@,
{
    String::from_str("wss://ws-live-data.polymarket.com")
}

/// Default symbol of the settlement price stream.
pub fn default_rtds_symbol() -> (r: String)
    ensures
        r@ == "btc/usd"@,
{
    String::from_str("btc/usd")
}

/// Default address of the Binance trade stream.
pub fn default_binance_ws() -> (r: String)
    ensures
        r@ == "wss://stream.binance.com:9443/ws/btcusdt@trade"@,
{
    String::from_str("wss://stream.binance.com:9443/ws/btcusdt@trade")
}

/// Default address of the Coinbase feed.
pub fn default_coinbase_ws() -> (r: String)
    ensures
        r@ == "wss://ws-feed.exchange.coinbase.com"@,
{
    String::from_str("wss://ws-feed.exchange.coinbase.com")
}

/// Default address of the Kraken feed.
pub fn default_kraken_ws() -> (r: String)
    ensures
        r@ == "wss://ws.kraken.com/v2"@,
{
    String::from_str("wss://ws.kraken.com/v2")
}

/// Default length, in seconds before resolution, of the contrarian entry window.
pub fn default_extreme_entry_seconds() -> (r: u64)
    ensures
        r == 30,
{
    30
}

/// Default minimum time left, in seconds, for a contrarian entry.
pub fn default_extreme_min_remaining() -> (r: u64)
    ensures
        r == 5,
{
    5
}

/// Default minimum number of shares per order.
pub fn default_min_shares() -> (r: u64)
    ensures
        r == 5,
{
    5
}

/// Default fee rate sent with orders, in basis points.
pub fn default_fee_rate_bps() -> (r: u32)
    ensures
        r == 1000,
{
    1000
}

/// Default number of completed windows the volatility estimate looks at.
pub fn default_vol_lookback() -> (r: usize)
    ensures
        r == 20,
{
    20
}

/// Default order type: fill-or-kill.
pub fn default_order_type() -> (r: String)
    ensures
        r@ == "FOK"@,
{
    String::from_str("FOK")
}

/// Default wait, in seconds, for a resting order to fill.
pub fn default_maker_timeout() -> (r: u64)
    ensures
        r == 5,
{
    5
}

/// Default circuit-breaker window (0 = off).
pub fn default_circuit_breaker_window() -> (r: usize)
    ensures
        r == 0,
{
    0
}

/// Default circuit-breaker cooldown, in seconds.
pub fn default_circuit_breaker_cooldown() -> (r: u64)
    ensures
        r == 1800,
{
    1800
}

} // verus!

//! Decision engine for a recurring fixed-horizon "up or down" prediction
//! market: price aggregation, the ordered trading gates and fee-aware fractional
//! Kelly sizing, the session's risk ledger and circuit breaker, volatility
//! and tick statistics, self-calibration of the model's confidence, and
//! the per-window bookkeeping.
//!
//! All quantities are integers: money in micro-USDC, probabilities and
//! market prices in basis points of one, price moves and volatilities in
//! millionths of a percent. The probability model itself (a normal or
//! Student-t CDF) is evaluated by the caller and handed in.

pub mod auth;
pub mod calibrator;
pub mod config;
pub mod feeds;
pub mod polymarket;
pub mod resolution;
pub mod session;
pub mod sizing;
pub mod strategy;
pub mod ticks;
pub mod vol;
pub mod window;

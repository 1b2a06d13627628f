use vstd::prelude::*;
use crate::config::StrategyConfig;
use crate::polymarket::Side;
use crate::session::Session;
use crate::sizing::{U, dynamic_fee, fee_of, fractional_kelly, kelly_size};

verus! {

/// A price move as a ratio, in millionths of a percent.
pub const MOVE_SCALE: u64 = 100_000_000;

/// A market price of the "up" leg is valid only strictly between `PRICE_LO` and `PRICE_HI`.
pub const PRICE_LO: u64 = 100;
pub const PRICE_HI: u64 = 9_900;

/// Momentum below which the tape counts as choppy, in basis points.
pub const CHOPPY_MOMENTUM: u64 = 5_500;

/// Micro-USDC per share at a price of one basis point.
pub const MICRO_PER_SHARE_BPS: u64 = 100;

/// What the engine observed for the active window. Units as in `StrategyConfig`.
#[derive(Clone, Copy, Debug)]
pub struct TradeContext {
    pub start_price: u64,
    pub chainlink_price: u64,
    pub exchange_price: Option<u64>,
    pub rtds_price: Option<u64>,
    pub market_up_price: u64,
    pub seconds_remaining: u64,
    pub fee_rate: u64,
    pub vol_5min_pct: u64,
    pub spread: u64,
    pub book_imbalance: u64,
    pub num_ws_sources: u32,
    pub micro_vol: u64,
    /// Momentum ratio, in basis points.
    pub momentum_ratio: u64,
}

/// What the probability model says: the probability of "up" (basis points)
/// and |z| (thousandths), the latter absent when no time is left.
#[derive(Clone, Copy, Debug)]
pub struct ModelEstimate {
    pub p_up: u64,
    pub z_abs: Option<u64>,
}

/// A decision to trade. Edges and fee in basis points, size in micro-USDC.
#[derive(Clone, Copy, Debug)]
pub struct Signal {
    pub side: Side,
    /// Net edge: gross edge minus fee minus half the spread.
    pub edge_pct: i128,
    pub edge_brut_pct: i128,
    pub fee_pct: u64,
    pub implied_p_up: u64,
    pub size_usdc: u64,
    pub price: u64,
}

/// Why no trade was taken: the first gate that failed.
#[derive(Clone, Copy, Debug, PartialEq, Eq, Structural)]
pub enum SkipReason {
    SessionLimit,
    FewSources,
    HighVol,
    OutsideEntry,
    InvalidInput,
    NoiseZ,
    ModelDivergence,
    LossStreak,
    MarketBand,
    LowPayout,
    LowImbalance,
    Divergence,
    SmallDelta,
    WideSpread,
    NoEdge,
    LowConfidence,
    NoSize,
    MinAboveMax,
    Marginal,
}

/// The price the model reads: settlement feed, else exchanges, else oracle.
pub open spec fn current_price(ctx: TradeContext) -> u64 {
    match ctx.rtds_price {
        Some(p) => p,
        None => match ctx.exchange_price {
            Some(p) => p,
            None => ctx.chainlink_price,
        },
    }
}

/// Size of the move from `start` to `cur`, in millionths of a percent (rounded down).
pub open spec fn move_abs(start: int, cur: int) -> int {
    let d = if cur >= start {
        cur - start
    } else {
        start - cur
    };
    d * MOVE_SCALE / start
}

/// The leg with the larger edge: "up" unless the model is below the market.
pub open spec fn chosen_side(p_up: int, market_up: int) -> Side {
    if p_up >= market_up {
        Side::Buy
    } else {
        Side::Sell
    }
}

pub open spec fn leg_price(ctx: TradeContext, m: ModelEstimate) -> int {
    if m.p_up >= ctx.market_up_price {
        ctx.market_up_price as int
    } else {
        U - ctx.market_up_price
    }
}

pub open spec fn leg_prob(ctx: TradeContext, m: ModelEstimate) -> int {
    if m.p_up >= ctx.market_up_price {
        m.p_up as int
    } else {
        U - m.p_up
    }
}

pub open spec fn gross_edge(ctx: TradeContext, m: ModelEstimate) -> int {
    leg_prob(ctx, m) - leg_price(ctx, m)
}

/// Net edge: gross edge, less the fee, less half the spread rounded up.
pub open spec fn net_edge(ctx: TradeContext, m: ModelEstimate) -> int {
    gross_edge(ctx, m) - fee_of(leg_price(ctx, m), ctx.fee_rate as int) - (ctx.spread + 1) / 2
}

/// The venue's smallest order at `price`: `min_shares` shares, and at least `min_bet`.
pub open spec fn min_order(c: StrategyConfig, price: int) -> int {
    let by_shares = c.min_shares * price * MICRO_PER_SHARE_BPS;
    if by_shares >= c.min_bet_usdc {
        by_shares
    } else {
        c.min_bet_usdc as int
    }
}

/// `x` shrunk by 0.7 once per loss of the streak (each step rounded down).
pub open spec fn decayed(x: int, n: nat) -> int
    decreases n,
{
    if n == 0 {
        x
    } else {
        decayed(x, (n - 1) as nat) * 7 / 10
    }
}

/// `x` halved on a choppy tape, then cut to 0.6 when micro-volatility is
/// above twice the window volatility (each step rounded down).
pub open spec fn regime_adjusted(x: int, ctx: TradeContext) -> int {
    let a = if ctx.momentum_ratio < CHOPPY_MOMENTUM {
        x / 2
    } else {
        x
    };
    if ctx.vol_5min_pct > 0 && ctx.micro_vol > 2 * ctx.vol_5min_pct {
        a * 6 / 10
    } else {
        a
    }
}

/// Gates 1 to 5, in order.
pub open spec fn early_skip(ctx: TradeContext, s: Session, c: StrategyConfig) -> Option<
    SkipReason,
> {
    if s.pnl_usdc >= c.session_profit_target_usdc || s.pnl_usdc <= -c.session_loss_limit_usdc {
        Some(SkipReason::SessionLimit)
    } else if c.min_ws_sources > 0 && ctx.num_ws_sources < c.min_ws_sources {
        Some(SkipReason::FewSources)
    } else if c.max_vol_5min_pct > 0 && ctx.vol_5min_pct > c.max_vol_5min_pct {
        Some(SkipReason::HighVol)
    } else if ctx.seconds_remaining > c.entry_seconds_before_end {
        Some(SkipReason::OutsideEntry)
    } else if ctx.start_price == 0 || ctx.market_up_price <= PRICE_LO || ctx.market_up_price
        >= PRICE_HI {
        Some(SkipReason::InvalidInput)
    } else {
        None
    }
}

/// Whether the oracle moved by more than one basis point of the start price
/// in the direction opposite to the exchanges.
pub open spec fn feeds_disagree(ctx: TradeContext) -> bool {
    match ctx.exchange_price {
        Some(ex) => {
            let cl = ctx.chainlink_price;
            let st = ctx.start_price;
            let d = if cl >= st {
                cl - st
            } else {
                st - cl
            };
            d * U > st && (cl > st) != (ex > st)
        },
        None => false,
    }
}

/// Gates 6 to 16, in order.
pub open spec fn filter_skip(
    ctx: TradeContext,
    s: Session,
    c: StrategyConfig,
    m: ModelEstimate,
) -> Option<SkipReason> {
    let price = leg_price(ctx, m);
    let prob = leg_prob(ctx, m);
    let div = if m.p_up >= ctx.market_up_price {
        m.p_up - ctx.market_up_price
    } else {
        ctx.market_up_price - m.p_up
    };
    if c.min_z_score > 0 && (match m.z_abs {
        Some(z) => z < c.min_z_score,
        None => false,
    }) {
        Some(SkipReason::NoiseZ)
    } else if c.max_model_divergence > 0 && div > c.max_model_divergence {
        Some(SkipReason::ModelDivergence)
    } else if c.max_consecutive_losses > 0 && s.consecutive_losses >= c.max_consecutive_losses {
        Some(SkipReason::LossStreak)
    } else if ctx.market_up_price < c.min_market_price || ctx.market_up_price
        > c.max_market_price {
        Some(SkipReason::MarketBand)
    } else if c.min_payout_ratio > 0 && (U - price) * U < c.min_payout_ratio * price {
        Some(SkipReason::LowPayout)
    } else if c.min_book_imbalance > 0 && ctx.book_imbalance < c.min_book_imbalance {
        Some(SkipReason::LowImbalance)
    } else if feeds_disagree(ctx) {
        Some(SkipReason::Divergence)
    } else if move_abs(ctx.start_price as int, current_price(ctx) as int) < c.min_delta_pct {
        Some(SkipReason::SmallDelta)
    } else if c.max_spread > 0 && ctx.spread > c.max_spread {
        Some(SkipReason::WideSpread)
    } else if gross_edge(ctx, m) <= 0 || net_edge(ctx, m) < c.min_edge_pct {
        Some(SkipReason::NoEdge)
    } else if c.min_implied_prob > 0 && prob < c.min_implied_prob && U - prob
        < c.min_implied_prob {
        Some(SkipReason::LowConfidence)
    } else {
        None
    }
}

/// The signal for the chosen leg with the given size.
pub open spec fn signal_of(ctx: TradeContext, m: ModelEstimate, size: int) -> Signal {
    Signal {
        side: chosen_side(m.p_up as int, ctx.market_up_price as int),
        edge_pct: net_edge(ctx, m) as i128,
        edge_brut_pct: gross_edge(ctx, m) as i128,
        fee_pct: fee_of(leg_price(ctx, m), ctx.fee_rate as int) as u64,
        implied_p_up: m.p_up,
        size_usdc: size as u64,
        price: leg_price(ctx, m) as u64,
    }
}

/// Sizing after all gates passed: fractional Kelly, shrunk by the loss streak
/// and the regime, capped at the largest bet, then held to the venue minimum.
pub open spec fn sized(
    ctx: TradeContext,
    s: Session,
    c: StrategyConfig,
    m: ModelEstimate,
) -> Result<Signal, SkipReason> {
    let price = leg_price(ctx, m);
    let k = kelly_size(
        leg_prob(ctx, m),
        price,
        ctx.fee_rate as int,
        c.kelly_fraction as int,
        s.initial_bankroll + s.pnl_usdc,
        c.max_bet_usdc as int,
    );
    let adj = regime_adjusted(decayed(k, s.consecutive_losses as nat), ctx);
    let capped = if adj < c.max_bet_usdc {
        adj
    } else {
        c.max_bet_usdc as int
    };
    let lo = min_order(c, price);
    if k <= 0 {
        Err(SkipReason::NoSize)
    } else if lo > c.max_bet_usdc {
        Err(SkipReason::MinAboveMax)
    } else if 10 * capped < lo {
        Err(SkipReason::Marginal)
    } else {
        Ok(
            signal_of(
                ctx,
                m,
                if capped < lo {
                    lo
                } else {
                    capped
                },
            ),
        )
    }
}

/// The whole decision for one evaluation.
pub open spec fn decision(
    ctx: TradeContext,
    s: Session,
    c: StrategyConfig,
    m: ModelEstimate,
) -> Result<Signal, SkipReason> {
    match early_skip(ctx, s, c) {
        Some(r) => Err(r),
        None => if c.always_trade {
            let lo = min_order(c, leg_price(ctx, m));
            Ok(
                signal_of(
                    ctx,
                    m,
                    if lo < c.max_bet_usdc {
                        lo
                    } else {
                        c.max_bet_usdc as int
                    },
                ),
            )
        } else {
            match filter_skip(ctx, s, c, m) {
                Some(r) => Err(r),
                None => sized(ctx, s, c, m),
            }
        },
    }
}

/// Size of the move from `start` to `cur` (see `move_abs`).
pub fn price_move(start: u64, cur: u64) -> (r: u128)
    requires
        start > 0,
    ensures
        r == move_abs(start as int, cur as int),
{
    let d: u64 = if cur >= start {
        cur - start
    } else {
        start - cur
    };
    proof {
        assert((d as int) * MOVE_SCALE <= u64::MAX * MOVE_SCALE) by (nonlinear_arith)
            requires
                d <= u64::MAX,
        ;
    }
    (d as u128) * (MOVE_SCALE as u128) / (start as u128)
}

/// `x` shrunk once per loss (see `decayed`).
pub fn decay(x: u64, losses: u32) -> (r: u64)
    ensures
        r == decayed(x as int, losses as nat),
{
    let mut v: u64 = x;
    let mut i: u32 = 0;
    while i < losses
        invariant
            0 <= i <= losses,
            v == decayed(x as int, i as nat),
            v <= x,
        decreases losses - i,
    {
        proof {
            assert(((i + 1) as nat - 1) as nat == i as nat);
        }
        v = ((v as u128) * 7 / 10) as u64;
        i = i + 1;
    }
    v
}

/// `x` adjusted for the regime (see `regime_adjusted`).
pub fn regime(x: u64, ctx: &TradeContext) -> (r: u64)
    ensures
        r == regime_adjusted(x as int, *ctx),
        r <= x,
{
    let a: u64 = if ctx.momentum_ratio < CHOPPY_MOMENTUM {
        x / 2
    } else {
        x
    };
    if ctx.vol_5min_pct > 0 && (ctx.micro_vol as u128) > 2 * (ctx.vol_5min_pct as u128) {
        ((a as u128) * 6 / 10) as u64
    } else {
        a
    }
}

/// The venue's smallest order at `price` (see `min_order`).
pub fn min_order_usdc(config: &StrategyConfig, price: u64) -> (r: u128)
    requires
        price <= U,
    ensures
        r == min_order(*config, price as int),
{
    proof {
        let (a, b) = (config.min_shares as int, price as int);
        assert(a * b * MICRO_PER_SHARE_BPS <= u64::MAX * U * MICRO_PER_SHARE_BPS)
            by (nonlinear_arith)
            requires
                0 <= a <= u64::MAX,
                0 <= b <= U,
        ;
    }
    let by_shares: u128 = (config.min_shares as u128) * (price as u128) * (
    MICRO_PER_SHARE_BPS as u128);
    if by_shares >= config.min_bet_usdc as u128 {
        by_shares
    } else {
        config.min_bet_usdc as u128
    }
}

/// Decides whether to trade in this window: the first failing gate, in the
/// documented order, or the signal with its size (see `decision`). `model`
/// is the probability model's reading of this context.
pub fn decide(
    ctx: &TradeContext,
    session: &Session,
    config: &StrategyConfig,
    model: &ModelEstimate,
) -> (r: Result<Signal, SkipReason>)
    requires
        session.wf(),
        model.p_up <= U,
        config.kelly_fraction <= U,
    ensures
        r == decision(*ctx, *session, *config, *model),
{
    // Gates 1 to 5.
    let pnl = session.pnl_usdc as i128;
    if pnl >= config.session_profit_target_usdc as i128 || pnl <= -(
    config.session_loss_limit_usdc as i128) {
        return Err(SkipReason::SessionLimit);
    }
    if config.min_ws_sources > 0 && ctx.num_ws_sources < config.min_ws_sources {
        return Err(SkipReason::FewSources);
    }
    if config.max_vol_5min_pct > 0 && ctx.vol_5min_pct > config.max_vol_5min_pct {
        return Err(SkipReason::HighVol);
    }
    if ctx.seconds_remaining > config.entry_seconds_before_end {
        return Err(SkipReason::OutsideEntry);
    }
    if ctx.start_price == 0 || ctx.market_up_price <= PRICE_LO || ctx.market_up_price >= PRICE_HI {
        return Err(SkipReason::InvalidInput);
    }
    // The leg with the larger edge.
    let up = model.p_up >= ctx.market_up_price;
    let side = if up {
        Side::Buy
    } else {
        Side::Sell
    };
    let price: u64 = if up {
        ctx.market_up_price
    } else {
        U - ctx.market_up_price
    };
    let prob: u64 = if up {
        model.p_up
    } else {
        U - model.p_up
    };
    let edge: i128 = prob as i128 - price as i128;
    let fee = dynamic_fee(price, ctx.fee_rate);
    let net: i128 = edge - fee as i128 - ((ctx.spread as i128) + 1) / 2;
    let signal = |size: u64| -> (sg: Signal)
        ensures
            sg == signal_of(*ctx, *model, size as int),
        {
            Signal {
                side,
                edge_pct: net,
                edge_brut_pct: edge,
                fee_pct: fee,
                implied_p_up: model.p_up,
                size_usdc: size,
                price,
            }
        };
    if config.always_trade {
        let lo = min_order_usdc(config, price);
        let size: u64 = if lo < config.max_bet_usdc as u128 {
            lo as u64
        } else {
            config.max_bet_usdc
        };
        return Ok(signal(size));
    }
    // Gates 6 to 16.
    if config.min_z_score > 0 {
        if let Some(z) = model.z_abs {
            if z < config.min_z_score {
                return Err(SkipReason::NoiseZ);
            }
        }
    }
    let div: u64 = if up {
        model.p_up - ctx.market_up_price
    } else {
        ctx.market_up_price - model.p_up
    };
    if config.max_model_divergence > 0 && div > config.max_model_divergence {
        return Err(SkipReason::ModelDivergence);
    }
    if config.max_consecutive_losses > 0 && session.consecutive_losses
        >= config.max_consecutive_losses {
        return Err(SkipReason::LossStreak);
    }
    if ctx.market_up_price < config.min_market_price || ctx.market_up_price
        > config.max_market_price {
        return Err(SkipReason::MarketBand);
    }
    proof {
        let (a, b) = (config.min_payout_ratio as int, price as int);
        assert(a * b <= u64::MAX * U) by (nonlinear_arith)
            requires
                0 <= a <= u64::MAX,
                0 <= b <= U,
        ;
    }
    if config.min_payout_ratio > 0 && ((U - price) as u128) * (U as u128) < (
    config.min_payout_ratio as u128) * (price as u128) {
        return Err(SkipReason::LowPayout);
    }
    if config.min_book_imbalance > 0 && ctx.book_imbalance < config.min_book_imbalance {
        return Err(SkipReason::LowImbalance);
    }
    if let Some(ex) = ctx.exchange_price {
        let cl = ctx.chainlink_price;
        let st = ctx.start_price;
        let d: u64 = if cl >= st {
            cl - st
        } else {
            st - cl
        };
        if (d as u128) * (U as u128) > st as u128 && (cl > st) != (ex > st) {
            return Err(SkipReason::Divergence);
        }
    }
    let current: u64 = match ctx.rtds_price {
        Some(p) => p,
        None => match ctx.exchange_price {
            Some(p) => p,
            None => ctx.chainlink_price,
        },
    };
    if price_move(ctx.start_price, current) < config.min_delta_pct as u128 {
        return Err(SkipReason::SmallDelta);
    }
    if config.max_spread > 0 && ctx.spread > config.max_spread {
        return Err(SkipReason::WideSpread);
    }
    if edge <= 0 || net < config.min_edge_pct as i128 {
        return Err(SkipReason::NoEdge);
    }
    if config.min_implied_prob > 0 && prob < config.min_implied_prob && U - prob
        < config.min_implied_prob {
        return Err(SkipReason::LowConfidence);
    }
    // Sizing.
    let k = fractional_kelly(
        prob,
        price,
        ctx.fee_rate,
        config.kelly_fraction,
        session.bankroll(),
        config.max_bet_usdc,
    );
    if k == 0 {
        return Err(SkipReason::NoSize);
    }
    let adj = regime(decay(k, session.consecutive_losses), ctx);
    let capped: u64 = if adj < config.max_bet_usdc {
        adj
    } else {
        config.max_bet_usdc
    };
    let lo = min_order_usdc(config, price);
    if lo > config.max_bet_usdc as u128 {
        return Err(SkipReason::MinAboveMax);
    }
    if 10 * (capped as u128) < lo {
        return Err(SkipReason::Marginal);
    }
    let size: u64 = if (capped as u128) < lo {
        lo as u64
    } else {
        capped
    };
    Ok(signal(size))
}

/// The signal to act on in this window, if any (see `decide`).
pub fn evaluate(
    ctx: &TradeContext,
    session: &Session,
    config: &StrategyConfig,
    model: &ModelEstimate,
) -> (r: Option<Signal>)
    requires
        session.wf(),
        model.p_up <= U,
        config.kelly_fraction <= U,
    ensures
        r == (match decision(*ctx, *session, *config, *model) {
            Ok(sg) => Some(sg),
            Err(_) => None,
        }),
{
    match decide(ctx, session, config, model) {
        Ok(sg) => Some(sg),
        Err(_) => None,
    }
}

/// Whether no volatility remains before resolution (no time left, or a zero
/// volatility or multiplier): the outcome is then locked.
pub open spec fn is_locked(ctx: TradeContext, multiplier: u64) -> bool {
    ctx.seconds_remaining == 0 || ctx.vol_5min_pct == 0 || multiplier == 0
}

/// The model's estimate when the outcome is locked: certain "up" after a
/// rise, certain "down" after a fall, even when flat; `None` when some
/// volatility remains and the distribution decides.
pub fn locked_model(ctx: &TradeContext, multiplier: u64) -> (r: Option<ModelEstimate>)
    ensures
        !is_locked(*ctx, multiplier) ==> r is None,
        is_locked(*ctx, multiplier) ==> r == Some(
            ModelEstimate {
                p_up: if current_price(*ctx) > ctx.start_price {
                    U
                } else if current_price(*ctx) < ctx.start_price {
                    0
                } else {
                    U / 2
                },
                z_abs: None,
            },
        ),
{
    if !(ctx.seconds_remaining == 0 || ctx.vol_5min_pct == 0 || multiplier == 0) {
        return None;
    }
    let current: u64 = match ctx.rtds_price {
        Some(p) => p,
        None => match ctx.exchange_price {
            Some(p) => p,
            None => ctx.chainlink_price,
        },
    };
    let p_up: u64 = if current > ctx.start_price {
        U
    } else if current < ctx.start_price {
        0
    } else {
        U / 2
    };
    Some(ModelEstimate { p_up, z_abs: None })
}

} // verus!

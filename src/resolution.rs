use vstd::prelude::*;
use crate::polymarket::Side;
use crate::session::{BPS, Session, trips_on};
use crate::calibrator::{Calibrator, Calibration};
use crate::config::StrategyConfig;

verus! {

/// Whether a window resolves "up": the end price is at least the start price
/// (a tie resolves "up").
pub fn resolve_up(start_price: u64, end_price: u64) -> (r: bool)
    ensures
        r == (end_price >= start_price),
        start_price == end_price ==> r,
{
    end_price >= start_price
}

/// PnL of a resolved position, in the stake's unit: the stake `size` bought at
/// `price` (basis points of one) pays `size * (1 / price - 1)` on a win and
/// loses `size` otherwise; the fee `fee_bps` (basis points of the stake) is
/// charged either way. Each term is rounded down.
pub open spec fn pnl_of(won: bool, size: int, price: int, fee_bps: int) -> int
    recommends
        price > 0,
{
    let fee_cost = size * fee_bps / (BPS as int);
    if won {
        size * ((BPS as int) - price) / price - fee_cost
    } else {
        -size - fee_cost
    }
}

/// PnL of a resolved position (see `pnl_of`).
pub fn compute_pnl(won: bool, size: u64, price: u64, fee_bps: u64) -> (r: i128)
    requires
        0 < price <= BPS,
        fee_bps <= BPS,
    ensures
        r == pnl_of(won, size as int, price as int, fee_bps as int),
{
    proof {
        let (z, f, p, b) = (size as int, fee_bps as int, price as int, BPS as int);
        assert(z * f <= z * b) by (nonlinear_arith)
            requires
                0 <= z,
                f <= b,
        ;
        assert(z * (b - p) <= z * b) by (nonlinear_arith)
            requires
                0 <= z,
                0 <= p,
        ;
        assert(z * b <= u64::MAX * b) by (nonlinear_arith)
            requires
                z <= u64::MAX,
                b >= 0,
        ;
    }
    let fee_cost: u128 = (size as u128) * (fee_bps as u128) / (BPS as u128);
    if won {
        let payout: u128 = (size as u128) * ((BPS - price) as u128) / (price as u128);
        proof {
            let (x, p) = (size as int * (BPS - price) as int, price as int);
            assert(x / p <= x) by (nonlinear_arith)
                requires
                    p >= 1,
                    x >= 0,
            ;
        }
        payout as i128 - fee_cost as i128
    } else {
        -(size as i128) - fee_cost as i128
    }
}

/// Whether a position on `side` wins when the window went up (`went_up`) or not.
pub open spec fn side_wins(side: Side, went_up: bool) -> bool {
    match side {
        Side::Buy => went_up,
        Side::Sell => !went_up,
    }
}

/// Whether a position on `side` wins when the window went up or not.
pub fn bet_won(side: Side, went_up: bool) -> (r: bool)
    ensures
        r == side_wins(side, went_up),
{
    match side {
        Side::Buy => went_up,
        Side::Sell => !went_up,
    }
}

/// The position taken in a window, held until the window resolves. Prices
/// and probabilities in basis points, size in micro-USDC, fee in basis
/// points of the stake.
#[derive(Clone, Copy, Debug, PartialEq, Eq, Structural)]
pub struct PendingBet {
    pub start_price: u64,
    pub side: Side,
    pub size_usdc: u64,
    pub entry_price: u64,
    pub fee_pct: u64,
    pub implied_p_up: u64,
    pub is_extreme: bool,
}

/// What resolving a position did.
#[derive(Clone, Copy, Debug, PartialEq, Eq, Structural)]
pub struct Resolution {
    pub won: bool,
    pub pnl: i64,
    /// The new confidence multiplier, when a recalibration was due.
    pub calibration: Option<Calibration>,
}

/// The probability the position's own leg was given at entry.
pub open spec fn predicted_for(bet: PendingBet) -> u64 {
    match bet.side {
        Side::Buy => bet.implied_p_up,
        Side::Sell => (BPS - bet.implied_p_up) as u64,
    }
}

/// The PnL that resolving `bet` at `end_price` gives.
pub open spec fn bet_pnl(bet: PendingBet, end_price: u64) -> int {
    pnl_of(
        side_wins(bet.side, end_price >= bet.start_price),
        bet.size_usdc as int,
        bet.entry_price as int,
        bet.fee_pct as int,
    )
}

/// A flat window resolves "up": a position on the up leg is settled as a
/// win and one on the down leg as a loss.
pub proof fn lemma_flat_window_up_wins(bet: PendingBet)
    ensures
        bet_pnl(bet, bet.start_price) == pnl_of(
            bet.side == Side::Buy,
            bet.size_usdc as int,
            bet.entry_price as int,
            bet.fee_pct as int,
        ),
{
}

/// Resolves `bet` against the price at the end of its window: records the
/// trade in the session, feeds the calibrator (not for contrarian trades)
/// and recalibrates when due, adopting the new multiplier, then checks the
/// circuit breaker.
pub fn resolve_pending_bet(
    bet: &PendingBet,
    end_price: u64,
    now: u64,
    session: &mut Session,
    config: &mut StrategyConfig,
    calibrator: &mut Calibrator,
) -> (r: Resolution)
    requires
        old(session).wf(),
        old(calibrator).wf(),
        0 < bet.entry_price <= BPS,
        bet.fee_pct <= BPS,
        bet.implied_p_up <= BPS,
        old(session).trades < u32::MAX,
        i64::MIN <= bet_pnl(*bet, end_price) <= i64::MAX,
        i64::MIN <= old(session).pnl_usdc + bet_pnl(*bet, end_price) <= i64::MAX,
        i64::MIN <= old(session).initial_bankroll + old(session).pnl_usdc + bet_pnl(
            *bet,
            end_price,
        ) <= i64::MAX,
        now + old(config).circuit_breaker_cooldown_s <= u64::MAX,
    ensures
        final(session).wf(),
        final(calibrator).wf(),
        r.won == side_wins(bet.side, end_price >= bet.start_price),
        r.pnl == bet_pnl(*bet, end_price),
        final(session).pnl_usdc == old(session).pnl_usdc + r.pnl,
        final(session).trades == old(session).trades + 1,
        final(session).outcomes() == old(session).outcomes().push(r.pnl > 0),
        final(session).wins == old(session).wins + if r.pnl > 0 { 1int } else { 0int },
        final(session).consecutive_wins == if r.pnl > 0 {
            old(session).consecutive_wins + 1
        } else {
            0
        },
        final(session).consecutive_losses == if r.pnl > 0 {
            0
        } else {
            old(session).consecutive_losses + 1
        },
        final(session).min_pnl == if old(session).pnl_usdc + r.pnl < old(session).min_pnl {
            old(session).pnl_usdc + r.pnl
        } else {
            old(session).min_pnl as int
        },
        final(session).initial_bankroll == old(session).initial_bankroll,
        final(session).circuit_breaker_until == if trips_on(
            final(session).outcomes(),
            old(config).circuit_breaker_window as nat,
            old(config).circuit_breaker_min_wr as nat,
        ) {
            (now + old(config).circuit_breaker_cooldown_s) as u64
        } else {
            old(session).circuit_breaker_until
        },
        ({
            let fed = if bet.is_extreme {
                old(calibrator).entries()
            } else {
                old(calibrator).entries().push((predicted_for(*bet), r.won))
            };
            let due = old(calibrator).every() > 0 && fed.len() >= old(calibrator).every();
            &&& (due && fed.len() > 0) == r.calibration.is_some()
            &&& final(calibrator).entries() == if due {
                Seq::<(u64, bool)>::empty()
            } else {
                fed
            }
        }),
        r.calibration matches Some(c) ==> final(config).vol_confidence_multiplier == c.multiplier
            && final(calibrator).current() == c.multiplier,
        r.calibration is None ==> final(config).vol_confidence_multiplier == old(
            config,
        ).vol_confidence_multiplier && final(calibrator).current() == old(calibrator).current(),
        final(config).circuit_breaker_window == old(config).circuit_breaker_window,
        final(config).circuit_breaker_min_wr == old(config).circuit_breaker_min_wr,
        final(config).circuit_breaker_cooldown_s == old(config).circuit_breaker_cooldown_s,
{
    let went_up = resolve_up(bet.start_price, end_price);
    let won = bet_won(bet.side, went_up);
    let pnl = compute_pnl(won, bet.size_usdc, bet.entry_price, bet.fee_pct) as i64;
    session.record_trade(pnl);
    if !bet.is_extreme {
        let predicted = match bet.side {
            Side::Buy => bet.implied_p_up,
            Side::Sell => BPS - bet.implied_p_up,
        };
        calibrator.record(predicted, won);
    }
    let mut calibration: Option<Calibration> = None;
    if calibrator.should_recalibrate() {
        calibration = calibrator.recalibrate();
        if let Some(c) = calibration {
            config.vol_confidence_multiplier = c.multiplier;
            calibrator.set_current_vcm(c.multiplier);
        }
    }
    session.check_circuit_breaker(
        config.circuit_breaker_window,
        config.circuit_breaker_min_wr,
        config.circuit_breaker_cooldown_s,
        now,
    );
    Resolution { won, pnl, calibration }
}

} // verus!

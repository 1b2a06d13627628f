use vstd::prelude::*;

verus! {

/// Number of basis points in a whole.
pub const BPS: u64 = 10_000;

/// An exact ratio `wins / total`.
#[derive(Clone, Copy, Debug, PartialEq, Eq, Structural)]
pub struct WinRate {
    pub wins: usize,
    pub total: usize,
}

/// Number of wins (`true`) in a sequence of outcomes.
pub open spec fn count_wins(s: Seq<bool>) -> nat
    decreases s.len(),
{
    if s.len() == 0 {
        0
    } else {
        count_wins(s.drop_last()) + if s.last() { 1nat } else { 0nat }
    }
}

/// The last `n` outcomes of `s`.
pub open spec fn last_n(s: Seq<bool>, n: nat) -> Seq<bool>
    recommends
        n <= s.len(),
{
    s.subrange(s.len() - n, s.len() as int)
}

/// A win rate below a threshold given in basis points, compared exactly.
pub open spec fn below_bps(wins: nat, total: nat, min_bps: nat) -> bool {
    wins * (BPS as nat) < min_bps * total
}

/// Whether the win rate over the last `window` of `outcomes` is below
/// `min_wr_bps` (never with a zero window or threshold, or too few outcomes).
pub open spec fn trips_on(outcomes: Seq<bool>, window: nat, min_wr_bps: nat) -> bool {
    &&& window > 0
    &&& min_wr_bps > 0
    &&& window <= outcomes.len()
    &&& below_bps(count_wins(last_n(outcomes, window)), window, min_wr_bps)
}

proof fn lemma_count_wins_le(s: Seq<bool>)
    ensures
        count_wins(s) <= s.len(),
    decreases s.len(),
{
    if s.len() > 0 {
        lemma_count_wins_le(s.drop_last());
    }
}

/// Running risk ledger of a trading session. Money is in micro-USDC.
#[derive(Debug)]
pub struct Session {
    pub pnl_usdc: i64,
    pub trades: u32,
    pub wins: u32,
    pub initial_bankroll: i64,
    /// Outcomes of all trades of the session, oldest first (`true` = win).
    pub recent_outcomes: Vec<bool>,
    /// Time (unix seconds) until which trading is suspended; 0 = not active.
    pub circuit_breaker_until: u64,
    pub consecutive_losses: u32,
    pub consecutive_wins: u32,
    /// Lowest PnL reached during the session.
    pub min_pnl: i64,
}

impl Session {
    /// The recorded outcomes, oldest first.
    pub open spec fn outcomes(&self) -> Seq<bool> {
        self.recent_outcomes@
    }

    /// The ledger's invariant: counters agree with the outcomes, and the
    /// lowest PnL is at most zero and at most the current PnL.
    pub open spec fn wf(&self) -> bool {
        &&& self.outcomes().len() == self.trades as nat
        &&& count_wins(self.outcomes()) == self.wins as nat
        &&& self.min_pnl <= 0
        &&& self.min_pnl <= self.pnl_usdc
        &&& self.consecutive_wins <= self.trades
        &&& self.consecutive_losses <= self.trades
        &&& i64::MIN <= self.initial_bankroll + self.pnl_usdc <= i64::MAX
    }

    /// Whether the rolling win rate over the last `window` trades is below
    /// `min_wr_bps`, so that the circuit breaker trips.
    pub open spec fn trips(&self, window: nat, min_wr_bps: nat) -> bool {
        trips_on(self.outcomes(), window, min_wr_bps)
    }

    /// Whether trading is suspended at time `now`.
    pub open spec fn broken_at(&self, now: int) -> bool {
        self.circuit_breaker_until > now
    }

    /// A fresh session with the given initial bankroll.
    pub fn new(initial_bankroll: i64) -> (r: Session)
        ensures
            r.wf(),
            r.pnl_usdc == 0,
            r.trades == 0,
            r.wins == 0,
            r.initial_bankroll == initial_bankroll,
            r.outcomes() == Seq::<bool>::empty(),
            r.circuit_breaker_until == 0,
            r.consecutive_losses == 0,
            r.consecutive_wins == 0,
            r.min_pnl == 0,
    {
        Session {
            pnl_usdc: 0,
            trades: 0,
            wins: 0,
            initial_bankroll,
            recent_outcomes: Vec::new(),
            circuit_breaker_until: 0,
            consecutive_losses: 0,
            consecutive_wins: 0,
            min_pnl: 0,
        }
    }

    /// Current bankroll: initial bankroll plus session PnL.
    pub fn bankroll(&self) -> (r: i64)
        requires
            self.wf(),
        ensures
            r == self.initial_bankroll + self.pnl_usdc,
    {
        self.initial_bankroll + self.pnl_usdc
    }

    /// Records a resolved trade. A PnL of zero or less counts as a loss.
    pub fn record_trade(&mut self, pnl: i64)
        requires
            old(self).wf(),
            old(self).trades < u32::MAX,
            i64::MIN <= old(self).pnl_usdc + pnl <= i64::MAX,
            i64::MIN <= old(self).initial_bankroll + old(self).pnl_usdc + pnl <= i64::MAX,
        ensures
            final(self).wf(),
            final(self).pnl_usdc == old(self).pnl_usdc + pnl,
            final(self).trades == old(self).trades + 1,
            final(self).outcomes() == old(self).outcomes().push(pnl > 0),
            final(self).wins == old(self).wins + if pnl > 0 { 1int } else { 0int },
            final(self).consecutive_wins == if pnl > 0 {
                old(self).consecutive_wins + 1
            } else {
                0
            },
            final(self).consecutive_losses == if pnl > 0 {
                0
            } else {
                old(self).consecutive_losses + 1
            },
            final(self).min_pnl == if old(self).pnl_usdc + pnl < old(self).min_pnl {
                old(self).pnl_usdc + pnl
            } else {
                old(self).min_pnl as int
            },
            final(self).initial_bankroll == old(self).initial_bankroll,
            final(self).circuit_breaker_until == old(self).circuit_breaker_until,
    {
        proof {
            lemma_count_wins_le(self.recent_outcomes@);
        }
        self.pnl_usdc = self.pnl_usdc + pnl;
        self.trades = self.trades + 1;
        let won = pnl > 0;
        if won {
            self.wins = self.wins + 1;
            self.consecutive_losses = 0;
            self.consecutive_wins = self.consecutive_wins + 1;
        } else {
            self.consecutive_wins = 0;
            self.consecutive_losses = self.consecutive_losses + 1;
        }
        if self.pnl_usdc < self.min_pnl {
            self.min_pnl = self.pnl_usdc;
        }
        let ghost before = self.recent_outcomes@;
        self.recent_outcomes.push(won);
        proof {
            assert(self.recent_outcomes@.drop_last() =~= before);
        }
    }

    /// Overall win rate: wins over trades (`0 / 0` before any trade).
    pub fn win_rate(&self) -> (r: WinRate)
        ensures
            r.wins == self.wins,
            r.total == self.trades,
    {
        WinRate { wins: self.wins as usize, total: self.trades as usize }
    }

    /// Win rate over the last `window` trades; `None` when `window` is zero or
    /// fewer trades than `window` were recorded.
    pub fn rolling_wr(&self, window: usize) -> (r: Option<WinRate>)
        ensures
            r == (if window == 0 || self.outcomes().len() < window {
                None
            } else {
                Some(
                    WinRate {
                        wins: count_wins(last_n(self.outcomes(), window as nat)) as usize,
                        total: window,
                    },
                )
            }),
    {
        let len = self.recent_outcomes.len();
        if window == 0 || len < window {
            return None;
        }
        let start = len - window;
        let mut i = start;
        let mut wins: usize = 0;
        while i < len
            invariant
                start <= i <= len,
                len == self.recent_outcomes@.len(),
                wins == count_wins(self.recent_outcomes@.subrange(start as int, i as int)),
                wins <= i - start,
            decreases len - i,
        {
            let ghost s = self.recent_outcomes@;
            proof {
                assert(s.subrange(start as int, i + 1).drop_last() =~= s.subrange(
                    start as int,
                    i as int,
                ));
            }
            if self.recent_outcomes[i] {
                wins = wins + 1;
            }
            i = i + 1;
        }
        Some(WinRate { wins, total: window })
    }

    /// Trips the circuit breaker (suspends trading until `now + cooldown_secs`)
    /// when the rolling win rate over `window` trades is below `min_wr_bps`.
    /// A zero `window` or threshold disables it.
    pub fn check_circuit_breaker(
        &mut self,
        window: usize,
        min_wr_bps: u64,
        cooldown_secs: u64,
        now: u64,
    )
        requires
            now + cooldown_secs <= u64::MAX,
        ensures
            old(self).trips(window as nat, min_wr_bps as nat) ==> *final(self) == (Session {
                circuit_breaker_until: (now + cooldown_secs) as u64,
                ..*old(self)
            }),
            !old(self).trips(window as nat, min_wr_bps as nat) ==> *final(self) == *old(self),
    {
        if window == 0 || min_wr_bps == 0 {
            return;
        }
        if let Some(wr) = self.rolling_wr(window) {
            proof {
                lemma_count_wins_le(last_n(self.outcomes(), window as nat));
                let (a, b, c, d) = (wr.wins as int, BPS as int, min_wr_bps as int, wr.total as int);
                assert(0 <= a <= u64::MAX && 0 <= b <= u64::MAX ==> a * b <= u64::MAX * u64::MAX)
                    by (nonlinear_arith);
                assert(0 <= c <= u64::MAX && 0 <= d <= u64::MAX ==> c * d <= u64::MAX * u64::MAX)
                    by (nonlinear_arith);
            }
            if (wr.wins as u128) * (BPS as u128) < (min_wr_bps as u128) * (wr.total as u128) {
                self.circuit_breaker_until = now + cooldown_secs;
            }
        }
    }

    /// Whether trading is suspended at time `now`.
    pub fn is_circuit_broken(&self, now: u64) -> (r: bool)
        ensures
            r == self.broken_at(now as int),
    {
        self.circuit_breaker_until > now
    }

    /// Session drawdown in basis points of the initial bankroll (rounded
    /// down): how far the PnL has gone below zero. Zero when the initial
    /// bankroll is not positive.
    pub fn session_drawdown_pct(&self) -> (r: u128)
        ensures
            r == (if self.initial_bankroll <= 0 || self.min_pnl >= 0 {
                0int
            } else {
                (-self.min_pnl) * (BPS as int) / (self.initial_bankroll as int)
            }),
    {
        if self.initial_bankroll <= 0 || self.min_pnl >= 0 {
            return 0;
        }
        let loss: u128 = (-(self.min_pnl as i128)) as u128;
        loss * (BPS as u128) / (self.initial_bankroll as u128)
    }
}

impl Default for Session {
    fn default() -> (r: Session)
        ensures
            r.wf(),
            r.pnl_usdc == 0,
            r.trades == 0,
            r.wins == 0,
            r.initial_bankroll == 0,
            r.outcomes() == Seq::<bool>::empty(),
            r.circuit_breaker_until == 0,
            r.consecutive_losses == 0,
            r.consecutive_wins == 0,
            r.min_pnl == 0,
    {
        Session::new(0)
    }
}

/// Once the breaker trips at `trigger` with `cooldown`, trading is suspended at
/// every time from `trigger` up to, but not including, `trigger + cooldown`,
/// and allowed again from `trigger + cooldown` on.
pub proof fn lemma_cooldown_interval(s: Session, trigger: u64, cooldown: u64, t: int)
    requires
        s.circuit_breaker_until == trigger + cooldown,
    ensures
        trigger <= t < trigger + cooldown ==> s.broken_at(t),
        t >= trigger + cooldown ==> !s.broken_at(t),
{
}

/// With a window of 15 trades and a minimum win rate of 25%, three wins among
/// the last fifteen trades (20%) trip the breaker.
pub proof fn lemma_three_of_fifteen_trips(s: Session)
    requires
        s.outcomes().len() >= 15,
        count_wins(last_n(s.outcomes(), 15)) == 3,
    ensures
        s.trips(15, 2500),
{
}

} // verus!

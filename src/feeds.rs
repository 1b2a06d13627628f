use vstd::prelude::*;

verus! {

/// Largest age, in milliseconds, at which a price observation is still fresh.
pub const STALE_MS: u64 = 5_000;

/// First and largest reconnect delays of a feed, in seconds.
pub const BACKOFF_START_S: u64 = 2;
pub const BACKOFF_MAX_S: u64 = 30;

/// The last price received from one feed, with its arrival time (unix ms).
#[derive(Clone, Copy, Debug, PartialEq, Eq, Structural)]
pub struct Slot {
    pub price: u64,
    pub updated_ms: u64,
}

/// Combination of the fresh feed prices at one instant.
#[derive(Clone, Copy, Debug, PartialEq, Eq, Structural)]
pub struct AggregatedPrice {
    pub median_price: u64,
    pub num_sources: u8,
    pub last_update_ms: u64,
}

/// The push-based market-data feeds.
#[derive(Clone, Copy, Debug, PartialEq, Eq, Structural)]
pub enum Exchange {
    Binance,
    Coinbase,
    Kraken,
}

impl Exchange {
    /// Display name of the feed.
    pub fn label(self) -> (r: &'static str)
        ensures
            r@ == (match self {
                Exchange::Binance => "Binance"@,
                Exchange::Coinbase => "Coinbase"@,
                Exchange::Kraken => "Kraken"@,
            }),
    {
        match self {
            Exchange::Binance => "Binance",
            Exchange::Coinbase => "Coinbase",
            Exchange::Kraken => "Kraken",
        }
    }
}

/// Whether an observation that arrived at `updated_ms` is fresh at `now_ms`:
/// at most `STALE_MS` old (one from the future counts as age zero).
pub open spec fn is_fresh(updated_ms: u64, now_ms: u64) -> bool {
    (if now_ms >= updated_ms {
        now_ms - updated_ms
    } else {
        0int
    }) <= STALE_MS
}

/// The fresh slots among `slots`, in order.
pub open spec fn fresh_slots(slots: Seq<Option<Slot>>, now_ms: u64) -> Seq<Slot>
    decreases slots.len(),
{
    if slots.len() == 0 {
        Seq::empty()
    } else {
        let rest = fresh_slots(slots.drop_last(), now_ms);
        match slots.last() {
            Some(s) => if is_fresh(s.updated_ms, now_ms) {
                rest.push(s)
            } else {
                rest
            },
            None => rest,
        }
    }
}

/// Latest arrival time among `s`, 0 when empty.
pub open spec fn latest_update(s: Seq<Slot>) -> u64
    decreases s.len(),
{
    if s.len() == 0 {
        0
    } else {
        let rest = latest_update(s.drop_last());
        if s.last().updated_ms > rest {
            s.last().updated_ms
        } else {
            rest
        }
    }
}

pub open spec fn min_u64(a: u64, b: u64) -> u64 {
    if a <= b {
        a
    } else {
        b
    }
}

pub open spec fn max_u64(a: u64, b: u64) -> u64 {
    if a >= b {
        a
    } else {
        b
    }
}

/// The middle one of three values.
pub open spec fn middle_of(a: u64, b: u64, c: u64) -> u64 {
    max_u64(min_u64(a, b), min_u64(max_u64(a, b), c))
}

/// Combination of fresh prices: none gives 0, one gives itself, two their mean
/// (rounded down), three their middle value.
pub open spec fn combine(p: Seq<u64>) -> u64 {
    if p.len() == 0 {
        0
    } else if p.len() == 1 {
        p[0]
    } else if p.len() == 2 {
        ((p[0] + p[1]) / 2) as u64
    } else {
        middle_of(p[0], p[1], p[2])
    }
}

/// The aggregate of `slots` at `now_ms`.
pub open spec fn aggregate_of(slots: Seq<Option<Slot>>, now_ms: u64) -> AggregatedPrice {
    let f = fresh_slots(slots, now_ms);
    AggregatedPrice {
        median_price: combine(f.map_values(|s: Slot| s.price)),
        num_sources: f.len() as u8,
        last_update_ms: latest_update(f),
    }
}

proof fn lemma_fresh_len(slots: Seq<Option<Slot>>, now_ms: u64)
    ensures
        fresh_slots(slots, now_ms).len() <= slots.len(),
    decreases slots.len(),
{
    if slots.len() > 0 {
        lemma_fresh_len(slots.drop_last(), now_ms);
    }
}

/// Whether the observation is fresh at `now_ms`.
pub fn fresh(updated_ms: u64, now_ms: u64) -> (r: bool)
    ensures
        r == is_fresh(updated_ms, now_ms),
{
    now_ms.saturating_sub(updated_ms) <= STALE_MS
}

/// Aggregates the last values of the three market-data feeds: stale or absent
/// ones are left out, the rest combined as `combine` says.
pub fn aggregate(slots: &[Option<Slot>; 3], now_ms: u64) -> (r: AggregatedPrice)
    ensures
        r == aggregate_of(slots@, now_ms),
{
    let mut prices: Vec<u64> = Vec::new();
    let mut last: u64 = 0;
    let mut i: usize = 0;
    while i < 3
        invariant
            0 <= i <= 3,
            slots@.len() == 3,
            prices@ == fresh_slots(slots@.subrange(0, i as int), now_ms).map_values(
                |s: Slot| s.price,
            ),
            last == latest_update(fresh_slots(slots@.subrange(0, i as int), now_ms)),
        decreases 3 - i,
    {
        let ghost pre = slots@.subrange(0, i as int);
        proof {
            assert(slots@.subrange(0, i + 1).drop_last() =~= pre);
        }
        if let Some(s) = slots[i] {
            if fresh(s.updated_ms, now_ms) {
                let ghost f = fresh_slots(pre, now_ms);
                prices.push(s.price);
                if s.updated_ms > last {
                    last = s.updated_ms;
                }
                proof {
                    assert(f.push(s).drop_last() =~= f);
                    assert(prices@ =~= f.push(s).map_values(|s: Slot| s.price));
                }
            }
        }
        i = i + 1;
    }
    proof {
        assert(slots@.subrange(0, 3) =~= slots@);
        lemma_fresh_len(slots@, now_ms);
    }
    let n = prices.len();
    let median: u64 = if n == 0 {
        0
    } else if n == 1 {
        prices[0]
    } else if n == 2 {
        ((prices[0] as u128 + prices[1] as u128) / 2) as u64
    } else {
        let (a, b, c) = (prices[0], prices[1], prices[2]);
        let lo = if a <= b {
            a
        } else {
            b
        };
        let hi = if a >= b {
            a
        } else {
            b
        };
        let m = if hi <= c {
            hi
        } else {
            c
        };
        if lo >= m {
            lo
        } else {
            m
        }
    };
    AggregatedPrice { median_price: median, num_sources: n as u8, last_update_ms: last }
}

/// For fresh samples in ascending order the aggregate is the sample itself,
/// the mean of two, or the middle one of three.
pub proof fn lemma_combine_sorted(a: u64, b: u64, c: u64)
    requires
        a <= b <= c,
    ensures
        combine(seq![a]) == a,
        combine(seq![a, b]) == (a + b) / 2,
        combine(seq![a, b, c]) == b,
{
}

/// The middle of three values does not depend on the order they come in.
pub proof fn lemma_middle_symmetric(a: u64, b: u64, c: u64)
    ensures
        middle_of(a, b, c) == middle_of(b, a, c),
        middle_of(a, b, c) == middle_of(a, c, b),
        middle_of(a, b, c) == middle_of(c, b, a),
{
}

proof fn lemma_stale_fresh_slots(slots: Seq<Option<Slot>>, i: int, st: Slot, now_ms: u64)
    requires
        0 <= i < slots.len(),
        !is_fresh(st.updated_ms, now_ms),
    ensures
        fresh_slots(slots.update(i, Some(st)), now_ms) == fresh_slots(slots.update(i, None), now_ms),
    decreases slots.len(),
{
    let (a, b) = (slots.update(i, Some(st)), slots.update(i, None));
    if i == slots.len() - 1 {
        assert(a.drop_last() =~= b.drop_last());
    } else {
        lemma_stale_fresh_slots(slots.drop_last(), i, st, now_ms);
        assert(a.drop_last() =~= slots.drop_last().update(i, Some(st)));
        assert(b.drop_last() =~= slots.drop_last().update(i, None));
        assert(a.last() == b.last());
    }
}

/// A stale observation never contributes, wherever it stands: the aggregate
/// is the same as with that feed absent.
pub proof fn lemma_stale_excluded(slots: Seq<Option<Slot>>, i: int, st: Slot, now_ms: u64)
    requires
        0 <= i < slots.len(),
        !is_fresh(st.updated_ms, now_ms),
    ensures
        aggregate_of(slots.update(i, Some(st)), now_ms) == aggregate_of(slots.update(i, None), now_ms),
{
    lemma_stale_fresh_slots(slots, i, st, now_ms);
}

/// With no fresh slot the aggregate is empty: no sources, price 0.
pub proof fn lemma_no_fresh_is_empty(slots: Seq<Option<Slot>>, now_ms: u64)
    requires
        forall|i: int| 0 <= i < slots.len() ==> (match #[trigger] slots[i] {
            Some(s) => !is_fresh(s.updated_ms, now_ms),
            None => true,
        }),
    ensures
        aggregate_of(slots, now_ms).num_sources == 0,
        aggregate_of(slots, now_ms).median_price == 0,
{
    lemma_empty_fresh(slots, now_ms);
}

proof fn lemma_empty_fresh(slots: Seq<Option<Slot>>, now_ms: u64)
    requires
        forall|i: int| 0 <= i < slots.len() ==> (match #[trigger] slots[i] {
            Some(s) => !is_fresh(s.updated_ms, now_ms),
            None => true,
        }),
    ensures
        fresh_slots(slots, now_ms).len() == 0,
    decreases slots.len(),
{
    if slots.len() > 0 {
        let d = slots.drop_last();
        assert forall|i: int| 0 <= i < d.len() implies (match #[trigger] d[i] {
            Some(s) => !is_fresh(s.updated_ms, now_ms),
            None => true,
        }) by {
            assert(d[i] == slots[i]);
        }
        lemma_empty_fresh(d, now_ms);
        assert(slots.last() == slots[slots.len() - 1]);
    }
}

/// The settlement feed's price when it is fresh at `now_ms`.
pub fn fresh_price(slot: Option<Slot>, now_ms: u64) -> (r: Option<u64>)
    ensures
        r == (match slot {
            Some(s) => if is_fresh(s.updated_ms, now_ms) {
                Some(s.price)
            } else {
                None
            },
            None => None,
        }),
{
    match slot {
        Some(s) => if fresh(s.updated_ms, now_ms) {
            Some(s.price)
        } else {
            None
        },
        None => None,
    }
}

/// Reconnect delay after a feed's session ended: back to the first delay
/// after a clean close, doubled (up to the largest) after an error.
pub fn next_backoff(current_s: u64, clean_close: bool) -> (r: u64)
    ensures
        r == (if clean_close {
            BACKOFF_START_S as int
        } else if 2 * current_s < BACKOFF_MAX_S {
            2 * current_s
        } else {
            BACKOFF_MAX_S as int
        }),
{
    if clean_close {
        BACKOFF_START_S
    } else if current_s < BACKOFF_MAX_S / 2 {
        2 * current_s
    } else {
        BACKOFF_MAX_S
    }
}

/// Oldest oracle report still usable, in seconds: the heartbeat plus a margin.
pub const ORACLE_MAX_AGE_S: u64 = 3_700;

/// Where a tick's price came from.
#[derive(Clone, Copy, Debug, PartialEq, Eq, Structural)]
pub enum PriceSource {
    Settlement,
    Exchanges,
    Oracle,
}

/// An oracle report: its price and update time (unix seconds).
#[derive(Clone, Copy, Debug, PartialEq, Eq, Structural)]
pub struct OracleReport {
    pub price: u64,
    pub updated_at: u64,
}

/// Whether an oracle report updated at `updated_at` is still usable at `now`.
pub open spec fn oracle_fresh(updated_at: u64, now: u64) -> bool {
    now <= updated_at + ORACLE_MAX_AGE_S
}

/// The price of a tick, from the most authoritative source available: the
/// settlement feed, else the exchanges' aggregate when any is fresh, else a
/// usable oracle report; `None` when there is none, and the tick is skipped.
pub fn pick_price(
    settlement: Option<u64>,
    exchanges: AggregatedPrice,
    oracle: Option<OracleReport>,
    now: u64,
) -> (r: Option<(u64, PriceSource)>)
    ensures
        r == (match settlement {
            Some(p) => Some((p, PriceSource::Settlement)),
            None => if exchanges.num_sources > 0 {
                Some((exchanges.median_price, PriceSource::Exchanges))
            } else {
                match oracle {
                    Some(o) => if oracle_fresh(o.updated_at, now) {
                        Some((o.price, PriceSource::Oracle))
                    } else {
                        None
                    },
                    None => None,
                }
            },
        }),
{
    if let Some(p) = settlement {
        return Some((p, PriceSource::Settlement));
    }
    if exchanges.num_sources > 0 {
        return Some((exchanges.median_price, PriceSource::Exchanges));
    }
    match oracle {
        Some(o) => if now <= ORACLE_MAX_AGE_S || now - ORACLE_MAX_AGE_S <= o.updated_at {
            Some((o.price, PriceSource::Oracle))
        } else {
            None
        },
        None => None,
    }
}

/// Relies on std's `SystemTime::now` for the current time, in unix
/// milliseconds (0 if the clock is before the epoch). Nothing is promised of it.
#[verifier::external_body]
pub fn now_ms() -> (r: u64) {
    std::time::SystemTime::now()
        .duration_since(std::time::UNIX_EPOCH)
        .map(|d| d.as_millis() as u64)
        .unwrap_or(0)
}

} // verus!

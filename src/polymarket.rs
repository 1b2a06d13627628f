use vstd::prelude::*;
use crate::sizing::U;

verus! {

/// Which outcome a position buys: `Buy` takes the "up" leg, `Sell` the "down" leg.
#[derive(Clone, Copy, Debug, PartialEq, Eq, Structural)]
pub enum Side {
    Buy,
    Sell,
}

/// A market of the venue for one window: the two outcome tokens and its question.
#[derive(Clone, Debug)]
pub struct Market {
    pub condition_id: String,
    pub token_id_yes: String,
    pub token_id_no: String,
    pub question: String,
}

/// The venue's answer to an order: its id and status.
#[derive(Debug)]
pub struct OrderResult {
    pub order_id: String,
    pub status: String,
}

/// Amounts of an order in the venue's raw units (millionths): what the maker
/// gives and what it takes.
#[derive(Clone, Copy, Debug, PartialEq, Eq, Structural)]
pub struct OrderAmounts {
    pub maker_amount: u128,
    pub taker_amount: u128,
}

/// Shares bought with `size` micro-USDC at `price` (basis points), in
/// millionths of a share, rounded to nearest (halves up).
pub open spec fn shares_for(size: int, price: int) -> int {
    (2 * size * U + price) / (2 * price)
}

/// The amounts of an order of `size` micro-USDC at `price`: a buy gives the
/// USDC and takes the shares, a sell the other way round.
pub fn order_amounts(side: Side, size: u64, price: u64) -> (r: OrderAmounts)
    requires
        0 < price <= U,
    ensures
        r == (match side {
            Side::Buy => OrderAmounts {
                maker_amount: size as u128,
                taker_amount: shares_for(size as int, price as int) as u128,
            },
            Side::Sell => OrderAmounts {
                maker_amount: shares_for(size as int, price as int) as u128,
                taker_amount: size as u128,
            },
        }),
{
    proof {
        let (z, p) = (size as int, price as int);
        assert(2 * z * U + p <= 2 * u64::MAX * U + U) by (nonlinear_arith)
            requires
                0 <= z <= u64::MAX,
                0 < p <= U,
        ;
        assert((2 * z * U + p) / (2 * p) <= 2 * z * U + p) by (nonlinear_arith)
            requires
                0 <= z,
                0 < p,
        ;
    }
    let shares: u128 = (2 * (size as u128) * (U as u128) + price as u128) / (2 * price as u128);
    match side {
        Side::Buy => OrderAmounts { maker_amount: size as u128, taker_amount: shares },
        Side::Sell => OrderAmounts { maker_amount: shares, taker_amount: size as u128 },
    }
}

/// One level of an order book: price in basis points, size in millionths
/// of a share.
#[derive(Clone, Copy, Debug, PartialEq, Eq, Structural)]
pub struct BookLevel {
    pub price: u64,
    pub size: u64,
}

/// Summary of an order book. Prices, spread and imbalance in basis points,
/// depths in price times size (basis points times millionths of a share).
#[derive(Clone, Copy, Debug, PartialEq, Eq, Structural)]
pub struct BookData {
    pub best_bid: u64,
    pub best_ask: u64,
    pub spread: i128,
    pub bid_depth_usdc: u128,
    pub ask_depth_usdc: u128,
    /// Share of the depth on the bid side; one half for an empty book.
    pub imbalance: u64,
    pub num_bid_levels: usize,
    pub num_ask_levels: usize,
}

/// Total value `price * size` of the levels.
pub open spec fn depth(levels: Seq<BookLevel>) -> int
    decreases levels.len(),
{
    if levels.len() == 0 {
        0
    } else {
        depth(levels.drop_last()) + levels.last().price * levels.last().size
    }
}

/// The summary of a book whose best levels come first. A side without levels
/// has a best price of 0 (bids) or one (asks).
pub open spec fn book_of(bids: Seq<BookLevel>, asks: Seq<BookLevel>) -> BookData {
    let best_bid = if bids.len() > 0 {
        bids[0].price
    } else {
        0
    };
    let best_ask = if asks.len() > 0 {
        asks[0].price
    } else {
        U
    };
    let (b, a) = (depth(bids), depth(asks));
    BookData {
        best_bid,
        best_ask,
        spread: (best_ask - best_bid) as i128,
        bid_depth_usdc: b as u128,
        ask_depth_usdc: a as u128,
        imbalance: if b + a > 0 {
            (b * U / (b + a)) as u64
        } else {
            U / 2
        },
        num_bid_levels: bids.len() as usize,
        num_ask_levels: asks.len() as usize,
    }
}

/// Every level's price is at most one.
pub open spec fn prices_valid(levels: Seq<BookLevel>) -> bool {
    forall|i: int| 0 <= i < levels.len() ==> #[trigger] levels[i].price <= U
}

proof fn lemma_depth_bound(levels: Seq<BookLevel>)
    requires
        prices_valid(levels),
    ensures
        0 <= depth(levels) <= levels.len() * (U * u64::MAX),
    decreases levels.len(),
{
    if levels.len() > 0 {
        let d = levels.drop_last();
        assert forall|i: int| 0 <= i < d.len() implies #[trigger] d[i].price <= U by {
            assert(d[i] == levels[i]);
        }
        lemma_depth_bound(d);
        let l = levels.last();
        assert(l.price <= U);
        assert(0 <= l.price * l.size <= U * u64::MAX) by (nonlinear_arith)
            requires
                0 <= l.price <= U,
                0 <= l.size <= u64::MAX,
        ;
        assert((levels.len() - 1) * (U * u64::MAX) + U * u64::MAX == levels.len() * (U
            * u64::MAX)) by (nonlinear_arith);
    }
}

fn side_depth(levels: &[BookLevel]) -> (r: u128)
    requires
        levels@.len() <= u32::MAX,
        prices_valid(levels@),
    ensures
        r == depth(levels@),
{
    let mut total: u128 = 0;
    let mut i: usize = 0;
    while i < levels.len()
        invariant
            0 <= i <= levels@.len() <= u32::MAX,
            prices_valid(levels@),
            total == depth(levels@.subrange(0, i as int)),
        decreases levels@.len() - i,
    {
        proof {
            let sub = levels@.subrange(0, i + 1);
            assert(sub.drop_last() =~= levels@.subrange(0, i as int));
            assert forall|j: int| 0 <= j < sub.len() implies #[trigger] sub[j].price <= U by {
                assert(sub[j] == levels@[j]);
                assert(levels@[j].price <= U);
            }
            lemma_depth_bound(sub);
            assert((i + 1) * (U * u64::MAX) <= u32::MAX * (U * u64::MAX)) by (nonlinear_arith)
                requires
                    i + 1 <= u32::MAX,
            ;
        }
        total = total + (levels[i].price as u128) * (levels[i].size as u128);
        i = i + 1;
    }
    proof {
        assert(levels@.subrange(0, levels@.len() as int) =~= levels@);
    }
    total
}

/// Summarizes a book (see `book_of`).
pub fn book_stats(bids: &[BookLevel], asks: &[BookLevel]) -> (r: BookData)
    requires
        bids@.len() <= u32::MAX,
        asks@.len() <= u32::MAX,
        prices_valid(bids@),
        prices_valid(asks@),
    ensures
        r == book_of(bids@, asks@),
{
    let best_bid: u64 = if bids.len() > 0 {
        bids[0].price
    } else {
        0
    };
    let best_ask: u64 = if asks.len() > 0 {
        asks[0].price
    } else {
        U
    };
    let b = side_depth(bids);
    let a = side_depth(asks);
    proof {
        lemma_depth_bound(bids@);
        lemma_depth_bound(asks@);
        assert(bids@.len() * (U * u64::MAX) <= u32::MAX * (U * u64::MAX)) by (nonlinear_arith)
            requires
                bids@.len() <= u32::MAX,
        ;
        assert(asks@.len() * (U * u64::MAX) <= u32::MAX * (U * u64::MAX)) by (nonlinear_arith)
            requires
                asks@.len() <= u32::MAX,
        ;
    }
    let imbalance: u64 = if b + a > 0 {
        proof {
            let (x, y) = (b as int, a as int);
            assert(x * U <= (x + y) * U) by (nonlinear_arith)
                requires
                    0 <= x,
                    0 <= y,
            ;
            assert(x * U / (x + y) <= U) by (nonlinear_arith)
                requires
                    0 <= x,
                    0 <= y,
                    x + y > 0,
            ;
        }
        (b * (U as u128) / (b + a)) as u64
    } else {
        U / 2
    };
    BookData {
        best_bid,
        best_ask,
        spread: best_ask as i128 - best_bid as i128,
        bid_depth_usdc: b,
        ask_depth_usdc: a,
        imbalance,
        num_bid_levels: bids.len(),
        num_ask_levels: asks.len(),
    }
}

/// What to do next with an order.
#[derive(Clone, Copy, Debug, PartialEq, Eq, Structural)]
pub enum OrderStep {
    /// Filled; the position pays this fee (basis points of the stake).
    Filled { fee_bps: u64 },
    /// A resting order not yet filled: wait, then ask for its status.
    WaitThenCheck,
    /// A resting order still not filled after the wait: cancel it.
    Cancel,
    /// A fill-or-kill order that did not fill: nothing to do.
    Dropped,
}

/// The step after the venue answered a placement with `status`. A
/// fill-or-kill order either filled or is dropped; a resting order that
/// filled at once pays the fee like a taker, otherwise it waits.
pub fn after_placement(resting: bool, status: &str, fee_bps: u64) -> (r: OrderStep)
    ensures
        r == (if status@ == "matched"@ {
            OrderStep::Filled { fee_bps }
        } else if resting {
            OrderStep::WaitThenCheck
        } else {
            OrderStep::Dropped
        }),
{
    if is_matched(status) {
        OrderStep::Filled { fee_bps }
    } else if resting {
        OrderStep::WaitThenCheck
    } else {
        OrderStep::Dropped
    }
}

/// The step after the wait for a resting order: filled as a maker (no
/// fee) when its status is "matched", else cancelled. A status that could
/// not be read counts as not filled.
pub fn after_wait(status: Option<&str>) -> (r: OrderStep)
    ensures
        r == (match status {
            Some(s) => if s@ == "matched"@ {
                OrderStep::Filled { fee_bps: 0 }
            } else {
                OrderStep::Cancel
            },
            None => OrderStep::Cancel,
        }),
{
    match status {
        Some(s) => if is_matched(s) {
            OrderStep::Filled { fee_bps: 0 }
        } else {
            OrderStep::Cancel
        },
        None => OrderStep::Cancel,
    }
}

/// Whether an order status reads "matched".
fn is_matched(status: &str) -> (r: bool)
    ensures
        r == (status@ == "matched"@),
{
    status.to_owned() == String::from_str("matched")
}

} // verus!

use vstd::prelude::*;
use vstd::relations::{sorted_by, total_ordering};
use crate::strategy::MOVE_SCALE;

verus! {

/// Bounds of the volatility estimate, in millionths of a percent (0.01% and 1%).
pub const VOL_FLOOR: u64 = 10_000;
pub const VOL_CEIL: u64 = 1_000_000;

/// Consistency constant of the MAD under normality, in ten-thousandths (1.4826).
pub const MAD_SCALE: u64 = 14_826;

/// Largest size of a recorded move.
pub open spec fn move_bound() -> int {
    u64::MAX * MOVE_SCALE
}

pub open spec fn leq() -> spec_fn(i128, i128) -> bool {
    |a: i128, b: i128| a <= b
}

/// `s` in ascending order.
pub open spec fn ascending(s: Seq<i128>) -> Seq<i128> {
    s.sort_by(leq())
}

/// The upper median: the element at position `len / 2` once sorted.
pub open spec fn median(s: Seq<i128>) -> i128 {
    ascending(s)[(s.len() / 2) as int]
}

/// Distance of each element of `s` to `m`.
pub open spec fn deviations(s: Seq<i128>, m: i128) -> Seq<i128> {
    s.map_values(|x: i128| (if x >= m { x - m } else { m - x }) as i128)
}

/// Median absolute deviation of `s`.
pub open spec fn mad(s: Seq<i128>) -> i128 {
    median(deviations(s, median(s)))
}

/// Signed move from `start` to `end`, in millionths of a percent (its size rounded down).
pub open spec fn signed_move(start: int, end: int) -> int {
    if end >= start {
        (end - start) * MOVE_SCALE / start
    } else {
        -((start - end) * MOVE_SCALE / start)
    }
}

/// The estimate from the MAD: `1.4826 * mad` (rounded down), clamped to
/// `[VOL_FLOOR, VOL_CEIL]`.
pub open spec fn vol_from_mad(m: int) -> int {
    let v = m * MAD_SCALE / 10_000;
    if v < VOL_FLOOR {
        VOL_FLOOR as int
    } else if v > VOL_CEIL {
        VOL_CEIL as int
    } else {
        v
    }
}

proof fn lemma_leq_total()
    ensures
        total_ordering(leq()),
{
}

proof fn lemma_sorted_elem(s: Seq<i128>, k: int)
    requires
        0 <= k < s.len(),
    ensures
        ascending(s).len() == s.len(),
        exists|j: int| 0 <= j < s.len() && s[j] == ascending(s)[k],
{
    lemma_leq_total();
    s.lemma_sort_by_ensures(leq());
    vstd::seq_lib::to_multiset_len(s);
    vstd::seq_lib::to_multiset_len(ascending(s));
    let x = ascending(s)[k];
    assert(ascending(s).contains(x));
    vstd::seq_lib::to_multiset_contains(ascending(s), x);
    vstd::seq_lib::to_multiset_contains(s, x);
    assert(s.contains(x));
}

/// A copy of `v` in ascending order.
fn sorted_copy(v: &Vec<i128>) -> (r: Vec<i128>)
    ensures
        r@ == ascending(v@),
{
    let mut out: Vec<i128> = Vec::new();
    let mut i: usize = 0;
    proof {
        assert(out@ =~= v@.subrange(0, 0));
    }
    while i < v.len()
        invariant
            0 <= i <= v@.len(),
            sorted_by(out@, leq()),
            out@.to_multiset() == v@.subrange(0, i as int).to_multiset(),
        decreases v@.len() - i,
    {
        let x = v[i];
        let mut j: usize = 0;
        while j < out.len() && out[j] <= x
            invariant
                0 <= j <= out@.len(),
                forall|k: int| 0 <= k < j ==> out@[k] <= x,
            decreases out@.len() - j,
        {
            j = j + 1;
        }
        let ghost before = out@;
        out.insert(j, x);
        proof {
            assert(forall|k: int| j <= k < before.len() ==> x < before[k]) by {
                assert forall|k: int| j <= k < before.len() implies x < before[k] by {
                    assert(leq()(before[j as int], before[k]) || k == j);
                }
            }
            assert forall|a: int, b: int| 0 <= a < b < out@.len() implies #[trigger] leq()(
                out@[a],
                out@[b],
            ) by {
                if b < j {
                    assert(leq()(before[a], before[b]));
                } else if b == j {
                } else if a < j {
                    assert(out@[b] == before[b - 1]);
                } else if a == j {
                    assert(out@[b] == before[b - 1]);
                } else {
                    assert(leq()(before[a - 1], before[b - 1]));
                }
            }
            vstd::seq_lib::to_multiset_insert(before, j as int, x);
            assert(v@.subrange(0, i + 1) =~= v@.subrange(0, i as int).push(x));
            vstd::seq_lib::to_multiset_build(v@.subrange(0, i as int), x);
        }
        i = i + 1;
    }
    proof {
        assert(v@.subrange(0, v@.len() as int) =~= v@);
        lemma_leq_total();
        v@.lemma_sort_by_ensures(leq());
        vstd::seq_lib::lemma_sorted_unique(out@, ascending(v@), leq());
    }
    out
}

/// Rolling estimate of per-window volatility from completed windows' moves.
#[derive(Debug)]
pub struct VolTracker {
    recent_moves: Vec<i128>,
    max_samples: usize,
    default_vol: u64,
}

impl VolTracker {
    pub closed spec fn moves(&self) -> Seq<i128> {
        self.recent_moves@
    }

    pub closed spec fn capacity(&self) -> usize {
        self.max_samples
    }

    pub closed spec fn fallback(&self) -> u64 {
        self.default_vol
    }

    /// Every recorded move is within `move_bound()`, and the buffer holds at
    /// most `capacity()` of them.
    pub open spec fn wf(&self) -> bool {
        &&& self.moves().len() <= self.capacity()
        &&& forall|i: int|
            0 <= i < self.moves().len() ==> -move_bound() <= #[trigger] self.moves()[i]
                <= move_bound()
    }

    /// An empty tracker keeping the last `max_samples` moves and answering
    /// `default_vol` until three are known.
    pub fn new(max_samples: usize, default_vol: u64) -> (r: VolTracker)
        ensures
            r.wf(),
            r.moves() == Seq::<i128>::empty(),
            r.capacity() == max_samples,
            r.fallback() == default_vol,
    {
        VolTracker { recent_moves: Vec::new(), max_samples, default_vol }
    }

    /// Number of moves held.
    pub fn sample_count(&self) -> (r: usize)
        ensures
            r == self.moves().len(),
    {
        self.recent_moves.len()
    }

    /// Records the move of a completed window; the oldest one leaves once
    /// the capacity is exceeded. A start price of zero records nothing.
    pub fn record_move(&mut self, start_price: u64, end_price: u64)
        requires
            old(self).wf(),
        ensures
            final(self).wf(),
            final(self).capacity() == old(self).capacity(),
            final(self).fallback() == old(self).fallback(),
            start_price == 0 ==> final(self).moves() == old(self).moves(),
            start_price > 0 ==> ({
                let p = old(self).moves().push(
                    signed_move(start_price as int, end_price as int) as i128,
                );
                final(self).moves() == if p.len() > old(self).capacity() {
                    p.drop_first()
                } else {
                    p
                }
            }),
    {
        if start_price == 0 {
            return;
        }
        let d: u64 = if end_price >= start_price {
            end_price - start_price
        } else {
            start_price - end_price
        };
        proof {
            assert((d as int) * MOVE_SCALE <= u64::MAX * MOVE_SCALE) by (nonlinear_arith)
                requires
                    d <= u64::MAX,
            ;
            assert((d as int) * MOVE_SCALE / (start_price as int) <= (d as int) * MOVE_SCALE)
                by (nonlinear_arith)
                requires
                    start_price >= 1,
                    d >= 0,
            ;
        }
        let size: i128 = ((d as u128) * (MOVE_SCALE as u128) / (start_price as u128)) as i128;
        let m: i128 = if end_price >= start_price {
            size
        } else {
            -size
        };
        let ghost before = self.recent_moves@;
        self.recent_moves.push(m);
        if self.recent_moves.len() > self.max_samples {
            self.recent_moves.remove(0);
            proof {
                assert(self.recent_moves@ =~= before.push(m).drop_first());
            }
        }
        proof {
            assert forall|i: int| 0 <= i < self.moves().len() implies -move_bound()
                <= #[trigger] self.moves()[i] <= move_bound() by {
                let p = before.push(m);
                if p.len() > self.max_samples {
                    assert(self.moves()[i] == p[i + 1]);
                    if i + 1 < before.len() {
                        assert(old(self).moves()[i + 1] == before[i + 1]);
                    }
                } else if i < before.len() {
                    assert(old(self).moves()[i] == before[i]);
                }
            }
        }
    }

    /// The volatility estimate: the fallback with fewer than three moves,
    /// else `vol_from_mad` of the moves' median absolute deviation.
    pub fn current_vol(&self) -> (r: u64)
        requires
            self.wf(),
        ensures
            r == if self.moves().len() < 3 {
                self.fallback() as int
            } else {
                vol_from_mad(mad(self.moves()) as int)
            },
    {
        let n = self.recent_moves.len();
        if n < 3 {
            return self.default_vol;
        }
        let sorted = sorted_copy(&self.recent_moves);
        proof {
            lemma_sorted_elem(self.recent_moves@, (n / 2) as int);
            let k = n / 2;
            let j = choose|j: int|
                0 <= j < self.recent_moves@.len() && self.recent_moves@[j] == sorted@[k as int];
            assert(self.moves()[j] == self.recent_moves@[j]);
        }
        let med = sorted[n / 2];
        let mut devs: Vec<i128> = Vec::new();
        let mut i: usize = 0;
        while i < n
            invariant
                0 <= i <= n,
                n == self.recent_moves@.len(),
                self.wf(),
                -move_bound() <= med <= move_bound(),
                devs@ =~= deviations(self.recent_moves@.subrange(0, i as int), med),
            decreases n - i,
        {
            let x = self.recent_moves[i];
            proof {
                assert(self.moves()[i as int] == x);
            }
            let dv: i128 = if x >= med {
                x - med
            } else {
                med - x
            };
            devs.push(dv);
            i = i + 1;
        }
        proof {
            assert(self.recent_moves@.subrange(0, n as int) =~= self.recent_moves@);
        }
        let sorted_devs = sorted_copy(&devs);
        proof {
            lemma_sorted_elem(devs@, (n / 2) as int);
            let k = n / 2;
            let j = choose|j: int| 0 <= j < devs@.len() && devs@[j] == sorted_devs@[k as int];
            assert(0 <= devs@[j] <= 2 * move_bound());
        }
        let m = sorted_devs[n / 2];
        proof {
            assert((m as int) * MAD_SCALE <= 2 * move_bound() * MAD_SCALE) by (nonlinear_arith)
                requires
                    0 <= m <= 2 * move_bound(),
            ;
        }
        let v: i128 = m * (MAD_SCALE as i128) / 10_000;
        if v < VOL_FLOOR as i128 {
            VOL_FLOOR
        } else if v > VOL_CEIL as i128 {
            VOL_CEIL
        } else {
            v as u64
        }
    }
}

} // verus!

use vstd::prelude::*;
use crate::session::BPS;

verus! {

/// An exact ratio `num / den`.
#[derive(Clone, Copy, Debug, PartialEq, Eq, Structural)]
pub struct Ratio {
    pub num: usize,
    pub den: usize,
}

/// Direction of the move from `a` to `b`: 1 up, -1 down, 0 flat.
pub open spec fn dir(a: u64, b: u64) -> int {
    if b > a {
        1
    } else if b < a {
        -1
    } else {
        0
    }
}

/// Direction of the last non-flat move in `s`, 0 if there is none.
pub open spec fn last_dir(s: Seq<u64>) -> int
    decreases s.len(),
{
    if s.len() < 2 {
        0
    } else {
        let d = dir(s[s.len() - 2], s.last());
        if d != 0 {
            d
        } else {
            last_dir(s.drop_last())
        }
    }
}

/// Number of times the direction of non-flat moves reverses in `s`.
pub open spec fn reversals(s: Seq<u64>) -> nat
    decreases s.len(),
{
    if s.len() < 2 {
        0
    } else {
        let d = dir(s[s.len() - 2], s.last());
        let prev = last_dir(s.drop_last());
        reversals(s.drop_last()) + if d != 0 && prev != 0 && d != prev {
            1nat
        } else {
            0nat
        }
    }
}

/// Number of consecutive moves in `s` going up (`up`) or down (`!up`).
pub open spec fn moves(s: Seq<u64>, up: bool) -> nat
    decreases s.len(),
{
    if s.len() < 2 {
        0
    } else {
        moves(s.drop_last(), up) + if dir(s[s.len() - 2], s.last()) == (if up {
            1int
        } else {
            -1int
        }) {
            1nat
        } else {
            0nat
        }
    }
}

/// Running peak of `s` (its first element when alone).
pub open spec fn peak(s: Seq<u64>) -> u64
    decreases s.len(),
{
    if s.len() <= 1 {
        if s.len() == 1 {
            s[0]
        } else {
            0
        }
    } else {
        let pk = peak(s.drop_last());
        if s.last() > pk {
            s.last()
        } else {
            pk
        }
    }
}

/// Fall of `p` below `pk`, in basis points of `pk` (rounded down).
pub open spec fn fall_bps(pk: u64, p: u64) -> int {
    if pk == 0 || p >= pk {
        0
    } else {
        (pk - p) * (BPS as int) / (pk as int)
    }
}

/// Largest fall from the running peak over `s`, in basis points.
pub open spec fn max_fall(s: Seq<u64>) -> int
    decreases s.len(),
{
    if s.len() <= 1 {
        0
    } else {
        let m = max_fall(s.drop_last());
        let f = fall_bps(peak(s), s.last());
        if f > m {
            f
        } else {
            m
        }
    }
}

/// Milliseconds spent at or above `start` among the first `n` ticks: each
/// tick from the second on at or above `start` adds the time since the tick
/// before it (nothing if the clock went back).
pub open spec fn above_ms(p: Seq<u64>, t: Seq<u64>, start: u64, n: int) -> int
    decreases n,
{
    if n <= 1 {
        0
    } else {
        above_ms(p, t, start, n - 1) + if p[n - 1] >= start && t[n - 1] >= t[n - 2] {
            t[n - 1] - t[n - 2]
        } else {
            0
        }
    }
}

/// Price ticks of the active window, with their times (unix ms).
#[derive(Debug)]
pub struct WindowTicks {
    prices: Vec<u64>,
    timestamps_ms: Vec<u64>,
}

impl WindowTicks {
    pub closed spec fn prices(&self) -> Seq<u64> {
        self.prices@
    }

    pub closed spec fn times(&self) -> Seq<u64> {
        self.timestamps_ms@
    }

    pub open spec fn wf(&self) -> bool {
        self.prices().len() == self.times().len()
    }

    /// An empty buffer.
    pub fn new() -> (r: WindowTicks)
        ensures
            r.wf(),
            r.prices() == Seq::<u64>::empty(),
    {
        WindowTicks { prices: Vec::new(), timestamps_ms: Vec::new() }
    }

    /// Appends a tick.
    pub fn tick(&mut self, price: u64, timestamp_ms: u64)
        requires
            old(self).wf(),
        ensures
            final(self).wf(),
            final(self).prices() == old(self).prices().push(price),
            final(self).times() == old(self).times().push(timestamp_ms),
    {
        self.prices.push(price);
        self.timestamps_ms.push(timestamp_ms);
    }

    /// Empties the buffer.
    pub fn clear(&mut self)
        ensures
            final(self).wf(),
            final(self).prices() == Seq::<u64>::empty(),
    {
        self.prices.clear();
        self.timestamps_ms.clear();
    }

    /// The prices received so far, oldest first.
    pub fn price_list(&self) -> (r: &[u64])
        ensures
            r@ == self.prices(),
    {
        self.prices.as_slice()
    }

    /// Number of ticks (truncated to 32 bits).
    pub fn ticks_count(&self) -> (r: u32)
        ensures
            r == self.prices().len() as u32,
    {
        self.prices.len() as u32
    }

    /// Number of reversals of direction between consecutive non-flat moves.
    pub fn sign_changes(&self) -> (r: usize)
        ensures
            r == reversals(self.prices()),
    {
        let n = self.prices.len();
        if n < 2 {
            return 0;
        }
        let mut changes: usize = 0;
        let mut prev: i8 = 0;
        let mut i: usize = 1;
        while i < n
            invariant
                1 <= i <= n,
                n == self.prices@.len(),
                changes == reversals(self.prices@.subrange(0, i as int)),
                prev == last_dir(self.prices@.subrange(0, i as int)),
                changes <= i,
            decreases n - i,
        {
            let ghost s = self.prices@;
            proof {
                let next = s.subrange(0, i + 1);
                assert(next.drop_last() =~= s.subrange(0, i as int));
                assert(next[next.len() - 2] == s[i - 1]);
            }
            let a = self.prices[i - 1];
            let b = self.prices[i];
            let d: i8 = if b > a {
                1
            } else if b < a {
                -1
            } else {
                0
            };
            if d != 0 {
                if prev != 0 && d != prev {
                    changes = changes + 1;
                }
                prev = d;
            }
            i = i + 1;
        }
        proof {
            assert(self.prices@.subrange(0, n as int) =~= self.prices@);
        }
        changes
    }

    /// Share of moves in the majority direction, as `max(up, down) / (up + down)`;
    /// `1 / 1` with fewer than three ticks or no move.
    pub fn momentum_ratio(&self) -> (r: Ratio)
        ensures
            ({
                let (up, down) = (moves(self.prices(), true), moves(self.prices(), false));
                if self.prices().len() < 3 || up + down == 0 {
                    r == Ratio { num: 1, den: 1 }
                } else {
                    &&& r.num as nat == if up >= down {
                        up
                    } else {
                        down
                    }
                    &&& r.den as nat == up + down
                }
            }),
    {
        let n = self.prices.len();
        if n < 3 {
            return Ratio { num: 1, den: 1 };
        }
        let mut up: usize = 0;
        let mut down: usize = 0;
        let mut i: usize = 1;
        while i < n
            invariant
                1 <= i <= n,
                n == self.prices@.len(),
                up == moves(self.prices@.subrange(0, i as int), true),
                down == moves(self.prices@.subrange(0, i as int), false),
                up + down < i,
            decreases n - i,
        {
            let ghost s = self.prices@;
            proof {
                let next = s.subrange(0, i + 1);
                assert(next.drop_last() =~= s.subrange(0, i as int));
                assert(next[next.len() - 2] == s[i - 1]);
            }
            let a = self.prices[i - 1];
            let b = self.prices[i];
            if b > a {
                up = up + 1;
            } else if b < a {
                down = down + 1;
            }
            i = i + 1;
        }
        proof {
            assert(self.prices@.subrange(0, n as int) =~= self.prices@);
        }
        if up + down == 0 {
            return Ratio { num: 1, den: 1 };
        }
        Ratio {
            num: if up >= down {
                up
            } else {
                down
            },
            den: up + down,
        }
    }

    /// Worst fall from the running peak during the window, in basis points.
    pub fn max_drawdown_bps(&self) -> (r: u64)
        ensures
            r == max_fall(self.prices()),
    {
        let n = self.prices.len();
        if n < 2 {
            return 0;
        }
        let mut pk: u64 = self.prices[0];
        let mut worst: u64 = 0;
        let mut i: usize = 1;
        proof {
            assert(self.prices@.subrange(0, 1) =~= seq![self.prices@[0]]);
        }
        while i < n
            invariant
                1 <= i <= n,
                n == self.prices@.len(),
                pk == peak(self.prices@.subrange(0, i as int)),
                worst == max_fall(self.prices@.subrange(0, i as int)),
                worst <= BPS,
            decreases n - i,
        {
            let ghost s = self.prices@;
            proof {
                let next = s.subrange(0, i + 1);
                assert(next.drop_last() =~= s.subrange(0, i as int));
            }
            let p = self.prices[i];
            if p > pk {
                pk = p;
            }
            let f: u64 = if pk == 0 || p >= pk {
                0
            } else {
                proof {
                    let (a, b) = ((pk - p) as int, pk as int);
                    assert(a * BPS <= b * BPS) by (nonlinear_arith)
                        requires
                            0 <= a <= b,
                    ;
                    assert(a * BPS / b <= BPS) by (nonlinear_arith)
                        requires
                            0 <= a <= b,
                            b > 0,
                    ;
                }
                (((pk - p) as u128) * (BPS as u128) / (pk as u128)) as u64
            };
            if f > worst {
                worst = f;
            }
            i = i + 1;
        }
        proof {
            assert(self.prices@.subrange(0, n as int) =~= self.prices@);
        }
        worst
    }

    /// Whole seconds spent at or above `start_price` (see `above_ms`).
    pub fn time_above_start_s(&self, start_price: u64) -> (r: u128)
        requires
            self.wf(),
        ensures
            r == above_ms(self.prices(), self.times(), start_price, self.prices().len() as int)
                / 1000,
    {
        let n = self.timestamps_ms.len();
        if n < 2 {
            return 0;
        }
        let mut total: u128 = 0;
        let mut i: usize = 1;
        while i < n
            invariant
                1 <= i <= n,
                n == self.timestamps_ms@.len(),
                n == self.prices@.len(),
                total == above_ms(self.prices@, self.timestamps_ms@, start_price, i as int),
                total <= i * u64::MAX,
            decreases n - i,
        {
            if self.prices[i] >= start_price && self.timestamps_ms[i] >= self.timestamps_ms[i - 1] {
                proof {
                    assert((i + 1) * u64::MAX <= usize::MAX * u64::MAX) by (nonlinear_arith)
                        requires
                            i + 1 <= usize::MAX,
                    ;
                    assert(i * u64::MAX + u64::MAX == (i + 1) * u64::MAX) by (nonlinear_arith);
                }
                total = total + (self.timestamps_ms[i] - self.timestamps_ms[i - 1]) as u128;
            } else {
                proof {
                    assert(i * u64::MAX <= (i + 1) * u64::MAX) by (nonlinear_arith);
                }
            }
            i = i + 1;
        }
        total / 1000
    }
}

} // verus!

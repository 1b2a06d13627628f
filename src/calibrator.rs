use vstd::prelude::*;
use crate::sizing::U;

verus! {

/// Half, in basis points.
pub const HALF: u64 = 5_000;

/// Bounds that a rescaled probability is clamped to, in basis points.
pub const P_MIN: u64 = 10;
pub const P_MAX: u64 = 9_990;

/// Candidate multipliers (hundredths): `MULT_STEP * k` for `k` in
/// `MULT_FIRST..=MULT_LAST`, i.e. 1.0, 1.5, ..., 8.0.
pub const MULT_STEP: u64 = 50;
pub const MULT_FIRST: u64 = 2;
pub const MULT_LAST: u64 = 16;

/// A sum of squared errors (basis points squared) over `count` predictions:
/// the Brier score is `sum / count`.
#[derive(Clone, Copy, Debug, PartialEq, Eq, Structural)]
pub struct Score {
    pub sum: u128,
    pub count: u64,
}

/// The outcome of a recalibration: the best multiplier (hundredths) and its score.
#[derive(Clone, Copy, Debug, PartialEq, Eq, Structural)]
pub struct Calibration {
    pub multiplier: u64,
    pub score: Score,
}

/// Squared error of a prediction `p` (basis points) against the outcome.
pub open spec fn sq_err(p: int, won: bool) -> int {
    let o = if won {
        U as int
    } else {
        0
    };
    (p - o) * (p - o)
}

/// `p` rescaled toward or away from one half by `current / candidate`
/// (the distance to one half rounded down), then clamped to `[P_MIN, P_MAX]`.
pub open spec fn rescaled(p: int, current: int, candidate: int) -> int {
    let a = if p >= HALF {
        HALF + (p - HALF) * current / candidate
    } else {
        HALF - (HALF - p) * current / candidate
    };
    if a < P_MIN {
        P_MIN as int
    } else if a > P_MAX {
        P_MAX as int
    } else {
        a
    }
}

/// Sum of squared errors of the entries as recorded.
pub open spec fn raw_sum(e: Seq<(u64, bool)>) -> int
    decreases e.len(),
{
    if e.len() == 0 {
        0
    } else {
        raw_sum(e.drop_last()) + sq_err(e.last().0 as int, e.last().1)
    }
}

/// Sum of squared errors of the entries rescaled by `current / candidate`.
pub open spec fn scaled_sum(e: Seq<(u64, bool)>, current: int, candidate: int) -> int
    decreases e.len(),
{
    if e.len() == 0 {
        0
    } else {
        scaled_sum(e.drop_last(), current, candidate) + sq_err(
            rescaled(e.last().0 as int, current, candidate),
            e.last().1,
        )
    }
}

/// Whether `m` is one of the candidate multipliers.
pub open spec fn is_candidate(m: int) -> bool {
    &&& m % (MULT_STEP as int) == 0
    &&& MULT_STEP * MULT_FIRST <= m <= MULT_STEP * MULT_LAST
}

proof fn lemma_sq_err_bound(p: int, won: bool)
    requires
        0 <= p <= U,
    ensures
        0 <= sq_err(p, won) <= U * U,
{
    let o = if won {
        U as int
    } else {
        0
    };
    assert(0 <= (p - o) * (p - o) <= U * U) by (nonlinear_arith)
        requires
            0 <= p <= U,
            o == 0 || o == U,
    ;
}

/// Records predictions with their outcomes and finds the confidence
/// multiplier under which the predictions score best.
#[derive(Debug)]
pub struct Calibrator {
    entries: Vec<(u64, bool)>,
    recalibrate_every: usize,
    current_vcm: u64,
}

impl Calibrator {
    pub closed spec fn entries(&self) -> Seq<(u64, bool)> {
        self.entries@
    }

    pub closed spec fn every(&self) -> usize {
        self.recalibrate_every
    }

    pub closed spec fn current(&self) -> u64 {
        self.current_vcm
    }

    /// Every recorded prediction is a probability.
    pub open spec fn wf(&self) -> bool {
        forall|i: int| 0 <= i < self.entries().len() ==> #[trigger] self.entries()[i].0 <= U
    }

    /// An empty calibrator that recalibrates every `recalibrate_every`
    /// predictions (never if zero), with a current multiplier of 1.0.
    pub fn new(recalibrate_every: usize) -> (r: Calibrator)
        ensures
            r.wf(),
            r.entries() == Seq::<(u64, bool)>::empty(),
            r.every() == recalibrate_every,
            r.current() == 100,
    {
        Calibrator { entries: Vec::new(), recalibrate_every, current_vcm: 100 }
    }

    /// Sets the multiplier (hundredths) the recorded predictions were made with.
    pub fn set_current_vcm(&mut self, vcm: u64)
        ensures
            final(self).current() == vcm,
            final(self).entries() == old(self).entries(),
            final(self).every() == old(self).every(),
    {
        self.current_vcm = vcm;
    }

    /// Records a prediction `predicted` (basis points) and whether it came true.
    pub fn record(&mut self, predicted: u64, won: bool)
        requires
            old(self).wf(),
            predicted <= U,
        ensures
            final(self).wf(),
            final(self).entries() == old(self).entries().push((predicted, won)),
            final(self).current() == old(self).current(),
            final(self).every() == old(self).every(),
    {
        let ghost before = self.entries@;
        self.entries.push((predicted, won));
        proof {
            assert forall|i: int| 0 <= i < self.entries().len() implies #[trigger] self.entries()[
                i
            ].0 <= U by {
                if i < before.len() {
                    assert(self.entries()[i] == before[i]);
                    assert(old(self).entries()[i].0 <= U);
                }
            }
        }
    }

    /// Number of recorded predictions.
    pub fn count(&self) -> (r: usize)
        ensures
            r == self.entries().len(),
    {
        self.entries.len()
    }

    /// Whether enough predictions were recorded to recalibrate.
    pub fn should_recalibrate(&self) -> (r: bool)
        ensures
            r == (self.every() > 0 && self.entries().len() >= self.every()),
    {
        self.recalibrate_every > 0 && self.entries.len() >= self.recalibrate_every
    }

    /// Brier score of the recorded predictions; `1` (`U * U / 1`) when empty.
    pub fn brier_score(&self) -> (r: Score)
        requires
            self.wf(),
        ensures
            r == (if self.entries().len() == 0 {
                Score { sum: (U * U) as u128, count: 1 }
            } else {
                Score { sum: raw_sum(self.entries()) as u128, count: self.entries().len() as u64 }
            }),
    {
        let n = self.entries.len();
        if n == 0 {
            return Score { sum: (U as u128) * (U as u128), count: 1 };
        }
        let mut sum: u128 = 0;
        let mut i: usize = 0;
        while i < n
            invariant
                0 <= i <= n,
                n == self.entries@.len(),
                self.wf(),
                sum == raw_sum(self.entries@.subrange(0, i as int)),
                sum <= i * (U * U),
            decreases n - i,
        {
            let ghost e = self.entries@;
            proof {
                assert(e.subrange(0, i + 1).drop_last() =~= e.subrange(0, i as int));
                assert(self.entries()[i as int].0 <= U);
                lemma_sq_err_bound(e[i as int].0 as int, e[i as int].1);
                assert((i + 1) * (U * U) <= usize::MAX * (U * U)) by (nonlinear_arith)
                    requires
                        i + 1 <= usize::MAX,
                ;
                assert(i * (U * U) + U * U == (i + 1) * (U * U)) by (nonlinear_arith);
            }
            let (p, won) = self.entries[i];
            let o: u64 = if won {
                U
            } else {
                0
            };
            let d: u128 = if p >= o {
                (p - o) as u128
            } else {
                (o - p) as u128
            };
            proof {
                assert(d * d == sq_err(p as int, won)) by (nonlinear_arith)
                    requires
                        d == p - o || d == o - p,
                        sq_err(p as int, won) == (p - o) * (p - o),
                ;
            }
            sum = sum + d * d;
            i = i + 1;
        }
        proof {
            assert(self.entries@.subrange(0, n as int) =~= self.entries@);
        }
        Score { sum, count: n as u64 }
    }
}

/// `p` rescaled by `current / candidate` (see `rescaled`).
pub fn rescale(p: u64, current: u64, candidate: u64) -> (r: u64)
    requires
        p <= U,
        candidate > 0,
    ensures
        r == rescaled(p as int, current as int, candidate as int),
{
    let d: u128 = if p >= HALF {
        (p - HALF) as u128
    } else {
        (HALF - p) as u128
    };
    proof {
        assert(d * current <= HALF * u64::MAX) by (nonlinear_arith)
            requires
                0 <= d <= HALF,
                0 <= current <= u64::MAX,
        ;
    }
    let m: u128 = d * (current as u128) / (candidate as u128);
    let a: u128 = if p >= HALF {
        HALF as u128 + m
    } else if m <= HALF as u128 {
        (HALF as u128) - m
    } else {
        0
    };
    if p < HALF && m > HALF as u128 {
        P_MIN
    } else if a < P_MIN as u128 {
        P_MIN
    } else if a > P_MAX as u128 {
        P_MAX
    } else {
        a as u64
    }
}

impl Calibrator {
    /// Sum of squared errors of the entries rescaled for `candidate`.
    fn scaled_score(&self, candidate: u64) -> (r: u128)
        requires
            self.wf(),
            candidate > 0,
        ensures
            r == scaled_sum(self.entries(), self.current() as int, candidate as int),
    {
        let n = self.entries.len();
        let mut sum: u128 = 0;
        let mut i: usize = 0;
        while i < n
            invariant
                0 <= i <= n,
                n == self.entries@.len(),
                self.wf(),
                candidate > 0,
                sum == scaled_sum(
                    self.entries@.subrange(0, i as int),
                    self.current_vcm as int,
                    candidate as int,
                ),
                sum <= i * (U * U),
            decreases n - i,
        {
            let ghost e = self.entries@;
            proof {
                assert(e.subrange(0, i + 1).drop_last() =~= e.subrange(0, i as int));
                assert(self.entries()[i as int].0 <= U);
                assert((i + 1) * (U * U) <= usize::MAX * (U * U)) by (nonlinear_arith)
                    requires
                        i + 1 <= usize::MAX,
                ;
                assert(i * (U * U) + U * U == (i + 1) * (U * U)) by (nonlinear_arith);
            }
            let (p, won) = self.entries[i];
            let a = rescale(p, self.current_vcm, candidate);
            proof {
                lemma_sq_err_bound(a as int, won);
            }
            let o: u64 = if won {
                U
            } else {
                0
            };
            let d: u128 = if a >= o {
                (a - o) as u128
            } else {
                (o - a) as u128
            };
            proof {
                assert(d * d == sq_err(a as int, won)) by (nonlinear_arith)
                    requires
                        d == a - o || d == o - a,
                        sq_err(a as int, won) == (a - o) * (a - o),
                ;
            }
            sum = sum + d * d;
            i = i + 1;
        }
        proof {
            assert(self.entries@.subrange(0, n as int) =~= self.entries@);
        }
        sum
    }

    /// Finds the candidate multiplier whose rescaled predictions have the
    /// lowest Brier score (the smallest such multiplier on a tie), clears the
    /// entries and returns it with its score; `None` when there are no entries.
    pub fn recalibrate(&mut self) -> (r: Option<Calibration>)
        requires
            old(self).wf(),
        ensures
            final(self).wf(),
            final(self).current() == old(self).current(),
            final(self).every() == old(self).every(),
            old(self).entries().len() == 0 ==> r.is_none() && final(self).entries() == old(
                self,
            ).entries(),
            old(self).entries().len() > 0 ==> r.is_some() && final(self).entries().len() == 0,
            r matches Some(c) ==> ({
                let e = old(self).entries();
                let cur = old(self).current() as int;
                &&& is_candidate(c.multiplier as int)
                &&& c.score == Score {
                    sum: scaled_sum(e, cur, c.multiplier as int) as u128,
                    count: e.len() as u64,
                }
                &&& forall|m: int|
                    is_candidate(m) ==> scaled_sum(e, cur, c.multiplier as int) <= #[trigger] scaled_sum(
                        e,
                        cur,
                        m,
                    )
                &&& forall|m: int|
                    is_candidate(m) && m < c.multiplier ==> scaled_sum(e, cur, c.multiplier as int)
                        < #[trigger] scaled_sum(e, cur, m)
            }),
    {
        if self.entries.len() == 0 {
            return None;
        }
        let mut best_k: u64 = MULT_FIRST;
        let mut best: u128 = self.scaled_score(MULT_STEP * MULT_FIRST);
        let mut k: u64 = MULT_FIRST + 1;
        let ghost e = self.entries@;
        let ghost cur = self.current_vcm as int;
        while k <= MULT_LAST
            invariant
                MULT_FIRST < k <= MULT_LAST + 1,
                MULT_FIRST <= best_k < k,
                self.wf(),
                self.entries@ == e,
                self.current_vcm == cur,
                best == scaled_sum(e, cur, (MULT_STEP * best_k) as int),
                forall|j: int|
                    MULT_FIRST <= j < k ==> best <= #[trigger] scaled_sum(
                        e,
                        cur,
                        (MULT_STEP * j) as int,
                    ),
                forall|j: int|
                    MULT_FIRST <= j < best_k ==> best < #[trigger] scaled_sum(
                        e,
                        cur,
                        (MULT_STEP * j) as int,
                    ),
            decreases MULT_LAST + 1 - k,
        {
            let s = self.scaled_score(MULT_STEP * k);
            if s < best {
                best = s;
                best_k = k;
            }
            k = k + 1;
        }
        let mult = MULT_STEP * best_k;
        let n = self.entries.len() as u64;
        self.entries.clear();
        proof {
            assert(is_candidate(mult as int)) by {
                assert(MULT_FIRST <= best_k <= MULT_LAST && mult == MULT_STEP * best_k);
            }
            assert forall|m: int| is_candidate(m) implies best <= #[trigger] scaled_sum(
                e,
                cur,
                m,
            ) by {
                let j = m / (MULT_STEP as int);
                assert(m == MULT_STEP * j);
                assert(best <= scaled_sum(e, cur, (MULT_STEP * j) as int));
            }
            assert forall|m: int| is_candidate(m) && m < mult implies best < #[trigger] scaled_sum(
                e,
                cur,
                m,
            ) by {
                let j = m / (MULT_STEP as int);
                assert(m == MULT_STEP * j);
                assert(j < best_k);
                assert(best < scaled_sum(e, cur, (MULT_STEP * j) as int));
            }
        }
        Some(Calibration { multiplier: mult, score: Score { sum: best, count: n } })
    }
}

} // verus!

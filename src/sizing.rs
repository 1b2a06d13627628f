use vstd::prelude::*;

verus! {

/// One, in basis points: probabilities, prices, rates and fractions are
/// given in basis points of one.
pub const U: u64 = 10_000;

/// The venue's dynamic fee, in basis points of the stake (rounded down):
/// `fee_rate * (price * (1 - price))^2`.
pub open spec fn fee_of(price: int, fee_rate: int) -> int {
    let pq = price * (U - price);
    fee_rate * (pq * pq) / (U * U * U * U)
}

/// Net payout ratio after fees, scaled by `price * U`:
/// `((1 - price) / price - fee) * price * U`.
pub open spec fn b_num(price: int, fee_rate: int) -> int {
    (U - price) * U - fee_of(price, fee_rate) * price
}

/// Kelly fraction scaled by `U * b_num`: `(b p - q) * price * U`, scaled.
pub open spec fn kelly_num(p: int, price: int, fee_rate: int) -> int {
    b_num(price, fee_rate) * p - (U - p) * price * U
}

/// The unclamped fractional-Kelly size is `raw_num / raw_den`.
pub open spec fn raw_num(p: int, price: int, fee_rate: int, fraction: int, bankroll: int) -> int {
    kelly_num(p, price, fee_rate) * fraction * bankroll
}

pub open spec fn raw_den(price: int, fee_rate: int) -> int {
    U * U * b_num(price, fee_rate)
}

/// Fee-adjusted fractional Kelly size, rounded down and clamped to `[0, max_bet]`.
/// It is zero for a price or probability outside `(0, 1)`, a bankroll that is
/// not positive, a net payout that is not positive, or no Kelly edge.
pub open spec fn kelly_size(
    p: int,
    price: int,
    fee_rate: int,
    fraction: int,
    bankroll: int,
    max_bet: int,
) -> int {
    if price <= 0 || price >= U || p <= 0 || p >= U || bankroll <= 0 {
        0
    } else if b_num(price, fee_rate) <= 0 || kelly_num(p, price, fee_rate) <= 0 {
        0
    } else {
        let raw = raw_num(p, price, fee_rate, fraction, bankroll) / raw_den(price, fee_rate);
        if raw < max_bet {
            raw
        } else {
            max_bet
        }
    }
}

/// The venue's dynamic fee for a position at `price` (see `fee_of`).
pub fn dynamic_fee(price: u64, fee_rate: u64) -> (r: u64)
    requires
        price <= U,
    ensures
        r == fee_of(price as int, fee_rate as int),
{
    proof {
        let (a, b) = (price as int, (U - price) as int);
        assert(a * b <= U * U) by (nonlinear_arith)
            requires
                0 <= a <= U,
                0 <= b <= U,
        ;
    }
    let pq: u128 = (price as u128) * ((U - price) as u128);
    proof {
        let q = pq as int;
        assert(q * q <= (U * U) * (U * U)) by (nonlinear_arith)
            requires
                0 <= q <= U * U,
        ;
        let r = fee_rate as int;
        assert(r * (q * q) <= r * ((U * U) * (U * U))) by (nonlinear_arith)
            requires
                0 <= r,
                q * q <= (U * U) * (U * U),
        ;
        assert(r * ((U * U) * (U * U)) <= u64::MAX * ((U * U) * (U * U))) by (nonlinear_arith)
            requires
                0 <= r <= u64::MAX,
        ;
        assert(r * (q * q) / (U * U * U * U) <= r) by (nonlinear_arith)
            requires
                0 <= r,
                0 <= q * q <= (U * U) * (U * U),
        ;
    }
    let u4: u128 = (U as u128) * (U as u128) * (U as u128) * (U as u128);
    ((fee_rate as u128) * (pq * pq) / u4) as u64
}

proof fn lemma_fee_le_rate(price: int, fee_rate: int)
    requires
        0 <= price <= U,
        0 <= fee_rate,
    ensures
        0 <= fee_of(price, fee_rate) <= fee_rate,
{
    let (a, b) = (price, U - price);
    assert(0 <= a * b <= U * U) by (nonlinear_arith)
        requires
            0 <= a <= U,
            0 <= b <= U,
    ;
    let q = a * b;
    assert(0 <= q * q <= (U * U) * (U * U)) by (nonlinear_arith)
        requires
            0 <= q <= U * U,
    ;
    assert(0 <= fee_rate * (q * q) / (U * U * U * U) <= fee_rate) by (nonlinear_arith)
        requires
            0 <= fee_rate,
            0 <= q * q <= (U * U) * (U * U),
    ;
}

/// Fee-adjusted fractional Kelly size (see `kelly_size`). `p` is the
/// probability of winning, `price` the cost of one share paying one,
/// `kelly_fraction` the part of the full Kelly stake taken (at most one).
pub fn fractional_kelly(
    p: u64,
    price: u64,
    fee_rate: u64,
    kelly_fraction: u64,
    bankroll: i64,
    max_bet: u64,
) -> (r: u64)
    requires
        kelly_fraction <= U,
    ensures
        r == kelly_size(
            p as int,
            price as int,
            fee_rate as int,
            kelly_fraction as int,
            bankroll as int,
            max_bet as int,
        ),
{
    if price == 0 || price >= U || p == 0 || p >= U || bankroll <= 0 {
        return 0;
    }
    let fee = dynamic_fee(price, fee_rate);
    proof {
        lemma_fee_le_rate(price as int, fee_rate as int);
        assert((fee as int) * (price as int) <= u64::MAX * U) by (nonlinear_arith)
            requires
                0 <= fee <= u64::MAX,
                0 <= price <= U,
        ;
        assert(0 <= ((U - price) as int) * (U as int) <= U * U) by (nonlinear_arith)
            requires
                0 <= price <= U,
        ;
    }
    let b: i128 = ((U - price) as i128) * (U as i128) - (fee as i128) * (price as i128);
    if b <= 0 {
        return 0;
    }
    proof {
        assert(b <= U * U);
        let (bb, pp, pr) = (b as int, p as int, price as int);
        assert(0 < bb * pp <= (U * U) * U) by (nonlinear_arith)
            requires
                0 < bb <= U * U,
                0 < pp <= U,
        ;
        assert(0 <= (U - pp) * pr * U <= U * U * U) by (nonlinear_arith)
            requires
                0 <= U - pp <= U,
                0 <= pr <= U,
        ;
    }
    let k: i128 = b * (p as i128) - ((U - p) as i128) * (price as i128) * (U as i128);
    if k <= 0 {
        return 0;
    }
    proof {
        let (kk, f, w) = (k as int, kelly_fraction as int, bankroll as int);
        assert(0 <= kk * f <= (U * U * U) * U) by (nonlinear_arith)
            requires
                0 < kk <= U * U * U,
                0 <= f <= U,
        ;
        assert(0 <= (kk * f) * w <= (U * U * U * U) * i64::MAX) by (nonlinear_arith)
            requires
                0 <= kk * f <= U * U * U * U,
                0 < w <= i64::MAX,
        ;
        assert(kk * f * w == (kk * f) * w);
    }
    let num: i128 = k * (kelly_fraction as i128) * (bankroll as i128);
    let den: i128 = (U as i128) * (U as i128) * b;
    let raw: i128 = num / den;
    proof {
        assert(0 <= (num as int) / (den as int) <= num as int) by (nonlinear_arith)
            requires
                num >= 0,
                den >= 1,
        ;
    }
    if raw < max_bet as i128 {
        raw as u64
    } else {
        max_bet
    }
}

/// With no edge (the probability equals the price) the size is zero.
pub proof fn lemma_no_edge_no_size(
    price: int,
    fee_rate: int,
    fraction: int,
    bankroll: int,
    max_bet: int,
)
    requires
        0 <= fee_rate,
    ensures
        kelly_size(price, price, fee_rate, fraction, bankroll, max_bet) == 0,
{
    if 0 < price < U {
        lemma_fee_le_rate(price, fee_rate);
        let f = fee_of(price, fee_rate);
        assert(kelly_num(price, price, fee_rate) == -(f * price * price)) by (nonlinear_arith)
            requires
                kelly_num(price, price, fee_rate) == ((U - price) * U - f * price) * price - (U
                    - price) * price * U,
        ;
        assert(f * price * price >= 0) by (nonlinear_arith)
            requires
                f >= 0,
        ;
    }
}

/// A bankroll that is not positive gives a size of zero.
pub proof fn lemma_no_bankroll_no_size(
    p: int,
    price: int,
    fee_rate: int,
    fraction: int,
    bankroll: int,
    max_bet: int,
)
    requires
        bankroll <= 0,
    ensures
        kelly_size(p, price, fee_rate, fraction, bankroll, max_bet) == 0,
{
}

/// Doubling the bankroll exactly doubles the unclamped size: the numerator
/// doubles and the denominator does not depend on the bankroll.
pub proof fn lemma_double_bankroll(p: int, price: int, fee_rate: int, fraction: int, bankroll: int)
    ensures
        raw_num(p, price, fee_rate, fraction, 2 * bankroll) == 2 * raw_num(
            p,
            price,
            fee_rate,
            fraction,
            bankroll,
        ),
{
    let k = kelly_num(p, price, fee_rate);
    assert(k * fraction * (2 * bankroll) == 2 * (k * fraction * bankroll)) by (nonlinear_arith);
}

proof fn lemma_fee_monotone(price: int, r1: int, r2: int)
    requires
        0 <= price <= U,
        0 <= r1 <= r2,
    ensures
        fee_of(price, r1) <= fee_of(price, r2),
{
    let pq = price * (U - price);
    let q2 = pq * pq;
    assert(q2 >= 0) by (nonlinear_arith)
        requires
            q2 == pq * pq,
    ;
    assert(r1 * q2 <= r2 * q2) by (nonlinear_arith)
        requires
            r1 <= r2,
            q2 >= 0,
    ;
    vstd::arithmetic::div_mod::lemma_div_is_ordered(r1 * q2, r2 * q2, U * U * U * U);
}

proof fn lemma_floor_ordered(a: int, b: int, c: int, d: int)
    requires
        b > 0,
        d > 0,
        a * d >= c * b,
    ensures
        a / b >= c / d,
{
    let (x, y) = (a / b, c / d);
    vstd::arithmetic::div_mod::lemma_fundamental_div_mod(a, b);
    vstd::arithmetic::div_mod::lemma_fundamental_div_mod(c, d);
    assert(x >= y) by (nonlinear_arith)
        requires
            a == b * x + a % b,
            0 <= a % b < b,
            c == d * y + c % d,
            0 <= c % d < d,
            a * d >= c * b,
            b > 0,
            d > 0,
    ;
}

/// A higher fee rate never gives a larger size.
pub proof fn lemma_fee_monotone_size(
    p: int,
    price: int,
    r1: int,
    r2: int,
    fraction: int,
    bankroll: int,
    max_bet: int,
)
    requires
        0 <= r1 <= r2,
        0 <= fraction,
        0 <= max_bet,
    ensures
        kelly_size(p, price, r2, fraction, bankroll, max_bet) <= kelly_size(
            p,
            price,
            r1,
            fraction,
            bankroll,
            max_bet,
        ),
{
    if price <= 0 || price >= U || p <= 0 || p >= U || bankroll <= 0 {
    } else {
        lemma_fee_monotone(price, r1, r2);
        let (f1, f2) = (fee_of(price, r1), fee_of(price, r2));
        let (b1, b2) = (b_num(price, r1), b_num(price, r2));
        assert(f1 * price <= f2 * price) by (nonlinear_arith)
            requires
                f1 <= f2,
                price > 0,
        ;
        assert(b1 >= b2);
        let q = (U - p) * price * U;
        let (k1, k2) = (kelly_num(p, price, r1), kelly_num(p, price, r2));
        if b2 <= 0 || k2 <= 0 {
            if b1 > 0 && k1 > 0 {
                let n1 = raw_num(p, price, r1, fraction, bankroll);
                assert(n1 >= 0) by (nonlinear_arith)
                    requires
                        n1 == k1 * fraction * bankroll,
                        k1 > 0,
                        fraction >= 0,
                        bankroll > 0,
                ;
                assert(raw_den(price, r1) > 0) by (nonlinear_arith)
                    requires
                        raw_den(price, r1) == U * U * b1,
                        b1 > 0,
                ;
                assert(n1 / raw_den(price, r1) >= 0) by (nonlinear_arith)
                    requires
                        n1 >= 0,
                        raw_den(price, r1) > 0,
                ;
            }
        } else {
            assert(q >= 0) by (nonlinear_arith)
                requires
                    q == (U - p) * price * U,
                    p < U,
                    price > 0,
            ;
            assert(k1 * b2 >= k2 * b1) by (nonlinear_arith)
                requires
                    k1 == b1 * p - q,
                    k2 == b2 * p - q,
                    b1 >= b2,
                    q >= 0,
            ;
            assert(k1 > 0) by (nonlinear_arith)
                requires
                    k1 * b2 >= k2 * b1,
                    k2 > 0,
                    b1 >= b2,
                    b2 > 0,
            ;
            let c = fraction * bankroll;
            assert(c >= 0) by (nonlinear_arith)
                requires
                    c == fraction * bankroll,
                    fraction >= 0,
                    bankroll > 0,
            ;
            let (n1, n2) = (raw_num(p, price, r1, fraction, bankroll), raw_num(p, price, r2, fraction, bankroll));
            let (d1, d2) = (raw_den(price, r1), raw_den(price, r2));
            assert(n1 == k1 * c && n2 == k2 * c) by (nonlinear_arith)
                requires
                    n1 == k1 * fraction * bankroll,
                    n2 == k2 * fraction * bankroll,
                    c == fraction * bankroll,
            ;
            assert(d1 > 0 && d2 > 0) by (nonlinear_arith)
                requires
                    d1 == U * U * b1,
                    d2 == U * U * b2,
                    b1 >= b2,
                    b2 > 0,
            ;
            assert(n1 * d2 >= n2 * d1) by (nonlinear_arith)
                requires
                    n1 == k1 * c,
                    n2 == k2 * c,
                    d1 == U * U * b1,
                    d2 == U * U * b2,
                    k1 * b2 >= k2 * b1,
                    c >= 0,
            ;
            lemma_floor_ordered(n1, d1, n2, d2);
        }
    }
}

} // verus!

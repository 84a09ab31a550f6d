//! The price cap of a purchase: the quoted price times 1.15, computed the way a
//! double-precision multiplication computes it.
//!
//! A quote is rounded to a double, multiplied by the double nearest to 1.15,
//! rounded again and cut to an integer. All of that is integer arithmetic here:
//! the double nearest to 1.15 is `RATE / RATE_UNIT`.

use vstd::prelude::*;

verus! {

/// Doubles carry 53 significant bits: integers below this bound are exact.
pub const EXACT_BOUND: u128 = 0x20_0000_0000_0000;

/// The denominator of the price factor, 2^52.
pub const RATE_UNIT: u128 = 0x10_0000_0000_0000;

/// The numerator of the price factor: `RATE / RATE_UNIT` is the double nearest to 1.15.
pub const RATE: u128 = 5179139571476070;

/// The distance between neighbouring doubles at `n`, for `n >= EXACT_BOUND`; 1 below.
pub open spec fn ulp(n: nat) -> nat
    decreases n,
{
    if n < EXACT_BOUND {
        1
    } else {
        2 * ulp(n / 2)
    }
}

/// The double nearest to `n`, ties going to the even significand.
pub open spec fn nearest(n: nat) -> nat {
    let u = ulp(n);
    let q = n / u;
    let r = n % u;
    if 2 * r > u || (2 * r == u && q % 2 == 1) {
        (q + 1) * u
    } else {
        q * u
    }
}

/// The cap on what a purchase quoted at `price` may cost: 1.15 times the price in
/// double precision, cut to an integer, and never above what 128 bits hold.
pub open spec fn slipped(price: nat) -> nat {
    let cap = nearest(nearest(price) * RATE as nat) / RATE_UNIT as nat;
    if cap > u128::MAX {
        u128::MAX as nat
    } else {
        cap
    }
}

/// Whether `n` is a power of two.
spec fn is_power(n: nat) -> bool
    decreases n,
{
    n == 1 || (n > 1 && n % 2 == 0 && is_power(n / 2))
}

proof fn lemma_ulp_step(n: nat, u: nat)
    requires
        is_power(u),
        n / u >= EXACT_BOUND,
    ensures
        is_power(2 * u),
        u * ulp(n / u) == (2 * u) * ulp(n / (2 * u)),
        n / (2 * u) == (n / u) / 2,
        u < n,
{
    assert((2 * u) / 2 == u);
    assert((n / u) / 2 == n / (2 * u)) by {
        vstd::arithmetic::div_mod::lemma_div_denominator(n as int, u as int, 2);
        assert(u * 2 == 2 * u);
    }
    let k = ulp(n / (2 * u));
    assert(u * (2 * k) == (2 * u) * k) by (nonlinear_arith);
    assert(u * (n / u) <= n) by (nonlinear_arith)
        requires
            u >= 1,
    ;
    assert(u * 2 <= u * (n / u)) by (nonlinear_arith)
        requires
            n / u >= 2,
    ;
}

/// Everything the rounding needs of the spacing: it is a power of two, and at or
/// above the exact range the quotient has exactly 53 bits.
proof fn lemma_ulp(n: nat)
    ensures
        is_power(ulp(n)),
        ulp(n) >= 1,
        n / ulp(n) < EXACT_BOUND,
        ulp(n) > 1 ==> n / ulp(n) >= RATE_UNIT,
        n >= EXACT_BOUND ==> ulp(n) > 1,
    decreases n,
{
    if n >= EXACT_BOUND {
        lemma_ulp(n / 2);
        let k = ulp(n / 2);
        assert((2 * k) / 2 == k);
        assert((n / 2) / k == n / (2 * k)) by {
            vstd::arithmetic::div_mod::lemma_div_denominator(n as int, 2, k as int);
        }
        if k == 1 {
            assert((n / 2) / 1 == n / 2);
        }
    } else {
        assert(n / 1 == n);
    }
}

/// A power of two divides every larger one.
proof fn lemma_power_divides(a: nat, b: nat)
    requires
        is_power(a),
        is_power(b),
        a <= b,
    ensures
        b == a * (b / a),
        b / a >= 1,
    decreases a,
{
    if a == 1 {
        assert(b / 1 == b);
    } else {
        lemma_power_divides(a / 2, b / 2);
        let c = (b / 2) / (a / 2);
        assert(a * c == 2 * ((a / 2) * c)) by (nonlinear_arith)
            requires
                a == 2 * (a / 2),
        ;
        assert(b / a == c) by (nonlinear_arith)
            requires
                b == a * c,
                a > 0,
        ;
    }
}

proof fn lemma_unit_is_power()
    ensures
        is_power(RATE_UNIT as nat),
{
    reveal_with_fuel(is_power, 54);
}

/// Doubling a number at or above the exact range doubles its nearest double.
proof fn lemma_nearest_double(n: nat)
    requires
        n >= EXACT_BOUND,
    ensures
        nearest(2 * n) == 2 * nearest(n),
{
    lemma_ulp(n);
    let u = ulp(n);
    let q = n / u;
    let r = n % u;
    assert((2 * n) / 2 == n);
    assert(n == u * q + r && r < u) by {
        vstd::arithmetic::div_mod::lemma_fundamental_div_mod(n as int, u as int);
        vstd::arithmetic::div_mod::lemma_mod_bound(n as int, u as int);
    }
    assert(2 * n == (2 * u) * q + 2 * r) by (nonlinear_arith)
        requires
            n == u * q + r,
    ;
    vstd::arithmetic::div_mod::lemma_fundamental_div_mod_converse(
        (2 * n) as int,
        (2 * u) as int,
        q as int,
        (2 * r) as int,
    );
    assert((q + 1) * (2 * u) == 2 * ((q + 1) * u)) by (nonlinear_arith);
    assert(q * (2 * u) == 2 * (q * u)) by (nonlinear_arith);
}

/// Scaling by a power of two, at or above the exact range, scales the nearest double.
proof fn lemma_nearest_scaled(n: nat, u: nat)
    requires
        n >= EXACT_BOUND,
        is_power(u),
    ensures
        nearest(n * u) == nearest(n) * u,
    decreases u,
{
    if u == 1 {
        assert(n * u == n && nearest(n) * u == nearest(n)) by (nonlinear_arith)
            requires
                u == 1,
        ;
    } else {
        let v = u / 2;
        lemma_nearest_scaled(n, v);
        assert(n * v >= n) by (nonlinear_arith)
            requires
                v >= 1,
        ;
        lemma_nearest_double(n * v);
        let m = nearest(n);
        assert(n * u == 2 * (n * v)) by (nonlinear_arith)
            requires
                u == 2 * v,
        ;
        assert(m * u == 2 * (m * v)) by (nonlinear_arith)
            requires
                u == 2 * v,
        ;
    }
}

/// Rounding moves a number by at most half the spacing.
proof fn lemma_nearest_close(n: nat)
    ensures
        2 * nearest(n) <= 2 * n + ulp(n),
        2 * n <= 2 * nearest(n) + ulp(n),
        n < EXACT_BOUND ==> nearest(n) == n,
        nearest(n) == (n / ulp(n)) * ulp(n) || nearest(n) == (n / ulp(n) + 1) * ulp(n),
{
    lemma_ulp(n);
    let u = ulp(n);
    let q = n / u;
    let r = n % u;
    assert(n == u * q + r && r < u) by {
        vstd::arithmetic::div_mod::lemma_fundamental_div_mod(n as int, u as int);
        vstd::arithmetic::div_mod::lemma_mod_bound(n as int, u as int);
    }
    assert((q + 1) * u == u * q + u) by (nonlinear_arith);
    assert(q * u == u * q) by (nonlinear_arith);
}

/// Rounding is off by at most one part in 2^53.
proof fn lemma_nearest_relative(n: nat)
    ensures
        nearest(n) * EXACT_BOUND >= n * (EXACT_BOUND - 1),
        nearest(n) * EXACT_BOUND <= n * (EXACT_BOUND + 1),
{
    lemma_ulp(n);
    lemma_nearest_close(n);
    let u = ulp(n);
    if u > 1 {
        assert(u * RATE_UNIT <= n) by (nonlinear_arith)
            requires
                n / u >= RATE_UNIT,
                u > 1,
        ;
    } else {
        assert(n < EXACT_BOUND);
    }
}

proof fn lemma_ulp_monotone(n: nat, m: nat)
    requires
        n <= m,
    ensures
        ulp(n) <= ulp(m),
        ulp(n) < ulp(m) ==> 2 * ulp(n) <= ulp(m),
    decreases m,
{
    if n >= EXACT_BOUND {
        lemma_ulp_monotone(n / 2, m / 2);
    } else {
        lemma_ulp(m);
    }
}

proof fn lemma_nearest_monotone(n: nat, m: nat)
    requires
        n <= m,
    ensures
        nearest(n) <= nearest(m),
{
    lemma_ulp_monotone(n, m);
    lemma_ulp(n);
    lemma_ulp(m);
    let u = ulp(n);
    let v = ulp(m);
    if u == v {
        let qn = n / u;
        let qm = m / u;
        assert(qn <= qm) by {
            vstd::arithmetic::div_mod::lemma_div_is_ordered(n as int, m as int, u as int);
        }
        if qn < qm {
            assert((qn + 1) * u <= qm * u && qn * u <= (qn + 1) * u && qm * u <= (qm + 1) * u)
                by (nonlinear_arith)
                requires
                    qn + 1 <= qm,
            ;
        } else {
            vstd::arithmetic::div_mod::lemma_fundamental_div_mod(n as int, u as int);
            vstd::arithmetic::div_mod::lemma_fundamental_div_mod(m as int, u as int);
            assert(qn * u <= (qn + 1) * u) by (nonlinear_arith);
        }
    } else {
        lemma_nearest_close(n);
        lemma_nearest_close(m);
        let q = n / u;
        let p = m / v;
        assert((q + 1) * u <= EXACT_BOUND * u && q * u <= EXACT_BOUND * u) by (nonlinear_arith)
            requires
                q < EXACT_BOUND,
        ;
        assert(RATE_UNIT * v <= p * v && p * v <= (p + 1) * v) by (nonlinear_arith)
            requires
                p >= RATE_UNIT,
        ;
    }
}

/// The cap is never below the quote: a purchase at an unchanged price goes through.
pub proof fn law_cap_covers_quote(price: nat)
    requires
        price <= u128::MAX,
    ensures
        slipped(price) >= price,
{
    let a = nearest(price);
    let t = nearest(a * RATE as nat);
    lemma_nearest_relative(price);
    lemma_nearest_relative(a * RATE as nat);
    assert(t >= price * 0x10_0000_0000_0000) by (nonlinear_arith)
        requires
            a * 0x20_0000_0000_0000 >= price * 0x1f_ffff_ffff_ffff,
            t * 0x20_0000_0000_0000 >= (a * 5179139571476070) * 0x1f_ffff_ffff_ffff,
    ;
    assert(t / RATE_UNIT as nat >= price) by (nonlinear_arith)
        requires
            t >= price * RATE_UNIT,
            RATE_UNIT > 0,
    ;
}

/// Before it is cut to 128 bits, the cap is at most one part of the quote in 2^51 above
/// 1.15 times the quote, and at most that and one unit below.
proof fn lemma_cap_bounds(price: nat)
    ensures
        ({
            let cap = nearest(nearest(price) * RATE as nat) / RATE_UNIT as nat;
            &&& 20 * cap * 0x8_0000_0000_0000 <= 23 * price * 0x8_0000_0000_0000 + 20 * price
            &&& 23 * price * 0x8_0000_0000_0000 < 20 * (cap + 1) * 0x8_0000_0000_0000 + 20 * price
        }),
{
    let a = nearest(price);
    lemma_nearest_relative(price);
    lemma_nearest_relative(a * RATE as nat);
    let t = nearest(a * RATE as nat);
    let cap = t / RATE_UNIT as nat;
    assert(cap * 0x10_0000_0000_0000 <= t < (cap + 1) * 0x10_0000_0000_0000) by (nonlinear_arith)
        requires
            cap == t / 0x10_0000_0000_0000,
    ;
    assert(20 * cap * 0x8_0000_0000_0000 <= 23 * price * 0x8_0000_0000_0000 + 20 * price)
        by (nonlinear_arith)
        requires
            a * 0x20_0000_0000_0000 <= price * 0x20_0000_0000_0001,
            t * 0x20_0000_0000_0000 <= (a * 5179139571476070) * 0x20_0000_0000_0001,
            cap * 0x10_0000_0000_0000 <= t,
    ;
    assert(23 * price * 0x8_0000_0000_0000 < 20 * (cap + 1) * 0x8_0000_0000_0000 + 20 * price)
        by (nonlinear_arith)
        requires
            a * 0x20_0000_0000_0000 >= price * 0x1f_ffff_ffff_ffff,
            t * 0x20_0000_0000_0000 >= (a * 5179139571476070) * 0x1f_ffff_ffff_ffff,
            t < (cap + 1) * 0x10_0000_0000_0000,
    ;
}

/// The cap exceeds the quote by at most fifteen percent, up to one part in 2^51
/// lost to rounding.
pub proof fn law_cap_within_slippage(price: nat)
    ensures
        20 * slipped(price) * 0x8_0000_0000_0000 <= 23 * price * 0x8_0000_0000_0001,
{
    lemma_cap_bounds(price);
}

/// The cap is 1.15 times the quote, up to less than one unit and one part of the quote
/// in 2^51, from above and, unless it is cut to what 128 bits hold, from below. The cap
/// on a quote of at most 2^127 is not cut.
pub proof fn law_cap_is_close(price: nat)
    ensures
        20 * slipped(price) * 0x8_0000_0000_0000 < 23 * price * 0x8_0000_0000_0000 + 20 * price
            + 20 * 0x8_0000_0000_0000,
        price <= 0x8000_0000_0000_0000_0000_0000_0000_0000 || slipped(price) < u128::MAX
            ==> 23 * price * 0x8_0000_0000_0000 < 20 * slipped(price) * 0x8_0000_0000_0000 + 20
            * price + 20 * 0x8_0000_0000_0000,
{
    lemma_cap_bounds(price);
}

/// A higher quote never gets a lower cap.
pub proof fn law_cap_is_monotone(low: nat, high: nat)
    requires
        low <= high,
    ensures
        slipped(low) <= slipped(high),
{
    lemma_nearest_monotone(low, high);
    lemma_nearest_monotone(nearest(low) * RATE as nat, nearest(high) * RATE as nat);
}

/// The number with the significand `m` and the exponent `e`; a double where `m` has at
/// most 53 bits.
pub open spec fn double(m: nat, e: nat) -> nat {
    m * vstd::arithmetic::power2::pow2(e)
}

/// How far two numbers are apart.
pub open spec fn distance(a: nat, b: nat) -> nat {
    if a <= b {
        (b - a) as nat
    } else {
        (a - b) as nat
    }
}

proof fn lemma_ulp_exponent(n: nat) -> (k: nat)
    ensures
        ulp(n) == vstd::arithmetic::power2::pow2(k),
    decreases n,
{
    if n < EXACT_BOUND {
        vstd::arithmetic::power2::lemma2_to64();
        0
    } else {
        let k = lemma_ulp_exponent(n / 2);
        vstd::arithmetic::power2::lemma_pow2_unfold(k + 1);
        k + 1
    }
}

/// A number of two exponents, the smaller of which is `k`, is a multiple of the smaller
/// power.
proof fn lemma_double_is_multiple(m: nat, e: nat, k: nat) -> (c: nat)
    requires
        k <= e,
    ensures
        double(m, e) == c * vstd::arithmetic::power2::pow2(k),
{
    let f = (e - k) as nat;
    vstd::arithmetic::power2::lemma_pow2_adds(f, k);
    let a = vstd::arithmetic::power2::pow2(f);
    let b = vstd::arithmetic::power2::pow2(k);
    assert(m * (a * b) == (m * a) * b) by (nonlinear_arith);
    m * a
}

/// Where rounding does anything, a double is a whole number of spacings, or lies below
/// every whole number of spacings near `n`.
proof fn lemma_doubles_near(n: nat, m: nat, e: nat) -> (c: nat)
    requires
        m < EXACT_BOUND,
        ulp(n) > 1,
    ensures
        double(m, e) == c * ulp(n) || double(m, e) < (n / ulp(n)) * ulp(n),
{
    lemma_ulp(n);
    let u = ulp(n);
    let k = lemma_ulp_exponent(n);
    if k <= e {
        lemma_double_is_multiple(m, e, k)
    } else {
        let q = n / u;
        let p = vstd::arithmetic::power2::pow2(e);
        vstd::arithmetic::power2::lemma_pow2_unfold(e + 1);
        vstd::arithmetic::power2::lemma_pow2_pos(e);
        if e + 1 < k {
            vstd::arithmetic::power2::lemma_pow2_strictly_increases(e + 1, k);
        }
        assert(2 * p <= u);
        assert(m * p < q * u) by (nonlinear_arith)
            requires
                m < 0x20_0000_0000_0000,
                q >= 0x10_0000_0000_0000,
                2 * p <= u,
                p > 0,
        ;
        0
    }
}

/// Whole numbers of spacings are no nearer to a number than its own rounding, and only
/// one can be as near.
proof fn lemma_multiples_near(n: nat, c: nat)
    ensures
        distance(n, nearest(n)) <= distance(n, c * ulp(n)),
        c * ulp(n) != nearest(n) && distance(n, nearest(n)) == distance(n, c * ulp(n)) ==> {
            &&& distance(nearest(n), c * ulp(n)) == ulp(n)
            &&& exists|h: nat| nearest(n) == #[trigger] (h * (2 * ulp(n)))
        },
{
    lemma_ulp(n);
    let u = ulp(n);
    let q = n / u;
    let r = n % u;
    assert(n == u * q + r && r < u) by {
        vstd::arithmetic::div_mod::lemma_fundamental_div_mod(n as int, u as int);
        vstd::arithmetic::div_mod::lemma_mod_bound(n as int, u as int);
    }
    assert((q + 1) * u == q * u + u && q * u == u * q) by (nonlinear_arith);
    if c < q {
        assert(c * u + u <= q * u) by (nonlinear_arith)
            requires
                c + 1 <= q,
        ;
    } else if c > q + 1 {
        assert(q * u + 2 * u <= c * u) by (nonlinear_arith)
            requires
                q + 2 <= c,
        ;
    }
    if c * u != nearest(n) && distance(n, nearest(n)) == distance(n, c * u) {
        assert(2 * r == u);
        assert(distance(nearest(n), c * u) == u);
        let h = if q % 2 == 1 {
            (q + 1) / 2
        } else {
            q / 2
        };
        let t = 2 * h;
        assert(h * (2 * u) == t * u) by (nonlinear_arith)
            requires
                t == 2 * h,
        ;
        assert(nearest(n) == h * (2 * u));
    }
}

/// What a number is rounded to is a double.
pub proof fn law_rounding_gives_a_double(n: nat)
    ensures
        exists|m: nat, e: nat|
            m < 0x20_0000_0000_0000 && nearest(n) == #[trigger] double(m, e),
{
    lemma_ulp(n);
    lemma_nearest_close(n);
    let u = ulp(n);
    let q = n / u;
    let k = lemma_ulp_exponent(n);
    if nearest(n) == q * u {
        assert(nearest(n) == double(q, k));
    } else if q + 1 < EXACT_BOUND {
        assert(nearest(n) == double(q + 1, k));
    } else {
        vstd::arithmetic::power2::lemma_pow2_unfold(k + 1);
        assert((q + 1) * u == 0x10_0000_0000_0000 * (2 * u)) by (nonlinear_arith)
            requires
                q + 1 == 0x20_0000_0000_0000,
        ;
        assert(nearest(n) == double(0x10_0000_0000_0000, k + 1));
    }
}

/// No double is nearer to a number than the one that it is rounded to.
pub proof fn law_no_double_is_nearer(n: nat, m: nat, e: nat)
    requires
        m < 0x20_0000_0000_0000,
    ensures
        distance(n, nearest(n)) <= distance(n, double(m, e)),
{
    lemma_ulp(n);
    lemma_nearest_close(n);
    if ulp(n) > 1 {
        let c = lemma_doubles_near(n, m, e);
        lemma_multiples_near(n, c);
        lemma_multiples_near(n, n / ulp(n));
        vstd::arithmetic::div_mod::lemma_fundamental_div_mod(n as int, ulp(n) as int);
        assert((n / ulp(n)) * ulp(n) <= n) by (nonlinear_arith)
            requires
                n == ulp(n) * (n / ulp(n)) + n % ulp(n),
        ;
    }
}

/// Between two doubles that are equally near, rounding takes the one that is an even
/// number of steps.
pub proof fn law_tie_goes_to_the_even_double(n: nat, m: nat, e: nat)
    requires
        m < 0x20_0000_0000_0000,
        double(m, e) != nearest(n),
        distance(n, double(m, e)) == distance(n, nearest(n)),
    ensures
        exists|h: nat|
            nearest(n) == #[trigger] (h * (2 * distance(nearest(n), double(m, e)))),
{
    lemma_ulp(n);
    lemma_nearest_close(n);
    let u = ulp(n);
    assert(u > 1);
    let c = lemma_doubles_near(n, m, e);
    lemma_multiples_near(n, n / u);
    assert((n / u) * u <= n) by (nonlinear_arith)
        requires
            u > 1,
    ;
    assert(double(m, e) == c * u);
    lemma_multiples_near(n, c);
    let h = choose|h: nat| nearest(n) == #[trigger] (h * (2 * u));
    assert(nearest(n) == h * (2 * distance(nearest(n), double(m, e))));
}

/// The price factor is the double nearest to 1.15: no other numerator over 2^52 is
/// nearer to 23/20.
pub proof fn law_rate_is_nearest(numerator: nat)
    ensures
        distance(20 * RATE as nat, 23 * RATE_UNIT as nat) <= distance(
            20 * numerator,
            23 * RATE_UNIT as nat,
        ),
        RATE_UNIT == 0x10_0000_0000_0000,
        RATE_UNIT <= RATE < 2 * RATE_UNIT,
{
}

/// The cap is the quote rounded to a double, times the price factor, rounded to a double
/// again, without its fraction; where that takes more than 128 bits, it is the most that
/// they hold.
pub proof fn law_cap_is_the_rounded_product(price: nat, product: nat)
    requires
        product == nearest(nearest(price) * RATE as nat),
    ensures
        slipped(price) <= u128::MAX,
        slipped(price) * 0x10_0000_0000_0000 <= product,
        slipped(price) < u128::MAX ==> product < (slipped(price) + 1) * 0x10_0000_0000_0000,
{
}

/// The distance from `n` to the double next to it.
fn spacing(n: u128) -> (u: u128)
    ensures
        u == ulp(n as nat),
{
    let mut u: u128 = 1;
    proof {
        assert(n / 1 == n);
    }
    while n / u >= EXACT_BOUND
        invariant
            u >= 1,
            is_power(u as nat),
            u * ulp((n / u) as nat) == ulp(n as nat),
        decreases n / u,
    {
        proof {
            lemma_ulp_step(n as nat, u as nat);
            assert(u <= n / EXACT_BOUND) by (nonlinear_arith)
                requires
                    n / u >= EXACT_BOUND,
                    u >= 1,
                    EXACT_BOUND > 0,
            ;
        }
        u = 2 * u;
    }
    proof {
        assert(ulp((n / u) as nat) == 1);
        assert(u * 1 == u);
    }
    u
}

/// How many spacings the double nearest to `n` is worth, given the spacing.
fn significand(n: u128, u: u128) -> (q: u128)
    requires
        u == ulp(n as nat),
    ensures
        q * u == nearest(n as nat),
        q <= EXACT_BOUND,
        u > 1 ==> q >= RATE_UNIT,
{
    proof {
        lemma_ulp(n as nat);
    }
    let q: u128 = n / u;
    let r: u128 = n % u;
    if r > u - r || (r == u - r && q % 2 == 1) {
        q + 1
    } else {
        q
    }
}

/// 1.15 times `price` in double precision, cut to an integer: the most that a
/// purchase quoted at `price` may cost.
pub fn with_slippage(price: u128) -> (cap: u128)
    ensures
        cap == slipped(price as nat),
{
    let u: u128 = spacing(price);
    let q: u128 = significand(price, u);
    assert(q * RATE <= EXACT_BOUND * RATE) by (nonlinear_arith)
        requires
            q <= EXACT_BOUND,
    ;
    let scaled: u128 = q * RATE;
    let v: u128 = spacing(scaled);
    let m: u128 = significand(scaled, v);
    proof {
        lemma_nearest_close(scaled as nat);
        lemma_ulp(scaled as nat);
        assert(v <= scaled + 1) by {
            if v > 1 {
                assert(v <= scaled) by (nonlinear_arith)
                    requires
                        scaled / v >= 1,
                        v > 1,
                ;
            }
        }
    }
    let rounded: u128 = m * v;
    proof {
        lemma_ulp(price as nat);
        let exact = nearest(price as nat) * RATE as nat;
        assert(exact == scaled * u) by (nonlinear_arith)
            requires
                exact == (q * u) * RATE,
                scaled == q * RATE,
        ;
        assert(nearest(exact) == rounded * u) by {
            if u > 1 {
                assert(scaled >= EXACT_BOUND) by (nonlinear_arith)
                    requires
                        q >= RATE_UNIT,
                        scaled == q * RATE,
                ;
                lemma_nearest_scaled(scaled as nat, u as nat);
            } else {
                assert(scaled * u == scaled && rounded * u == rounded) by (nonlinear_arith)
                    requires
                        u == 1,
                ;
            }
        }
        lemma_unit_is_power();
    }
    if u >= RATE_UNIT {
        let w: u128 = u / RATE_UNIT;
        proof {
            lemma_power_divides(RATE_UNIT as nat, u as nat);
            assert((rounded * u) / (RATE_UNIT as int) == rounded * w) by (nonlinear_arith)
                requires
                    u == RATE_UNIT * w,
                    RATE_UNIT > 0,
            ;
        }
        if rounded > u128::MAX / w {
            assert(rounded * w > u128::MAX) by (nonlinear_arith)
                requires
                    rounded > u128::MAX / w,
                    w >= 1,
            ;
            u128::MAX
        } else {
            assert(rounded * w <= u128::MAX) by (nonlinear_arith)
                requires
                    rounded <= u128::MAX / w,
                    w >= 1,
            ;
            rounded * w
        }
    } else {
        let w: u128 = RATE_UNIT / u;
        proof {
            lemma_power_divides(u as nat, RATE_UNIT as nat);
            assert((rounded * u) / (RATE_UNIT as int) == rounded / w) by {
                vstd::arithmetic::div_mod::lemma_div_multiples_vanish_quotient(
                    u as int,
                    rounded as int,
                    w as int,
                );
                assert(u * rounded == rounded * u) by (nonlinear_arith);
            }
        }
        rounded / w
    }
}

/// The slippage as the banner shows it, in whole percent.
///
/// The factor is a little below 1.15, so its excess over 1 is a little below 15
/// percent and is cut.
pub fn slippage_percent() -> (percent: u128)
    ensures
        percent == (RATE - RATE_UNIT) * 100 / RATE_UNIT as int,
        percent == 14,
{
    (RATE - RATE_UNIT) * 100 / RATE_UNIT
}

} // verus!

//! Whole numbers and their ratios as double-precision floats hold them: rounded
//! to 53 significant bits, ties to even.

use vstd::prelude::*;

verus! {

/// Two to the 53rd: below it, every whole number is a double.
pub const PRECISION: u128 = 0x20_0000_0000_0000;

/// `num / den` rounded to a whole number, ties to even.
pub open spec fn to_even(num: nat, den: nat) -> nat {
    let (q, r) = (num / den, num % den);
    if 2 * r < den || (2 * r == den && q % 2 == 0) {
        q
    } else {
        q + 1
    }
}

/// The distance of the doubles around `n`.
pub open spec fn ulp(n: nat) -> nat
    decreases n,
{
    if n < PRECISION {
        1
    } else {
        2 * ulp(n / 2)
    }
}

/// The double nearest to `n`.
pub open spec fn nearest(n: nat) -> nat {
    to_even(n, ulp(n)) * ulp(n)
}

/// The power of two that lifts `d / t` to 53 significant bits.
pub open spec fn lift(d: nat, t: nat) -> nat
    decreases
            if d < 0x10_0000_0000_0000 * t {
                0x10_0000_0000_0000 * t - d
            } else {
                0
            },
{
    if d == 0 || d >= 0x10_0000_0000_0000 * t {
        1
    } else {
        2 * lift(2 * d, t)
    }
}

/// The double nearest to `d / t`, lifted to a whole number.
pub open spec fn ratio(d: nat, t: nat) -> nat {
    to_even(d * lift(d, t), t)
}

/// `n / den` rounded to a whole number, ties away from zero.
pub open spec fn to_nearest(n: nat, den: nat) -> nat {
    (2 * n + den) / (2 * den)
}

/// The whole number nearest to `d / t * n`, every step of it taken in doubles.
pub open spec fn share_of(d: nat, t: nat, n: nat) -> nat {
    to_nearest(nearest(ratio(d, t) * n), lift(d, t))
}

pub(crate) fn round_to_even(num: u128, den: u128) -> (r: u128)
    requires
        0 < den < 0x1_0000_0000_0000_0000_0000_0000_0000,
        num < 0x1_0000_0000_0000_0000_0000_0000_0000_000,
    ensures
        r == to_even(num as nat, den as nat),
{
    let q = num / den;
    let rest = num % den;
    if 2 * rest < den || (2 * rest == den && q % 2 == 0) {
        q
    } else {
        q + 1
    }
}

proof fn lemma_halve(u: nat, rest: nat, n: nat)
    requires
        u * rest <= n,
    ensures
        (2 * u) * (rest / 2) <= n,
{
    assert((2 * u) * (rest / 2) <= u * rest) by (nonlinear_arith)
        requires
            2 * (rest / 2) <= rest,
            u >= 0,
    ;
}

/// `ulp(n)` is positive, and `n` holds at most twice 2^52 of it.
pub proof fn lemma_ulp(n: nat)
    ensures
        ulp(n) >= 1,
        ulp(n) > 1 ==> n >= ulp(n) * 0x10_0000_0000_0000,
        n < ulp(n) * PRECISION,
    decreases n,
{
    if n >= PRECISION {
        lemma_ulp(n / 2);
    }
}

pub(crate) fn ulp_of(n: u128) -> (r: u128)
    requires
        n < 0x1_0000_0000_0000_0000_0000_0000_0000_00,
    ensures
        r == ulp(n as nat),
        1 <= r <= n || r == 1,
        r <= 0x10_0000_0000_0000_0000_0000,
{
    let mut u: u128 = 1;
    let mut rest: u128 = n;
    while rest >= PRECISION
        invariant
            ulp(n as nat) == u * ulp(rest as nat),
            u * rest <= n,
            u >= 1,
            n < 0x1_0000_0000_0000_0000_0000_0000_0000_00,
        decreases rest,
    {
        proof {
            lemma_halve(u as nat, rest as nat, n as nat);
            assert(u * ulp(rest as nat) == (2 * u) * ulp((rest / 2) as nat)) by (nonlinear_arith)
                requires
                    ulp(rest as nat) == 2 * ulp((rest / 2) as nat),
            ;
            assert(u * PRECISION <= u * rest) by (nonlinear_arith)
                requires
                    PRECISION <= rest,
                    u >= 1,
            ;
        }
        rest = rest / 2;
        u = 2 * u;
    }
    proof {
        lemma_ulp(n as nat);
        assert(u * ulp(rest as nat) == u) by (nonlinear_arith)
            requires
                ulp(rest as nat) == 1,
        ;
    }
    u
}

/// The double nearest to a whole number.
pub(crate) fn nearest_double(n: u128) -> (r: u128)
    requires
        n < 0x1_0000_0000_0000_0000_0000_0000_0000_00,
    ensures
        r == nearest(n as nat),
        r <= 2 * n,
        n < PRECISION ==> r == n,
{
    let u = ulp_of(n);
    proof {
        lemma_nearest_bounds(n as nat);
    }
    let q = round_to_even(n, u);
    assert(q * u == nearest(n as nat));
    q * u
}

/// Rounding moves a number by no more than itself, and moves no number that
/// fits.
pub proof fn lemma_nearest_bounds(n: nat)
    ensures
        nearest(n) <= 2 * n,
        n < PRECISION ==> nearest(n) == n,
        nearest(n) >= n - ulp(n),
{
    lemma_ulp(n);
    let u = ulp(n);
    let (q, r) = (n / u, n % u);
    assert(n == u * q + r && 0 <= r < u) by (nonlinear_arith)
        requires
            q == n / u,
            r == n % u,
            u >= 1,
    ;
    assert(q * u == u * q) by (nonlinear_arith);
    assert((q + 1) * u == u * q + u) by (nonlinear_arith);
    if u == 1 {
        assert(q == n && r == 0) by (nonlinear_arith)
            requires
                n == u * q + r,
                u == 1,
                0 <= r < u,
        ;
    }
}

/// A power of two.
pub open spec fn is_power(n: nat) -> bool
    decreases n,
{
    n == 1 || (n > 1 && n % 2 == 0 && is_power(n / 2))
}

/// A lift is a power of two.
pub proof fn lemma_lift(d: nat, t: nat)
    requires
        t > 0,
    ensures
        is_power(lift(d, t)),
        lift(d, t) >= 1,
    decreases
            if d < 0x10_0000_0000_0000 * t {
                0x10_0000_0000_0000 * t - d
            } else {
                0
            },
{
    if d != 0 && d < 0x10_0000_0000_0000 * t {
        lemma_lift(2 * d, t);
        let more = lift(2 * d, t);
        assert((2 * more) / 2 == more);
    }
}

/// Where 53 bits reach past `x`, they are made of whole steps around `x`.
proof fn lemma_steps(x: nat, power: nat) -> (c: nat)
    requires
        is_power(power),
        x < PRECISION * power,
    ensures
        power == c * ulp(x),
    decreases power,
{
    if x < PRECISION {
        assert(power * 1 == power);
        power
    } else {
        let half = power / 2;
        assert(power != 1);
        let c = lemma_steps(x / 2, half);
        assert(c * (2 * ulp(x / 2)) == 2 * (c * ulp(x / 2))) by (nonlinear_arith);
        c
    }
}

/// Rounding never passes a multiple of the steps.
proof fn lemma_nearest_at_most(x: nat, k: nat)
    requires
        x <= k * ulp(x),
    ensures
        nearest(x) <= k * ulp(x),
{
    lemma_ulp(x);
    let u = ulp(x);
    let (q, r) = (x / u, x % u);
    assert(x == u * q + r && 0 <= r < u) by (nonlinear_arith)
        requires
            q == x / u,
            r == x % u,
            u >= 1,
    ;
    if q > k {
        assert(u * q >= u * (k + 1)) by (nonlinear_arith)
            requires
                q >= k + 1,
                u >= 1,
        ;
        assert(u * (k + 1) == k * u + u) by (nonlinear_arith);
    }
    if q == k {
        assert(u * q == k * u) by (nonlinear_arith)
            requires
                q == k,
        ;
        assert(r == 0);
        assert(to_even(x, u) == q);
    } else {
        assert(to_even(x, u) <= k);
        assert(to_even(x, u) * u <= k * u) by (nonlinear_arith)
            requires
                to_even(x, u) <= k,
                u >= 1,
        ;
    }
}

/// A part of a whole of `n` is never more than `n`.
pub proof fn lemma_share_at_most(d: nat, t: nat, n: nat)
    requires
        0 < d <= t,
        n < PRECISION,
    ensures
        share_of(d, t, n) <= n,
{
    lemma_lift(d, t);
    let l = lift(d, t);
    let m = ratio(d, t);
    let (q, r) = ((d * l) / t, (d * l) % t);
    assert(m <= l) by {
        assert(d * l <= t * l) by (nonlinear_arith)
            requires
                d <= t,
        ;
        assert(d * l == t * q + r && 0 <= r < t) by (nonlinear_arith)
            requires
                q == (d * l) / t,
                r == (d * l) % t,
                t > 0,
        ;
        if q > l {
            assert(t * q >= t * l + t) by (nonlinear_arith)
                requires
                    q >= l + 1,
                    t > 0,
            ;
        }
        if q == l {
            assert(t * q == t * l) by (nonlinear_arith)
                requires
                    q == l,
            ;
            assert(r == 0);
        }
    }
    assert(m * n <= l * n) by (nonlinear_arith)
        requires
            m <= l,
    ;
    assert(l * n < PRECISION * l) by (nonlinear_arith)
        requires
            n < PRECISION,
            l >= 1,
    ;
    let c = lemma_steps(m * n, l);
    assert(l * n == (c * n) * ulp(m * n)) by (nonlinear_arith)
        requires
            l == c * ulp(m * n),
    ;
    lemma_nearest_at_most(m * n, c * n);
    let near = nearest(m * n);
    assert((2 * near + l) / (2 * l) <= n) by (nonlinear_arith)
        requires
            near <= l * n,
            l >= 1,
    ;
}

/// Rounding keeps the order.
pub proof fn lemma_nearest_monotone(a: nat, b: nat)
    requires
        a <= b,
    ensures
        nearest(a) <= nearest(b),
{
    lemma_ulp(a);
    lemma_ulp(b);
    let (u, v) = (ulp(a), ulp(b));
    lemma_ulp_power(b);
    lemma_ulp_monotone(a, b);
    if u == v {
        lemma_to_even_monotone(a, b, u);
        assert(to_even(a, u) * u <= to_even(b, u) * u) by (nonlinear_arith)
            requires
                to_even(a, u) <= to_even(b, u),
                u >= 1,
        ;
    } else {
        // The numbers lie on two sides of a power of two, and both round no
        // further than to it.
        let half = v / 2;
        lemma_ulp_half(a, b);
        let edge = PRECISION as nat * half;
        let c = lemma_steps(a, half);
        assert(a <= edge);
        assert(edge == (PRECISION * c) * u) by (nonlinear_arith)
            requires
                half == c * u,
                edge == PRECISION * half,
        ;
        lemma_nearest_at_most(a, (PRECISION * c) as nat);
        assert(v == 2 * half);
        assert(edge == 0x10_0000_0000_0000 * v);
        lemma_nearest_at_least(b, 0x10_0000_0000_0000);
    }
}

/// The distance of doubles is a power of two.
proof fn lemma_ulp_power(n: nat)
    ensures
        is_power(ulp(n)),
    decreases n,
{
    if n >= PRECISION {
        lemma_ulp_power(n / 2);
        assert((2 * ulp(n / 2)) / 2 == ulp(n / 2));
        lemma_ulp(n / 2);
    }
}

proof fn lemma_ulp_monotone(a: nat, b: nat)
    requires
        a <= b,
    ensures
        ulp(a) <= ulp(b),
    decreases b,
{
    lemma_ulp(b);
    if a >= PRECISION {
        lemma_ulp_monotone(a / 2, b / 2);
    }
}

/// Where the distances differ, the smaller number lies below the edge at which
/// the larger one's distance begins.
proof fn lemma_ulp_half(a: nat, b: nat)
    requires
        a <= b,
        ulp(a) != ulp(b),
    ensures
        ulp(b) % 2 == 0,
        is_power(ulp(b) / 2),
        a < PRECISION * (ulp(b) / 2),
    decreases b,
{
    lemma_ulp_power(b);
    lemma_ulp(a);
    lemma_ulp(b);
    lemma_ulp_monotone(a, b);
    assert(b >= PRECISION);
    if a >= PRECISION {
        lemma_ulp_half(a / 2, b / 2);
        let h = ulp(b / 2) / 2;
        assert(ulp(b) / 2 == 2 * h);
    } else {
        lemma_ulp_power(b / 2);
        lemma_ulp(b / 2);
        assert(ulp(b) / 2 == ulp(b / 2));
    }
}

proof fn lemma_to_even_monotone(a: nat, b: nat, u: nat)
    requires
        a <= b,
        u >= 1,
    ensures
        to_even(a, u) <= to_even(b, u),
{
    let (p, r) = (a / u, a % u);
    let (q, s) = (b / u, b % u);
    assert(a == u * p + r && 0 <= r < u) by (nonlinear_arith)
        requires
            p == a / u,
            r == a % u,
            u >= 1,
    ;
    assert(b == u * q + s && 0 <= s < u) by (nonlinear_arith)
        requires
            q == b / u,
            s == b % u,
            u >= 1,
    ;
    if p > q {
        assert(u * p >= u * q + u) by (nonlinear_arith)
            requires
                p >= q + 1,
                u >= 1,
        ;
    }
    if p == q {
        assert(u * p == u * q);
        assert(r <= s);
    }
}

/// Rounding never falls below a multiple of the steps.
proof fn lemma_nearest_at_least(x: nat, k: nat)
    requires
        k * ulp(x) <= x,
    ensures
        nearest(x) >= k * ulp(x),
{
    lemma_ulp(x);
    let u = ulp(x);
    let (q, r) = (x / u, x % u);
    assert(x == u * q + r && 0 <= r < u) by (nonlinear_arith)
        requires
            q == x / u,
            r == x % u,
            u >= 1,
    ;
    if q < k {
        assert(u * k >= u * q + u) by (nonlinear_arith)
            requires
                k >= q + 1,
                u >= 1,
        ;
        assert(k * u == u * k) by (nonlinear_arith);
    }
    assert(to_even(x, u) * u >= k * u) by (nonlinear_arith)
        requires
            to_even(x, u) >= k,
            u >= 1,
    ;
}

/// A lifted ratio has 53 bits.
proof fn lemma_lifted(d: nat, t: nat)
    requires
        0 < d < 0x10_0000_0000_0000 * t,
    ensures
        0x10_0000_0000_0000 * t <= d * lift(d, t) < PRECISION * t,
    decreases 0x10_0000_0000_0000 * t - d,
{
    let more = lift(2 * d, t);
    assert(d * (2 * more) == (2 * d) * more) by (nonlinear_arith);
    if 2 * d < 0x10_0000_0000_0000 * t {
        lemma_lifted(2 * d, t);
    } else {
        assert((2 * d) * more == 2 * d) by (nonlinear_arith)
            requires
                more == 1,
        ;
    }
}

/// The mantissa of a ratio lies between 2^52 and 2^53.
proof fn lemma_mantissa(d: nat, t: nat)
    requires
        0 < d < 0x10_0000_0000_0000 * t,
    ensures
        0x10_0000_0000_0000 <= ratio(d, t) <= PRECISION,
{
    lemma_lifted(d, t);
    let x = d * lift(d, t);
    let (q, r) = (x / t, x % t);
    assert(x == t * q + r && 0 <= r < t) by (nonlinear_arith)
        requires
            q == x / t,
            r == x % t,
            t > 0,
    ;
    assert(0x10_0000_0000_0000 <= q < PRECISION) by (nonlinear_arith)
        requires
            x == t * q + r,
            0 <= r < t,
            0x10_0000_0000_0000 * t <= x < PRECISION * t,
            PRECISION == 0x20_0000_0000_0000,
    ;
}

/// A smaller ratio is lifted by as much, or by a power of two more.
proof fn lemma_lift_order(a: nat, b: nat, t: nat) -> (c: nat)
    requires
        0 < a <= b,
        t > 0,
    ensures
        is_power(c),
        lift(a, t) == c * lift(b, t),
    decreases
            if b < 0x10_0000_0000_0000 * t {
                0x10_0000_0000_0000 * t - b
            } else {
                0
            },
{
    if b >= 0x10_0000_0000_0000 * t {
        lemma_lift(a, t);
        assert(lift(a, t) * lift(b, t) == lift(a, t)) by (nonlinear_arith)
            requires
                lift(b, t) == 1,
        ;
        lift(a, t)
    } else {
        let c = lemma_lift_order(2 * a, 2 * b, t);
        assert(2 * (c * lift(2 * b, t)) == c * (2 * lift(2 * b, t))) by (nonlinear_arith);
        c
    }
}

/// Doubling is exact.
proof fn lemma_nearest_doubles(x: nat)
    ensures
        nearest(2 * x) == 2 * nearest(x),
{
    lemma_ulp(x);
    if x >= PRECISION {
        let u = ulp(x);
        assert((2 * x) / 2 == x);
        assert(ulp(2 * x) == 2 * u);
        lemma_to_even_cancels(x, u);
        assert(to_even(x, u) * (2 * u) == 2 * (to_even(x, u) * u)) by (nonlinear_arith);
    } else if 2 * x >= PRECISION {
        assert((2 * x) / 2 == x);
        assert(ulp(2 * x) == 2);
        assert(to_even(2 * x, 2) == x);
        lemma_nearest_bounds(x);
    } else {
        lemma_nearest_bounds(x);
        lemma_nearest_bounds(2 * x);
    }
}

proof fn lemma_to_even_cancels(x: nat, u: nat)
    requires
        u >= 1,
    ensures
        to_even(2 * x, 2 * u) == to_even(x, u),
{
    assert((2 * x) / (2 * u) == x / u && (2 * x) % (2 * u) == 2 * (x % u)) by {
        let (q, r) = (x / u, x % u);
        assert(x == u * q + r && 0 <= r < u) by (nonlinear_arith)
            requires
                q == x / u,
                r == x % u,
                u >= 1,
        ;
        assert(2 * x == (2 * u) * q + 2 * r) by (nonlinear_arith)
            requires
                x == u * q + r,
        ;
        vstd::arithmetic::div_mod::lemma_fundamental_div_mod_converse(
            (2 * x) as int,
            (2 * u) as int,
            q as int,
            (2 * r) as int,
        );
    }
}

/// A power of two is exact.
proof fn lemma_nearest_scales(c: nat, x: nat)
    requires
        is_power(c),
    ensures
        nearest(c * x) == c * nearest(x),
    decreases c,
{
    if c == 1 {
        assert(c * x == x && c * nearest(x) == nearest(x)) by (nonlinear_arith)
            requires
                c == 1,
        ;
    } else {
        let half = c / 2;
        lemma_nearest_scales(half, x);
        lemma_nearest_doubles(half * x);
        assert(c * x == 2 * (half * x)) by (nonlinear_arith)
            requires
                c == 2 * half,
        ;
        assert(c * nearest(x) == 2 * (half * nearest(x))) by (nonlinear_arith)
            requires
                c == 2 * half,
        ;
    }
}

/// A larger part of a whole is no smaller number of it.
pub proof fn lemma_share_monotone(a: nat, b: nat, t: nat, n: nat)
    requires
        0 < a <= b,
        b < 0x10_0000_0000_0000 * t,
    ensures
        share_of(a, t, n) <= share_of(b, t, n),
{
    let c = lemma_lift_order(a, b, t);
    lemma_lift(a, t);
    lemma_lift(b, t);
    lemma_mantissa(a, t);
    lemma_mantissa(b, t);
    let (la, lb) = (lift(a, t), lift(b, t));
    let (ma, mb) = (ratio(a, t), ratio(b, t));
    assert(ma <= c * mb) by {
        if c == 1 {
            assert(la == lb) by (nonlinear_arith)
                requires
                    la == c * lb,
                    c == 1,
            ;
            assert(a * la <= b * lb) by (nonlinear_arith)
                requires
                    la == lb,
                    a <= b,
            ;
            lemma_to_even_monotone(a * la, b * lb, t);
            assert(c * mb == mb) by (nonlinear_arith)
                requires
                    c == 1,
            ;
        } else {
            assert(c * mb >= PRECISION) by (nonlinear_arith)
                requires
                    c >= 2,
                    mb >= 0x10_0000_0000_0000,
                    PRECISION == 0x20_0000_0000_0000,
            ;
        }
    }
    assert(ma * n <= c * (mb * n)) by (nonlinear_arith)
        requires
            ma <= c * mb,
    ;
    lemma_nearest_monotone(ma * n, c * (mb * n));
    lemma_nearest_scales(c, mb * n);
    let (qa, qb) = (nearest(ma * n), nearest(mb * n));
    assert(c >= 1);
    assert(2 * qa + la <= c * (2 * qb + lb)) by (nonlinear_arith)
        requires
            qa <= c * qb,
            la == c * lb,
    ;
    assert(2 * la == c * (2 * lb)) by (nonlinear_arith)
        requires
            la == c * lb,
    ;
    let (x, y) = ((2 * qb + lb) as int, (2 * lb) as int);
    vstd::arithmetic::div_mod::lemma_div_is_ordered(
        (2 * qa + la) as int,
        c * x,
        (2 * la) as int,
    );
    vstd::arithmetic::div_mod::lemma_div_denominator(c * x, c as int, y);
    vstd::arithmetic::div_mod::lemma_div_by_multiple(x, c as int);
    assert(c * x == x * c) by (nonlinear_arith);
}

/// The whole number nearest to `d / t * n`, every step of it taken in doubles.
pub(crate) fn share(d: u128, t: u128, n: u128) -> (r: u128)
    requires
        0 < d <= 0x2_0000_0000_0000_0000,
        0 < t <= 0x2_0000_0000_0000_0000,
        n <= 0x2_0000_0000_0000_0000,
        d < 0x10_0000_0000_0000 * t,
    ensures
        r == share_of(d as nat, t as nat, n as nat),
{
    let bound: u128 = 0x10_0000_0000_0000 * t;
    let mut x: u128 = d;
    let mut u: u128 = 1;
    while x < bound
        invariant
            0 < d,
            0 < t <= 0x2_0000_0000_0000_0000,
            bound == 0x10_0000_0000_0000 * t,
            lift(d as nat, t as nat) == u * lift(x as nat, t as nat),
            x == d * u,
            1 <= u <= x,
            x < 2 * bound,
        decreases 2 * bound - x,
    {
        proof {
            let more = lift((2 * x) as nat, t as nat);
            assert(u * (2 * more) == (2 * u) * more) by (nonlinear_arith);
            assert(2 * (d * u) == d * (2 * u)) by (nonlinear_arith);
        }
        x = 2 * x;
        u = 2 * u;
    }
    proof {
        assert(u * lift(x as nat, t as nat) == u) by (nonlinear_arith)
            requires
                lift(x as nat, t as nat) == 1,
        ;
    }
    let m = round_to_even(x, t);
    proof {
        let (q, rest) = (x as nat / t as nat, x as nat % t as nat);
        assert(x == t * q + rest && 0 <= rest < t) by (nonlinear_arith)
            requires
                q == x as nat / t as nat,
                rest == x as nat % t as nat,
                t > 0,
        ;
        if q >= PRECISION {
            assert(t * q >= t * PRECISION) by (nonlinear_arith)
                requires
                    q >= PRECISION,
                    t > 0,
            ;
        }
        assert(m <= PRECISION);
        assert(m * n <= PRECISION * 0x2_0000_0000_0000_0000) by (nonlinear_arith)
            requires
                m <= PRECISION,
                n <= 0x2_0000_0000_0000_0000,
        ;
    }
    let near = nearest_double(m * n);
    (2 * near + u) / (2 * u)
}

/// All of it is all of it, in doubles too.
pub proof fn lemma_share_of_all(t: nat, n: nat)
    requires
        t > 0,
        n < PRECISION,
    ensures
        share_of(t, t, n) == n,
{
    lemma_lift(t, t);
    let l = lift(t, t);
    assert((t * l) / t == l && (t * l) % t == 0) by (nonlinear_arith)
        requires
            t > 0,
    ;
    assert(ratio(t, t) == l);
    let x = l * n;
    assert(x < PRECISION * l) by (nonlinear_arith)
        requires
            x == l * n,
            n < PRECISION,
            l >= 1,
    ;
    let c = lemma_steps(x, l);
    let u = ulp(x);
    assert(x == (n * c) * u) by (nonlinear_arith)
        requires
            x == l * n,
            l == c * u,
    ;
    lemma_nearest_at_most(x, n * c);
    lemma_nearest_at_least(x, n * c);
    assert((2 * (l * n) + l) / (2 * l) == n) by (nonlinear_arith)
        requires
            l >= 1,
    ;
}

} // verus!

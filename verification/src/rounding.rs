//! Rounding of exact integer ratios to a fixed number of significant bits.
//!
//! Speeds, rates and positions on the screen are ratios of integers that are
//! rounded to binary floating point on the way. The functions here compute the
//! rounded value in integer arithmetic, bit for bit: to nearest, ties to even.

use vstd::prelude::*;

verus! {

/// Two to the number of significant bits of a single precision number.
pub const SINGLE: u64 = 0x100_0000;

/// Two to the number of significant bits of a double precision number.
pub const DOUBLE: u64 = 0x20_0000_0000_0000;

/// The integer nearest to `n / d`, the even one of two that are equally near.
pub open spec fn round_half_even(n: nat, d: nat) -> nat
    recommends
        d > 0,
{
    let q = n / d;
    let r = n % d;
    if 2 * r < d || (2 * r == d && q % 2 == 0) {
        q
    } else {
        q + 1
    }
}

/// The least power of two that lifts `n / d` to at least `limit / 2`, so that
/// the integer part of the product has all the bits that `limit` stands for.
pub open spec fn lift(n: nat, d: nat, limit: nat) -> nat
    decreases
            (if 2 * n < d * limit {
                d * limit - 2 * n
            } else {
                0
            }),
{
    if n == 0 || 2 * n >= d * limit {
        1
    } else {
        2 * lift(2 * n, d, limit)
    }
}

/// The least power of two that brings `n` below `limit` by whole division.
pub open spec fn unit(n: nat, limit: nat) -> nat
    decreases n,
{
    if n < limit || n == 0 {
        1
    } else {
        2 * unit(n / 2, limit)
    }
}

/// `n` rounded to as many significant bits as `limit` stands for.
pub open spec fn rounded(n: nat, limit: nat) -> nat {
    round_half_even(n, unit(n, limit)) * unit(n, limit)
}

/// The quotient `n / d` rounded to as many significant bits as `limit` stands
/// for, as a numerator over `lift(n, d, limit)`.
pub open spec fn quotient(n: nat, d: nat, limit: nat) -> nat {
    round_half_even(n * lift(n, d, limit), d)
}

/// A power of two.
pub open spec fn is_pow2(u: nat) -> bool
    decreases u,
{
    u == 1 || (u > 1 && u % 2 == 0 && is_pow2(u / 2))
}

/// Rounding moves a ratio by no more than a half.
pub proof fn lemma_round_bounds(n: nat, d: nat)
    requires
        d > 0,
    ensures
        2 * (d * round_half_even(n, d)) <= 2 * n + d,
        2 * n <= 2 * (d * round_half_even(n, d)) + d,
{
    let q = n / d;
    let r = n % d;
    assert(n == d * q + r) by {
        vstd::arithmetic::div_mod::lemma_fundamental_div_mod(n as int, d as int);
    }
    assert(d * (q + 1) == d * q + d) by (nonlinear_arith);
}

/// Rounding does not pass an integer that the ratio does not pass.
pub proof fn lemma_round_at_most(n: nat, d: nat, x: nat)
    requires
        d > 0,
        n <= x * d,
    ensures
        round_half_even(n, d) <= x,
{
    let q = n / d;
    let r = n % d;
    assert(n == d * q + r && r < d) by {
        vstd::arithmetic::div_mod::lemma_fundamental_div_mod(n as int, d as int);
    }
    if q + 1 > x {
        assert(q == x && r == 0) by (nonlinear_arith)
            requires
                d > 0,
                n <= x * d,
                n == d * q + r,
                q + 1 > x,
        ;
    }
}

/// Rounding does not fall short of an integer that the ratio reaches.
pub proof fn lemma_round_at_least(n: nat, d: nat, x: nat)
    requires
        d > 0,
        x * d <= n,
    ensures
        x <= round_half_even(n, d),
{
    let q = n / d;
    let r = n % d;
    assert(n == d * q + r && r < d) by {
        vstd::arithmetic::div_mod::lemma_fundamental_div_mod(n as int, d as int);
    }
    assert(x <= q) by (nonlinear_arith)
        requires
            d > 0,
            x * d <= n,
            n == d * q + r,
            r < d,
    ;
}

/// Rounding keeps the order.
pub proof fn lemma_round_grows(m: nat, n: nat, d: nat)
    requires
        d > 0,
        m <= n,
    ensures
        round_half_even(m, d) <= round_half_even(n, d),
{
    let (p, q) = (m / d, n / d);
    vstd::arithmetic::div_mod::lemma_fundamental_div_mod(m as int, d as int);
    vstd::arithmetic::div_mod::lemma_fundamental_div_mod(n as int, d as int);
    vstd::arithmetic::div_mod::lemma_div_is_ordered(m as int, n as int, d as int);
    if p == q {
        assert(d * p == d * q);
    }
}

/// Bounds of the power of two that a ratio is lifted by.
pub proof fn lemma_lift(n: nat, d: nat, limit: nat)
    requires
        n > 0,
        d > 0,
        limit > 0,
        n < d * limit,
    ensures
        is_pow2(lift(n, d, limit)),
        n * lift(n, d, limit) < d * limit,
        2 * (n * lift(n, d, limit)) >= d * limit,
    decreases
            (if 2 * n < d * limit {
                d * limit - 2 * n
            } else {
                0
            }),
{
    if 2 * n < d * limit {
        lemma_lift(2 * n, d, limit);
        let u = lift(2 * n, d, limit);
        assert(lift(n, d, limit) == 2 * u);
        assert(n * (2 * u) == (2 * n) * u) by (nonlinear_arith);
        assert((2 * u) / 2 == u && (2 * u) % 2 == 0);
    }
}

/// Bounds of the power of two that a number is a multiple of once rounded.
pub proof fn lemma_unit(n: nat, limit: nat)
    requires
        limit > 1,
    ensures
        is_pow2(unit(n, limit)),
        n < limit * unit(n, limit),
        unit(n, limit) > 1 ==> limit * unit(n, limit) <= 2 * n,
    decreases n,
{
    if n >= limit {
        lemma_unit(n / 2, limit);
        let u = unit(n / 2, limit);
        assert(unit(n, limit) == 2 * u);
        assert(limit * (2 * u) == 2 * (limit * u)) by (nonlinear_arith);
        assert((2 * u) / 2 == u && (2 * u) % 2 == 0);
    }
}

/// Of two powers of two the smaller divides the larger.
pub proof fn lemma_pow2_divides(a: nat, b: nat)
    requires
        is_pow2(a),
        is_pow2(b),
        a <= b,
    ensures
        b % a == 0,
        b == a * (b / a),
    decreases b,
{
    if a == 1 {
    } else {
        assert(b > 1);
        lemma_pow2_divides(a / 2, b / 2);
        let k = (b / 2) / (a / 2);
        assert(b == a * k) by (nonlinear_arith)
            requires
                b == 2 * (b / 2),
                a == 2 * (a / 2),
                b / 2 == (a / 2) * k,
        ;
        vstd::arithmetic::div_mod::lemma_fundamental_div_mod_converse(b as int, a as int, k as int, 0);
    }
}

/// Rounding to the bits of `limit` does not pass a number that has no more
/// bits than that.
pub proof fn lemma_rounded_at_most(n: nat, c: nat, u: nat, limit: nat)
    requires
        limit > 1,
        c < limit,
        is_pow2(u),
        n <= c * u,
    ensures
        rounded(n, limit) <= c * u,
{
    lemma_unit(n, limit);
    let w = unit(n, limit);
    if w <= u {
        lemma_pow2_divides(w, u);
        let k = u / w;
        assert(c * u == (c * k) * w) by (nonlinear_arith)
            requires
                u == w * k,
        ;
        lemma_round_at_most(n, w, c * k);
        assert(round_half_even(n, w) * w <= (c * k) * w) by (nonlinear_arith)
            requires
                round_half_even(n, w) <= c * k,
        ;
    } else {
        lemma_pow2_divides(u, w);
        let k = w / u;
        assert(false) by (nonlinear_arith)
            requires
                w == u * k,
                w > u,
                u > 0,
                limit * w <= 2 * n,
                n <= c * u,
                c < limit,
        ;
    }
}

/// Numbers of no more bits than `limit` stands for, times a power of two, are
/// left as they are.
pub proof fn lemma_rounded_representable(c: nat, u: nat, limit: nat)
    requires
        limit > 1,
        c < limit,
        is_pow2(u),
    ensures
        rounded(c * u, limit) == c * u,
{
    let n = c * u;
    lemma_unit(n, limit);
    let w = unit(n, limit);
    if w <= u {
        lemma_pow2_divides(w, u);
        let k = u / w;
        assert(n == (c * k) * w) by (nonlinear_arith)
            requires
                n == c * u,
                u == w * k,
        ;
        assert(n == w * (c * k)) by (nonlinear_arith)
            requires
                n == (c * k) * w,
        ;
        vstd::arithmetic::div_mod::lemma_fundamental_div_mod_converse(
            n as int,
            w as int,
            (c * k) as int,
            0,
        );
    } else {
        lemma_pow2_divides(u, w);
        let k = w / u;
        assert(false) by (nonlinear_arith)
            requires
                w == u * k,
                w > u,
                u > 0,
                limit * w <= 2 * n,
                n == c * u,
                c < limit,
        ;
    }
}

/// Numbers of no more bits than `limit` stands for are left as they are.
pub proof fn lemma_rounded_exact(n: nat, limit: nat)
    requires
        n < limit,
    ensures
        rounded(n, limit) == n,
{
    assert(unit(n, limit) == 1);
    assert(n / 1 == n && n % 1 == 0);
}

/// Rounding to the bits of `limit` keeps the order.
pub proof fn lemma_rounded_grows(m: nat, n: nat, limit: nat)
    requires
        limit > 1,
        limit % 2 == 0,
        m <= n,
    ensures
        rounded(m, limit) <= rounded(n, limit),
{
    let (u, w) = (unit(m, limit), unit(n, limit));
    lemma_unit(m, limit);
    lemma_unit(n, limit);
    let (a, b) = (round_half_even(m, u), round_half_even(n, w));
    if u == w {
        lemma_round_grows(m, n, u);
        assert(a * u <= b * w) by (nonlinear_arith)
            requires
                a <= b,
                u == w,
        ;
    } else if u < w {
        lemma_pow2_divides(u, w);
        let k = w / u;
        let half = limit / 2;
        lemma_round_at_most(m, u, limit);
        assert(half * w <= n) by (nonlinear_arith)
            requires
                limit == 2 * half,
                limit * w <= 2 * n,
        ;
        lemma_round_at_least(n, w, half);
        assert(a * u <= b * w) by (nonlinear_arith)
            requires
                a <= limit,
                limit == 2 * half,
                half <= b,
                w == u * k,
                u < w,
        ;
    } else {
        lemma_pow2_divides(w, u);
        let k = u / w;
        assert(false) by (nonlinear_arith)
            requires
                u == w * k,
                u > w,
                w > 0,
                limit * u <= 2 * m,
                m <= n,
                n < limit * w,
        ;
    }
}

/// Computes [`round_half_even`].
pub fn divide_to_nearest(n: u128, d: u128) -> (r: u128)
    requires
        0 < d < 0x8000_0000_0000_0000_0000_0000_0000_0000,
        n < 0x8000_0000_0000_0000_0000_0000_0000_0000,
    ensures
        r == round_half_even(n as nat, d as nat),
        r <= n + 1,
{
    let q: u128 = n / d;
    let rest: u128 = n % d;
    proof {
        assert(q <= n) by {
            vstd::arithmetic::div_mod::lemma_div_is_ordered_by_denominator(n as int, 1, d as int);
        }
    }
    if 2 * rest < d || (2 * rest == d && q % 2 == 0) {
        q
    } else {
        q + 1
    }
}

/// Computes [`rounded`].
pub fn round_to(n: u128, limit: u64) -> (r: u128)
    requires
        limit > 1,
        n < 0x100_0000_0000_0000_0000_0000_0000_0000,
    ensures
        r == rounded(n as nat, limit as nat),
        2 * r <= 3 * n,
        n <= 2 * r,
{
    let mut rest: u128 = n;
    let mut step: u128 = 1;
    while rest >= limit as u128
        invariant
            limit > 1,
            n < 0x100_0000_0000_0000_0000_0000_0000_0000,
            step >= 1,
            rest >= 1 || n == 0,
            step * rest <= n,
            n == 0 ==> step == 1,
            unit(n as nat, limit as nat) == step * unit(rest as nat, limit as nat),
        decreases rest,
    {
        assert(step * rest >= step) by (nonlinear_arith)
            requires
                rest >= 1,
                step >= 1,
        ;
        assert((2 * step) * (rest / 2) <= step * rest) by (nonlinear_arith);
        assert(step * (2 * unit((rest / 2) as nat, limit as nat)) == (2 * step) * unit(
            (rest / 2) as nat,
            limit as nat,
        )) by (nonlinear_arith);
        rest = rest / 2;
        step = step * 2;
    }
    proof {
        let one = unit(rest as nat, limit as nat);
        assert(step * one == step) by (nonlinear_arith)
            requires
                one == 1,
        ;
        if n > 0 {
            assert(step * rest >= step) by (nonlinear_arith)
                requires
                    rest >= 1,
                    step >= 1,
            ;
        }
        lemma_unit(n as nat, limit as nat);
        lemma_round_bounds(n as nat, step as nat);
    }
    let q: u128 = divide_to_nearest(n, step);
    assert(q * step == step * q) by (nonlinear_arith);
    proof {
        if n == 0 {
            assert(q == 0);
        }
    }
    q * step
}

/// Computes [`quotient`] and the power of two that it is a numerator over.
pub fn divide_to(n: u128, d: u128, limit: u64) -> (r: (u128, u128))
    requires
        limit > 1,
        0 < d <= 0x2_0000_0000_0000_0000,
        limit <= DOUBLE,
        n < d * limit,
    ensures
        r.0 == quotient(n as nat, d as nat, limit as nat),
        r.1 == lift(n as nat, d as nat, limit as nat),
        r.1 >= 1,
        r.0 <= limit,
        n * r.1 < d * limit,
        r.1 <= d * limit,
{
    let mut num: u128 = n;
    let mut scale: u128 = 1;
    assert(d * limit <= 0x40_0000_0000_0000_0000_0000_0000_0000) by (nonlinear_arith)
        requires
            0 < d <= 0x2_0000_0000_0000_0000,
            limit <= 0x20_0000_0000_0000,
    ;
    if n > 0 {
        let top: u128 = d * limit as u128;
        assert(top == d * limit);
        while 2 * num < top
            invariant
                top == d * limit,
                top <= 0x40_0000_0000_0000_0000_0000_0000_0000,
                num > 0,
                num < top,
                scale >= 1,
                num == n * scale,
                n > 0,
                lift(n as nat, d as nat, limit as nat) == scale * lift(
                    num as nat,
                    d as nat,
                    limit as nat,
                ),
            decreases top - num,
        {
            assert(scale <= num) by (nonlinear_arith)
                requires
                    num == n * scale,
                    n > 0,
            ;
            assert(n * (scale * 2) == (n * scale) * 2) by (nonlinear_arith);
            assert(scale * (2 * lift((2 * num) as nat, d as nat, limit as nat)) == (scale * 2)
                * lift((2 * num) as nat, d as nat, limit as nat)) by (nonlinear_arith);
            num = num * 2;
            scale = scale * 2;
        }
        assert(scale <= num) by (nonlinear_arith)
            requires
                num == n * scale,
                n > 0,
        ;
        proof {
            let one = lift(num as nat, d as nat, limit as nat);
            assert(scale * one == scale) by (nonlinear_arith)
                requires
                    one == 1,
            ;
        }
    }
    proof {
        assert(limit * d == d * limit) by (nonlinear_arith);
        lemma_round_at_most(num as nat, d as nat, limit as nat);
        assert(lift(n as nat, d as nat, limit as nat) == scale);
        assert((n as nat) * (scale as nat) == num as nat);
    }
    (divide_to_nearest(num, d), scale)
}

/// Rounding a ratio gives an integer that is no further away than any other; of
/// two that are equally near, the even one.
pub proof fn law_round_to_nearest(n: nat, d: nat, other: nat)
    requires
        d > 0,
    ensures
        ({
            let off = n - d * round_half_even(n, d);
            let other_off = n - d * other;
            &&& -d <= 2 * off <= d
            &&& (2 * off == d || 2 * off == -d) ==> round_half_even(n, d) % 2 == 0
            &&& off <= other_off || off <= -other_off
            &&& -off <= other_off || -off <= -other_off
        }),
{
    lemma_round_bounds(n, d);
    let q = n / d;
    let r = n % d;
    vstd::arithmetic::div_mod::lemma_fundamental_div_mod(n as int, d as int);
    assert(d * (q + 1) == d * q + d) by (nonlinear_arith);
    let c = round_half_even(n, d);
    if other > c {
        assert(d * other >= d * c + d) by (nonlinear_arith)
            requires
                other >= c + 1,
        ;
    } else if other < c {
        assert(d * other + d <= d * c) by (nonlinear_arith)
            requires
                other + 1 <= c,
        ;
    }
}

/// Rounding to the bits of `limit` gives a number of so many bits, times a power
/// of two, and no number of that kind is nearer.
pub proof fn law_rounded_is_nearest(n: nat, limit: nat, c: nat, u: nat)
    requires
        limit > 1,
        limit % 2 == 0,
        c < limit,
        is_pow2(u),
    ensures
        exists|m: nat, w: nat|
            m <= limit && is_pow2(w) && #[trigger] (m * w) == rounded(n, limit),
        ({
            let off = n - rounded(n, limit);
            let other_off = n - c * u;
            &&& off <= other_off || off <= -other_off
            &&& -off <= other_off || -off <= -other_off
        }),
{
    let w = unit(n, limit);
    lemma_unit(n, limit);
    let m = round_half_even(n, w);
    lemma_round_at_most(n, w, limit);
    assert(m * w == rounded(n, limit));
    assert(m * w == w * m) by (nonlinear_arith);
    let half = limit / 2;
    if w <= u {
        lemma_pow2_divides(w, u);
        let k = u / w;
        assert(c * u == w * (c * k)) by (nonlinear_arith)
            requires
                u == w * k,
        ;
        law_round_to_nearest(n, w, c * k);
    } else {
        lemma_pow2_divides(u, w);
        let k = w / u;
        assert(c * u <= w * half) by (nonlinear_arith)
            requires
                c < limit,
                limit == 2 * half,
                w == u * k,
                w > u,
        ;
        assert(w * half <= n) by (nonlinear_arith)
            requires
                limit * w <= 2 * n,
                limit == 2 * half,
        ;
        law_round_to_nearest(n, w, half);
    }
}

/// The rounded quotient has all the bits that `limit` stands for, and differs
/// from the exact one by no more than half of its last bit.
pub proof fn law_quotient_is_nearest(n: nat, d: nat, limit: nat)
    requires
        0 < n < d * limit,
        limit > 1,
        limit % 2 == 0,
    ensures
        limit / 2 <= quotient(n, d, limit) <= limit,
        is_pow2(lift(n, d, limit)),
        ({
            let off = n * lift(n, d, limit) - d * quotient(n, d, limit);
            -d <= 2 * off <= d
        }),
{
    assert(d > 0) by (nonlinear_arith)
        requires
            0 < d * limit,
    ;
    lemma_lift(n, d, limit);
    let u = lift(n, d, limit);
    law_round_to_nearest(n * u, d, 0);
    assert(limit * d == d * limit) by (nonlinear_arith);
    lemma_round_at_most(n * u, d, limit);
    assert((limit / 2) * d <= n * u) by (nonlinear_arith)
        requires
            2 * (n * u) >= d * limit,
            limit % 2 == 0,
    ;
    lemma_round_at_least(n * u, d, limit / 2);
}

} // verus!

//! Single precision samples, given by their bits, as 16-bit samples.
//!
//! The values are taken in units of the smallest positive single precision
//! number, in which every one of them is an integer.

use crate::audio::doubled;
use crate::rounding::{
    is_pow2, lemma_pow2_divides, lemma_round_bounds, lemma_rounded_at_most, lemma_rounded_exact,
    lemma_rounded_grows, lemma_rounded_representable, lemma_unit, round_half_even, round_to, rounded, unit, SINGLE,
};
use vstd::arithmetic::power2::{
    lemma_pow2_adds, lemma_pow2_pos, lemma_pow2_strictly_increases, lemma_pow2_unfold, pow2,
};
use vstd::prelude::*;

verus! {

/// How many bits the units lie below one.
pub const UNIT_BITS: u32 = 149;

/// The value of a single precision number.
pub enum Value {
    /// Not a number.
    Undefined,
    Infinite { negative: bool },
    /// A number of units.
    Finite(int),
}

/// The size of a finite number: its significant bits times a power of two.
pub open spec fn magnitude(bits: u32) -> nat {
    let exponent = (bits / 0x80_0000) % 0x100;
    let fraction = bits % 0x80_0000;
    if exponent == 0 {
        fraction as nat
    } else {
        (fraction + 0x80_0000) as nat * pow2((exponent - 1) as nat)
    }
}

/// The value that bits stand for: a sign, eight bits of exponent, and the
/// fraction.
pub open spec fn decoded(bits: u32) -> Value {
    let negative = bits >= 0x8000_0000;
    if (bits / 0x80_0000) % 0x100 < 0xff {
        Value::Finite(
            if negative {
                -(magnitude(bits) as int)
            } else {
                magnitude(bits) as int
            },
        )
    } else if bits % 0x80_0000 == 0 {
        Value::Infinite { negative }
    } else {
        Value::Undefined
    }
}

/// The size of a number.
pub open spec fn size(n: int) -> nat {
    if n < 0 {
        (-n) as nat
    } else {
        n as nat
    }
}

/// A number rounded to single precision. One that is too large for that is kept
/// as it is.
pub open spec fn to_single(n: int) -> int {
    if n < 0 {
        -(rounded(size(n), SINGLE as nat) as int)
    } else {
        rounded(size(n), SINGLE as nat) as int
    }
}

/// The sum of two values, rounded to single precision.
pub open spec fn sum(a: Value, b: Value) -> Value {
    match (a, b) {
        (Value::Finite(x), Value::Finite(y)) => Value::Finite(to_single(x + y)),
        (Value::Infinite { negative }, Value::Finite(_)) => a,
        (Value::Finite(_), Value::Infinite { negative }) => b,
        (Value::Infinite { negative: x }, Value::Infinite { negative: y }) => if x == y {
            a
        } else {
            Value::Undefined
        },
        _ => Value::Undefined,
    }
}

/// The integer nearest to `n / d`, the larger one of two that are equally near.
pub open spec fn nearest(n: nat, d: nat) -> nat {
    (2 * n + d) / (2 * d)
}

/// The 16-bit sample of a value, where `one` is the value of a full deflection:
/// the value times the largest sample, rounded to single precision, then to the
/// nearest integer, and cut to the range of a sample.
pub open spec fn sample_of(value: Value, one: nat) -> i16 {
    match value {
        Value::Undefined => 0,
        Value::Infinite { negative } => if negative {
            i16::MIN
        } else {
            i16::MAX
        },
        Value::Finite(n) => {
            let m = nearest(rounded(size(n) * i16::MAX as nat, SINGLE as nat), one);
            if n < 0 {
                if m > 32768 {
                    i16::MIN
                } else {
                    (-m) as i16
                }
            } else if m > 32767 {
                i16::MAX
            } else {
                m as i16
            }
        },
    }
}

/// The sample of one channel.
pub open spec fn converted(bits: u32) -> i16 {
    sample_of(decoded(bits), pow2(UNIT_BITS as nat))
}

/// The sample of the mean of two channels: of their sum, with twice the full
/// deflection.
pub open spec fn mean_converted(left: u32, right: u32) -> i16 {
    sample_of(sum(decoded(left), decoded(right)), pow2((UNIT_BITS + 1) as nat))
}

/// The samples of a file of one channel.
pub open spec fn mono_samples(bits: Seq<u32>) -> Seq<i16> {
    bits.map_values(|b: u32| converted(b))
}

/// The samples of a file of two channels, mixed to mono. A last sample without
/// its counterpart is left out.
pub open spec fn stereo_samples(bits: Seq<u32>) -> Seq<i16> {
    Seq::new(bits.len() / 2, |i: int| mean_converted(bits[2 * i], bits[2 * i + 1]))
}

/// A finite value: `significant` times two to the power of `shift`.
#[derive(Clone, Copy, Debug, PartialEq, Eq, Structural)]
struct Scaled {
    negative: bool,
    significant: u64,
    shift: u32,
}

/// A value as it is computed with.
#[derive(Clone, Copy, Debug, PartialEq, Eq, Structural)]
enum Number {
    Undefined,
    Infinite { negative: bool },
    Finite(Scaled),
}

impl Scaled {
    spec fn size(self) -> nat {
        self.significant as nat * pow2(self.shift as nat)
    }

    spec fn value(self) -> int {
        if self.negative {
            -(self.size() as int)
        } else {
            self.size() as int
        }
    }

    /// In the form in which a number is encoded.
    spec fn is_encoded(self) -> bool {
        &&& self.significant < SINGLE
        &&& self.shift > 0 ==> self.significant >= 0x80_0000
        &&& self.shift < 0xff
    }
}

impl Number {
    spec fn value(self) -> Value {
        match self {
            Number::Undefined => Value::Undefined,
            Number::Infinite { negative } => Value::Infinite { negative },
            Number::Finite(s) => Value::Finite(s.value()),
        }
    }
}

proof fn lemma_is_pow2(e: nat)
    ensures
        is_pow2(pow2(e)),
    decreases e,
{
    if e == 0 {
        vstd::arithmetic::power2::lemma2_to64();
    } else {
        lemma_is_pow2((e - 1) as nat);
        lemma_pow2_unfold(e);
        lemma_pow2_pos((e - 1) as nat);
    }
}

/// Doubling commutes with rounding.
proof fn lemma_rounded_double(n: nat)
    ensures
        rounded(2 * n, SINGLE as nat) == 2 * rounded(n, SINGLE as nat),
{
    let s = SINGLE as nat;
    if 2 * n < s {
        lemma_rounded_exact(2 * n, s);
        lemma_rounded_exact(n, s);
    } else {
        let u = unit(n, s);
        assert((2 * n) / 2 == n);
        assert(unit(2 * n, s) == 2 * u);
        lemma_unit(n, s);
        assert(u >= 1);
        vstd::arithmetic::div_mod::lemma_fundamental_div_mod(n as int, u as int);
        let q = n / u;
        let r = n % u;
        assert(2 * n == (2 * u) * q + 2 * r) by (nonlinear_arith)
            requires
                n == u * q + r,
        ;
        vstd::arithmetic::div_mod::lemma_fundamental_div_mod_converse(
            (2 * n) as int,
            (2 * u) as int,
            q as int,
            (2 * r) as int,
        );
        assert(round_half_even(2 * n, 2 * u) == round_half_even(n, u));
        let k = round_half_even(n, u);
        assert(k * (2 * u) == 2 * (k * u)) by (nonlinear_arith);
    }
}

/// Scaling by a power of two commutes with rounding.
proof fn lemma_rounded_scaled(n: nat, e: nat)
    ensures
        rounded(n * pow2(e), SINGLE as nat) == rounded(n, SINGLE as nat) * pow2(e),
    decreases e,
{
    if e == 0 {
        vstd::arithmetic::power2::lemma2_to64();
        assert(n * 1 == n);
        assert(pow2(0) == 1);
    } else {
        let f = (e - 1) as nat;
        lemma_rounded_scaled(n, f);
        lemma_pow2_unfold(e);
        let p = pow2(f);
        let x = rounded(n, SINGLE as nat);
        assert(n * (2 * p) == 2 * (n * p)) by (nonlinear_arith);
        assert(x * (2 * p) == 2 * (x * p)) by (nonlinear_arith);
        lemma_rounded_double(n * p);
    }
}

/// Next to a number of full precision, one that is small enough is lost.
proof fn lemma_absorbed(m: nat, w: nat, b: nat, n: nat)
    requires
        0x80_0000 <= m < SINGLE,
        is_pow2(w),
        8 * b < w,
        n == m * w + b || n + b == m * w,
    ensures
        rounded(n, SINGLE as nat) == m * w,
{
    let s = SINGLE as nat;
    lemma_unit(n, s);
    let u = unit(n, s);
    if u > w {
        lemma_pow2_divides(w, u);
        let k = u / w;
        assert(false) by (nonlinear_arith)
            requires
                u == w * k,
                u > w,
                w > 0,
                0x100_0000 * u <= 2 * n,
                n <= m * w + b,
                8 * b < w,
                m + 1 <= 0x100_0000,
        ;
    }
    lemma_pow2_divides(u, w);
    let k = w / u;
    let q = round_half_even(n, u);
    lemma_round_bounds(n, u);
    assert(4 * u > w) by (nonlinear_arith)
        requires
            n < 0x100_0000 * u,
            n + b >= m * w,
            8 * b < w,
            m >= 0x80_0000,
    ;
    let c = m * k;
    assert(m * w == u * c) by (nonlinear_arith)
        requires
            w == u * k,
            c == m * k,
    ;
    assert(q == c) by (nonlinear_arith)
        requires
            2 * (u * q) <= 2 * n + u,
            2 * n <= 2 * (u * q) + u,
            n <= u * c + b,
            u * c <= n + b,
            8 * b < w,
            w < 4 * u,
            u > 0,
    ;
    assert(q * u == u * c) by (nonlinear_arith)
        requires
            q == c,
    ;
}

fn power(e: u32) -> (r: u128)
    requires
        e <= 120,
    ensures
        r == pow2(e as nat),
    decreases e,
{
    proof {
        vstd::arithmetic::power2::lemma2_to64();
        if e > 0 {
            lemma_pow2_unfold(e as nat);
        }
        lemma_power_fits(e as nat);
    }
    if e == 0 {
        1
    } else {
        2 * power(e - 1)
    }
}

proof fn lemma_power_fits(e: nat)
    requires
        e <= 120,
    ensures
        1 <= pow2(e) <= 0x100_0000_0000_0000_0000_0000_0000_0000,
{
    vstd::arithmetic::power2::lemma2_to64();
    vstd::arithmetic::power2::lemma2_to64_rest();
    lemma_pow2_pos(e);
    lemma_pow2_adds(60, 60);
    assert(pow2(60) * pow2(60) == 0x100_0000_0000_0000_0000_0000_0000_0000) by (nonlinear_arith)
        requires
            pow2(60) == 0x1000_0000_0000_0000,
    ;
    if e < 120 {
        lemma_pow2_strictly_increases(e, 120);
    }
}

fn decode(bits: u32) -> (r: Number)
    ensures
        r.value() == decoded(bits),
        r matches Number::Finite(s) ==> s.is_encoded(),
{
    let negative: bool = bits >= 0x8000_0000;
    let exponent: u32 = (bits / 0x80_0000) % 0x100;
    let fraction: u32 = bits % 0x80_0000;
    if exponent == 0xff {
        if fraction == 0 {
            Number::Infinite { negative }
        } else {
            Number::Undefined
        }
    } else if exponent == 0 {
        proof {
            vstd::arithmetic::power2::lemma2_to64();
            assert(fraction as nat * 1 == fraction);
        }
        Number::Finite(Scaled { negative, significant: fraction as u64, shift: 0 })
    } else {
        Number::Finite(
            Scaled { negative, significant: fraction as u64 + 0x80_0000, shift: exponent - 1 },
        )
    }
}

/// The sum of two finite values, the first of which has no smaller shift.
fn add_ordered(a: Scaled, b: Scaled) -> (r: Scaled)
    requires
        a.is_encoded(),
        b.is_encoded(),
        a.shift >= b.shift,
    ensures
        r.value() == to_single(a.value() + b.value()),
        r.shift < 0xff,
        r.significant < 0x10_0000_0000_0000,
{
    let d: u32 = a.shift - b.shift;
    proof {
        lemma_pow2_adds(d as nat, b.shift as nat);
        lemma_pow2_pos(b.shift as nat);
        lemma_pow2_pos(a.shift as nat);
    }
    let ghost p = pow2(b.shift as nat);
    if d > 26 {
        proof {
            let w = pow2(a.shift as nat);
            let m = a.significant as nat;
            let small = b.size();
            lemma_is_pow2(a.shift as nat);
            let f = (d - 27) as nat;
            vstd::arithmetic::power2::lemma2_to64();
            lemma_pow2_adds(27, f);
            lemma_pow2_pos(f);
            let g = pow2(f);
            assert(8 * small < w) by (nonlinear_arith)
                requires
                    w == (0x800_0000 * g) * p,
                    small == b.significant * p,
                    b.significant < 0x100_0000,
                    g >= 1,
                    p >= 1,
            ;
            assert(m * w >= w) by (nonlinear_arith)
                requires
                    m >= 1,
            ;
            let x = a.value() + b.value();
            lemma_absorbed(m, w, small, size(x));
        }
        a
    } else {
        let step: u128 = power(d);
        let low: u128 = b.significant as u128;
        proof {
            vstd::arithmetic::power2::lemma2_to64();
            if d < 26 {
                lemma_pow2_strictly_increases(d as nat, 26);
            }
            assert(a.significant * step <= 0x100_0000 * 0x400_0000) by (nonlinear_arith)
                requires
                    a.significant <= 0x100_0000,
                    step <= 0x400_0000,
            ;
        }
        let high: u128 = a.significant as u128 * step;
        let (negative, x): (bool, u128) = if a.negative == b.negative {
            (a.negative, high + low)
        } else if high >= low {
            (a.negative, high - low)
        } else {
            (b.negative, low - high)
        };
        let n: u128 = round_to(x, SINGLE);
        let r = Scaled { negative, significant: n as u64, shift: b.shift };
        proof {
            assert(a.size() == high * p) by (nonlinear_arith)
                requires
                    a.size() == a.significant * pow2(a.shift as nat),
                    pow2(a.shift as nat) == step * p,
                    high == a.significant * step,
            ;
            let total = a.value() + b.value();
            assert(total == (if negative {
                -(x * p)
            } else {
                x * p
            })) by (nonlinear_arith)
                requires
                    total == a.value() + b.value(),
                    a.value() == (if a.negative {
                        -(high * p)
                    } else {
                        high * p
                    }),
                    b.value() == (if b.negative {
                        -(low * p)
                    } else {
                        low * p
                    }),
                    a.negative == b.negative ==> negative == a.negative && x == high + low,
                    a.negative != b.negative && high >= low ==> negative == a.negative && x == high
                        - low,
                    a.negative != b.negative && high < low ==> negative == b.negative && x == low
                        - high,
            ;
            assert(x * p >= 0) by (nonlinear_arith);
            assert(x > 0 ==> x * p > 0) by (nonlinear_arith)
                requires
                    p >= 1,
            ;
            assert(size(total) == (x as nat) * p);
            lemma_rounded_scaled(x as nat, b.shift as nat);
            assert(r.size() == rounded(size(total), SINGLE as nat));
            if x == 0 {
                assert(r.size() == 0) by (nonlinear_arith)
                    requires
                        r.size() == n * p,
                        n == 0,
                ;
            }
        }
        r
    }
}

/// Adds two values.
fn add_values(a: Number, b: Number) -> (r: Number)
    requires
        a matches Number::Finite(s) ==> s.is_encoded(),
        b matches Number::Finite(s) ==> s.is_encoded(),
    ensures
        r.value() == sum(a.value(), b.value()),
        r matches Number::Finite(s) ==> s.shift < 0xff && s.significant < 0x10_0000_0000_0000,
{
    match (a, b) {
        (Number::Finite(x), Number::Finite(y)) => if x.shift >= y.shift {
            Number::Finite(add_ordered(x, y))
        } else {
            Number::Finite(add_ordered(y, x))
        },
        (Number::Infinite { negative }, Number::Finite(_)) => Number::Infinite { negative },
        (Number::Finite(_), Number::Infinite { negative }) => Number::Infinite { negative },
        (Number::Infinite { negative: x }, Number::Infinite { negative: y }) => if x == y {
            Number::Infinite { negative: x }
        } else {
            Number::Undefined
        },
        _ => Number::Undefined,
    }
}

proof fn lemma_nearest_scaled(n: nat, d: nat, c: nat)
    requires
        d > 0,
        c > 0,
    ensures
        nearest(n * c, d * c) == nearest(n, d),
{
    let x = 2 * n + d;
    let y = 2 * d;
    assert(2 * (n * c) + d * c == c * x) by (nonlinear_arith)
        requires
            x == 2 * n + d,
    ;
    assert(2 * (d * c) == c * y) by (nonlinear_arith)
        requires
            y == 2 * d,
    ;
    vstd::arithmetic::div_mod::lemma_div_multiples_vanish_quotient(c as int, x as int, y as int);
}

/// The nearest integer to `p` times two to the power of `shift`, over two to the
/// power of `one_bits`; something above the range of a sample if that is.
fn scaled_nearest(p: u128, shift: u32, one_bits: u32) -> (r: u128)
    requires
        p < 0x10_0000_0000_0000_0000,
        shift < 0xff,
        one_bits <= 150,
    ensures
        ({
            let m = nearest(p as nat * pow2(shift as nat), pow2(one_bits as nat));
            r == m || (r > 32768 && m > 32768)
        }),
{
    proof {
        vstd::arithmetic::power2::lemma2_to64();
        lemma_pow2_pos(shift as nat);
        lemma_pow2_pos(one_bits as nat);
    }
    let ghost one = pow2(one_bits as nat);
    let ghost w = pow2(shift as nat);
    if p == 0 {
        proof {
            assert(0 * w == 0);
            vstd::arithmetic::div_mod::lemma_basic_div(one as int, 2 * one as int);
        }
        return 0;
    }
    if shift >= one_bits {
        let j: u32 = shift - one_bits;
        proof {
            lemma_pow2_adds(j as nat, one_bits as nat);
            let f = pow2(j as nat);
            let x = p as nat * f;
            lemma_pow2_pos(j as nat);
            assert(p as nat * w == x * one) by (nonlinear_arith)
                requires
                    w == f * one,
                    x == p as nat * f,
            ;
            assert(1 * one == one);
            lemma_nearest_scaled(x, 1, one);
            assert(nearest(x, 1) == x) by {
                assert((2 * x + 1) / 2 == x);
            }
            if j > 16 {
                lemma_pow2_strictly_increases(16, j as nat);
                assert(x >= f) by (nonlinear_arith)
                    requires
                        x == p as nat * f,
                        p >= 1,
                ;
            } else {
                if j < 16 {
                    lemma_pow2_strictly_increases(j as nat, 16);
                }
                assert(x <= 0x10_0000_0000_0000_0000 * 0x1_0000) by (nonlinear_arith)
                    requires
                        x == p as nat * f,
                        p < 0x10_0000_0000_0000_0000,
                        f <= 0x1_0000,
                ;
            }
        }
        if j > 16 {
            return 65536;
        }
        return p * power(j);
    }
    let d: u32 = one_bits - shift;
    proof {
        lemma_pow2_adds(d as nat, shift as nat);
        lemma_pow2_pos(d as nat);
        lemma_nearest_scaled(p as nat, pow2(d as nat), w);
    }
    if d > 100 {
        proof {
            let e = pow2(d as nat);
            lemma_pow2_adds(50, 50);
            vstd::arithmetic::power2::lemma2_to64_rest();
            assert(pow2(50) * pow2(50) == 0x10_0000_0000_0000_0000_0000_0000) by (nonlinear_arith)
                requires
                    pow2(50) == 0x4_0000_0000_0000,
            ;
            lemma_pow2_strictly_increases(100, d as nat);
            vstd::arithmetic::div_mod::lemma_basic_div(2 * p + e, 2 * e as int);
        }
        return 0;
    }
    proof {
        lemma_pow2_adds(50, 50);
        vstd::arithmetic::power2::lemma2_to64_rest();
        assert(pow2(50) * pow2(50) == 0x10_0000_0000_0000_0000_0000_0000) by (nonlinear_arith)
            requires
                pow2(50) == 0x4_0000_0000_0000,
        ;
        if d < 100 {
            lemma_pow2_strictly_increases(d as nat, 100);
        }
    }
    let e: u128 = power(d);
    (2 * p + e) / (2 * e)
}

/// Makes a sample of a value.
fn to_sample(value: Number, one_bits: u32) -> (r: i16)
    requires
        value matches Number::Finite(s) ==> s.shift < 0xff && s.significant < 0x10_0000_0000_0000,
        one_bits <= 150,
    ensures
        r == sample_of(value.value(), pow2(one_bits as nat)),
{
    match value {
        Number::Undefined => 0,
        Number::Infinite { negative } => if negative {
            i16::MIN
        } else {
            i16::MAX
        },
        Number::Finite(s) => {
            let p: u128 = round_to(s.significant as u128 * 32767, SINGLE);
            proof {
                let w = pow2(s.shift as nat);
                let x = s.significant as nat;
                lemma_pow2_pos(s.shift as nat);
                assert((x * w) * 32767 == (x * 32767) * w) by (nonlinear_arith);
                assert(x > 0 ==> x * w > 0) by (nonlinear_arith)
                    requires
                        w > 0,
                ;
                lemma_rounded_scaled(x * 32767, s.shift as nat);
                if x == 0 {
                    assert(x * w == 0) by (nonlinear_arith)
                        requires
                            x == 0,
                    ;
                    assert(p == 0);
                    lemma_pow2_pos(one_bits as nat);
                    let one = pow2(one_bits as nat);
                    vstd::arithmetic::div_mod::lemma_basic_div(one as int, 2 * one as int);
                }
            }
            let m: u128 = scaled_nearest(p, s.shift, one_bits);
            if s.negative {
                if m > 32768 {
                    i16::MIN
                } else {
                    let magnitude: i32 = m as i32;
                    (-magnitude) as i16
                }
            } else if m > 32767 {
                i16::MAX
            } else {
                m as i16
            }
        },
    }
}

/// Converts the samples of a file of one channel.
pub fn convert_mono(bits: &[u32]) -> (r: Vec<i16>)
    ensures
        r@ == mono_samples(bits@),
{
    let mut out: Vec<i16> = Vec::new();
    let mut i: usize = 0;
    while i < bits.len()
        invariant
            i <= bits@.len(),
            out@ == mono_samples(bits@).take(i as int),
        decreases bits@.len() - i,
    {
        out.push(to_sample(decode(bits[i]), UNIT_BITS));
        i = i + 1;
        assert(out@ =~= mono_samples(bits@).take(i as int));
    }
    assert(mono_samples(bits@).take(i as int) =~= mono_samples(bits@));
    out
}

/// Converts the samples of a file of two channels, mixed to mono.
pub fn convert_stereo(bits: &[u32]) -> (r: Vec<i16>)
    ensures
        r@ == stereo_samples(bits@),
{
    let mut out: Vec<i16> = Vec::new();
    let len: usize = bits.len();
    let half: usize = len / 2;
    let mut i: usize = 0;
    while i < half
        invariant
            len == bits@.len(),
            half == len / 2,
            i <= half,
            out@ == stereo_samples(bits@).take(i as int),
        decreases half - i,
    {
        let total: Number = add_values(decode(bits[2 * i]), decode(bits[2 * i + 1]));
        out.push(to_sample(total, UNIT_BITS + 1));
        i = i + 1;
        assert(out@ =~= stereo_samples(bits@).take(i as int));
    }
    assert(stereo_samples(bits@).take(half as int) =~= stereo_samples(bits@));
    out
}

/// The mean of two equal channels is converted as one of them is; which of two
/// channels comes first makes no difference.
pub proof fn law_mean_of_equal_values(a: u32, b: u32)
    ensures
        mean_converted(a, a) == converted(a),
        mean_converted(a, b) == mean_converted(b, a),
{
    match decoded(a) {
        Value::Finite(n) => {
            let s = SINGLE as nat;
            let m = magnitude(a);
            assert(size(n) == m);
            assert(size(n + n) == 2 * m);
            let exponent = (a / 0x80_0000) % 0x100;
            vstd::arithmetic::power2::lemma2_to64();
            assert(rounded(m, s) == m) by {
                if exponent == 0 {
                    lemma_rounded_exact(m, s);
                } else {
                    lemma_is_pow2((exponent - 1) as nat);
                    lemma_rounded_representable(
                        (a % 0x80_0000 + 0x80_0000) as nat,
                        pow2((exponent - 1) as nat),
                        s,
                    );
                }
            }
            lemma_rounded_double(m);
            assert((2 * m) * 32767 == 2 * (m * 32767));
            lemma_rounded_double(m * 32767);
            let one = pow2(UNIT_BITS as nat);
            lemma_pow2_unfold((UNIT_BITS + 1) as nat);
            lemma_pow2_pos(UNIT_BITS as nat);
            let p = rounded(m * 32767, s);
            lemma_nearest_scaled(p, one, 2);
            assert(p * 2 == 2 * p && one * 2 == 2 * one);
        },
        _ => {},
    }
    match (decoded(a), decoded(b)) {
        (Value::Finite(x), Value::Finite(y)) => {
            assert(x + y == y + x);
        },
        _ => {},
    }
}

/// Mixing a file whose channels agree gives one of them.
pub proof fn law_stereo_of_equal_channels(channel: Seq<u32>)
    ensures
        stereo_samples(doubled(channel)) == mono_samples(channel),
{
    let both = doubled(channel);
    assert forall|i: int| 0 <= i < channel.len() implies stereo_samples(both)[i] == mono_samples(
        channel,
    )[i] by {
        assert(both[2 * i] == channel[i]);
        assert(both[2 * i + 1] == channel[i]);
        law_mean_of_equal_values(channel[i], channel[i]);
    }
    assert(stereo_samples(both) =~= mono_samples(channel));
}

/// The values of bits: zero bits stand for zero, each next pattern for a number
/// that is larger by two to the power that its exponent gives, and the same
/// pattern with a sign for the opposite. The pattern of one stands for two to the
/// power of 149 units.
pub proof fn law_value_of_bits(bits: u32)
    requires
        bits < 0x7f80_0000,
    ensures
        decoded(bits) matches Value::Finite(n) && {
            &&& n >= 0
            &&& decoded((bits + 0x8000_0000) as u32) == Value::Finite(-n)
            &&& bits == 0 ==> n == 0
            &&& bits == 0x3f80_0000 ==> n == pow2(149)
            &&& bits + 1 < 0x7f80_0000 ==> decoded((bits + 1) as u32) == Value::Finite(
                n + pow2(
                    (if bits < 0x80_0000 {
                        0
                    } else {
                        bits as int / 0x80_0000 - 1
                    }) as nat,
                ),
            )
        },
{
    vstd::arithmetic::power2::lemma2_to64();
    let exponent = bits / 0x80_0000;
    assert(exponent < 0xff);
    assert(exponent % 0x100 == exponent);
    let opposite = (bits + 0x8000_0000) as u32;
    assert(opposite / 0x80_0000 == exponent + 0x100);
    assert((opposite / 0x80_0000) % 0x100 == exponent);
    assert(opposite % 0x80_0000 == bits % 0x80_0000);
    let next = (bits + 1) as u32;
    let p = pow2((if exponent == 0 {
        0
    } else {
        exponent - 1
    }) as nat);
    let fraction = bits % 0x80_0000;
    if bits == 0x3f80_0000 {
        lemma_pow2_adds(23, 126);
        assert(exponent == 127 && fraction == 0);
    }
    if next < 0x7f80_0000 {
        if fraction == 0x7f_ffff {
            assert(next / 0x80_0000 == exponent + 1 && next % 0x80_0000 == 0);
            assert((next / 0x80_0000) % 0x100 == exponent + 1);
            if exponent > 0 {
                lemma_pow2_unfold(exponent as nat);
                assert(0x80_0000 * (2 * p) == (fraction + 0x80_0000) * p + p) by (nonlinear_arith)
                    requires
                        fraction == 0x7f_ffff,
                ;
            }
        } else {
            assert(next / 0x80_0000 == exponent && next % 0x80_0000 == fraction + 1);
            assert((fraction + 1 + 0x80_0000) * p == (fraction + 0x80_0000) * p + p)
                by (nonlinear_arith);
        }
    }
}

/// The bits that stand for no finite number.
pub proof fn law_special_bits(bits: u32)
    ensures
        bits == 0x7f80_0000 ==> decoded(bits) == (Value::Infinite { negative: false }),
        bits == 0xff80_0000 ==> decoded(bits) == (Value::Infinite { negative: true }),
        0x7f80_0000 < bits < 0x8000_0000 ==> decoded(bits) is Undefined,
        0xff80_0000 < bits ==> decoded(bits) is Undefined,
        decoded(bits) is Undefined ==> converted(bits) == 0,
        decoded(bits) == (Value::Infinite { negative: false }) ==> converted(bits) == 32767,
        decoded(bits) == (Value::Infinite { negative: true }) ==> converted(bits) == -32768,
{
    let q = bits / 0x80_0000;
    let r = bits % 0x80_0000;
    if 0x7f80_0000 <= bits < 0x8000_0000 {
        assert(q == 0xff && r == bits - 0x7f80_0000);
    } else if 0xff80_0000 <= bits {
        assert(q == 0x1ff && r == bits - 0xff80_0000);
    }
}

proof fn lemma_sample_is_near(n: int, e: nat)
    requires
        -pow2(e) <= n <= pow2(e),
    ensures
        ({
            let one = pow2(e);
            let off = sample_of(Value::Finite(n), one) * one - 32767 * n;
            -257 * one <= 512 * off <= 257 * one
        }),
{
    let one = pow2(e);
    lemma_pow2_pos(e);
    lemma_is_pow2(e);
    let s = SINGLE as nat;
    let x = size(n) * 32767;
    assert(x <= 32767 * one);
    lemma_rounded_at_most(x, 32767, one, s);
    let w = unit(x, s);
    lemma_unit(x, s);
    lemma_round_bounds(x, w);
    let p = rounded(x, s);
    let q = round_half_even(x, w);
    assert(w * q == p) by (nonlinear_arith)
        requires
            p == q * w,
    ;
    // The error of the product.
    let error = 2 * p - 2 * x;
    assert(256 * error <= one && -(256 * error) <= one) by {
        if w > 1 {
            assert(0x100_0000 * w <= 2 * (32767 * one));
        } else {
            assert(w == 1);
            lemma_rounded_exact(x, s);
        }
    }
    let m = nearest(p, one);
    vstd::arithmetic::div_mod::lemma_fundamental_div_mod((2 * p + one) as int, (2 * one) as int);
    let rest = (2 * p + one) % (2 * one);
    assert((2 * one) * m == 2 * (m * one)) by (nonlinear_arith);
    assert(m <= 32767) by (nonlinear_arith)
        requires
            2 * (m * one) + rest == 2 * p + one,
            rest >= 0,
            p <= 32767 * one,
            one > 0,
    ;
    assert((-m) * one == -(m * one)) by (nonlinear_arith);
    if n < 0 {
        assert(sample_of(Value::Finite(n), one) == -m);
    } else {
        assert(sample_of(Value::Finite(n), one) == m);
    }
}

/// A value between minus one and one is converted to a sample that lies as near
/// to its share of the largest sample as rounding allows: half a step, and the
/// error of single precision, which is less than one in five hundred of a step.
pub proof fn law_conversion_is_near(bits: u32, n: int)
    requires
        decoded(bits) == Value::Finite(n),
        -pow2(149) <= n <= pow2(149),
    ensures
        ({
            let off = converted(bits) * pow2(149) - 32767 * n;
            -257 * pow2(149) <= 512 * off <= 257 * pow2(149)
        }),
{
    lemma_sample_is_near(n, 149);
}

/// The sample of a frame lies as near to the mean of its two values.
pub proof fn law_mean_is_near(left: u32, right: u32, x: int, y: int)
    requires
        decoded(left) == Value::Finite(x),
        decoded(right) == Value::Finite(y),
        -pow2(149) <= x <= pow2(149),
        -pow2(149) <= y <= pow2(149),
    ensures
        ({
            let off = mean_converted(left, right) * (2 * pow2(149)) - 32767 * (x + y);
            -258 * (2 * pow2(149)) <= 512 * off <= 258 * (2 * pow2(149))
        }),
{
    let one = pow2(150);
    lemma_pow2_unfold(150);
    lemma_pow2_pos(150);
    lemma_is_pow2(150);
    let s = SINGLE as nat;
    let total = x + y;
    let x1 = size(total);
    assert(1 * one == one);
    lemma_rounded_at_most(x1, 1, one, s);
    let w = unit(x1, s);
    lemma_unit(x1, s);
    lemma_round_bounds(x1, w);
    let t = rounded(x1, s);
    let q = round_half_even(x1, w);
    assert(w * q == t) by (nonlinear_arith)
        requires
            t == q * w,
    ;
    assert(0x80_0000 * (2 * t - 2 * x1) <= one && -(0x80_0000 * (2 * t - 2 * x1)) <= one) by {
        if w > 1 {
            assert(0x100_0000 * w <= 2 * one);
        } else {
            assert(w == 1);
            lemma_rounded_exact(x1, s);
        }
    }
    lemma_sample_is_near(to_single(total), 150);
}

/// Larger values have samples that are no smaller, and opposite values have
/// opposite samples, but for what is beyond the largest sample.
pub proof fn law_conversion_keeps_order(a: int, b: int, one: nat)
    requires
        a <= b,
        one > 0,
    ensures
        sample_of(Value::Finite(a), one) <= sample_of(Value::Finite(b), one),
        sample_of(Value::Finite(-a), one) == -sample_of(Value::Finite(a), one) || sample_of(
            Value::Finite(-a),
            one,
        ) == 32767 || sample_of(Value::Finite(a), one) == 32767,
        sample_of(Value::Finite(0), one) == 0,
{
    let s = SINGLE as nat;
    let (x, y) = (size(a) * 32767, size(b) * 32767);
    if size(a) <= size(b) {
        lemma_rounded_grows(x, y, s);
        vstd::arithmetic::div_mod::lemma_div_is_ordered(
            (2 * rounded(x, s) + one) as int,
            (2 * rounded(y, s) + one) as int,
            2 * one as int,
        );
    } else {
        lemma_rounded_grows(y, x, s);
        vstd::arithmetic::div_mod::lemma_div_is_ordered(
            (2 * rounded(y, s) + one) as int,
            (2 * rounded(x, s) + one) as int,
            2 * one as int,
        );
    }
    lemma_rounded_exact(0, s);
    vstd::arithmetic::div_mod::lemma_basic_div(one as int, 2 * one as int);
    assert(size(-a) == size(a));
}

/// The samples of a file: one for each sample of one channel, one for each whole
/// frame of two.
pub proof fn law_samples_of_a_file(bits: Seq<u32>, i: int)
    ensures
        mono_samples(bits).len() == bits.len(),
        0 <= i < bits.len() ==> mono_samples(bits)[i] == converted(bits[i]),
        2 * stereo_samples(bits).len() <= bits.len() < 2 * stereo_samples(bits).len() + 2,
        0 <= i < stereo_samples(bits).len() ==> stereo_samples(bits)[i] == mean_converted(
            bits[2 * i],
            bits[2 * i + 1],
        ),
{
}

/// A sum with an infinite value is infinite in its direction; of two in opposite
/// directions, and with what is no number, it is undefined.
pub proof fn law_sum_of_special_values(n: int, negative: bool, v: Value)
    ensures
        ({
            let inf = Value::Infinite { negative };
            &&& sum(inf, Value::Finite(n)) == inf
            &&& sum(Value::Finite(n), inf) == inf
            &&& sum(inf, inf) == inf
            &&& sum(inf, Value::Infinite { negative: !negative }) is Undefined
            &&& sum(Value::Undefined, v) is Undefined
            &&& sum(v, Value::Undefined) is Undefined
        }),
{
}

} // verus!

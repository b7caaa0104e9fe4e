//! Narrowing of single-precision numbers, on their bits.

use vstd::arithmetic::power2::{
    lemma2_to64, lemma_pow2_adds, lemma_pow2_pos, lemma_pow2_strictly_increases, pow2,
};
use vstd::bits::lemma_u32_shl_is_mul;
use vstd::prelude::*;

verus! {

/// The integer nearest to `m / d`, the even one of two that are as near.
pub open spec fn nearest(m: int, d: int) -> int {
    if 2 * (m % d) > d || (2 * (m % d) == d && (m / d) % 2 == 1) {
        m / d + 1
    } else {
        m / d
    }
}

/// The upper half of `bits`, rounded.
pub open spec fn bf16_bits(bits: u32) -> int {
    nearest(bits as int, 0x1_0000) % 0x1_0000
}

/// Sign of a single-precision number, where it stands in half precision.
pub open spec fn half_sign(bits: u32) -> int {
    if bits >= 0x8000_0000 {
        0x8000
    } else {
        0
    }
}

/// Exponent field of a single-precision number.
pub open spec fn exponent(bits: u32) -> int {
    bits as int / 0x80_0000 % 0x100
}

/// Fraction field of a single-precision number.
pub open spec fn fraction(bits: u32) -> int {
    bits as int % 0x80_0000
}

/// The exponent field that the number would have in half precision.
pub open spec fn half_exponent(bits: u32) -> int {
    exponent(bits) - 112
}

/// The half-precision number nearest to `bits`.
///
/// With `f` the significand, the number is `f * 2^(e - 38)` for a half
/// exponent of `e`. A normal half-precision number has steps of `2^(e - 25)`,
/// a subnormal one of `2^-24`; what is rounded up over the last step of an
/// exponent carries into the next, and over the last exponent into infinity.
pub open spec fn f16_bits(bits: u32) -> int {
    let significand = fraction(bits) + 0x80_0000;
    let e = half_exponent(bits);
    half_sign(bits) + if exponent(bits) == 0xff {
        if fraction(bits) == 0 {
            0x7c00
        } else {
            0x7e00
        }
    } else if e >= 0x1f {
        0x7c00
    } else if e > 0 {
        (e - 1) * 0x400 + nearest(significand, 0x2000)
    } else if e >= -10 {
        nearest(significand, pow2((14 - e) as nat) as int)
    } else {
        0
    }
}

/// `m / d`, rounded to the nearest integer.
fn round(m: u32, d: u32) -> (r: u32)
    requires
        2 <= d <= 0x8000_0000,
    ensures
        r == nearest(m as int, d as int),
        r <= m / d + 1,
{
    let q: u32 = m / d;
    let rest: u32 = m % d;
    assert(q < u32::MAX) by (nonlinear_arith)
        requires
            q as int == m as int / d as int,
            d >= 2,
            m <= u32::MAX,
    ;
    if rest > d - rest || (rest == d - rest && q % 2 == 1) {
        q + 1
    } else {
        q
    }
}

/// Rounds to the upper 16 bits, ties to even.
pub fn f32_to_bf16_bits(bits: u32) -> (r: u16)
    ensures
        r == bf16_bits(bits),
{
    let up: u32 = round(bits, 0x1_0000);
    (up % 0x1_0000) as u16
}

/// Rounds to half precision, ties to even.
pub fn f32_to_f16_bits(bits: u32) -> (r: u16)
    ensures
        r == f16_bits(bits),
{
    let sign: u32 = if bits >= 0x8000_0000 {
        0x8000
    } else {
        0
    };
    let exp: u32 = bits / 0x80_0000 % 0x100;
    let frac: u32 = bits % 0x80_0000;
    if exp == 0xff {
        return if frac == 0 {
            (sign + 0x7c00) as u16
        } else {
            (sign + 0x7e00) as u16
        };
    }
    if exp >= 112 + 0x1f {
        return (sign + 0x7c00) as u16;
    }
    let significand: u32 = frac + 0x80_0000;
    if exp > 112 {
        let steps: u32 = round(significand, 0x2000);
        return (sign + (exp - 113) * 0x400 + steps) as u16;
    }
    if exp < 102 {
        return sign as u16;
    }
    let shift: u32 = 126 - exp;
    let one: u32 = 1;
    proof {
        lemma2_to64();
        if shift < 24 {
            lemma_pow2_strictly_increases(shift as nat, 24);
        }
        if shift > 14 {
            lemma_pow2_strictly_increases(14, shift as nat);
        }
        lemma_u32_shl_is_mul(one, shift);
    }
    let d: u32 = one << shift;
    let steps: u32 = round(significand, d);
    proof {
        assert(steps <= 1025) by (nonlinear_arith)
            requires
                steps <= significand as int / d as int + 1,
                significand <= 0x100_0000,
                d >= 0x4000,
        ;
    }
    (sign + steps) as u16
}

/// `nearest` is the nearest: no integer is nearer, and of two that are as near
/// it is the even one.
pub proof fn nearest_is_nearest(m: int, d: int, other: int)
    requires
        0 <= m,
        0 < d,
    ensures
        ({
            let n = nearest(m, d);
            let off = if n * d >= m {
                n * d - m
            } else {
                m - n * d
            };
            let other_off = if other * d >= m {
                other * d - m
            } else {
                m - other * d
            };
            &&& 2 * off <= d
            &&& off <= other_off
            &&& 2 * off == d ==> n % 2 == 0
        }),
{
    let q = m / d;
    let r = m % d;
    vstd::arithmetic::div_mod::lemma_fundamental_div_mod(m, d);
    assert(d * q == q * d) by (nonlinear_arith);
    let n = nearest(m, d);
    assert((q + 1) * d == q * d + d) by (nonlinear_arith);
    if other <= q {
        assert(other * d <= q * d) by (nonlinear_arith)
            requires
                other <= q,
                0 < d,
        ;
    } else {
        assert(other * d >= (q + 1) * d) by (nonlinear_arith)
            requires
                other >= q + 1,
                0 < d,
        ;
    }
}

/// How far a finite single-precision number is from zero, in units of the least
/// of them, `2^-149`.
pub open spec fn single_units(bits: u32) -> int {
    if exponent(bits) == 0 {
        fraction(bits)
    } else {
        (fraction(bits) + 0x80_0000) * pow2((exponent(bits) - 1) as nat)
    }
}

/// How far half-precision number `h` is from zero, in the same units. Infinity
/// stands where the number after the greatest one would.
pub open spec fn half_units(h: int) -> int {
    if h / 0x400 == 0 {
        h * pow2(125)
    } else {
        (h % 0x400 + 0x400) * pow2((h / 0x400 + 124) as nat)
    }
}

/// The distance of two numbers.
pub open spec fn distance(a: int, b: int) -> int {
    if a >= b {
        a - b
    } else {
        b - a
    }
}

/// The half-precision number that a single-precision one becomes, without its
/// sign.
pub open spec fn half_magnitude(bits: u32) -> int {
    f16_bits(bits) - half_sign(bits)
}

/// Half-precision numbers of one exponent are evenly spaced, up to the first one
/// of the next.
proof fn lemma_half_units(e: int, n: int)
    requires
        1 <= e,
        (0x400 <= n <= 0x800) || (e == 1 && 0 <= n <= 0x800),
    ensures
        half_units((e - 1) * 0x400 + n) == n * pow2((e + 124) as nat),
{
    if n == 0x800 {
        lemma_pow2_adds(1, (e + 124) as nat);
        lemma2_to64();
        assert(0x400 * (2 * pow2((e + 124) as nat)) == 0x800 * pow2((e + 124) as nat))
            by (nonlinear_arith);
    }
}

/// Half-precision numbers are in the order of their bits.
proof fn lemma_half_order(a: int, b: int)
    requires
        0 <= a < b,
    ensures
        half_units(a) < half_units(b),
    decreases b,
{
    let c = b - 1;
    let e = if c < 0x400 {
        1
    } else {
        c / 0x400
    };
    let n = c - (e - 1) * 0x400;
    lemma_half_units(e, n);
    lemma_half_units(e, n + 1);
    lemma_pow2_pos((e + 124) as nat);
    assert(n * pow2((e + 124) as nat) < (n + 1) * pow2((e + 124) as nat)) by (nonlinear_arith)
        requires
            pow2((e + 124) as nat) > 0,
    ;
    if a < c {
        lemma_half_order(a, c);
    }
}

/// `h` is the nearest to `v` of the half-precision numbers up to infinity: `v`
/// is not beyond the middle between `h` and its neighbours, and where it is the
/// middle, `h` is even.
spec fn settles_on(h: int, v: int) -> bool {
    &&& 0 <= h <= 0x7c00
    &&& h > 0 ==> 2 * v >= half_units(h - 1) + half_units(h) && (2 * v == half_units(h - 1)
        + half_units(h) ==> h % 2 == 0)
    &&& h < 0x7c00 ==> 2 * v <= half_units(h) + half_units(h + 1) && (2 * v == half_units(h)
        + half_units(h + 1) ==> h % 2 == 0)
}

/// Rounding `m * s` to a multiple of `d * s` settles between the two multiples
/// around it.
proof fn lemma_rounded(m: int, d: int, s: int, n: int)
    requires
        0 <= m,
        0 < d,
        0 < s,
        n == nearest(m, d),
    ensures
        2 * (m * s) >= (n - 1) * (d * s) + n * (d * s),
        2 * (m * s) <= n * (d * s) + (n + 1) * (d * s),
        2 * (m * s) == (n - 1) * (d * s) + n * (d * s) ==> n % 2 == 0,
        2 * (m * s) == n * (d * s) + (n + 1) * (d * s) ==> n % 2 == 0,
{
    nearest_is_nearest(m, d, n);
    assert((n - 1) * (d * s) + n * (d * s) == (2 * (n * d) - d) * s) by (nonlinear_arith);
    assert(n * (d * s) + (n + 1) * (d * s) == (2 * (n * d) + d) * s) by (nonlinear_arith);
    assert(2 * (m * s) == (2 * m) * s) by (nonlinear_arith);
    let low = 2 * (n * d) - d;
    let high = 2 * (n * d) + d;
    assert(low <= 2 * m <= high);
    assert(low * s <= (2 * m) * s <= high * s) by (nonlinear_arith)
        requires
            low <= 2 * m <= high,
            0 < s,
    ;
    if low < 2 * m {
        assert(low * s < (2 * m) * s) by (nonlinear_arith)
            requires
                low < 2 * m,
                0 < s,
        ;
    }
    if 2 * m < high {
        assert((2 * m) * s < high * s) by (nonlinear_arith)
            requires
                2 * m < high,
                0 < s,
        ;
    }
}

/// `nearest` stays between whole bounds.
proof fn lemma_nearest_bounds(m: int, d: int, low: int, high: int)
    requires
        0 < d,
        low * d <= m <= high * d,
    ensures
        low <= nearest(m, d) <= high,
{
    vstd::arithmetic::div_mod::lemma_fundamental_div_mod(m, d);
    let q = m / d;
    let r = m % d;
    assert(low <= q) by (nonlinear_arith)
        requires
            low * d <= m,
            m == d * q + r,
            0 <= r < d,
            0 < d,
    ;
    if r == 0 {
        assert(q <= high) by (nonlinear_arith)
            requires
                m <= high * d,
                m == d * q + r,
                r == 0,
                0 < d,
        ;
    } else {
        assert(q < high) by (nonlinear_arith)
            requires
                m <= high * d,
                m == d * q + r,
                0 < r,
                0 < d,
        ;
    }
}

/// The half-precision number is where its single-precision one settles.
proof fn lemma_settles(bits: u32)
    requires
        exponent(bits) != 0xff,
    ensures
        settles_on(half_magnitude(bits), single_units(bits)),
{
    let h = half_magnitude(bits);
    let v = single_units(bits);
    let e = half_exponent(bits);
    let sig = fraction(bits) + 0x80_0000;
    lemma2_to64();
    if e >= 0x1f {
        // At or beyond where infinity stands.
        assert(h == 0x7c00);
        lemma_half_units(31, 0x400);
        let p = pow2((exponent(bits) - 1) as nat);
        if exponent(bits) > 143 {
            lemma_pow2_strictly_increases(142, (exponent(bits) - 1) as nat);
        }
        lemma_pow2_adds(10, 155);
        lemma_pow2_adds(23, 142);
        assert(sig * p >= 0x80_0000 * pow2(142)) by (nonlinear_arith)
            requires
                sig >= 0x80_0000,
                p >= pow2(142),
        ;
        lemma_half_order(h - 1, h);
    } else if e > 0 {
        let s = pow2((e + 111) as nat) as int;
        let n = nearest(sig, 0x2000);
        lemma_pow2_pos((e + 111) as nat);
        lemma_pow2_adds(13, (e + 111) as nat);
        lemma_nearest_bounds(sig, 0x2000, 0x400, 0x800);
        lemma_rounded(sig, 0x2000, s, n);
        lemma_half_units(e, n);
        assert(h == (e - 1) * 0x400 + n);
        assert(v == sig * s);
        assert(0x2000 * s == pow2((e + 124) as nat));
        if n > 0x400 {
            lemma_half_units(e, n - 1);
        } else {
            assert(n * (0x2000 * s) == 0x80_0000 * s) by (nonlinear_arith)
                requires
                    n == 0x400,
            ;
            assert(sig * s >= 0x80_0000 * s) by (nonlinear_arith)
                requires
                    sig >= 0x80_0000,
                    s > 0,
            ;
            if h > 0 {
                lemma_half_order(h - 1, h);
            }
        }
        if n < 0x800 {
            lemma_half_units(e, n + 1);
        } else {
            assert(n * (0x2000 * s) == 0x100_0000 * s) by (nonlinear_arith)
                requires
                    n == 0x800,
            ;
            assert(sig * s < 0x100_0000 * s) by (nonlinear_arith)
                requires
                    sig < 0x100_0000,
                    s > 0,
            ;
            lemma_half_order(h, h + 1);
        }
    } else if e >= -10 {
        let d = pow2((14 - e) as nat) as int;
        let s = pow2((e + 111) as nat) as int;
        let n = nearest(sig, d);
        lemma_pow2_pos((14 - e) as nat);
        lemma_pow2_pos((e + 111) as nat);
        lemma_pow2_adds((14 - e) as nat, (e + 111) as nat);
        if e < 0 {
            lemma_pow2_strictly_increases(14, (14 - e) as nat);
        }
        assert(0 * d <= sig <= 0x400 * d) by (nonlinear_arith)
            requires
                d >= 0x4000,
                0 <= sig <= 0x100_0000,
        ;
        lemma_nearest_bounds(sig, d, 0, 0x400);
        lemma_rounded(sig, d, s, n);
        lemma_half_units(1, n);
        lemma_half_units(1, n + 1);
        if n > 0 {
            lemma_half_units(1, n - 1);
        }
    } else {
        lemma_half_units(1, 0);
        lemma_half_units(1, 1);
        lemma_pow2_adds(25, 100);
        lemma_pow2_pos(100);
        if exponent(bits) > 0 {
            let p = pow2((exponent(bits) - 1) as nat);
            lemma_pow2_pos((exponent(bits) - 1) as nat);
            if exponent(bits) < 101 {
                lemma_pow2_strictly_increases((exponent(bits) - 1) as nat, 100);
            }
            assert(2 * (sig * p) < 0x200_0000 * pow2(100)) by (nonlinear_arith)
                requires
                    0 <= sig < 0x100_0000,
                    0 < p <= pow2(100),
            ;
        } else {
            assert(0x200_0000 <= 0x200_0000 * pow2(100)) by (nonlinear_arith)
                requires
                    pow2(100) >= 1,
            ;
        }
    }
}

/// Every number becomes the half-precision number nearest to it, and of two that
/// are as near the even one. From the middle between the greatest finite one and
/// where the next would stand, that is infinity.
pub proof fn half_is_nearest(bits: u32, other: int)
    requires
        exponent(bits) != 0xff,
        0 <= other <= 0x7c00,
    ensures
        0 <= half_magnitude(bits) <= 0x7c00,
        distance(half_units(half_magnitude(bits)), single_units(bits)) <= distance(
            half_units(other),
            single_units(bits),
        ),
        other != half_magnitude(bits) && distance(
            half_units(half_magnitude(bits)),
            single_units(bits),
        ) == distance(half_units(other), single_units(bits)) ==> f16_bits(bits) % 2 == 0,
{
    lemma_settles(bits);
    let h = half_magnitude(bits);
    if other < h {
        lemma_half_order(h - 1, h);
        if other < h - 1 {
            lemma_half_order(other, h - 1);
        }
    } else if other > h {
        lemma_half_order(h, h + 1);
        if other > h + 1 {
            lemma_half_order(h + 1, other);
        }
    }
}

/// What is 65520 or more away from zero, infinity itself among it, becomes
/// infinity; what is at most `2^-25` away becomes zero.
pub proof fn halves_have_ends(bits: u32)
    requires
        exponent(bits) == 0xff ==> fraction(bits) == 0,
    ensures
        exponent(bits) == 0xff || single_units(bits) >= 65520 * pow2(149) ==> f16_bits(bits)
            == half_sign(bits) + 0x7c00,
        exponent(bits) != 0xff && single_units(bits) <= pow2(124) ==> f16_bits(bits) == half_sign(
            bits,
        ),
{
    if exponent(bits) != 0xff {
        lemma_settles(bits);
        let h = half_magnitude(bits);
        let v = single_units(bits);
        lemma2_to64();
        if v >= 65520 * pow2(149) && h < 0x7c00 {
            lemma_half_units(30, 0x7ff);
            lemma_half_units(30, 0x800);
            lemma_pow2_adds(5, 149);
            if h < 0x7bff {
                lemma_half_order(h, 0x7bff);
                lemma_half_order(h + 1, 0x7c00);
            }
            assert(false);
        }
        if v <= pow2(124) && h > 0 {
            lemma_half_units(1, 0);
            lemma_half_units(1, 1);
            lemma_pow2_adds(1, 124);
            if h > 1 {
                lemma_half_order(0, h - 1);
                lemma_half_order(1, h);
            }
            assert(false);
        }
    }
}

/// A number of the other sign becomes the same half-precision number of the other
/// sign.
pub proof fn halves_are_symmetric(bits: u32)
    ensures
        f16_bits(bits ^ 0x8000_0000) as u16 == f16_bits(bits) as u16 ^ 0x8000,
{
    let flipped = bits ^ 0x8000_0000;
    assert(bits < 0x8000_0000 ==> flipped == bits + 0x8000_0000) by (bit_vector)
        requires
            flipped == bits ^ 0x8000_0000,
    ;
    assert(bits >= 0x8000_0000 ==> flipped == bits - 0x8000_0000) by (bit_vector)
        requires
            flipped == bits ^ 0x8000_0000,
    ;
    assert(exponent(flipped) == exponent(bits) && fraction(flipped) == fraction(bits));
    if exponent(bits) != 0xff {
        lemma_settles(bits);
        lemma_settles(flipped);
    }
    let a = f16_bits(bits) as u16;
    let b = f16_bits(flipped) as u16;
    assert(half_magnitude(flipped) == half_magnitude(bits));
    if bits < 0x8000_0000 {
        assert(a < 0x8000 && b == a + 0x8000);
        assert(b == a ^ 0x8000) by (bit_vector)
            requires
                a < 0x8000u16,
                b == a + 0x8000u16,
        ;
    } else {
        assert(a >= 0x8000 && b == a - 0x8000);
        assert(b == a ^ 0x8000) by (bit_vector)
            requires
                a >= 0x8000u16,
                b == a - 0x8000u16,
        ;
    }
}

/// A number becomes the bfloat16 number nearest to it, and of two that are as near
/// the even one; it keeps its sign. The bits of a bfloat16 number are the upper ones
/// of the same single-precision number.
pub proof fn bfloats_are_nearest(bits: u32, other: int)
    requires
        exponent(bits) == 0xff ==> fraction(bits) == 0,
    ensures
        0 <= bf16_bits(bits) < 0x1_0000,
        bf16_bits(bits) >= 0x8000 <==> bits >= 0x8000_0000,
        2 * distance(bf16_bits(bits) * 0x1_0000, bits as int) <= 0x1_0000,
        2 * distance(bf16_bits(bits) * 0x1_0000, bits as int) == 0x1_0000 ==> bf16_bits(bits) % 2
            == 0,
        distance(bf16_bits(bits) * 0x1_0000, bits as int) <= distance(
            other * 0x1_0000,
            bits as int,
        ),
{
    nearest_is_nearest(bits as int, 0x1_0000, other);
    let n = nearest(bits as int, 0x1_0000);
    assert(bits < 0x8000_0000 ==> bits <= 0x7f80_0000);
    assert(bits <= 0xff80_0000);
    assert(n <= 0xff80);
}

/// What is already a bfloat16 number stays exactly what it is.
pub proof fn bfloats_stay(upper: u16)
    ensures
        bf16_bits((upper * 0x1_0000) as u32) == upper,
{
    vstd::arithmetic::div_mod::lemma_div_multiples_vanish(upper as int, 0x1_0000);
}

/// A number of the other sign becomes the same bfloat16 number of the other sign.
pub proof fn bfloats_are_symmetric(bits: u32)
    requires
        exponent(bits) == 0xff ==> fraction(bits) == 0,
    ensures
        bf16_bits(bits ^ 0x8000_0000) as u16 == bf16_bits(bits) as u16 ^ 0x8000,
{
    let flipped = bits ^ 0x8000_0000;
    assert(bits < 0x8000_0000 ==> flipped == bits + 0x8000_0000) by (bit_vector)
        requires
            flipped == bits ^ 0x8000_0000,
    ;
    assert(bits >= 0x8000_0000 ==> flipped == bits - 0x8000_0000) by (bit_vector)
        requires
            flipped == bits ^ 0x8000_0000,
    ;
    assert(exponent(flipped) == exponent(bits) && fraction(flipped) == fraction(bits));
    bfloats_are_nearest(bits, 0);
    bfloats_are_nearest(flipped, 0);
    let a = bf16_bits(bits) as u16;
    let b = bf16_bits(flipped) as u16;
    if bits < 0x8000_0000 {
        assert(a < 0x8000 && b == a + 0x8000);
        assert(b == a ^ 0x8000) by (bit_vector)
            requires
                a < 0x8000u16,
                b == a + 0x8000u16,
        ;
    } else {
        assert(a >= 0x8000 && b == a - 0x8000);
        assert(b == a ^ 0x8000) by (bit_vector)
            requires
                a >= 0x8000u16,
                b == a - 0x8000u16,
        ;
    }
}

/// A half-precision number has sixteen bits, the sign among them, and what is no
/// number stays none.
pub proof fn f16_fits(bits: u32)
    ensures
        0 <= f16_bits(bits) < 0x1_0000,
        f16_bits(bits) >= 0x8000 <==> bits >= 0x8000_0000,
        exponent(bits) == 0xff && fraction(bits) != 0 ==> f16_bits(bits) % 0x8000 > 0x7c00,
{
    if exponent(bits) != 0xff {
        half_is_nearest(bits, 0);
    }
}

/// Whatever a conversion gives back for a number has the number's sign, and a bfloat16
/// is less than a step away from it.
pub proof fn conversions_keep_the_sign(bits: u32, wide: u16, narrow: u16)
    requires
        call_ensures(f32_to_bf16_bits, (bits,), wide),
        call_ensures(f32_to_f16_bits, (bits,), narrow),
        exponent(bits) == 0xff ==> fraction(bits) == 0,
    ensures
        wide >= 0x8000 <==> bits >= 0x8000_0000,
        narrow >= 0x8000 <==> bits >= 0x8000_0000,
        wide * 0x1_0000 < bits + 0x1_0000,
        bits < wide * 0x1_0000 + 0x1_0000,
{
    bfloats_are_nearest(bits, 0);
    f16_fits(bits);
    halves_are_symmetric(bits);
}

} // verus!

//! Analog values, given as the bits of an IEEE 754 single-precision number.
//!
//! Bit 31 is the sign, bits 23 to 30 the exponent, bits 0 to 22 the fraction. The exponent 255
//! marks the infinities (fraction zero) and what is not a number (any other fraction).
use vstd::arithmetic::div_mod::{
    lemma_div_denominator, lemma_div_is_ordered, lemma_div_multiples_vanish,
};
use vstd::arithmetic::power2::{
    lemma_pow2_adds, lemma_pow2_pos, lemma_pow2_strictly_increases, pow2,
};
use vstd::prelude::*;

verus! {

/// Whether the sign bit is set.
pub open spec fn negative(bits: u32) -> bool {
    bits >= 0x8000_0000
}

/// The exponent field.
pub open spec fn exponent(bits: u32) -> nat {
    ((bits / 0x80_0000) % 256) as nat
}

/// The fraction field.
pub open spec fn fraction(bits: u32) -> nat {
    (bits % 0x80_0000) as nat
}

/// Whether the bits encode no number.
pub open spec fn not_a_number(bits: u32) -> bool {
    exponent(bits) == 255 && fraction(bits) != 0
}

/// Whether the bits encode one of the infinities.
pub open spec fn infinite(bits: u32) -> bool {
    exponent(bits) == 255 && fraction(bits) == 0
}

/// The absolute value of a finite number, counted in steps of the smallest positive one, which is
/// 2 to the power of -149.
pub open spec fn magnitude(bits: u32) -> nat {
    if exponent(bits) == 0 {
        fraction(bits)
    } else {
        (fraction(bits) + 0x80_0000) * pow2((exponent(bits) - 1) as nat)
    }
}

/// The number of steps in the value one.
pub open spec fn one() -> nat {
    pow2(149)
}

/// Whether the encoded value is greater than one half.
pub open spec fn above_half(bits: u32) -> bool {
    !negative(bits) && !not_a_number(bits) && (infinite(bits) || 2 * magnitude(bits) > one())
}

/// The largest whole number that does not exceed the encoded value, kept between zero and `max`.
/// What is not a number counts as zero.
pub open spec fn floor_within(bits: u32, max: nat) -> nat {
    if negative(bits) || not_a_number(bits) {
        0
    } else if infinite(bits) || magnitude(bits) / one() > max {
        max
    } else {
        magnitude(bits) / one()
    }
}

/// Whether the value is greater than one half.
pub fn is_above_half(bits: u32) -> (r: bool)
    ensures
        r == above_half(bits),
{
    if bits >= 0x8000_0000 {
        return false;
    }
    let e: u32 = bits / 0x80_0000;
    let f: u32 = bits % 0x80_0000;
    assert(e < 256);
    if e == 255 {
        return f == 0;
    }
    proof {
        lemma_half(bits, e as nat, f as nat);
    }
    e > 126 || (e == 126 && f > 0)
}

proof fn lemma_half(bits: u32, e: nat, f: nat)
    requires
        e == exponent(bits),
        f == fraction(bits),
        e < 255,
    ensures
        2 * magnitude(bits) > one() <==> (e > 126 || (e == 126 && f > 0)),
{
    let m = f + 0x80_0000;
    vstd::arithmetic::power2::lemma2_to64();
    lemma_pow2_adds(125, 24);
    lemma_pow2_pos(125);
    if e == 0 {
        assert(2 * f < 0x100_0000 * pow2(125)) by (nonlinear_arith)
            requires
                f < 0x80_0000,
                pow2(125) > 0,
        ;
    } else if e < 126 {
        if e - 1 < 124 {
            lemma_pow2_strictly_increases((e - 1) as nat, 124);
        }
        lemma_pow2_adds(124, 1);
        lemma_pow2_pos((e - 1) as nat);
        assert(2 * (m * pow2((e - 1) as nat)) < 0x100_0000 * (2 * pow2(124))) by (nonlinear_arith)
            requires
                m < 0x100_0000,
                0 < pow2((e - 1) as nat) <= pow2(124),
        ;
    } else if e == 126 {
        assert(2 * (m * pow2(125)) > 0x100_0000 * pow2(125) <==> m > 0x80_0000) by (nonlinear_arith)
            requires
                pow2(125) > 0,
        ;
    } else {
        if e - 1 > 126 {
            lemma_pow2_strictly_increases(126, (e - 1) as nat);
        }
        lemma_pow2_adds(125, 1);
        assert(2 * (m * pow2((e - 1) as nat)) > 0x100_0000 * pow2(125)) by (nonlinear_arith)
            requires
                m >= 0x80_0000,
                pow2((e - 1) as nat) >= 2 * pow2(125),
                pow2(125) > 0,
        ;
    }
}

proof fn lemma_floor(bits: u32, e: nat, m: nat)
    requires
        e == exponent(bits),
        m == fraction(bits) + 0x80_0000,
        127 <= e < 150,
    ensures
        magnitude(bits) / one() == m / pow2((150 - e) as nat),
{
    let c = pow2((e - 1) as nat);
    let d = pow2((150 - e) as nat);
    lemma_pow2_adds((e - 1) as nat, (150 - e) as nat);
    lemma_pow2_pos((e - 1) as nat);
    lemma_pow2_pos((150 - e) as nat);
    assert(m * c >= 0) by (nonlinear_arith)
        requires
            m >= 0,
            c >= 0,
    ;
    lemma_div_denominator((m * c) as int, c as int, d as int);
    assert(m * c == c * m) by (nonlinear_arith);
    lemma_div_multiples_vanish(m as int, c as int);
}

/// The value rounded down to a whole number, kept between zero and `max`.
pub fn floor_clamped(bits: u32, max: u16) -> (r: u16)
    ensures
        r == floor_within(bits, max as nat),
{
    if bits >= 0x8000_0000 {
        return 0;
    }
    let e: u32 = bits / 0x80_0000;
    let f: u32 = bits % 0x80_0000;
    assert(e < 256);
    if e == 255 {
        return if f == 0 {
            max
        } else {
            0
        };
    }
    if e < 127 {
        proof {
            lemma_small(bits, e as nat, f as nat);
        }
        return 0;
    }
    if e >= 143 {
        proof {
            lemma_large(bits, e as nat, f as nat);
        }
        return max;
    }
    let m: u32 = f + 0x80_0000;
    let shift: u32 = 150 - e;
    let whole: u32 = m >> shift;
    proof {
        lemma_floor(bits, e as nat, m as nat);
        vstd::bits::lemma_u32_shr_is_div(m, shift);
        assert(whole <= m) by (bit_vector)
            requires
                whole == m >> shift,
        ;
    }
    if whole > max as u32 {
        max
    } else {
        whole as u16
    }
}

proof fn lemma_small(bits: u32, e: nat, f: nat)
    requires
        e == exponent(bits),
        f == fraction(bits),
        e < 127,
    ensures
        magnitude(bits) / one() == 0,
{
    let m = f + 0x80_0000;
    vstd::arithmetic::power2::lemma2_to64();
    lemma_pow2_adds(125, 24);
    lemma_pow2_pos(125);
    lemma_pow2_pos(149);
    if e == 0 {
        assert(f < 0x100_0000 * pow2(125)) by (nonlinear_arith)
            requires
                f < 0x80_0000,
                pow2(125) > 0,
        ;
    } else {
        if e - 1 < 125 {
            lemma_pow2_strictly_increases((e - 1) as nat, 125);
        }
        lemma_pow2_pos((e - 1) as nat);
        assert(m * pow2((e - 1) as nat) < 0x100_0000 * pow2(125)) by (nonlinear_arith)
            requires
                m < 0x100_0000,
                0 < pow2((e - 1) as nat) <= pow2(125),
        ;
    }
    assert(magnitude(bits) < one());
    vstd::arithmetic::div_mod::lemma_basic_div(magnitude(bits) as int, one() as int);
}

proof fn lemma_large(bits: u32, e: nat, f: nat)
    requires
        e == exponent(bits),
        f == fraction(bits),
        143 <= e < 255,
    ensures
        magnitude(bits) / one() >= 0x1_0000,
{
    let m = f + 0x80_0000;
    vstd::arithmetic::power2::lemma2_to64();
    lemma_pow2_pos(149);
    if e - 1 > 142 {
        lemma_pow2_strictly_increases(142, (e - 1) as nat);
    }
    lemma_pow2_adds(142, 23);
    lemma_pow2_adds(149, 16);
    lemma_pow2_pos(142);
    assert(m * pow2((e - 1) as nat) >= 0x80_0000 * pow2(142)) by (nonlinear_arith)
        requires
            m >= 0x80_0000,
            pow2((e - 1) as nat) >= pow2(142) > 0,
    ;
    assert(magnitude(bits) >= 0x1_0000 * one());
    lemma_div_is_ordered((one() * 0x1_0000) as int, magnitude(bits) as int, one() as int);
    lemma_div_multiples_vanish(0x1_0000, one() as int);
}

/// The bits of the numbers from zero upwards count the values that can be encoded: the first is
/// zero, and from one to the next it is one step, which doubles with each exponent above the first.
/// The bits `0x3f800000` encode one.
pub proof fn magnitudes_follow_the_bits(bits: u32, e: nat)
    requires
        e * 0x80_0000 <= bits < (e + 1) * 0x80_0000,
        bits < 0x7f7f_ffff,
    ensures
        magnitude(0) == 0,
        magnitude(0x3f80_0000) == one(),
        e == 0 ==> magnitude((bits + 1) as u32) == magnitude(bits) + 1,
        e > 0 ==> magnitude((bits + 1) as u32) == magnitude(bits) + pow2((e - 1) as nat),
{
    let f = (bits - e * 0x80_0000) as nat;
    let next = (bits + 1) as u32;
    assert(exponent(bits) == e && fraction(bits) == f);
    vstd::arithmetic::power2::lemma2_to64();
    lemma_pow2_adds(126, 23);
    assert(exponent(0x3f80_0000) == 127 && fraction(0x3f80_0000) == 0);
    assert(0x80_0000 * pow2(126) == pow2(126) * 0x80_0000) by (nonlinear_arith);
    if f + 1 < 0x80_0000 {
        assert(exponent(next) == e && fraction(next) == f + 1);
        if e > 0 {
            let p = pow2((e - 1) as nat);
            assert((f + 1 + 0x80_0000) * p == (f + 0x80_0000) * p + p) by (nonlinear_arith);
        }
    } else {
        assert(next == (e + 1) * 0x80_0000);
        assert(exponent(next) == e + 1 && fraction(next) == 0);
        if e > 0 {
            let p = pow2((e - 1) as nat);
            lemma_pow2_adds(1, (e - 1) as nat);
            assert(pow2(e) == 2 * p);
            assert(0x80_0000 * (2 * p) == (0x7f_ffff + 0x80_0000) * p + p) by (nonlinear_arith);
        }
    }
}

/// Rounding down gives at least a whole number exactly if the value is at least that number, up to
/// the limit. A value is above one half exactly if its double is above one.
pub proof fn floors_lie_below_the_value(bits: u32, n: nat, max: nat)
    requires
        bits < 0x7f80_0000,
        n <= max,
    ensures
        floor_within(bits, max) <= max,
        floor_within(bits, max) >= n <==> magnitude(bits) >= n * one(),
        above_half(bits) <==> magnitude(bits) + magnitude(bits) > one(),
{
    lemma_pow2_pos(149);
    let m = magnitude(bits);
    let d = one();
    assert(exponent(bits) < 255);
    assert(m / d >= n <==> m >= n * d) by {
        vstd::arithmetic::div_mod::lemma_fundamental_div_mod(m as int, d as int);
        let q = (m / d) as int;
        let r = (m % d) as int;
        assert(q >= n ==> q * d + r >= n * d) by (nonlinear_arith)
            requires
                r >= 0,
                d > 0,
        ;
        assert(q < n ==> q * d + r < n * d) by (nonlinear_arith)
            requires
                r < d,
                d > 0,
        ;
        assert(d * q == q * d) by (nonlinear_arith);
    }
}

/// Infinity counts as above one half, and as the greatest whole number. What is negative and what is
/// not a number is not above one half, and counts as zero.
pub proof fn special_values(bits: u32, max: nat)
    ensures
        above_half(0x7f80_0000) && floor_within(0x7f80_0000, max) == max,
        bits > 0x7f80_0000 ==> !above_half(bits) && floor_within(bits, max) == 0,
{
    assert(exponent(0x7f80_0000) == 255 && fraction(0x7f80_0000) == 0);
    if 0x7f80_0000 < bits < 0x8000_0000 {
        assert(exponent(bits) == 255 && fraction(bits) != 0);
    }
}

} // verus!

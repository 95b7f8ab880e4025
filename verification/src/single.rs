//! Single-precision numbers, given by their bit patterns, and their order.
use vstd::arithmetic::power2::{lemma_pow2_pos, lemma_pow2_unfold, pow2};
use vstd::prelude::*;

verus! {

/// The bit pattern of the number zero.
pub const ZERO: u32 = 0;

/// The bit pattern of one half, below zero.
pub const MINUS_HALF: u32 = 0xBF00_0000;

/// The bit pattern of five, below zero.
pub const MINUS_FIVE: u32 = 0xC0A0_0000;

/// The sign bit.
pub const SIGN: u32 = 0x8000_0000;

/// The magnitude of infinity; greater ones are no numbers.
pub const INFINITY: u32 = 0x7F80_0000;

/// The sign bit is set.
pub open spec fn is_negative(bits: u32) -> bool {
    bits >= SIGN
}

/// The bits without the sign bit.
pub open spec fn magnitude(bits: u32) -> int {
    if is_negative(bits) {
        bits - SIGN
    } else {
        bits as int
    }
}

/// The bit pattern stands for a number or an infinity.
pub open spec fn is_number(bits: u32) -> bool {
    magnitude(bits) <= INFINITY
}

/// What a magnitude is worth, in units of the smallest positive number: an exponent of
/// eight bits stands before a fraction of twenty-three, with a leading one that is not
/// stored unless the exponent is zero. Infinity is worth more than any number.
pub open spec fn units(magnitude: int) -> int {
    let exponent = magnitude / 0x80_0000;
    let fraction = magnitude % 0x80_0000;
    if exponent == 0 {
        fraction
    } else {
        (0x80_0000 + fraction) * pow2((exponent - 1) as nat)
    }
}

/// What a bit pattern is worth, in units of the smallest positive number.
pub open spec fn value(bits: u32) -> int {
    if is_negative(bits) {
        -units(magnitude(bits))
    } else {
        units(magnitude(bits))
    }
}

/// One number is less than another. What is no number is neither less nor greater.
pub open spec fn is_less(a: u32, b: u32) -> bool {
    &&& is_number(a)
    &&& is_number(b)
    &&& value(a) < value(b)
}

/// The next magnitude is worth more.
proof fn lemma_units_step(magnitude: int)
    requires
        0 <= magnitude,
    ensures
        units(magnitude) < units(magnitude + 1),
{
    let exponent = magnitude / 0x80_0000;
    let fraction = magnitude % 0x80_0000;
    if fraction + 1 < 0x80_0000 {
        assert((magnitude + 1) / 0x80_0000 == exponent);
        assert((magnitude + 1) % 0x80_0000 == fraction + 1);
        if exponent > 0 {
            let p = pow2((exponent - 1) as nat) as int;
            lemma_pow2_pos((exponent - 1) as nat);
            assert((0x80_0000 + fraction) * p < (0x80_0000 + (fraction + 1)) * p)
                by (nonlinear_arith)
                requires
                    p > 0,
            ;
        }
    } else {
        assert((magnitude + 1) / 0x80_0000 == exponent + 1);
        assert((magnitude + 1) % 0x80_0000 == 0);
        lemma_pow2_pos(exponent as nat);
        let q = pow2(exponent as nat) as int;
        if exponent > 0 {
            lemma_pow2_unfold(exponent as nat);
            let p = pow2((exponent - 1) as nat) as int;
            lemma_pow2_pos((exponent - 1) as nat);
            assert((0x80_0000 + 0x7F_FFFF) * p < 0x80_0000 * q) by (nonlinear_arith)
                requires
                    p > 0,
                    q == 2 * p,
            ;
        } else {
            assert(0x7F_FFFF < 0x80_0000 * q) by (nonlinear_arith)
                requires
                    q > 0,
            ;
        }
    }
}

/// Greater magnitudes are worth more.
proof fn lemma_units_grow(a: int, b: int)
    requires
        0 <= a < b,
    ensures
        units(a) < units(b),
    decreases b - a,
{
    lemma_units_step(b - 1);
    if a < b - 1 {
        lemma_units_grow(a, b - 1);
    }
}

/// A magnitude is worth nothing if it is zero, and something if it is not.
proof fn lemma_units_sign(magnitude: int)
    requires
        0 <= magnitude,
    ensures
        units(0) == 0,
        magnitude > 0 ==> units(magnitude) > 0,
{
    if magnitude > 0 {
        lemma_units_grow(0, magnitude);
    }
}

/// One half is one half of the number one, which is two to the power of 149 units, and five is
/// five times that.
pub proof fn lemma_constants_are_meant(one: int)
    requires
        one == pow2(149),
    ensures
        value(ZERO) == 0,
        2 * value(MINUS_HALF) == -one,
        value(MINUS_FIVE) == -5 * one,
{
    vstd::arithmetic::power2::lemma_pow2_adds(125, 24);
    vstd::arithmetic::power2::lemma_pow2_adds(128, 21);
    assert(pow2(24) == 0x100_0000 && pow2(21) == 0x20_0000) by {
        vstd::arithmetic::power2::lemma2_to64();
    }
    let p = pow2(125) as int;
    let q = pow2(128) as int;
    assert(magnitude(MINUS_HALF) / 0x80_0000 == 126);
    assert(magnitude(MINUS_HALF) % 0x80_0000 == 0);
    assert(magnitude(MINUS_FIVE) / 0x80_0000 == 129);
    assert(magnitude(MINUS_FIVE) % 0x80_0000 == 0x20_0000);
    assert(2 * (0x80_0000 * p) == p * 0x100_0000) by (nonlinear_arith);
    assert((0x80_0000 + 0x20_0000) * q == 5 * (q * 0x20_0000)) by (nonlinear_arith);
}

/// Tells whether one number is less than another.
pub fn less(a: u32, b: u32) -> (less: bool)
    ensures
        less == is_less(a, b),
{
    let a_negative: bool = a >= SIGN;
    let b_negative: bool = b >= SIGN;
    let a_magnitude: u32 = if a_negative {
        a - SIGN
    } else {
        a
    };
    let b_magnitude: u32 = if b_negative {
        b - SIGN
    } else {
        b
    };
    proof {
        lemma_units_sign(a_magnitude as int);
        lemma_units_sign(b_magnitude as int);
        if a_magnitude < b_magnitude {
            lemma_units_grow(a_magnitude as int, b_magnitude as int);
        }
        if b_magnitude < a_magnitude {
            lemma_units_grow(b_magnitude as int, a_magnitude as int);
        }
    }
    if a_magnitude > INFINITY || b_magnitude > INFINITY {
        false
    } else if a_negative {
        if b_negative {
            b_magnitude < a_magnitude
        } else {
            a_magnitude > 0 || b_magnitude > 0
        }
    } else {
        !b_negative && a_magnitude < b_magnitude
    }
}

/// The order by bit patterns: numbers without the sign bit are ordered as their patterns are,
/// numbers with it the other way round, a number with it is less than one without it unless both
/// are zero, and what is no number is not compared.
pub proof fn lemma_order_by_patterns(a: u32, b: u32)
    ensures
        a <= 0x7F80_0000 && b <= 0x7F80_0000 ==> (is_less(a, b) <==> a < b),
        0x8000_0000 <= a <= 0xFF80_0000 && 0x8000_0000 <= b <= 0xFF80_0000 ==> (is_less(a, b)
            <==> b < a),
        0x8000_0000 <= a <= 0xFF80_0000 && b <= 0x7F80_0000 ==> (is_less(a, b) <==> !(a
            == 0x8000_0000 && b == 0)),
        a <= 0x7F80_0000 && 0x8000_0000 <= b <= 0xFF80_0000 ==> !is_less(a, b),
        0x7F80_0000 < a < 0x8000_0000 || a > 0xFF80_0000 || 0x7F80_0000 < b < 0x8000_0000 || b
            > 0xFF80_0000 ==> !is_less(a, b),
{
    let x = magnitude(a);
    let y = magnitude(b);
    lemma_units_sign(x);
    lemma_units_sign(y);
    if x < y {
        lemma_units_grow(x, y);
    }
    if y < x {
        lemma_units_grow(y, x);
    }
}

/// Which patterns are numbers.
pub proof fn lemma_numbers(bits: u32)
    ensures
        is_number(bits) <==> bits <= 0x7F80_0000 || 0x8000_0000 <= bits <= 0xFF80_0000,
{
}

/// The sign bit turns a number into its opposite.
pub proof fn lemma_opposites(bits: u32)
    requires
        bits < 0x8000_0000,
    ensures
        value((bits + 0x8000_0000) as u32) == -value(bits),
        value(bits) >= 0,
{
    lemma_units_sign(bits as int);
}

/// The scale: the patterns from zero to twice the first one with an exponent count the units, and
/// from there on each step of the exponent doubles the number.
pub proof fn lemma_scale(bits: u32)
    requires
        bits < 0x7F80_0000,
    ensures
        bits <= 0x100_0000 ==> value(bits) == bits,
        bits >= 0x80_0000 ==> value((bits + 0x80_0000) as u32) == 2 * value(bits),
{
    let exponent = bits as int / 0x80_0000;
    let fraction = bits as int % 0x80_0000;
    vstd::arithmetic::power2::lemma2_to64();
    if bits <= 0x100_0000 {
        assert(exponent == 0 || exponent == 1 || (exponent == 2 && fraction == 0));
        assert(pow2(0) == 1 && pow2(1) == 2);
        assert((0x80_0000 + fraction) * pow2(0) == 0x80_0000 + fraction);
        assert(0x80_0000 * pow2(1) == 0x100_0000);
        assert(units(bits as int) == bits);
    }
    if bits >= 0x80_0000 {
        let next = bits + 0x80_0000;
        assert(next / 0x80_0000 == exponent + 1);
        assert(next % 0x80_0000 == fraction);
        lemma_pow2_unfold(exponent as nat);
        let p = pow2((exponent - 1) as nat) as int;
        let q = pow2(exponent as nat) as int;
        assert((0x80_0000 + fraction) * q == 2 * ((0x80_0000 + fraction) * p)) by (nonlinear_arith)
            requires
                q == 2 * p,
        ;
    }
}

} // verus!

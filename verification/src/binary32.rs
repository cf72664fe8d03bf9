//! IEEE 754 binary32 numbers seen as their 32-bit encodings.
//!
//! A word is a sign bit, eight exponent bits and twenty-three fraction bits. The
//! model below gives every word that is not a NaN an exact integer value, scaled
//! by 2^149 so that the smallest subnormal is 1, and orders words by that value.

use vstd::arithmetic::power2::{
    lemma2_to64, lemma_pow2_adds, lemma_pow2_pos, lemma_pow2_strictly_increases,
    lemma_pow2_unfold, pow2,
};
use vstd::prelude::*;

verus! {

/// The sign bit; also the encoding of negative zero.
pub const SIGN_BIT: u32 = 0x8000_0000;

/// Positive infinity. A word whose magnitude is above this one is a NaN.
pub const INFINITY: u32 = 0x7f80_0000;

/// The number of distinct fraction fields, 2^23.
pub const FRACTION_SPAN: u32 = 0x80_0000;

/// Positive zero.
pub const ZERO: u32 = 0;

/// The number one.
pub const ONE: u32 = 0x3f80_0000;

/// The number two.
pub const TWO: u32 = 0x4000_0000;

/// The number minus one.
pub const NEG_ONE: u32 = 0xbf80_0000;

/// Whether the sign bit is set.
pub open spec fn is_negative(w: u32) -> bool {
    w >= SIGN_BIT
}

/// The word with its sign bit cleared.
pub open spec fn magnitude(w: u32) -> u32 {
    if w >= SIGN_BIT {
        (w - SIGN_BIT) as u32
    } else {
        w
    }
}

/// Whether the word encodes a NaN: all exponent bits set and a fraction that is not zero.
pub open spec fn is_nan(w: u32) -> bool {
    magnitude(w) > INFINITY
}

/// The biased exponent field, from 0 to 255.
pub open spec fn exponent_field(w: u32) -> nat {
    (magnitude(w) / FRACTION_SPAN) as nat
}

/// The fraction field, below 2^23.
pub open spec fn fraction_field(w: u32) -> nat {
    (magnitude(w) % FRACTION_SPAN) as nat
}

/// The significand as an integer: the fraction alone for a subnormal, the fraction
/// with the hidden bit in front of it otherwise.
pub open spec fn significand(w: u32) -> nat {
    if exponent_field(w) == 0 {
        fraction_field(w)
    } else {
        FRACTION_SPAN as nat + fraction_field(w)
    }
}

/// The absolute value times 2^149. Subnormals and the first normal binade share the
/// scale 1; each later binade doubles it. Infinity comes out as 2^277, the power of
/// two that follows the largest finite value, which is where IEEE 754 orders it.
pub open spec fn scaled_magnitude(w: u32) -> nat {
    if exponent_field(w) == 0 {
        significand(w)
    } else {
        significand(w) * pow2((exponent_field(w) - 1) as nat)
    }
}

/// The value times 2^149, for a word that is not a NaN. Both zeros have the value 0.
pub open spec fn scaled_value(w: u32) -> int {
    if is_negative(w) {
        -(scaled_magnitude(w) as int)
    } else {
        scaled_magnitude(w) as int
    }
}

/// The word with its sign bit flipped: the encoding of the negated number.
pub open spec fn negation(w: u32) -> u32 {
    if w >= SIGN_BIT {
        (w - SIGN_BIT) as u32
    } else {
        (w + SIGN_BIT) as u32
    }
}

/// The scaled value of the number one.
pub open spec fn unit() -> int {
    pow2(149) as int
}

/// The IEEE 754 comparison `a <= b`: false as soon as either side is a NaN, and the
/// order of the values otherwise.
pub open spec fn le_spec(a: u32, b: u32) -> bool {
    !is_nan(a) && !is_nan(b) && scaled_value(a) <= scaled_value(b)
}

/// A larger magnitude word encodes a larger absolute value.
pub proof fn lemma_magnitude_strictly_monotonic(a: u32, b: u32)
    requires
        magnitude(a) < magnitude(b),
    ensures
        scaled_magnitude(a) < scaled_magnitude(b),
{
    let ea = exponent_field(a);
    let eb = exponent_field(b);
    let sa = significand(a);
    let sb = significand(b);
    assert(sa < 2 * FRACTION_SPAN);
    if ea == eb {
        assert(sa < sb);
        if ea != 0 {
            let p = pow2((ea - 1) as nat);
            lemma_pow2_pos((ea - 1) as nat);
            assert(sa * p < sb * p) by (nonlinear_arith)
                requires
                    sa < sb,
                    p > 0,
            ;
        }
    } else {
        assert(ea < eb);
        assert(sb >= FRACTION_SPAN);
        let pb = pow2((eb - 1) as nat);
        lemma_pow2_pos((eb - 1) as nat);
        assert(sb * pb >= FRACTION_SPAN * pb) by (nonlinear_arith)
            requires
                sb >= FRACTION_SPAN,
                pb > 0,
        ;
        if ea == 0 {
            assert(FRACTION_SPAN * pb >= FRACTION_SPAN) by (nonlinear_arith)
                requires
                    pb > 0,
            ;
        } else {
            let pa = pow2((ea - 1) as nat);
            lemma_pow2_pos((ea - 1) as nat);
            lemma_pow2_unfold(ea);
            assert(pow2(ea) == 2 * pa);
            if ea < eb - 1 {
                lemma_pow2_strictly_increases(ea, (eb - 1) as nat);
            }
            assert(pow2(ea) <= pb);
            assert(sa * pa < FRACTION_SPAN * pb) by (nonlinear_arith)
                requires
                    sa < 2 * FRACTION_SPAN,
                    pa > 0,
                    2 * pa <= pb,
            ;
        }
    }
}

/// Flipping the sign bit negates the value and flips back.
pub proof fn lemma_negation(w: u32)
    ensures
        scaled_value(negation(w)) == -scaled_value(w),
        is_nan(negation(w)) == is_nan(w),
        negation(negation(w)) == w,
{
}

/// Only the two zeros have the value zero.
pub proof fn lemma_zero_magnitude(w: u32)
    ensures
        scaled_magnitude(w) == 0 <==> magnitude(w) == 0,
{
    if magnitude(w) != 0 {
        lemma_magnitude_strictly_monotonic(ZERO, w);
    }
}

/// The literals of this module encode zero, one, two and minus one.
pub proof fn lemma_literal_values()
    ensures
        scaled_value(ZERO) == 0,
        scaled_value(ONE) == unit(),
        scaled_value(TWO) == 2 * unit(),
        scaled_value(NEG_ONE) == -unit(),
        !is_nan(ZERO) && !is_nan(ONE) && !is_nan(TWO) && !is_nan(NEG_ONE),
{
    lemma2_to64();
    assert(exponent_field(ONE) == 127 && fraction_field(ONE) == 0);
    assert(exponent_field(NEG_ONE) == 127 && fraction_field(NEG_ONE) == 0);
    assert(exponent_field(TWO) == 128 && fraction_field(TWO) == 0);
    lemma_pow2_adds(23, 126);
    lemma_pow2_adds(23, 127);
    lemma_pow2_unfold(150);
}

/// Negates a number by flipping the sign bit of its encoding, as IEEE 754 has it
/// for every word, NaNs included.
pub fn negate(w: u32) -> (r: u32)
    ensures
        r == negation(w),
{
    if w >= SIGN_BIT {
        w - SIGN_BIT
    } else {
        w + SIGN_BIT
    }
}

/// Decides the IEEE 754 comparison `a <= b` on the encodings alone.
pub fn le(a: u32, b: u32) -> (r: bool)
    ensures
        r == le_spec(a, b),
{
    let a_negative = a >= SIGN_BIT;
    let b_negative = b >= SIGN_BIT;
    let a_magnitude: u32 = if a_negative { a - SIGN_BIT } else { a };
    let b_magnitude: u32 = if b_negative { b - SIGN_BIT } else { b };
    if a_magnitude > INFINITY || b_magnitude > INFINITY {
        return false;
    }
    proof {
        lemma_zero_magnitude(a);
        lemma_zero_magnitude(b);
        if a_magnitude < b_magnitude {
            lemma_magnitude_strictly_monotonic(a, b);
        }
        if b_magnitude < a_magnitude {
            lemma_magnitude_strictly_monotonic(b, a);
        }
    }
    if a_negative {
        !b_negative || b_magnitude <= a_magnitude
    } else if b_negative {
        a_magnitude == 0 && b_magnitude == 0
    } else {
        a_magnitude <= b_magnitude
    }
}

} // verus!

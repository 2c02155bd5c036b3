//! The Euclidean norm of a vector of components, in integers.
//!
//! A finite single-precision float is `s * 2^(e - 150)` in magnitude, with
//! `s` its significand, an integer below `2^24`, and `e` its exponent, from
//! 1 to 254. Its square is then `s * s * 2^(2 * e - 300)`. Here squares are
//! held in fixed point with 50 binary places, rounded down: the square of
//! `1.0` is `2^50`, and a square is off by less than `2^-50`.

use vstd::prelude::*;
use vstd::arithmetic::div_mod::lemma_basic_div;
use vstd::arithmetic::power2::{lemma2_to64, lemma2_to64_rest, lemma_pow2_strictly_increases, pow2};
use vstd::bits::lemma_u64_shr_is_div;
use crate::component::{magnitude, magnitude_bits, ONE};

verus! {

/// The weight of the lowest bit of the exponent field: two to the 23rd.
pub const EXPONENT_UNIT: u32 = 0x80_0000;

/// One, in fixed point with 50 binary places.
pub const FIXED_ONE: u64 = 0x4_0000_0000_0000;

/// How far the square of a norm may be from one to count as one: `2^-10`,
/// in fixed point with 50 binary places.
pub const NORM_TOLERANCE: u64 = 0x100_0000_0000;

/// The exponent field of the component, bits 23 to 30.
pub open spec fn exponent_field(bits: u32) -> nat {
    (magnitude_bits(bits) / EXPONENT_UNIT) as nat
}

/// The significand: the fraction field, with the hidden bit in front of it
/// unless the component is subnormal or zero.
pub open spec fn significand(bits: u32) -> nat {
    let fraction = (magnitude_bits(bits) % EXPONENT_UNIT) as nat;
    if exponent_field(bits) == 0 {
        fraction
    } else {
        EXPONENT_UNIT as nat + fraction
    }
}

/// The exponent `e` for which the magnitude is `significand * 2^(e - 150)`.
pub open spec fn binary_exponent(bits: u32) -> nat {
    if exponent_field(bits) == 0 {
        1
    } else {
        exponent_field(bits)
    }
}

/// The square of a finite component in fixed point with 50 binary places,
/// rounded down: `s * s * 2^(2 * e - 250)`.
pub open spec fn square_fixed(bits: u32) -> nat {
    let s = significand(bits);
    let e = binary_exponent(bits);
    if 2 * e >= 250 {
        s * s * pow2((2 * e - 250) as nat)
    } else {
        s * s / pow2((250 - 2 * e) as nat)
    }
}

/// The sum of the squares of the components, each in fixed point and
/// rounded down. It is below the true sum by less than `2^-50` for each
/// component.
pub open spec fn squared_norm_fixed(components: Seq<u32>) -> nat
    decreases components.len(),
{
    if components.len() == 0 {
        0
    } else {
        squared_norm_fixed(components.drop_last()) + square_fixed(components.last())
    }
}

/// Whether the Euclidean norm is one, as closely as single precision gives
/// it: the sum of the squares is within `2^-10` of one.
pub open spec fn near_unit_norm(components: Seq<u32>) -> bool {
    FIXED_ONE - NORM_TOLERANCE <= squared_norm_fixed(components) <= FIXED_ONE + NORM_TOLERANCE
}

/// The sum of squares of a vector that is one component longer.
pub proof fn lemma_squared_norm_step(components: Seq<u32>, i: int)
    requires
        0 <= i < components.len(),
    ensures
        squared_norm_fixed(components.take(i + 1)) == squared_norm_fixed(components.take(i))
            + square_fixed(components[i]),
{
    assert(components.take(i + 1).drop_last() =~= components.take(i));
}

/// The square of a component of magnitude at most one, in fixed point with
/// 50 binary places and rounded down; `None` for a larger magnitude, an
/// infinity or a NaN.
pub fn square_fixed_point(bits: u32) -> (r: Option<u64>)
    ensures
        r is Some <==> magnitude_bits(bits) <= ONE,
        r matches Some(q) ==> q == square_fixed(bits) && q <= FIXED_ONE,
{
    let m: u32 = magnitude(bits);
    if m > ONE {
        return None;
    }
    let field: u32 = m / EXPONENT_UNIT;
    let fraction: u32 = m % EXPONENT_UNIT;
    let s: u64 = if field == 0 {
        fraction as u64
    } else {
        (EXPONENT_UNIT + fraction) as u64
    };
    let e: u32 = if field == 0 {
        1
    } else {
        field
    };
    assert(s == significand(bits) && e == binary_exponent(bits));
    assert(s < 0x100_0000 && e <= 127);
    assert(e == 127 ==> s == 0x80_0000);
    assert(s * s < 0x1_0000_0000_0000) by (nonlinear_arith)
        requires
            s < 0x100_0000,
    ;
    let square: u64 = s * s;
    proof {
        lemma2_to64();
        lemma2_to64_rest();
    }
    if e >= 125 {
        let ghost up = pow2((2 * e - 250) as nat);
        assert(square_fixed(bits) == square * up);
        if e == 125 {
            assert(up == 1);
            assert(square * up == square) by (nonlinear_arith)
                requires
                    up == 1,
            ;
            Some(square)
        } else if e == 126 {
            assert(up == 4);
            assert(square * up == square * 4) by (nonlinear_arith)
                requires
                    up == 4,
            ;
            Some(square * 4)
        } else {
            assert(up == 16);
            assert(square * up == square * 16) by (nonlinear_arith)
                requires
                    up == 16,
            ;
            assert(square == 0x4000_0000_0000) by (nonlinear_arith)
                requires
                    square == s * s,
                    s == 0x80_0000,
            ;
            Some(square * 16)
        }
    } else {
        let shift: u32 = 250 - 2 * e;
        assert(square_fixed(bits) == square as nat / pow2(shift as nat));
        if shift >= 48 {
            proof {
                if shift > 48 {
                    lemma_pow2_strictly_increases(48, shift as nat);
                }
                lemma_basic_div(square as int, pow2(shift as nat) as int);
            }
            Some(0)
        } else {
            proof {
                lemma_u64_shr_is_div(square, shift as u64);
            }
            Some(square >> (shift as u64))
        }
    }
}

/// The sum of the squares of the components, in fixed point with 50 binary
/// places; `None` if a component is beyond magnitude one.
pub fn squared_norm_fixed_point(components: &Vec<u32>) -> (r: Option<u128>)
    ensures
        r is Some <==> forall|i: int|
            0 <= i < components@.len() ==> magnitude_bits(#[trigger] components@[i]) <= ONE,
        r matches Some(sum) ==> sum == squared_norm_fixed(components@),
{
    let mut sum: u128 = 0;
    let mut i: usize = 0;
    assert(components@.take(0).len() == 0);
    while i < components.len()
        invariant
            i <= components.len(),
            sum == squared_norm_fixed(components@.take(i as int)),
            sum <= i * FIXED_ONE,
            forall|j: int| 0 <= j < i ==> magnitude_bits(#[trigger] components@[j]) <= ONE,
        decreases components.len() - i,
    {
        proof {
            lemma_squared_norm_step(components@, i as int);
        }
        match square_fixed_point(components[i]) {
            None => {
                return None;
            },
            Some(q) => {
                assert((i + 1) * FIXED_ONE == i * FIXED_ONE + FIXED_ONE) by (nonlinear_arith);
                assert(i * FIXED_ONE <= usize::MAX * FIXED_ONE) by (nonlinear_arith)
                    requires
                        i <= usize::MAX,
                ;
                sum = sum + q as u128;
            },
        }
        i += 1;
    }
    assert(components@.take(components@.len() as int) =~= components@);
    Some(sum)
}

} // verus!

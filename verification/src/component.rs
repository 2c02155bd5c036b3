//! Single components of an embedding, read through their bit patterns.
//!
//! A component is an IEEE-754 single-precision float. Bit 31 is its sign
//! and the remaining 31 bits order its magnitude: of two bit patterns
//! without the sign, the larger stands for the larger magnitude, with the
//! infinities and the NaNs above every finite value.

use vstd::prelude::*;

verus! {

/// The bit pattern of `0.0`, the value a short vector is padded with.
pub const ZERO: u32 = 0;

/// The sign bit. Alone it is the bit pattern of `-0.0`.
pub const SIGN_BIT: u32 = 0x8000_0000;

/// The bit pattern of `1.0`.
pub const ONE: u32 = 0x3f80_0000;

/// The bit pattern without its sign.
pub open spec fn magnitude_bits(bits: u32) -> u32 {
    if bits >= SIGN_BIT {
        (bits - SIGN_BIT) as u32
    } else {
        bits
    }
}

/// Whether the component compares equal to zero. Both zeros do, the
/// positive and the negative one, and nothing else.
pub open spec fn is_zero_bits(bits: u32) -> bool {
    magnitude_bits(bits) == 0
}

/// Whether the component can belong to a vector of Euclidean norm one that
/// has no zero in it: it is not zero and its magnitude is at most one. This
/// leaves out the infinities and the NaNs.
pub open spec fn is_unit_range_bits(bits: u32) -> bool {
    0 < magnitude_bits(bits) <= ONE
}

pub fn magnitude(bits: u32) -> (m: u32)
    ensures
        m == magnitude_bits(bits),
        m < SIGN_BIT,
{
    if bits >= SIGN_BIT {
        bits - SIGN_BIT
    } else {
        bits
    }
}

pub fn is_zero_component(bits: u32) -> (r: bool)
    ensures
        r == is_zero_bits(bits),
        r == (bits == ZERO || bits == SIGN_BIT),
{
    magnitude(bits) == 0
}

pub fn is_unit_range_component(bits: u32) -> (r: bool)
    ensures
        r == is_unit_range_bits(bits),
        r ==> !is_zero_bits(bits),
{
    let m: u32 = magnitude(bits);
    0 < m && m <= ONE
}

} // verus!

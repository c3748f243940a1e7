//! Floating-point numbers as the library holds them: by their bits.

use vstd::prelude::*;

verus! {

/// A binary64 floating-point number: its IEEE-754 bit pattern, and its text
/// as Rust's `Display` writes it (which the library only passes on).
#[derive(Debug)]
pub struct Real {
    pub bits: u64,
    pub text: String,
}

/// The biased exponent field of a binary64 bit pattern.
pub open spec fn exponent_field(bits: u64) -> u64 {
    (bits >> 52u64) & 0x7ffu64
}

/// Whether the bits stand for a finite number (neither infinite nor NaN).
pub open spec fn bits_finite(bits: u64) -> bool {
    exponent_field(bits) != 0x7ffu64
}

/// Whether the bits stand for NaN.
pub open spec fn bits_nan(bits: u64) -> bool {
    exponent_field(bits) == 0x7ffu64 && bits & 0xf_ffff_ffff_ffffu64 != 0
}

/// IEEE-754 equality, as `==` on `f64` decides it: NaN equals nothing, and
/// the two zeros are equal.
pub open spec fn bits_equal(a: u64, b: u64) -> bool {
    !bits_nan(a) && !bits_nan(b) && (a == b || (a | b) & 0x7fff_ffff_ffff_ffffu64 == 0)
}

impl Real {
    /// Whether the number is finite.
    pub fn is_finite(&self) -> (r: bool)
        ensures
            r == bits_finite(self.bits),
    {
        (self.bits >> 52u64) & 0x7ffu64 != 0x7ffu64
    }

    /// Whether the two numbers are equal as `f64` values.
    pub fn equals(&self, other: &Real) -> (r: bool)
        ensures
            r == bits_equal(self.bits, other.bits),
    {
        let a = self.bits;
        let b = other.bits;
        let a_nan = (a >> 52u64) & 0x7ffu64 == 0x7ffu64 && a & 0xf_ffff_ffff_ffffu64 != 0;
        let b_nan = (b >> 52u64) & 0x7ffu64 == 0x7ffu64 && b & 0xf_ffff_ffff_ffffu64 != 0;
        !a_nan && !b_nan && (a == b || (a | b) & 0x7fff_ffff_ffff_ffffu64 == 0)
    }
}

impl Clone for Real {
    fn clone(&self) -> (r: Self)
        ensures
            r == *self,
    {
        Real { bits: self.bits, text: self.text.clone() }
    }
}

} // verus!

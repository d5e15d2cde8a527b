//! Single-precision values held by their IEEE 754 binary32 bit patterns.
//!
//! The library reads floating-point inputs only to compare them, to take their
//! absolute value and to carry them through. A binary32 encoding is a sign bit
//! followed by a magnitude field, and for every encoding that is not a NaN the
//! numeric order of the values is the order of the signed magnitudes (with
//! `+0.0` and `-0.0` equal). A NaN compares false with everything. The spec
//! functions below state exactly that model, and the executable comparisons
//! are proved against it.
use vstd::prelude::*;

verus! {

/// Bit pattern of `+0.0`.
pub const ZERO_BITS: u32 = 0x0000_0000;

/// Bit pattern of `1.0`.
pub const ONE_BITS: u32 = 0x3f80_0000;

/// Bit pattern of `+inf`.
pub const INFINITY_BITS: u32 = 0x7f80_0000;

/// Bit pattern of `90.0`.
pub const NINETY_BITS: u32 = 0x42b4_0000;

/// Bit pattern of `-90.0`.
pub const MINUS_NINETY_BITS: u32 = 0xc2b4_0000;

/// A single-precision value, stored as its bit pattern (`f32::to_bits`).
///
/// `==` on this type compares bit patterns; numeric equality is `equals`.
#[derive(Clone, Copy, Debug, PartialEq, Eq, Structural)]
pub struct Binary32 {
    pub bits: u32,
}

impl Binary32 {
    /// The sign bit is set.
    pub open spec fn sign_set(self) -> bool {
        self.bits >= 0x8000_0000u32
    }

    /// The encoding without its sign bit.
    pub open spec fn magnitude(self) -> nat {
        if self.sign_set() {
            (self.bits - 0x8000_0000u32) as nat
        } else {
            self.bits as nat
        }
    }

    /// Exponent field all ones with a non-zero fraction.
    pub open spec fn spec_is_nan(self) -> bool {
        self.magnitude() > 0x7f80_0000
    }

    /// Position of the value in the numeric order (meaningful for non-NaN values).
    pub open spec fn order_key(self) -> int {
        if self.sign_set() {
            -(self.magnitude() as int)
        } else {
            self.magnitude() as int
        }
    }

    /// `self < other` on the values.
    pub open spec fn spec_lt(self, other: Binary32) -> bool {
        !self.spec_is_nan() && !other.spec_is_nan() && self.order_key() < other.order_key()
    }

    /// `self <= other` on the values.
    pub open spec fn spec_le(self, other: Binary32) -> bool {
        !self.spec_is_nan() && !other.spec_is_nan() && self.order_key() <= other.order_key()
    }

    /// `self == other` on the values.
    pub open spec fn spec_eq(self, other: Binary32) -> bool {
        !self.spec_is_nan() && !other.spec_is_nan() && self.order_key() == other.order_key()
    }

    /// `f32::abs`: the same encoding with the sign bit cleared.
    pub open spec fn spec_abs(self) -> Binary32 {
        Binary32 { bits: self.magnitude() as u32 }
    }

    fn magnitude_bits(&self) -> (m: u32)
        ensures
            m == self.magnitude(),
    {
        if self.bits >= 0x8000_0000u32 {
            self.bits - 0x8000_0000u32
        } else {
            self.bits
        }
    }

    fn key(&self) -> (k: i64)
        ensures
            k == self.order_key(),
    {
        let m = self.magnitude_bits();
        if self.bits >= 0x8000_0000u32 {
            -(m as i64)
        } else {
            m as i64
        }
    }

    /// The value is a NaN.
    pub fn is_nan(&self) -> (r: bool)
        ensures
            r == self.spec_is_nan(),
    {
        self.magnitude_bits() > 0x7f80_0000u32
    }

    /// `self < other` as `f32` compares.
    pub fn less_than(&self, other: &Binary32) -> (r: bool)
        ensures
            r == self.spec_lt(*other),
    {
        if self.is_nan() || other.is_nan() {
            false
        } else {
            self.key() < other.key()
        }
    }

    /// `self <= other` as `f32` compares.
    pub fn less_or_equal(&self, other: &Binary32) -> (r: bool)
        ensures
            r == self.spec_le(*other),
    {
        if self.is_nan() || other.is_nan() {
            false
        } else {
            self.key() <= other.key()
        }
    }

    /// `self == other` as `f32` compares.
    pub fn equals(&self, other: &Binary32) -> (r: bool)
        ensures
            r == self.spec_eq(*other),
    {
        if self.is_nan() || other.is_nan() {
            false
        } else {
            self.key() == other.key()
        }
    }

    /// `f32::abs`.
    pub fn abs(&self) -> (r: Binary32)
        ensures
            r == self.spec_abs(),
    {
        Binary32 { bits: self.magnitude_bits() }
    }
}

/// The value `+0.0`.
pub open spec fn zero() -> Binary32 {
    Binary32 { bits: ZERO_BITS }
}

/// The absolute value of a non-NaN value is not below zero, and is its own absolute value.
pub proof fn lemma_abs_not_negative(v: Binary32)
    ensures
        !v.spec_abs().spec_lt(zero()),
        v.spec_abs().spec_abs() == v.spec_abs(),
        v.spec_abs().spec_is_nan() == v.spec_is_nan(),
{
}

/// The comparisons order the numbers totally: of two non-NaN values exactly
/// one is below, equal to or above the other, `<=` is `<` or `==`, `<` is
/// transitive, and the two zeros are equal. A NaN compares false with every
/// value, itself included.
pub proof fn lemma_comparisons_order_numbers(a: Binary32, b: Binary32, c: Binary32)
    ensures
        (!a.spec_is_nan() && !b.spec_is_nan()) ==> ((a.spec_lt(b) as int) + (a.spec_eq(b) as int) + (b.spec_lt(a) as int) == 1),
        a.spec_le(b) <==> (a.spec_lt(b) || a.spec_eq(b)),
        a.spec_eq(b) <==> b.spec_eq(a),
        (a.spec_lt(b) && b.spec_lt(c)) ==> a.spec_lt(c),
        !a.spec_lt(a),
        a.spec_is_nan() ==> !a.spec_lt(b) && !b.spec_lt(a) && !a.spec_le(b) && !b.spec_le(a) && !a.spec_eq(b),
        zero().spec_eq(Binary32 { bits: 0x8000_0000u32 }),
{
}

/// The absolute value of a number stands as far above zero as the number
/// stands from zero, and has the sign bit clear; `abs` of a NaN is a NaN.
pub proof fn lemma_abs_distance_from_zero(v: Binary32)
    ensures
        !v.spec_abs().sign_set(),
        !v.spec_is_nan() ==> v.spec_abs().order_key() == (if v.order_key() < 0 {
            -v.order_key()
        } else {
            v.order_key()
        }),
        v.spec_is_nan() ==> v.spec_abs().spec_is_nan(),
{
}

} // verus!

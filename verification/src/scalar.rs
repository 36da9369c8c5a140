//! Double-precision quantities, carried by their bit pattern.
//!
//! Sizes, positions and scales travel through the logic unchanged: they are
//! stored, compared and sent on, and the arithmetic on them happens at the
//! edges. A [`Scalar`] therefore holds the IEEE-754 binary64 encoding and
//! offers the comparisons of that format.

use vstd::prelude::*;

verus! {

/// The sign bit of an encoding.
pub const SIGN_BIT: u64 = 0x8000_0000_0000_0000;

/// The magnitude of an infinity; a greater one encodes a NaN.
pub const INFINITE_MAGNITUDE: u64 = 0x7ff0_0000_0000_0000;

/// A binary64 number given by its encoding.
#[derive(Debug, Clone, Copy)]
pub struct Scalar {
    pub bits: u64,
}

impl Scalar {
    pub open spec fn spec_negative(self) -> bool {
        self.bits >= SIGN_BIT
    }

    /// The encoding without its sign.
    pub open spec fn spec_magnitude(self) -> int {
        if self.spec_negative() {
            self.bits - SIGN_BIT
        } else {
            self.bits as int
        }
    }

    pub open spec fn spec_is_nan(self) -> bool {
        self.spec_magnitude() > INFINITE_MAGNITUDE
    }

    /// The position of a number that is no NaN on the number line: encodings
    /// of one sign are ordered as integers, and both zeros are one number.
    pub open spec fn rank(self) -> int {
        if self.spec_negative() {
            -self.spec_magnitude()
        } else {
            self.spec_magnitude()
        }
    }

    /// Equality of the numbers: a NaN equals nothing, itself included.
    pub open spec fn same_number(self, other: Scalar) -> bool {
        !self.spec_is_nan() && !other.spec_is_nan() && self.rank() == other.rank()
    }

    pub open spec fn number_below(self, other: Scalar) -> bool {
        !self.spec_is_nan() && !other.spec_is_nan() && self.rank() < other.rank()
    }

    pub fn from_bits(bits: u64) -> (s: Scalar)
        ensures
            s.bits == bits,
    {
        Scalar { bits }
    }

    pub fn to_bits(self) -> (bits: u64)
        ensures
            bits == self.bits,
    {
        self.bits
    }

    /// Positive zero.
    pub fn zero() -> (s: Scalar)
        ensures
            s.bits == 0,
            s.rank() == 0,
            !s.spec_is_nan(),
    {
        Scalar { bits: 0 }
    }

    fn magnitude(self) -> (m: u64)
        ensures
            m == self.spec_magnitude(),
    {
        if self.bits >= SIGN_BIT {
            self.bits - SIGN_BIT
        } else {
            self.bits
        }
    }

    pub fn is_nan(self) -> (b: bool)
        ensures
            b == self.spec_is_nan(),
    {
        self.magnitude() > INFINITE_MAGNITUDE
    }

    /// `self < other` of the numbers.
    pub fn below(self, other: Scalar) -> (b: bool)
        ensures
            b == self.number_below(other),
    {
        if self.is_nan() || other.is_nan() {
            return false;
        }
        let neg_a = self.bits >= SIGN_BIT;
        let neg_b = other.bits >= SIGN_BIT;
        if neg_a && neg_b {
            other.magnitude() < self.magnitude()
        } else if neg_a {
            self.magnitude() != 0 || other.magnitude() != 0
        } else if neg_b {
            false
        } else {
            self.magnitude() < other.magnitude()
        }
    }
}

impl PartialEq for Scalar {
    fn eq(&self, other: &Scalar) -> (b: bool) {
        if self.is_nan() || other.is_nan() {
            return false;
        }
        self.bits == other.bits || (self.magnitude() == 0 && other.magnitude() == 0)
    }
}

impl vstd::std_specs::cmp::PartialEqSpecImpl for Scalar {
    open spec fn obeys_eq_spec() -> bool {
        true
    }

    open spec fn eq_spec(&self, other: &Scalar) -> bool {
        self.same_number(*other)
    }
}

/// Equality of numbers is symmetric.
pub proof fn same_number_symmetric(a: Scalar, b: Scalar)
    ensures
        a.same_number(b) == b.same_number(a),
{
}

/// Of two numbers that are no NaN exactly one of less, equal and greater
/// holds; of a NaN none does.
pub proof fn numbers_are_ordered(a: Scalar, b: Scalar)
    ensures
        !a.spec_is_nan() && !b.spec_is_nan() ==> {
            &&& a.number_below(b) || a.same_number(b) || b.number_below(a)
            &&& !(a.number_below(b) && b.number_below(a))
            &&& !(a.number_below(b) && a.same_number(b))
        },
        a.spec_is_nan() || b.spec_is_nan() ==> !a.number_below(b) && !a.same_number(b),
{
}

} // verus!

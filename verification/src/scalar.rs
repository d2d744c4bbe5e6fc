//! Scalars: IEEE 754 binary64 quantities held by their bit patterns.
//!
//! Nothing here computes with a scalar. A scalar is ordered, tested for being
//! finite and asked for its sign, all of which can be read off the pattern: with
//! the sign bit taken as a sign and the other 63 bits as a magnitude, two
//! patterns that are not NaN compare as the quantities they stand for.

use vstd::prelude::*;

verus! {

/// The sign bit of a pattern.
pub const SIGN_BIT: u64 = 0x8000_0000_0000_0000;

/// The magnitude of an infinity. Smaller magnitudes are finite, larger ones NaN.
pub const INFINITY_MAGNITUDE: u64 = 0x7FF0_0000_0000_0000;

/// A binary64 quantity, held by its bit pattern.
#[derive(Clone, Copy, Debug, PartialEq, Eq, Structural)]
pub struct Scalar {
    pub bits: u64,
}

impl Scalar {
    /// The pattern without its sign bit.
    pub open spec fn magnitude(self) -> int {
        if self.bits >= SIGN_BIT {
            self.bits - SIGN_BIT
        } else {
            self.bits as int
        }
    }

    /// Whether the sign bit is set.
    pub open spec fn sign_bit(self) -> bool {
        self.bits >= SIGN_BIT
    }

    /// Not a number.
    pub open spec fn nan(self) -> bool {
        self.magnitude() > INFINITY_MAGNITUDE
    }

    /// Neither an infinity nor NaN.
    pub open spec fn finite(self) -> bool {
        self.magnitude() < INFINITY_MAGNITUDE
    }

    /// The signed magnitude. Both zeros have code 0, and scalars that are not
    /// NaN are ordered as their codes are.
    pub open spec fn code(self) -> int {
        if self.sign_bit() {
            -self.magnitude()
        } else {
            self.magnitude()
        }
    }

    /// Strictly less; false as soon as either side is NaN.
    pub open spec fn less(self, other: Scalar) -> bool {
        !self.nan() && !other.nan() && self.code() < other.code()
    }

    /// Less or equal; false as soon as either side is NaN.
    pub open spec fn at_most(self, other: Scalar) -> bool {
        !self.nan() && !other.nan() && self.code() <= other.code()
    }

    /// 1 above zero, -1 below zero, 0 for a zero and for NaN.
    pub open spec fn sign(self) -> int {
        if self.nan() {
            0
        } else if self.code() > 0 {
            1
        } else if self.code() < 0 {
            -1
        } else {
            0
        }
    }

    /// The scalar with the sign bit cleared.
    pub open spec fn magnitude_scalar(self) -> Scalar {
        Scalar { bits: self.magnitude() as u64 }
    }

    /// The scalar with the given bit pattern.
    pub fn from_bits(bits: u64) -> (s: Scalar)
        ensures
            s.bits == bits,
    {
        Scalar { bits }
    }

    /// The bit pattern.
    pub fn to_bits(&self) -> (bits: u64)
        ensures
            bits == self.bits,
    {
        self.bits
    }

    /// Positive zero.
    pub fn zero() -> (s: Scalar)
        ensures
            s.bits == 0,
            s.finite(),
            s.code() == 0,
    {
        Scalar { bits: 0 }
    }

    /// Positive infinity.
    pub fn infinity() -> (s: Scalar)
        ensures
            s.bits == INFINITY_MAGNITUDE,
            !s.nan(),
            !s.finite(),
            s.code() == INFINITY_MAGNITUDE,
    {
        Scalar { bits: INFINITY_MAGNITUDE }
    }

    /// Whether this is NaN.
    pub fn is_nan(&self) -> (b: bool)
        ensures
            b == self.nan(),
    {
        self.order_key() > 0x7FF0_0000_0000_0000 || self.order_key() < -0x7FF0_0000_0000_0000
    }

    /// Whether this is neither an infinity nor NaN.
    pub fn is_finite(&self) -> (b: bool)
        ensures
            b == self.finite(),
    {
        -0x7FF0_0000_0000_0000 < self.order_key() && self.order_key() < 0x7FF0_0000_0000_0000
    }

    /// The code as a machine integer.
    pub fn order_key(&self) -> (k: i64)
        ensures
            k == self.code(),
            -0x7FFF_FFFF_FFFF_FFFF <= k <= 0x7FFF_FFFF_FFFF_FFFF,
    {
        if self.bits >= SIGN_BIT {
            let m: u64 = self.bits - SIGN_BIT;
            -(m as i64)
        } else {
            self.bits as i64
        }
    }

    /// `self < other` as the quantities compare.
    pub fn lt(&self, other: &Scalar) -> (b: bool)
        ensures
            b == self.less(*other),
    {
        !self.is_nan() && !other.is_nan() && self.order_key() < other.order_key()
    }

    /// `self <= other` as the quantities compare.
    pub fn le(&self, other: &Scalar) -> (b: bool)
        ensures
            b == self.at_most(*other),
    {
        !self.is_nan() && !other.is_nan() && self.order_key() <= other.order_key()
    }

    /// `self > other` as the quantities compare.
    pub fn gt(&self, other: &Scalar) -> (b: bool)
        ensures
            b == other.less(*self),
    {
        other.lt(self)
    }

    /// `self >= other` as the quantities compare.
    pub fn ge(&self, other: &Scalar) -> (b: bool)
        ensures
            b == other.at_most(*self),
    {
        other.le(self)
    }

    /// The absolute value: the same pattern with the sign bit cleared.
    pub fn abs(&self) -> (s: Scalar)
        ensures
            s == self.magnitude_scalar(),
            s.magnitude() == self.magnitude(),
            !s.sign_bit(),
            s.nan() == self.nan(),
            s.finite() == self.finite(),
    {
        if self.bits >= SIGN_BIT {
            Scalar { bits: self.bits - SIGN_BIT }
        } else {
            Scalar { bits: self.bits }
        }
    }

    /// The sign: 1, -1, or 0 for a zero and for NaN.
    pub fn signum(&self) -> (s: i8)
        ensures
            s == self.sign(),
    {
        if self.is_nan() {
            0
        } else if self.order_key() > 0 {
            1
        } else if self.order_key() < 0 {
            -1
        } else {
            0
        }
    }
}

/// Scalars that are not NaN are totally ordered: of two, one is less or they
/// have the same code.
pub proof fn lemma_order_total(a: Scalar, b: Scalar)
    requires
        !a.nan(),
        !b.nan(),
    ensures
        a.less(b) || b.less(a) || a.code() == b.code(),
        !(a.less(b) && b.less(a)),
        a.at_most(b) <==> !b.less(a),
{
}

/// The order is transitive.
pub proof fn lemma_order_transitive(a: Scalar, b: Scalar, c: Scalar)
    requires
        a.less(b),
        b.at_most(c),
    ensures
        a.less(c),
{
}

/// NaN compares false with everything, itself included.
pub proof fn lemma_nan_unordered(a: Scalar, b: Scalar)
    requires
        a.nan(),
    ensures
        !a.less(b),
        !b.less(a),
        !a.at_most(b),
        !b.at_most(a),
        a.sign() == 0,
{
}

} // verus!

//! Single-precision numbers, held as their bits.

use vstd::prelude::*;

verus! {

/// The bits of an IEEE 754 single-precision number: the sign in the highest
/// bit, the magnitude below it. Among numbers of one sign the magnitude orders
/// them, so that numbers can be compared without floating-point arithmetic.
#[derive(Debug, Clone, Copy, PartialEq, Eq, Structural)]
pub struct Scalar {
    pub bits: u32,
}

pub const SIGN: u32 = 0x8000_0000;

/// The magnitude of infinity. What is above it is not a number.
pub const INFINITE: u32 = 0x7f80_0000;

impl Scalar {
    /// The bits without the sign.
    pub open spec fn spec_magnitude(self) -> nat {
        self.bits as nat % SIGN as nat
    }

    pub open spec fn nan(self) -> bool {
        self.spec_magnitude() > INFINITE
    }

    pub open spec fn finite(self) -> bool {
        self.spec_magnitude() < INFINITE
    }

    /// Where the number stands among the others. Numbers that are equal, the
    /// two zeros among them, share a rank, and a lower number has a lower one.
    pub open spec fn rank(self) -> int {
        if self.bits < SIGN {
            self.spec_magnitude() as int
        } else {
            -self.spec_magnitude()
        }
    }

    /// Whether the number lies between `low` and `high`, both included.
    pub open spec fn within(self, low: Scalar, high: Scalar) -> bool {
        !self.nan() && low.rank() <= self.rank() <= high.rank()
    }

    /// The number, or the nearer end of the range where it lies outside. What
    /// is not a number stays as it is.
    pub open spec fn clamped(self, low: Scalar, high: Scalar) -> Scalar {
        if self.nan() {
            self
        } else if self.rank() < low.rank() {
            low
        } else if self.rank() > high.rank() {
            high
        } else {
            self
        }
    }

    fn magnitude(self) -> (m: u32)
        ensures
            m == self.spec_magnitude(),
    {
        self.bits % SIGN
    }

    fn is_nan(self) -> (b: bool)
        ensures
            b == self.nan(),
    {
        self.magnitude() > INFINITE
    }

    /// Whether this is a number, and neither infinity.
    pub fn is_finite(self) -> (b: bool)
        ensures
            b == self.finite(),
    {
        self.magnitude() < INFINITE
    }

    /// Whether this number is lower than `other`, neither being a NaN.
    fn is_below(self, other: Scalar) -> (b: bool)
        ensures
            b == (self.rank() < other.rank()),
    {
        if self.bits < SIGN {
            other.bits < SIGN && self.magnitude() < other.magnitude()
        } else if other.bits < SIGN {
            self.magnitude() > 0 || other.magnitude() > 0
        } else {
            self.magnitude() > other.magnitude()
        }
    }

    /// Whether this number lies between `low` and `high`, both included.
    pub fn is_within(self, low: Scalar, high: Scalar) -> (b: bool)
        ensures
            b == self.within(low, high),
    {
        !self.is_nan() && !self.is_below(low) && !high.is_below(self)
    }

    /// This number, or the nearer end of the range where it lies outside.
    pub fn clamp(self, low: Scalar, high: Scalar) -> (c: Scalar)
        ensures
            c == self.clamped(low, high),
    {
        if self.is_nan() {
            self
        } else if self.is_below(low) {
            low
        } else if high.is_below(self) {
            high
        } else {
            self
        }
    }
}

} // verus!

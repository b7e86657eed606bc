//! Real numbers as the bits of their double precision encoding, and their order.

use vstd::prelude::*;

verus! {

/// A number in the IEEE 754 double precision encoding. Two scalars are `==` where their bits
/// are; the order of the numbers is given by `less_than` and `at_most`.
#[derive(Debug, Clone, Copy, PartialEq, Eq, Structural)]
pub struct Scalar {
    pub bits: u64,
}

/// The encoding of positive infinity; the bit of the sign.
pub const INFINITY_BITS: u64 = 0x7ff0_0000_0000_0000;

/// The bit that is set in negative numbers.
pub const SIGN_BIT: u64 = 0x8000_0000_0000_0000;

impl Scalar {
    /// The encoding without its sign.
    pub open spec fn magnitude(self) -> int {
        if self.bits < SIGN_BIT {
            self.bits as int
        } else {
            self.bits - SIGN_BIT
        }
    }

    /// An integer that orders the numbers: zero for both zeros, and larger for a larger number.
    pub open spec fn rank(self) -> int {
        if self.bits < SIGN_BIT {
            self.magnitude()
        } else {
            -self.magnitude()
        }
    }

    /// A NaN.
    pub open spec fn nan(self) -> bool {
        self.magnitude() > INFINITY_BITS
    }

    /// Neither a NaN nor infinite.
    pub open spec fn finite(self) -> bool {
        self.magnitude() < INFINITY_BITS
    }

    /// `self < other` as numbers.
    pub open spec fn lt(self, other: Scalar) -> bool {
        !self.nan() && !other.nan() && self.rank() < other.rank()
    }

    /// `self <= other` as numbers.
    pub open spec fn le(self, other: Scalar) -> bool {
        !self.nan() && !other.nan() && self.rank() <= other.rank()
    }

    /// Finite and larger than zero.
    pub open spec fn positive(self) -> bool {
        self.finite() && self.rank() > 0
    }

    /// Finite and not smaller than zero.
    pub open spec fn nonnegative(self) -> bool {
        self.finite() && self.rank() >= 0
    }

    /// The number with the given bits.
    pub fn from_bits(bits: u64) -> (scalar: Scalar)
        ensures
            scalar.bits == bits,
    {
        Scalar { bits }
    }

    /// Tests whether it is a NaN.
    pub fn is_nan(self) -> (yes: bool)
        ensures
            yes == self.nan(),
    {
        let magnitude: u64 = if self.bits < SIGN_BIT {
            self.bits
        } else {
            self.bits - SIGN_BIT
        };
        magnitude > INFINITY_BITS
    }

    /// Tests whether it is neither a NaN nor infinite.
    pub fn is_finite(self) -> (yes: bool)
        ensures
            yes == self.finite(),
    {
        let magnitude: u64 = if self.bits < SIGN_BIT {
            self.bits
        } else {
            self.bits - SIGN_BIT
        };
        magnitude < INFINITY_BITS
    }

    /// Tests whether it is finite and larger than zero.
    pub fn is_positive(self) -> (yes: bool)
        ensures
            yes == self.positive(),
    {
        0 < self.bits && self.bits < INFINITY_BITS
    }

    /// Tests whether it is finite and not smaller than zero.
    pub fn is_nonnegative(self) -> (yes: bool)
        ensures
            yes == self.nonnegative(),
    {
        self.bits < INFINITY_BITS || self.bits == SIGN_BIT
    }

    /// Tests whether it is zero, of either sign.
    pub fn is_zero(self) -> (yes: bool)
        ensures
            yes == (self.rank() == 0),
    {
        self.bits == 0 || self.bits == SIGN_BIT
    }

    /// Tests whether it is smaller than the other; a NaN is neither.
    pub fn less_than(self, other: Scalar) -> (yes: bool)
        ensures
            yes == self.lt(other),
    {
        if self.is_nan() || other.is_nan() {
            return false;
        }
        if self.bits < SIGN_BIT {
            other.bits < SIGN_BIT && self.bits < other.bits
        } else if other.bits < SIGN_BIT {
            self.bits != SIGN_BIT || other.bits != 0
        } else {
            self.bits > other.bits
        }
    }

    /// Tests whether it is smaller than the other or equal to it; a NaN is neither.
    pub fn at_most(self, other: Scalar) -> (yes: bool)
        ensures
            yes == self.le(other),
    {
        if self.is_nan() || other.is_nan() {
            return false;
        }
        !other.less_than(self)
    }
}

/// The order of the numbers is a total order on those that are not NaN.
pub proof fn lemma_scalar_order(a: Scalar, b: Scalar, c: Scalar)
    requires
        !a.nan(),
        !b.nan(),
        !c.nan(),
    ensures
        a.le(b) || b.le(a),
        a.lt(b) <==> !b.le(a),
        a.le(b) && b.le(c) ==> a.le(c),
        a.le(b) && b.le(a) ==> a == b || (a.rank() == 0 && b.rank() == 0),
{
}

} // verus!

//! Engineering reals carried by their IEEE-754 binary64 bit pattern.
//!
//! The device language stores every real (defaults, thresholds, periods) as
//! a `Real`. Ordering follows IEEE-754: a NaN is unordered with everything,
//! and `-0.0` equals `+0.0`.

use vstd::prelude::*;

verus! {

/// An IEEE-754 binary64 value, held as its bit pattern.
#[derive(Debug, Clone, Copy, PartialEq, Eq, Structural)]
pub struct Real {
    /// The binary64 bit pattern.
    pub bits: u64,
}

/// Bit pattern of the sign.
pub open spec fn sign_bit() -> int {
    0x8000_0000_0000_0000
}

/// Largest magnitude pattern that is not a NaN (the infinity pattern).
pub open spec fn infinity_magnitude() -> int {
    0x7FF0_0000_0000_0000
}

impl Real {
    /// Magnitude bits (everything but the sign).
    pub open spec fn magnitude(self) -> int {
        if self.bits >= sign_bit() {
            self.bits - sign_bit()
        } else {
            self.bits as int
        }
    }

    /// Whether the value is a NaN.
    pub open spec fn nan(self) -> bool {
        self.magnitude() > infinity_magnitude()
    }

    /// A key that orders non-NaN values as IEEE-754 does: negative values
    /// by decreasing magnitude, then both zeros, then positive values.
    pub open spec fn order_key(self) -> int {
        if self.bits >= sign_bit() {
            -self.magnitude()
        } else {
            self.magnitude()
        }
    }

    /// IEEE-754 `self < other`.
    pub open spec fn less(self, other: Real) -> bool {
        !self.nan() && !other.nan() && self.order_key() < other.order_key()
    }

    /// IEEE-754 `self <= other`.
    pub open spec fn at_most(self, other: Real) -> bool {
        !self.nan() && !other.nan() && self.order_key() <= other.order_key()
    }

    /// Wrap a bit pattern.
    pub fn from_bits(bits: u64) -> (r: Real)
        ensures
            r.bits == bits,
    {
        Real { bits }
    }

    /// The bit pattern.
    pub fn to_bits(self) -> (b: u64)
        ensures
            b == self.bits,
    {
        self.bits
    }

    /// Positive zero.
    pub fn zero() -> (r: Real)
        ensures
            r.bits == 0,
            !r.nan(),
            r.order_key() == 0,
    {
        Real { bits: 0 }
    }

    fn magnitude_exec(self) -> (m: u64)
        ensures
            m == self.magnitude(),
    {
        if self.bits >= 0x8000_0000_0000_0000 {
            self.bits - 0x8000_0000_0000_0000
        } else {
            self.bits
        }
    }

    /// Whether the value is a NaN.
    pub fn is_nan(self) -> (b: bool)
        ensures
            b == self.nan(),
    {
        self.magnitude_exec() > 0x7FF0_0000_0000_0000
    }

    /// IEEE-754 `self < other`.
    pub fn lt(self, other: Real) -> (b: bool)
        ensures
            b == self.less(other),
    {
        if self.is_nan() || other.is_nan() {
            return false;
        }
        let ms = self.magnitude_exec();
        let mo = other.magnitude_exec();
        let neg_s = self.bits >= 0x8000_0000_0000_0000;
        let neg_o = other.bits >= 0x8000_0000_0000_0000;
        if neg_s && neg_o {
            ms > mo
        } else if neg_s {
            !(ms == 0 && mo == 0)
        } else if neg_o {
            false
        } else {
            ms < mo
        }
    }

    /// IEEE-754 `self <= other`.
    pub fn le(self, other: Real) -> (b: bool)
        ensures
            b == self.at_most(other),
    {
        if self.is_nan() || other.is_nan() {
            return false;
        }
        let ms = self.magnitude_exec();
        let mo = other.magnitude_exec();
        let neg_s = self.bits >= 0x8000_0000_0000_0000;
        let neg_o = other.bits >= 0x8000_0000_0000_0000;
        if neg_s && neg_o {
            ms >= mo
        } else if neg_s {
            true
        } else if neg_o {
            ms == 0 && mo == 0
        } else {
            ms <= mo
        }
    }

    /// Whether the value is strictly positive (`self > 0.0`).
    pub fn is_positive(self) -> (b: bool)
        ensures
            b == Real::zero_spec().less(self),
    {
        Real::zero().lt(self)
    }

    /// Position in the total order of binary64 patterns that
    /// `f64::total_cmp` uses: negative patterns (negative NaNs first) by
    /// decreasing magnitude, then `-0.0`, `+0.0`, and positive patterns
    /// by increasing magnitude (positive NaNs last).
    pub open spec fn total_key(self) -> int {
        if self.bits >= sign_bit() {
            -1 - self.magnitude()
        } else {
            self.magnitude()
        }
    }

    /// Whether `self` comes no later than `other` in the total order.
    pub fn total_le(self, other: Real) -> (b: bool)
        ensures
            b == (self.total_key() <= other.total_key()),
    {
        let ms = self.magnitude_exec();
        let mo = other.magnitude_exec();
        let neg_s = self.bits >= 0x8000_0000_0000_0000;
        let neg_o = other.bits >= 0x8000_0000_0000_0000;
        if neg_s && neg_o {
            ms >= mo
        } else if neg_s {
            true
        } else if neg_o {
            false
        } else {
            ms <= mo
        }
    }

    /// Positive zero, as a spec value.
    pub open spec fn zero_spec() -> Real {
        Real { bits: 0 }
    }
}

} // verus!

//! Binary floating-point numbers by their bits: classes and order.
use vstd::prelude::*;

verus! {

/// A number of the IEEE 754 single format, held as its 32 bits.
#[derive(Debug, Clone, Copy, PartialEq, Eq, Hash, Structural)]
pub struct Single {
    pub bits: u32,
}

/// A number of the IEEE 754 double format, held as its 64 bits.
#[derive(Debug, Clone, Copy, PartialEq, Eq, Hash, Structural)]
pub struct Double {
    pub bits: u64,
}

impl Single {
    /// The bits without the sign.
    pub open spec fn magnitude(self) -> int {
        if self.bits < 0x8000_0000 {
            self.bits as int
        } else {
            self.bits - 0x8000_0000
        }
    }

    /// Whether this is no number.
    pub open spec fn is_nan(self) -> bool {
        self.magnitude() > 0x7f80_0000
    }

    /// Whether this is a number and not infinite.
    pub open spec fn is_finite(self) -> bool {
        self.magnitude() < 0x7f80_0000
    }

    /// An integer by which numbers are ordered. Both zeros have 0.
    pub open spec fn key(self) -> int {
        if self.bits < 0x8000_0000 {
            self.magnitude()
        } else {
            -self.magnitude()
        }
    }

    /// Whether this is less than `other`, which no comparison with NaN is.
    pub open spec fn lt(self, other: Self) -> bool {
        !self.is_nan() && !other.is_nan() && self.key() < other.key()
    }

    /// Whether this is at least `other`, which no comparison with NaN is.
    pub open spec fn ge(self, other: Self) -> bool {
        !self.is_nan() && !other.is_nan() && self.key() >= other.key()
    }

    /// The number with these bits.
    pub fn from_bits(bits: u32) -> (r: Self)
        ensures
            r.bits == bits,
    {
        Self { bits }
    }

    fn order_key(self) -> (r: i64)
        ensures
            r == self.key(),
    {
        if self.bits < 0x8000_0000 {
            self.bits as i64
        } else {
            -((self.bits - 0x8000_0000) as i64)
        }
    }

    /// Whether this is no number.
    pub fn nan(self) -> (r: bool)
        ensures
            r == self.is_nan(),
    {
        let m: u32 = if self.bits < 0x8000_0000 {
            self.bits
        } else {
            self.bits - 0x8000_0000
        };
        m > 0x7f80_0000
    }

    /// Whether this is a number and not infinite.
    pub fn finite(self) -> (r: bool)
        ensures
            r == self.is_finite(),
    {
        let m: u32 = if self.bits < 0x8000_0000 {
            self.bits
        } else {
            self.bits - 0x8000_0000
        };
        m < 0x7f80_0000
    }

    /// Whether this is less than `other`.
    pub fn less_than(self, other: Self) -> (r: bool)
        ensures
            r == self.lt(other),
    {
        !self.nan() && !other.nan() && self.order_key() < other.order_key()
    }

    /// Whether this is at least `other`.
    pub fn at_least(self, other: Self) -> (r: bool)
        ensures
            r == self.ge(other),
    {
        !self.nan() && !other.nan() && self.order_key() >= other.order_key()
    }
}

impl Double {
    /// The bits without the sign.
    pub open spec fn magnitude(self) -> int {
        if self.bits < 0x8000_0000_0000_0000 {
            self.bits as int
        } else {
            self.bits - 0x8000_0000_0000_0000
        }
    }

    /// Whether this is no number.
    pub open spec fn is_nan(self) -> bool {
        self.magnitude() > 0x7ff0_0000_0000_0000
    }

    /// Whether this is a number and not infinite.
    pub open spec fn is_finite(self) -> bool {
        self.magnitude() < 0x7ff0_0000_0000_0000
    }

    /// An integer by which numbers are ordered. Both zeros have 0.
    pub open spec fn key(self) -> int {
        if self.bits < 0x8000_0000_0000_0000 {
            self.magnitude()
        } else {
            -self.magnitude()
        }
    }

    /// Whether this is less than `other`, which no comparison with NaN is.
    pub open spec fn lt(self, other: Self) -> bool {
        !self.is_nan() && !other.is_nan() && self.key() < other.key()
    }

    /// Whether this is at least `other`, which no comparison with NaN is.
    pub open spec fn ge(self, other: Self) -> bool {
        !self.is_nan() && !other.is_nan() && self.key() >= other.key()
    }

    /// The number with these bits.
    pub fn from_bits(bits: u64) -> (r: Self)
        ensures
            r.bits == bits,
    {
        Self { bits }
    }

    fn order_key(self) -> (r: i128)
        ensures
            r == self.key(),
    {
        if self.bits < 0x8000_0000_0000_0000 {
            self.bits as i128
        } else {
            -((self.bits - 0x8000_0000_0000_0000) as i128)
        }
    }

    /// Whether this is no number.
    pub fn nan(self) -> (r: bool)
        ensures
            r == self.is_nan(),
    {
        let m: u64 = if self.bits < 0x8000_0000_0000_0000 {
            self.bits
        } else {
            self.bits - 0x8000_0000_0000_0000
        };
        m > 0x7ff0_0000_0000_0000
    }

    /// Whether this is a number and not infinite.
    pub fn finite(self) -> (r: bool)
        ensures
            r == self.is_finite(),
    {
        let m: u64 = if self.bits < 0x8000_0000_0000_0000 {
            self.bits
        } else {
            self.bits - 0x8000_0000_0000_0000
        };
        m < 0x7ff0_0000_0000_0000
    }

    /// Whether this is less than `other`.
    pub fn less_than(self, other: Self) -> (r: bool)
        ensures
            r == self.lt(other),
    {
        !self.nan() && !other.nan() && self.order_key() < other.order_key()
    }

    /// Whether this is at least `other`.
    pub fn at_least(self, other: Self) -> (r: bool)
        ensures
            r == self.ge(other),
    {
        !self.nan() && !other.nan() && self.order_key() >= other.order_key()
    }
}

/// Of two numbers that are no NaN, one is less than the other or they are at
/// least one another.
pub proof fn law_single_order(a: Single, b: Single)
    requires
        !a.is_nan(),
        !b.is_nan(),
    ensures
        a.lt(b) <==> !a.ge(b),
        a.ge(b) && b.ge(a) <==> a.key() == b.key(),
{
}

/// The order of numbers is transitive.
pub proof fn law_single_transitive(a: Single, b: Single, c: Single)
    ensures
        a.lt(b) && b.lt(c) ==> a.lt(c),
        a.ge(b) && b.ge(c) ==> a.ge(c),
{
}

} // verus!

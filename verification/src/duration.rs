//! Spans of time, counted in whole nanoseconds.
use vstd::prelude::*;

verus! {

/// The longest span: `u64::MAX` seconds and 999_999_999 nanoseconds.
pub const MAX_NANOS: u128 = 18_446_744_073_709_551_615_999_999_999;

/// A span of time. Its view is the number of nanoseconds.
#[derive(Debug, Clone, Copy, PartialEq, Eq, PartialOrd, Ord, Hash, Structural)]
pub struct Duration {
    nanos: u128,
}

impl View for Duration {
    type V = nat;

    closed spec fn view(&self) -> nat {
        self.nanos as nat
    }
}

/// Spans with the same number of nanoseconds are the same span.
pub broadcast proof fn lemma_duration_ext(a: Duration, b: Duration)
    ensures
        (#[trigger] a@ == #[trigger] b@) ==> a == b,
{
}

/// The least of two numbers.
pub open spec fn least(a: nat, b: nat) -> nat {
    if a <= b {
        a
    } else {
        b
    }
}

/// The distance of two numbers.
pub open spec fn distance(a: nat, b: nat) -> nat {
    if a <= b {
        (b - a) as nat
    } else {
        (a - b) as nat
    }
}

impl Duration {
    #[verifier::type_invariant]
    closed spec fn in_range(self) -> bool {
        self.nanos <= MAX_NANOS
    }

    /// No time at all.
    pub fn zero() -> (r: Self)
        ensures
            r@ == 0,
    {
        Self { nanos: 0 }
    }

    /// A span of `secs` seconds and `nanos` nanoseconds.
    pub fn new(secs: u64, nanos: u32) -> (r: Self)
        requires
            secs * 1_000_000_000 + nanos <= MAX_NANOS,
        ensures
            r@ == secs * 1_000_000_000 + nanos,
    {
        Self { nanos: secs as u128 * 1_000_000_000 + nanos as u128 }
    }

    /// A span of whole seconds.
    pub fn from_secs(secs: u64) -> (r: Self)
        ensures
            r@ == secs * 1_000_000_000,
    {
        Self { nanos: secs as u128 * 1_000_000_000 }
    }

    /// A span of whole milliseconds.
    pub fn from_millis(millis: u64) -> (r: Self)
        ensures
            r@ == millis * 1_000_000,
    {
        Self { nanos: millis as u128 * 1_000_000 }
    }

    /// A span of whole microseconds.
    pub fn from_micros(micros: u64) -> (r: Self)
        ensures
            r@ == micros * 1_000,
    {
        Self { nanos: micros as u128 * 1_000 }
    }

    /// A span of whole nanoseconds.
    pub fn from_nanos(nanos: u64) -> (r: Self)
        ensures
            r@ == nanos,
    {
        Self { nanos: nanos as u128 }
    }

    /// The number of nanoseconds.
    pub fn as_nanos(&self) -> (r: u128)
        ensures
            r == self@,
            r <= MAX_NANOS,
    {
        proof {
            use_type_invariant(self);
        }
        self.nanos
    }

    /// The number of whole seconds.
    pub fn as_secs(&self) -> (r: u64)
        ensures
            r == self@ / 1_000_000_000,
    {
        proof {
            use_type_invariant(self);
        }
        (self.nanos / 1_000_000_000) as u64
    }

    /// The nanoseconds beyond the whole seconds.
    pub fn subsec_nanos(&self) -> (r: u32)
        ensures
            r == self@ % 1_000_000_000,
    {
        (self.nanos % 1_000_000_000) as u32
    }

    /// The number of whole milliseconds.
    pub fn as_millis(&self) -> (r: u128)
        ensures
            r == self@ / 1_000_000,
    {
        self.nanos / 1_000_000
    }

    /// The number of whole microseconds, at most `u64::MAX`.
    pub fn as_micros_u64(&self) -> (r: u64)
        ensures
            r == least(self@ / 1_000, u64::MAX as nat),
    {
        let micros: u128 = self.nanos / 1_000;
        if micros > u64::MAX as u128 {
            u64::MAX
        } else {
            micros as u64
        }
    }

    /// Whether the span is empty.
    pub fn is_zero(&self) -> (r: bool)
        ensures
            r == (self@ == 0),
    {
        self.nanos == 0
    }

    /// Whether this span is no longer than `other`.
    pub fn at_most(&self, other: &Self) -> (r: bool)
        ensures
            r == (self@ <= other@),
    {
        self.nanos <= other.nanos
    }

    /// Whether this span is shorter than `other`.
    pub fn less_than(&self, other: &Self) -> (r: bool)
        ensures
            r == (self@ < other@),
    {
        self.nanos < other.nanos
    }

    /// The shorter of two spans.
    pub fn shorter(self, other: Self) -> (r: Self)
        ensures
            r@ == least(self@, other@),
            r == self || r == other,
    {
        if self.nanos <= other.nanos {
            self
        } else {
            other
        }
    }

    /// The longer of two spans.
    pub fn longer(self, other: Self) -> (r: Self)
        ensures
            r@ == (if self@ < other@ {
                other@
            } else {
                self@
            }),
            r == self || r == other,
    {
        if self.nanos < other.nanos {
            other
        } else {
            self
        }
    }

    /// The sum of two spans, unless it is longer than any span.
    pub fn checked_add(self, other: Self) -> (r: Option<Self>)
        ensures
            r is Some <==> self@ + other@ <= MAX_NANOS,
            r matches Some(sum) ==> sum@ == self@ + other@,
    {
        proof {
            use_type_invariant(&self);
            use_type_invariant(&other);
        }
        let sum: u128 = self.nanos + other.nanos;
        if sum <= MAX_NANOS {
            Some(Self { nanos: sum })
        } else {
            None
        }
    }

    /// The span `n` times over, at most the longest span.
    pub fn saturating_mul(self, n: u32) -> (r: Self)
        ensures
            r@ == least(self@ * n as nat, MAX_NANOS as nat),
    {
        proof {
            use_type_invariant(&self);
            assert(self.nanos * n <= MAX_NANOS * u32::MAX) by (nonlinear_arith)
                requires
                    self.nanos <= MAX_NANOS,
                    n <= u32::MAX,
            ;
        }
        let product: u128 = self.nanos * n as u128;
        if product <= MAX_NANOS {
            Self { nanos: product }
        } else {
            Self { nanos: MAX_NANOS }
        }
    }

    /// The time between two spans' ends.
    pub fn abs_diff(self, other: Self) -> (r: Self)
        ensures
            r@ == distance(self@, other@),
    {
        proof {
            use_type_invariant(&self);
            use_type_invariant(&other);
        }
        if self.nanos <= other.nanos {
            Self { nanos: other.nanos - self.nanos }
        } else {
            Self { nanos: self.nanos - other.nanos }
        }
    }
}

} // verus!

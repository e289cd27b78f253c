//! Exact quantities: durations, amounts of memory and quotients of integers.

use vstd::prelude::*;

verus! {

/// Nanoseconds in a millisecond.
pub const NANOS_PER_MS: u128 = 1_000_000;

/// Bytes in a megabyte.
pub const BYTES_PER_MB: u128 = 1_048_576;

/// A duration that reports give in milliseconds, kept in whole nanoseconds.
#[derive(Clone, Copy, Debug, PartialEq, Eq, Structural)]
pub struct Millis {
    pub nanos: u64,
}

/// An amount of memory or disk that reports give in megabytes, kept in whole bytes.
#[derive(Clone, Copy, Debug, PartialEq, Eq, Structural)]
pub struct Megabytes {
    pub bytes: u64,
}

impl Megabytes {
    /// That many bytes, or the most that can be kept if it is more.
    pub fn at_most(bytes: u128) -> (r: Megabytes)
        ensures
            r.bytes == (if bytes <= u64::MAX {
                bytes as int
            } else {
                u64::MAX as int
            }),
    {
        if bytes <= u64::MAX as u128 {
            Megabytes { bytes: bytes as u64 }
        } else {
            Megabytes { bytes: u64::MAX }
        }
    }
}

/// The quotient of two integers, `num / den`, or its negative.
#[derive(Clone, Copy, Debug, PartialEq, Eq, Structural)]
pub struct Ratio {
    pub negative: bool,
    pub num: u128,
    pub den: u128,
}

impl Ratio {
    /// The denominator is positive, and zero has no sign.
    pub open spec fn valid(self) -> bool {
        self.den > 0 && (self.negative ==> self.num > 0)
    }

    /// The numerator with its sign.
    pub open spec fn top(self) -> int {
        if self.negative {
            -(self.num as int)
        } else {
            self.num as int
        }
    }

    /// Whether the value is `top / den`, in just these terms.
    pub open spec fn is(self, top: int, den: int) -> bool {
        self.valid() && self.top() == top && self.den == den
    }

    /// The quotient `(plus - minus) / den`.
    pub fn of(plus: u128, minus: u128, den: u128) -> (r: Ratio)
        requires
            den > 0,
        ensures
            r.is(plus - minus, den as int),
    {
        if plus >= minus {
            Ratio { negative: false, num: plus - minus, den }
        } else {
            Ratio { negative: true, num: minus - plus, den }
        }
    }

    /// Zero.
    pub fn zero() -> (r: Ratio)
        ensures
            r.is(0, 1),
    {
        Ratio { negative: false, num: 0, den: 1 }
    }
}

/// A quotient says which two integers it is of: the sign and the size of the upper one, and the lower
/// one, which is positive.
pub proof fn quotient_is_of_its_terms(r: Ratio, top: int, den: int)
    requires
        r.is(top, den),
    ensures
        r.den == den,
        den > 0,
        top >= 0 ==> r.num == top && !r.negative,
        top < 0 ==> r.num == -top && r.negative,
        r.top() == top,
{
}

} // verus!

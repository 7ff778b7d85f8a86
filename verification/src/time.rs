//! Spans of time and points in time, counted in nanoseconds.

use vstd::prelude::*;

verus! {

/// The nanoseconds of the longest span: a 64-bit count of seconds and one
/// nanosecond less than another second.
pub const MAX_NANOS: u128 = 18_446_744_073_709_551_615_999_999_999;

pub const NANOS_PER_MILLI: u128 = 1_000_000;

pub const NANOS_PER_SECOND: u128 = 1_000_000_000;

/// A span of time. Its view is the number of nanoseconds.
#[derive(Clone, Copy, Debug, PartialEq, Eq, Structural)]
pub struct Duration {
    pub(crate) nanos: u128,
}

/// `n` nanoseconds, or the longest span where that is shorter.
pub open spec fn capped_nanos(n: int) -> nat {
    if n < 0 {
        0
    } else if n <= MAX_NANOS {
        n as nat
    } else {
        MAX_NANOS as nat
    }
}

/// `a` without `b`, and zero where `b` is more.
pub open spec fn minus(a: nat, b: nat) -> nat {
    if a >= b {
        (a - b) as nat
    } else {
        0
    }
}

/// How far apart `a` and `b` are.
pub open spec fn distance(a: nat, b: nat) -> nat {
    if a >= b {
        (a - b) as nat
    } else {
        (b - a) as nat
    }
}

pub open spec fn at_most(a: nat, b: nat) -> nat {
    if a <= b {
        a
    } else {
        b
    }
}

pub open spec fn at_least(a: nat, b: nat) -> nat {
    if a >= b {
        a
    } else {
        b
    }
}

impl View for Duration {
    type V = nat;

    open(crate) spec fn view(&self) -> nat {
        self.nanos as nat
    }
}

impl Duration {
    #[verifier::type_invariant]
    pub(crate) open spec fn in_range(self) -> bool {
        self.nanos <= MAX_NANOS
    }

    pub fn zero() -> (span: Self)
        ensures
            span@ == 0,
    {
        Duration { nanos: 0 }
    }

    pub fn from_secs(seconds: u64) -> (span: Self)
        ensures
            span@ == seconds * NANOS_PER_SECOND,
    {
        Duration { nanos: seconds as u128 * NANOS_PER_SECOND }
    }

    pub fn from_millis(millis: u64) -> (span: Self)
        ensures
            span@ == millis * NANOS_PER_MILLI,
    {
        Duration { nanos: millis as u128 * NANOS_PER_MILLI }
    }

    pub fn from_nanos(nanos: u64) -> (span: Self)
        ensures
            span@ == nanos,
    {
        Duration { nanos: nanos as u128 }
    }

    /// The span of `nanos` nanoseconds, or the longest one where that is shorter.
    pub fn from_nanos_capped(nanos: u128) -> (span: Self)
        ensures
            span@ == capped_nanos(nanos as int),
    {
        if nanos <= MAX_NANOS {
            Duration { nanos }
        } else {
            Duration { nanos: MAX_NANOS }
        }
    }

    pub fn as_nanos(&self) -> (nanos: u128)
        ensures
            nanos == self@,
            nanos <= MAX_NANOS,
    {
        proof {
            use_type_invariant(self);
        }
        self.nanos
    }

    pub fn as_micros(&self) -> (micros: u128)
        ensures
            micros == self@ / 1000,
            micros <= MAX_NANOS,
    {
        proof {
            use_type_invariant(self);
        }
        self.nanos / 1000
    }

    pub fn as_millis(&self) -> (millis: u128)
        ensures
            millis == self@ / NANOS_PER_MILLI as nat,
    {
        self.nanos / NANOS_PER_MILLI
    }

    pub fn as_secs(&self) -> (seconds: u64)
        ensures
            seconds == self@ / NANOS_PER_SECOND as nat,
    {
        proof {
            use_type_invariant(self);
        }
        (self.nanos / NANOS_PER_SECOND) as u64
    }

    pub fn is_zero(&self) -> (result: bool)
        ensures
            result == (self@ == 0),
    {
        self.nanos == 0
    }

    pub fn saturating_add(self, other: Self) -> (sum: Self)
        ensures
            sum@ == capped_nanos((self@ + other@) as int),
    {
        proof {
            use_type_invariant(&self);
            use_type_invariant(&other);
        }
        Duration::from_nanos_capped(self.nanos + other.nanos)
    }

    pub fn saturating_sub(self, other: Self) -> (rest: Self)
        ensures
            rest@ == minus(self@, other@),
            rest@ <= MAX_NANOS,
    {
        proof {
            use_type_invariant(&self);
        }
        if self.nanos >= other.nanos {
            Duration { nanos: self.nanos - other.nanos }
        } else {
            Duration { nanos: 0 }
        }
    }

    pub fn abs_diff(self, other: Self) -> (span: Self)
        ensures
            span@ == distance(self@, other@),
    {
        if self.nanos >= other.nanos {
            self.saturating_sub(other)
        } else {
            other.saturating_sub(self)
        }
    }

    pub fn shorter(self, other: Self) -> (span: Self)
        ensures
            span@ == at_most(self@, other@),
    {
        if self.nanos <= other.nanos {
            self
        } else {
            other
        }
    }

    pub fn longer(self, other: Self) -> (span: Self)
        ensures
            span@ == at_least(self@, other@),
    {
        if self.nanos >= other.nanos {
            self
        } else {
            other
        }
    }

    pub fn is_at_most(self, other: Self) -> (result: bool)
        ensures
            result == (self@ <= other@),
    {
        self.nanos <= other.nanos
    }

    pub fn is_below(self, other: Self) -> (result: bool)
        ensures
            result == (self@ < other@),
    {
        self.nanos < other.nanos
    }
}

impl Default for Duration {
    fn default() -> (span: Self)
        ensures
            span@ == 0,
    {
        Duration::zero()
    }
}

/// A point in time: nanoseconds since a moment that all points share.
#[derive(Clone, Copy, Debug, PartialEq, Eq, Structural)]
pub struct Instant {
    pub nanos: u128,
}

impl Instant {
    /// The point in time `span` later.
    pub fn plus(self, span: Duration) -> (later: Self)
        requires
            self.nanos + span@ <= u128::MAX,
        ensures
            later.nanos == self.nanos + span@,
    {
        Instant { nanos: self.nanos + span.as_nanos() }
    }

    pub fn saturating_duration_since(self, earlier: Self) -> (span: Duration)
        ensures
            span@ == capped_nanos(self.nanos - earlier.nanos),
    {
        if self.nanos >= earlier.nanos {
            Duration::from_nanos_capped(self.nanos - earlier.nanos)
        } else {
            Duration::zero()
        }
    }
}

/// Spans add and subtract like numbers, within the longest one and down to nothing, and the
/// distance of two is the same both ways.
pub proof fn spans_are_numbers(a: nat, b: nat)
    ensures
        a <= 18_446_744_073_709_551_615_999_999_999 ==> capped_nanos(a as int) == a,
        a > 18_446_744_073_709_551_615_999_999_999 ==> capped_nanos(a as int)
            == 18_446_744_073_709_551_615_999_999_999,
        capped_nanos(-a) == 0,
        minus(a + b, b) == a,
        minus(a, a + b) == 0,
        distance(a, a + b) == b && distance(a + b, a) == b,
        at_most(a, a + b) == a && at_most(a + b, a) == a,
        at_least(a, a + b) == a + b && at_least(a + b, a) == a + b,
{
}

} // verus!

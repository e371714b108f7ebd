//! Lengths of time: ages of stored objects and invalidation windows.

use vstd::prelude::*;

verus! {

/// Nanoseconds in one second.
pub const NANOS_PER_SEC: u128 = 1_000_000_000;

/// Seconds in one day.
pub const SECS_PER_DAY: u64 = 86_400;

/// A length of time with nanosecond resolution.
///
/// A span is a plain value: its view is the number of nanoseconds it lasts.
/// Points in time are spans too, counted from the Unix epoch.
#[derive(Clone, Copy, Debug, PartialEq, Eq, Structural)]
pub struct Span {
    pub nanos: u128,
}

impl View for Span {
    type V = nat;

    open spec fn view(&self) -> nat {
        self.nanos as nat
    }
}

/// The time that has passed at `now` since `earlier`: their difference, or
/// nothing at all when `earlier` lies in the future of `now`.
pub open spec fn elapsed(now: nat, earlier: nat) -> nat {
    if now >= earlier {
        (now - earlier) as nat
    } else {
        0
    }
}

impl Span {
    /// The empty span.
    pub fn zero() -> (span: Span)
        ensures
            span@ == 0,
    {
        Span { nanos: 0 }
    }

    /// A span of `nanos` nanoseconds.
    pub fn from_nanos(nanos: u128) -> (span: Span)
        ensures
            span@ == nanos,
    {
        Span { nanos }
    }

    /// A span of `secs` whole seconds.
    pub fn from_secs(secs: u64) -> (span: Span)
        ensures
            span@ == secs * NANOS_PER_SEC,
    {
        Span { nanos: secs as u128 * NANOS_PER_SEC }
    }

    /// The length of the span in nanoseconds.
    pub fn as_nanos(&self) -> (nanos: u128)
        ensures
            nanos == self@,
    {
        self.nanos
    }

    /// The whole seconds in the span.
    pub fn as_secs(&self) -> (secs: u128)
        ensures
            secs == self@ / (NANOS_PER_SEC as nat),
    {
        self.nanos / NANOS_PER_SEC
    }

    /// The nanoseconds of the span beyond its whole seconds.
    pub fn subsec_nanos(&self) -> (nanos: u32)
        ensures
            nanos == self@ % (NANOS_PER_SEC as nat),
    {
        (self.nanos % NANOS_PER_SEC) as u32
    }

    /// The time from `earlier` to `self`, both counted from the same origin.
    /// A point `earlier` that lies after `self` gives the empty span.
    pub fn elapsed_since(&self, earlier: Span) -> (age: Span)
        ensures
            age@ == elapsed(self@, earlier@),
    {
        if self.nanos >= earlier.nanos {
            Span { nanos: self.nanos - earlier.nanos }
        } else {
            Span { nanos: 0 }
        }
    }

    /// Whether the span is strictly longer than `window`.
    pub fn exceeds(&self, window: Span) -> (over: bool)
        ensures
            over == (self@ > window@),
    {
        self.nanos > window.nanos
    }

    /// The longer of two spans.
    pub fn longer_of(self, other: Span) -> (longer: Span)
        ensures
            longer@ >= self@,
            longer@ >= other@,
            longer == self || longer == other,
    {
        if other.nanos > self.nanos {
            other
        } else {
            self
        }
    }
}

} // verus!

//! Spans of time, and fluent constructors for them on unsigned integers.

use vstd::prelude::*;

verus! {

/// Nanoseconds in one second.
pub const NANOS_PER_SEC: u32 = 1_000_000_000;

/// A non-negative span of time: whole seconds and a sub-second part in nanoseconds.
#[derive(Clone, Copy, Debug, PartialEq, Eq, Structural, Hash)]
pub struct Duration {
    pub secs: u64,
    pub nanos: u32,
}

impl Duration {
    /// The sub-second part is below one second.
    pub open spec fn wf(self) -> bool {
        self.nanos < NANOS_PER_SEC
    }

    /// The whole span in nanoseconds.
    pub open spec fn total_nanos(self) -> int {
        self.secs * (NANOS_PER_SEC as int) + self.nanos
    }

    /// A span of `secs` whole seconds.
    pub fn from_secs(secs: u64) -> (d: Duration)
        ensures
            d.wf(),
            d.secs == secs,
            d.nanos == 0,
    {
        Duration { secs, nanos: 0 }
    }

    /// Whether `self` is shorter than `other`.
    pub fn is_shorter_than(&self, other: &Duration) -> (r: bool)
        requires
            self.wf(),
            other.wf(),
        ensures
            r == (self.total_nanos() < other.total_nanos()),
    {
        proof {
            let (a, b, c, d) = (self.secs as int, self.nanos as int, other.secs as int, other.nanos as int);
            assert((a * 1_000_000_000 + b < c * 1_000_000_000 + d) == (a < c || (a == c && b < d))) by (nonlinear_arith)
                requires
                    0 <= b < 1_000_000_000,
                    0 <= d < 1_000_000_000,
            ;
        }
        self.secs < other.secs || (self.secs == other.secs && self.nanos < other.nanos)
    }

    /// Whether the span is empty.
    pub fn is_zero(&self) -> (r: bool)
        ensures
            r == (self.total_nanos() == 0),
    {
        self.secs == 0 && self.nanos == 0
    }

    /// The whole seconds of the span.
    pub fn as_secs(&self) -> (s: u64)
        ensures
            s == self.secs,
    {
        self.secs
    }

    /// The sub-second part of the span, in nanoseconds.
    pub fn subsec_nanos(&self) -> (n: u32)
        ensures
            n == self.nanos,
    {
        self.nanos
    }
}

/// Human-readable construction of spans from unsigned integers:
/// `5u32.seconds()`, `10u64.minutes()`, `2usize.hours()`.
pub trait FluentDuration: Sized {
    /// The number that the span is built from.
    spec fn amount(self) -> nat;

    /// A span of `self` seconds.
    fn seconds(self) -> (d: Duration)
        requires
            self.amount() <= u64::MAX,
        ensures
            d.wf(),
            d.secs == self.amount(),
            d.nanos == 0,
    ;

    /// A span of `self` minutes.
    fn minutes(self) -> (d: Duration)
        requires
            self.amount() * 60 <= u64::MAX,
        ensures
            d.wf(),
            d.secs == self.amount() * 60,
            d.nanos == 0,
    ;

    /// A span of `self` hours.
    fn hours(self) -> (d: Duration)
        requires
            self.amount() * 3600 <= u64::MAX,
        ensures
            d.wf(),
            d.secs == self.amount() * 3600,
            d.nanos == 0,
    ;
}

impl FluentDuration for u32 {
    open spec fn amount(self) -> nat {
        self as nat
    }

    fn seconds(self) -> (d: Duration) {
        Duration::from_secs(self as u64)
    }

    fn minutes(self) -> (d: Duration) {
        Duration::from_secs(self as u64 * 60)
    }

    fn hours(self) -> (d: Duration) {
        Duration::from_secs(self as u64 * 60 * 60)
    }
}

impl FluentDuration for u64 {
    open spec fn amount(self) -> nat {
        self as nat
    }

    fn seconds(self) -> (d: Duration) {
        Duration::from_secs(self)
    }

    fn minutes(self) -> (d: Duration) {
        Duration::from_secs(self * 60)
    }

    fn hours(self) -> (d: Duration) {
        Duration::from_secs(self * 60 * 60)
    }
}

impl FluentDuration for usize {
    open spec fn amount(self) -> nat {
        self as nat
    }

    fn seconds(self) -> (d: Duration) {
        Duration::from_secs(self as u64)
    }

    fn minutes(self) -> (d: Duration) {
        Duration::from_secs(self as u64 * 60)
    }

    fn hours(self) -> (d: Duration) {
        Duration::from_secs(self as u64 * 60 * 60)
    }
}

} // verus!

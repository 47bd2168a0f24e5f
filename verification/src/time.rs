//! Spans and instants of the monotonic clock, as exact counts of nanoseconds.

use vstd::prelude::*;

verus! {

/// Nanoseconds in one second.
pub const NANOS_PER_SEC: u128 = 1_000_000_000;

/// Nanoseconds in one millisecond.
pub const NANOS_PER_MILLI: u128 = 1_000_000;

/// The longest span: `u64::MAX` seconds and 999,999,999 nanoseconds.
pub const MAX_SPAN_NANOS: u128 = 18_446_744_073_709_551_615_999_999_999;

/// The earliest instant: `i64::MIN` seconds away from the clock's origin.
pub const MIN_INSTANT_NANOS: i128 = -9_223_372_036_854_775_808_000_000_000;

/// The latest instant: `i64::MAX` seconds and 999,999,999 nanoseconds after the clock's origin.
pub const MAX_INSTANT_NANOS: i128 = 9_223_372_036_854_775_807_999_999_999;

/// A span of time, from zero to [`MAX_SPAN_NANOS`].
#[derive(Clone, Copy, Debug, PartialEq, Eq, PartialOrd, Ord, Hash)]
pub struct Duration {
    total: u128,
}

impl Duration {
    #[verifier::type_invariant]
    spec fn in_range(self) -> bool {
        self.total <= MAX_SPAN_NANOS
    }

    /// The span in nanoseconds.
    pub closed spec fn nanos(self) -> nat {
        self.total as nat
    }

    /// A span of whole seconds and a fraction of one, the fraction in nanoseconds.
    pub fn new(secs: u64, subsec_nanos: u32) -> (span: Self)
        requires
            subsec_nanos < NANOS_PER_SEC,
        ensures
            span.nanos() == secs * NANOS_PER_SEC + subsec_nanos,
    {
        Duration { total: secs as u128 * NANOS_PER_SEC + subsec_nanos as u128 }
    }

    /// The empty span.
    pub fn zero() -> (span: Self)
        ensures
            span.nanos() == 0,
    {
        Duration { total: 0 }
    }

    /// The longest span.
    pub fn max_value() -> (span: Self)
        ensures
            span.nanos() == MAX_SPAN_NANOS,
    {
        Duration { total: MAX_SPAN_NANOS }
    }

    /// A span of whole seconds.
    pub fn from_secs(secs: u64) -> (span: Self)
        ensures
            span.nanos() == secs * NANOS_PER_SEC,
    {
        Duration { total: secs as u128 * NANOS_PER_SEC }
    }

    /// A span of whole milliseconds.
    pub fn from_millis(millis: u64) -> (span: Self)
        ensures
            span.nanos() == millis * NANOS_PER_MILLI,
    {
        Duration { total: millis as u128 * NANOS_PER_MILLI }
    }

    /// The span in nanoseconds.
    pub fn as_nanos(&self) -> (nanos: u128)
        ensures
            nanos == self.nanos(),
            nanos <= MAX_SPAN_NANOS,
    {
        proof {
            use_type_invariant(self);
        }
        self.total
    }

    /// The whole seconds of the span.
    pub fn as_secs(&self) -> (secs: u64)
        ensures
            secs == self.nanos() / NANOS_PER_SEC as nat,
    {
        proof {
            use_type_invariant(self);
        }
        (self.total / NANOS_PER_SEC) as u64
    }

    /// The longer of two spans.
    pub fn max(self, other: Self) -> (longer: Self)
        ensures
            longer.nanos() == (if self.nanos() >= other.nanos() { self.nanos() } else { other.nanos() }),
    {
        if self.total >= other.total {
            self
        } else {
            other
        }
    }

    /// `factor` times the span, or the longest span where the product is longer than that.
    pub fn saturating_mul(self, factor: u32) -> (span: Self)
        ensures
            span.nanos() == (if self.nanos() * factor <= MAX_SPAN_NANOS {
                (self.nanos() * factor) as nat
            } else {
                MAX_SPAN_NANOS as nat
            }),
    {
        proof {
            use_type_invariant(&self);
            assert(self.total * factor <= MAX_SPAN_NANOS * u32::MAX) by (nonlinear_arith)
                requires
                    self.total <= MAX_SPAN_NANOS,
                    factor <= u32::MAX,
            ;
        }
        let product: u128 = self.total * factor as u128;
        if product <= MAX_SPAN_NANOS {
            Duration { total: product }
        } else {
            Duration { total: MAX_SPAN_NANOS }
        }
    }
}

/// A reading of the monotonic clock.
#[derive(Clone, Copy, Debug, PartialEq, Eq, PartialOrd, Ord, Hash)]
pub struct Instant {
    offset: i128,
}

impl Instant {
    #[verifier::type_invariant]
    spec fn in_range(self) -> bool {
        MIN_INSTANT_NANOS <= self.offset <= MAX_INSTANT_NANOS
    }

    /// Nanoseconds between the clock's origin and the instant; negative before the origin.
    pub closed spec fn nanos(self) -> int {
        self.offset as int
    }

    /// The instant `secs` seconds and `subsec_nanos` nanoseconds after the clock's origin.
    pub fn from_origin(secs: i64, subsec_nanos: u32) -> (instant: Self)
        requires
            subsec_nanos < NANOS_PER_SEC,
        ensures
            instant.nanos() == secs * NANOS_PER_SEC + subsec_nanos,
    {
        Instant { offset: secs as i128 * 1_000_000_000 + subsec_nanos as i128 }
    }

    /// The instant `span` later, or `None` where the clock cannot reach it.
    pub fn checked_add(self, span: Duration) -> (later: Option<Self>)
        ensures
            later is Some <==> self.nanos() + span.nanos() <= MAX_INSTANT_NANOS,
            later matches Some(instant) ==> instant.nanos() == self.nanos() + span.nanos(),
    {
        proof {
            use_type_invariant(&self);
            use_type_invariant(&span);
        }
        let offset: i128 = self.offset + span.total as i128;
        if offset <= MAX_INSTANT_NANOS {
            Some(Instant { offset })
        } else {
            None
        }
    }

    /// The span from `earlier` to this instant, or zero where `earlier` is the later one.
    pub fn saturating_duration_since(&self, earlier: Self) -> (span: Duration)
        ensures
            span.nanos() == (if self.nanos() >= earlier.nanos() {
                (self.nanos() - earlier.nanos()) as nat
            } else {
                0nat
            }),
    {
        proof {
            use_type_invariant(self);
            use_type_invariant(&earlier);
        }
        if self.offset >= earlier.offset {
            let difference: i128 = self.offset - earlier.offset;
            Duration { total: difference as u128 }
        } else {
            Duration { total: 0 }
        }
    }
}

} // verus!

//! Elapsed wall-clock time as plain integers, and the monotonic stopwatch that measures it.

use std::time::Duration;
use std::time::Instant;
use vstd::prelude::*;

verus! {

/// Nanoseconds in one second.
pub const NANOS_PER_SEC: u32 = 1_000_000_000;

/// A span of time: whole seconds and the nanoseconds of the unfinished second.
#[derive(Clone, Copy, Debug)]
pub struct Elapsed {
    secs: u64,
    subsec_nanos: u32,
}

impl Elapsed {
    #[verifier::type_invariant]
    spec fn subsec_in_range(self) -> bool {
        self.subsec_nanos < NANOS_PER_SEC
    }

    /// The span in nanoseconds.
    pub closed spec fn total_nanos(self) -> nat {
        (self.secs as nat) * (NANOS_PER_SEC as nat) + (self.subsec_nanos as nat)
    }

    /// The span of `secs` seconds and `subsec_nanos` nanoseconds, where the
    /// latter is less than one second.
    pub fn new(secs: u64, subsec_nanos: u32) -> (span: Option<Elapsed>)
        ensures
            span is Some <==> subsec_nanos < NANOS_PER_SEC,
            span matches Some(e) ==> e.total_nanos() == secs * NANOS_PER_SEC + subsec_nanos,
    {
        if subsec_nanos < NANOS_PER_SEC {
            Some(Elapsed { secs, subsec_nanos })
        } else {
            None
        }
    }

    /// The empty span.
    pub fn zero() -> (span: Elapsed)
        ensures
            span.total_nanos() == 0,
    {
        Elapsed { secs: 0, subsec_nanos: 0 }
    }

    /// The whole seconds of the span.
    pub fn as_secs(&self) -> (secs: u64)
        ensures
            secs == self.total_nanos() / (NANOS_PER_SEC as nat),
    {
        proof {
            use_type_invariant(self);
            lemma_split(self.secs as nat, self.subsec_nanos as nat);
        }
        self.secs
    }

    /// The nanoseconds beyond the whole seconds of the span.
    pub fn subsec_nanos(&self) -> (nanos: u32)
        ensures
            nanos == self.total_nanos() % (NANOS_PER_SEC as nat),
            nanos < NANOS_PER_SEC,
    {
        proof {
            use_type_invariant(self);
            lemma_split(self.secs as nat, self.subsec_nanos as nat);
        }
        self.subsec_nanos
    }

    /// The span in nanoseconds, as one integer.
    pub fn as_nanos(&self) -> (nanos: u128)
        ensures
            nanos == self.total_nanos(),
    {
        proof {
            use_type_invariant(self);
            assert((self.secs as nat) * (NANOS_PER_SEC as nat) <= 0xffff_ffff_ffff_ffff
                * 1_000_000_000) by (nonlinear_arith)
                requires
                    self.secs <= 0xffff_ffff_ffff_ffff,
                    NANOS_PER_SEC == 1_000_000_000,
            ;
        }
        let secs: u128 = self.secs as u128;
        let nanos: u128 = self.subsec_nanos as u128;
        secs * 1_000_000_000 + nanos
    }

    /// The span divided evenly over `count` items, rounded down to the
    /// nanosecond. There is no such share when there are no items.
    pub fn per_item(&self, count: usize) -> (share: Option<Elapsed>)
        ensures
            share is Some <==> count != 0,
            share matches Some(e) ==> e.total_nanos() == self.total_nanos() / (count as nat),
    {
        if count == 0 {
            return None;
        }
        let total: u128 = self.as_nanos();
        let each: u128 = total / (count as u128);
        let secs: u128 = each / 1_000_000_000;
        let nanos: u128 = each % 1_000_000_000;
        proof {
            use_type_invariant(self);
            assert(each <= total) by (nonlinear_arith)
                requires
                    each == total / (count as u128),
                    count > 0,
            ;
            assert(secs <= self.secs) by (nonlinear_arith)
                requires
                    secs == each / 1_000_000_000,
                    each <= total,
                    total == self.secs * 1_000_000_000 + self.subsec_nanos,
                    self.subsec_nanos < 1_000_000_000,
            ;
            assert(secs * 1_000_000_000 + nanos == each) by (nonlinear_arith)
                requires
                    secs == each / 1_000_000_000,
                    nanos == each % 1_000_000_000,
            ;
        }
        Some(Elapsed { secs: secs as u64, subsec_nanos: nanos as u32 })
    }
}

/// A total below one second's worth above a whole number of seconds splits
/// back into those seconds and that remainder.
proof fn lemma_split(secs: nat, nanos: nat)
    requires
        nanos < 1_000_000_000,
    ensures
        (secs * 1_000_000_000 + nanos) / 1_000_000_000 == secs,
        (secs * 1_000_000_000 + nanos) % 1_000_000_000 == nanos,
{
    assert((secs * 1_000_000_000 + nanos) / 1_000_000_000 == secs
        && (secs * 1_000_000_000 + nanos) % 1_000_000_000 == nanos) by (nonlinear_arith)
        requires
            nanos < 1_000_000_000,
    ;
}

#[verifier::external_type_specification]
#[verifier::external_body]
pub struct ExInstant(Instant);

/// `Instant::now` reads the monotonic clock; nothing is claimed of the reading.
pub assume_specification[ Instant::now ]() -> (now: Instant);

/// `Instant::elapsed` measures the time since the instant was taken; nothing
/// is claimed of the measurement.
pub assume_specification[ Instant::elapsed ](start: &Instant) -> (elapsed: Duration);

/// `Duration::as_secs` gives the whole seconds of a duration; nothing is
/// claimed of their number.
pub assume_specification[ Duration::as_secs ](duration: &Duration) -> (secs: u64);

/// `Duration::subsec_nanos` gives the fractional part of a duration in
/// nanoseconds, which is always less than one billion.
pub assume_specification[ Duration::subsec_nanos ](duration: &Duration) -> (nanos: u32)
    ensures
        nanos < 1_000_000_000,
;

/// A running measurement on the monotonic clock.
pub struct Stopwatch {
    started: Instant,
}

impl Stopwatch {
    /// Starts measuring now.
    pub fn start() -> Stopwatch {
        Stopwatch { started: Instant::now() }
    }

    /// The time since the stopwatch was started. The clock decides the value:
    /// whatever it reads, the span is made of its whole seconds and of its
    /// nanoseconds beyond them, which are fewer than a second.
    pub fn elapsed(&self) -> (span: Elapsed)
        ensures
            is_clock_reading(span.total_nanos()),
    {
        let duration = self.started.elapsed();
        let secs: u64 = duration.as_secs();
        let subsec_nanos: u32 = duration.subsec_nanos();
        proof {
            lemma_split(secs as nat, subsec_nanos as nat);
        }
        Elapsed { secs, subsec_nanos }
    }
}

/// Whether a span of `nanos` nanoseconds can be read from the clock: one of
/// whole seconds that a `u64` counts and of less than a second beyond them.
pub open spec fn is_clock_reading(nanos: nat) -> bool {
    nanos / (NANOS_PER_SEC as nat) <= u64::MAX
}

} // verus!

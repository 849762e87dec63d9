//! Spans of time as whole seconds and nanoseconds, and the wall clock.

use vstd::prelude::*;

verus! {

/// Nanoseconds in one second.
pub const NANOS_PER_SEC: u32 = 1_000_000_000;

/// The longest span in nanoseconds: the largest `u64` of seconds and one
/// nanosecond short of another second.
pub const MAX_NANOS: u128 = 18_446_744_073_709_551_615_999_999_999;

/// A span of time with nanosecond resolution. Its view is its length in
/// nanoseconds.
#[derive(Debug, Clone, Copy, PartialEq, Eq, Structural)]
pub struct Duration {
    secs: u64,
    nanos: u32,
}

impl View for Duration {
    type V = nat;

    closed spec fn view(&self) -> nat {
        (self.secs * NANOS_PER_SEC + self.nanos) as nat
    }
}

impl Duration {
    #[verifier::type_invariant]
    spec fn nanos_below_one_second(self) -> bool {
        self.nanos < NANOS_PER_SEC
    }

    /// A span of `secs` seconds.
    pub fn from_secs(secs: u64) -> (span: Duration)
        ensures
            span@ == secs * NANOS_PER_SEC,
    {
        Duration { secs, nanos: 0 }
    }

    /// A span of `millis` milliseconds.
    pub fn from_millis(millis: u64) -> (span: Duration)
        ensures
            span@ == millis * 1_000_000,
    {
        Duration { secs: millis / 1_000, nanos: (millis % 1_000) as u32 * 1_000_000 }
    }

    /// A span of `nanos` nanoseconds.
    fn from_nanos(nanos: u128) -> (span: Duration)
        requires
            nanos <= MAX_NANOS,
        ensures
            span@ == nanos,
    {
        Duration { secs: (nanos / 1_000_000_000) as u64, nanos: (nanos % 1_000_000_000) as u32 }
    }

    /// The whole seconds in the span.
    pub fn as_secs(&self) -> (secs: u64)
        ensures
            secs == self@ / NANOS_PER_SEC as nat,
    {
        proof {
            use_type_invariant(self);
        }
        self.secs
    }

    /// What is left of the span after its whole seconds, in nanoseconds.
    pub fn subsec_nanos(&self) -> (nanos: u32)
        ensures
            nanos == self@ % NANOS_PER_SEC as nat,
    {
        proof {
            use_type_invariant(self);
        }
        self.nanos
    }

    /// The length of the span in nanoseconds.
    pub fn as_nanos(&self) -> (nanos: u128)
        ensures
            nanos == self@,
            nanos <= MAX_NANOS,
    {
        proof {
            use_type_invariant(self);
        }
        self.secs as u128 * 1_000_000_000 + self.nanos as u128
    }

    /// `factor` times the span, or the longest span where that is too long.
    pub fn saturating_mul(self, factor: u32) -> (product: Duration)
        ensures
            product@ == if self@ * factor <= MAX_NANOS {
                self@ * factor
            } else {
                MAX_NANOS as int
            },
    {
        let nanos: u128 = self.as_nanos();
        assert(nanos * factor <= MAX_NANOS * 0xffff_ffff) by (nonlinear_arith)
            requires
                nanos <= MAX_NANOS,
                factor <= 0xffff_ffffu32,
        ;
        let product: u128 = nanos * factor as u128;
        if product <= MAX_NANOS {
            Duration::from_nanos(product)
        } else {
            Duration::from_nanos(MAX_NANOS)
        }
    }

    /// The shorter of the two spans.
    pub fn min(self, other: Duration) -> (shorter: Duration)
        ensures
            shorter@ == if self@ <= other@ {
                self@
            } else {
                other@
            },
            self@ <= MAX_NANOS,
            other@ <= MAX_NANOS,
    {
        if self.as_nanos() <= other.as_nanos() {
            self
        } else {
            other
        }
    }
}

/// Calls `std::time::SystemTime::elapsed` on `std::time::UNIX_EPOCH`, which
/// reads the system clock, and hands the span over as a [`Duration`]; `None`
/// stands for its error, a clock set before the epoch. All that is claimed is
/// that the span's nanoseconds stay below one second, as [`Duration`] has it;
/// nothing is said of what the clock reads.
#[verifier::external_body]
fn elapsed_since_unix_epoch() -> (elapsed: Option<Duration>) {
    match std::time::UNIX_EPOCH.elapsed() {
        Ok(span) => Some(Duration { secs: span.as_secs(), nanos: span.subsec_nanos() }),
        Err(_) => None,
    }
}

/// The system clock may read `elapsed`: it is what
/// `elapsed_since_unix_epoch` may return.
pub closed spec fn is_clock_reading(elapsed: Option<Duration>) -> bool {
    call_ensures(elapsed_since_unix_epoch, (), elapsed)
}

/// Reads the system clock: the span since the Unix epoch, or `None` for a clock
/// set before it.
pub fn since_unix_epoch() -> (elapsed: Option<Duration>)
    ensures
        is_clock_reading(elapsed),
{
    elapsed_since_unix_epoch()
}

/// The reading of a clock as a Unix timestamp: the whole seconds since the
/// epoch as a two's-complement `i64`, and 0 for a clock set before the epoch.
pub open spec fn unix_timestamp(elapsed: Option<Duration>) -> i64 {
    match elapsed {
        Some(span) => {
            let secs = span@ / NANOS_PER_SEC as nat;
            if secs <= i64::MAX {
                secs as i64
            } else {
                (secs - 0x1_0000_0000_0000_0000) as i64
            }
        },
        None => 0,
    }
}

/// The Unix timestamp for what the clock read.
pub fn unix_seconds(elapsed: Option<Duration>) -> (timestamp: i64)
    ensures
        timestamp == unix_timestamp(elapsed),
{
    match elapsed {
        Some(span) => {
            let secs: u64 = span.as_secs();
            assert(secs > 0x7fff_ffff_ffff_ffff ==> secs as i64 == secs - 0x1_0000_0000_0000_0000)
                by (bit_vector);
            secs as i64
        },
        None => 0,
    }
}

/// A timestamp agrees with the whole seconds since the epoch modulo the range
/// of 64 bits, so it is those seconds as long as they fit; a clock set before
/// the epoch gives 0.
pub proof fn law_timestamp_counts_whole_seconds(span: Duration)
    requires
        span@ <= MAX_NANOS,
    ensures
        (unix_timestamp(Some(span)) - span@ as int / 1_000_000_000) % 0x1_0000_0000_0000_0000 == 0,
        span@ < 9_223_372_036_854_775_808_000_000_000 ==> unix_timestamp(Some(span))
            * 1_000_000_000 <= span@ < (unix_timestamp(Some(span)) + 1) * 1_000_000_000,
        unix_timestamp(None) == 0,
{
}

/// Within the range of a timestamp, of two readings the later has no lesser
/// timestamp, and one a second later has the next.
pub proof fn law_timestamps_keep_pace(earlier: Duration, later: Duration)
    requires
        earlier@ <= later@,
        later@ < 9_223_372_036_854_775_808_000_000_000,
    ensures
        unix_timestamp(Some(earlier)) <= unix_timestamp(Some(later)),
        later@ == earlier@ + 1_000_000_000 ==> unix_timestamp(Some(later)) == unix_timestamp(
            Some(earlier),
        ) + 1,
{
}

} // verus!

//! Lengths of time in whole nanoseconds.
use vstd::prelude::*;

verus! {

/// The nanoseconds of one second.
pub const NANOS_PER_SECOND: u128 = 1_000_000_000;

/// The nanoseconds of one millisecond.
pub const NANOS_PER_MILLI: u128 = 1_000_000;

/// The nanoseconds of the longest length of time that `std::time::Duration` can hold.
pub const MAX_NANOS: u128 = 18_446_744_073_709_551_615_999_999_999;

/// A length of time.
#[derive(Clone, Copy, Debug, PartialEq, Eq, Structural)]
pub struct Span {
    /// Whole nanoseconds.
    pub nanos: u128,
}

/// The time in `later` beyond `earlier`, or none.
pub open spec fn span_beyond(later: Span, earlier: Span) -> Span {
    Span {
        nanos: if later.nanos >= earlier.nanos {
            (later.nanos - earlier.nanos) as u128
        } else {
            0
        },
    }
}

/// The shorter of two lengths of time.
pub open spec fn span_min(a: Span, b: Span) -> Span {
    if a.nanos <= b.nanos {
        a
    } else {
        b
    }
}

impl Span {
    /// Tells whether `std::time::Duration` can hold this length of time.
    pub open spec fn wf(self) -> bool {
        self.nanos <= MAX_NANOS
    }

    /// No time at all.
    pub fn zero() -> (r: Span)
        ensures
            r == (Span { nanos: 0 }),
    {
        Span { nanos: 0 }
    }

    /// The length of some milliseconds.
    pub fn from_millis(millis: u64) -> (r: Span)
        ensures
            r.nanos == millis * NANOS_PER_MILLI,
            r.wf(),
    {
        Span { nanos: (millis as u128) * NANOS_PER_MILLI }
    }

    /// The length of some seconds.
    pub fn from_secs(seconds: u64) -> (r: Span)
        ensures
            r.nanos == seconds * NANOS_PER_SECOND,
            r.wf(),
    {
        Span { nanos: (seconds as u128) * NANOS_PER_SECOND }
    }

    /// Whole milliseconds, rounded down.
    pub fn as_millis(&self) -> (r: u128)
        ensures
            r == self.nanos / NANOS_PER_MILLI,
    {
        self.nanos / NANOS_PER_MILLI
    }

    /// Tells whether this is no time at all.
    pub fn is_zero(&self) -> (r: bool)
        ensures
            r == (self.nanos == 0),
    {
        self.nanos == 0
    }

    /// The time in this one beyond `earlier`, or none.
    pub fn beyond(&self, earlier: Span) -> (r: Span)
        ensures
            r == span_beyond(*self, earlier),
    {
        if self.nanos >= earlier.nanos {
            Span { nanos: self.nanos - earlier.nanos }
        } else {
            Span { nanos: 0 }
        }
    }

    /// The shorter of two lengths of time.
    pub fn shorter(&self, other: Span) -> (r: Span)
        ensures
            r == span_min(*self, other),
    {
        if self.nanos <= other.nanos {
            *self
        } else {
            other
        }
    }
}

/// The text of `Duration::new(seconds, nanos).as_secs_f64()`, a number of seconds.
pub uninterp spec fn duration_text(seconds: u64, nanos: u32) -> Seq<char>;

/// `Duration::as_secs_f64`, written as `f64` is displayed.
#[verifier::external_body]
fn seconds_display(seconds: u64, nanos: u32) -> (r: String)
    requires
        nanos < 1_000_000_000,
    ensures
        r@ == duration_text(seconds, nanos),
{
    format!("{}", std::time::Duration::new(seconds, nanos).as_secs_f64())
}

/// A length of time written in seconds.
pub open spec fn span_text(span: Span) -> Seq<char> {
    duration_text((span.nanos / NANOS_PER_SECOND) as u64, (span.nanos % NANOS_PER_SECOND) as u32)
}

/// Writes a length of time in seconds.
pub fn seconds_text(span: Span) -> (r: String)
    requires
        span.wf(),
    ensures
        r@ == span_text(span),
{
    let seconds: u64 = (span.nanos / NANOS_PER_SECOND) as u64;
    let nanos: u32 = (span.nanos % NANOS_PER_SECOND) as u32;
    seconds_display(seconds, nanos)
}

/// The milliseconds since the Unix epoch, or zero where the clock stands before it.
pub open spec fn epoch_millis(since_epoch: Option<Span>) -> int {
    match since_epoch {
        Some(span) => span.nanos as int / NANOS_PER_MILLI as int,
        None => 0,
    }
}

/// The milliseconds since the Unix epoch, of the time since then that a clock shows.
pub fn unix_ms(since_epoch: Option<Span>) -> (r: u128)
    ensures
        r == epoch_millis(since_epoch),
{
    match since_epoch {
        Some(span) => span.as_millis(),
        None => 0,
    }
}

} // verus!

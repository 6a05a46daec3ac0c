//! Instants on the UTC time line, and the clock.

use vstd::prelude::*;

verus! {

/// Nanoseconds in one second.
pub const NANOS_PER_SEC: i128 = 1_000_000_000;

/// Nanoseconds in one day of 86 400 seconds.
pub const NANOS_PER_DAY: i128 = 86_400_000_000_000;

/// An instant: whole seconds since the Unix epoch and the nanoseconds past
/// that second.
#[derive(Clone, Copy, Debug, PartialEq, Eq, Structural)]
pub struct Timestamp {
    pub secs: i64,
    pub nanos: u32,
}

/// Whole days in a span of `nanos` nanoseconds, rounded toward zero.
pub open spec fn whole_days(nanos: int) -> int {
    if nanos >= 0 {
        nanos / (NANOS_PER_DAY as int)
    } else {
        -((-nanos) / (NANOS_PER_DAY as int))
    }
}

impl Timestamp {
    /// The instant as nanoseconds since the epoch.
    pub open spec fn as_nanos(self) -> int {
        self.secs * (NANOS_PER_SEC as int) + self.nanos
    }

    /// `self` is strictly later than `other`.
    pub open spec fn is_after(self, other: Timestamp) -> bool {
        self.as_nanos() > other.as_nanos()
    }

    /// The later of two instants; `self` where they coincide.
    pub open spec fn spec_latest(self, other: Timestamp) -> Timestamp {
        if other.is_after(self) {
            other
        } else {
            self
        }
    }

    /// Whole days from `earlier` to `self`, rounded toward zero; negative
    /// where `self` is the earlier one.
    pub open spec fn spec_days_since(self, earlier: Timestamp) -> int {
        whole_days(self.as_nanos() - earlier.as_nanos())
    }

    /// The current instant, by the system clock.
    pub fn now() -> (t: Timestamp)
        ensures
            t.nanos < 1_000_000_000,
    {
        clock_now()
    }

    /// The instant `nanos` nanoseconds after the second `secs`.
    pub fn new(secs: i64, nanos: u32) -> (t: Timestamp)
        ensures
            t.secs == secs,
            t.nanos == nanos,
    {
        Timestamp { secs, nanos }
    }

    /// Nanoseconds since the epoch, as a machine integer.
    pub fn total_nanos(&self) -> (n: i128)
        ensures
            n == self.as_nanos(),
    {
        (self.secs as i128) * NANOS_PER_SEC + (self.nanos as i128)
    }

    /// Whether this instant is strictly later than `other`.
    pub fn after(&self, other: &Timestamp) -> (r: bool)
        ensures
            r == self.is_after(*other),
    {
        self.total_nanos() > other.total_nanos()
    }

    /// The later of two instants; this one where they coincide.
    pub fn latest(self, other: Timestamp) -> (r: Timestamp)
        ensures
            r == self.spec_latest(other),
    {
        if other.after(&self) {
            other
        } else {
            self
        }
    }

    /// Whole days from `earlier` to this instant, rounded toward zero.
    pub fn days_since(&self, earlier: &Timestamp) -> (d: i64)
        ensures
            d == self.spec_days_since(*earlier),
    {
        let span: i128 = self.total_nanos() - earlier.total_nanos();
        if span >= 0 {
            (span / NANOS_PER_DAY) as i64
        } else {
            (-((-span) / NANOS_PER_DAY)) as i64
        }
    }

    /// This instant moved by `days` whole days, or `None` where the seconds
    /// would leave the range of `i64`.
    pub fn plus_days(&self, days: i64) -> (r: Option<Timestamp>)
        ensures
            match r {
                Some(t) => t.nanos == self.nanos && t.secs == self.secs + days * 86_400,
                None => self.secs + days * 86_400 < i64::MIN || self.secs + days * 86_400
                    > i64::MAX,
            },
    {
        let moved: i128 = (self.secs as i128) + (days as i128) * 86_400;
        if moved < i64::MIN as i128 || moved > i64::MAX as i128 {
            None
        } else {
            Some(Timestamp { secs: moved as i64, nanos: self.nanos })
        }
    }
}

/// Reads the system clock through `chrono::Utc::now`. Nothing is promised of
/// the instant but that its nanosecond part is below one second, as
/// `DateTime::timestamp_subsec_nanos` gives it for a clock reading.
#[verifier::external_body]
pub(crate) fn clock_now() -> (t: Timestamp)
    ensures
        t.nanos < 1_000_000_000,
{
    let now = chrono::Utc::now();
    Timestamp { secs: now.timestamp(), nanos: now.timestamp_subsec_nanos() }
}

} // verus!

//! Instants in UTC, held as whole seconds since the Unix epoch plus a
//! sub-second part, in the range that chrono's `DateTime<Utc>` can represent.

use vstd::prelude::*;

verus! {

/// The earliest second representable (`-262143-01-01T00:00:00Z`).
pub const MIN_SECS: i64 = -8334601315200;

/// The latest second representable (`+262142-12-31T23:59:59Z`).
pub const MAX_SECS: i64 = 8210266876799;

/// The number of nanoseconds in one second.
pub const NANOS_PER_SEC: u32 = 1000000000;

/// The number of seconds in one day.
pub const SECS_PER_DAY: i64 = 86400;

/// The largest number of whole seconds a time span may hold (`i64::MAX` milliseconds).
pub const MAX_SPAN_SECS: i64 = 9223372036854775;

/// An instant in UTC.
#[derive(Clone, Copy, Debug, PartialEq, Eq, Structural)]
pub struct DateTime {
    /// Whole seconds since 1970-01-01T00:00:00Z.
    pub secs: i64,
    /// Nanoseconds past `secs`.
    pub nanos: u32,
}

/// A span of whole seconds is one that a time span can hold.
pub open spec fn span_ok(secs: int) -> bool {
    -MAX_SPAN_SECS <= secs <= MAX_SPAN_SECS
}

impl DateTime {
    /// The instant lies in the representable range.
    pub open spec fn valid(self) -> bool {
        &&& MIN_SECS <= self.secs <= MAX_SECS
        &&& self.nanos < NANOS_PER_SEC
    }

    /// The instant strictly precedes `other`.
    pub open spec fn before(self, other: DateTime) -> bool {
        self.secs < other.secs || (self.secs == other.secs && self.nanos < other.nanos)
    }

    /// `secs` seconds can be added to this instant without leaving the range.
    pub open spec fn can_add(self, secs: int) -> bool {
        span_ok(secs) && MIN_SECS <= self.secs + secs <= MAX_SECS
    }

    /// This instant moved by `secs` seconds.
    pub open spec fn plus(self, secs: int) -> DateTime {
        DateTime { secs: (self.secs + secs) as i64, nanos: self.nanos }
    }

    /// Builds an instant from its parts.
    pub fn new(secs: i64, nanos: u32) -> (r: DateTime)
        ensures
            r.secs == secs,
            r.nanos == nanos,
    {
        DateTime { secs, nanos }
    }

    /// Whole seconds since the epoch.
    pub fn timestamp(&self) -> (r: i64)
        ensures
            r == self.secs,
    {
        self.secs
    }

    /// Whether this instant strictly precedes `other`.
    pub fn is_before(&self, other: &DateTime) -> (r: bool)
        ensures
            r == self.before(*other),
    {
        self.secs < other.secs || (self.secs == other.secs && self.nanos < other.nanos)
    }

    /// This instant moved by `secs` seconds.
    pub fn add_secs(&self, secs: i64) -> (r: DateTime)
        requires
            self.can_add(secs as int),
        ensures
            r == self.plus(secs as int),
    {
        DateTime { secs: self.secs + secs, nanos: self.nanos }
    }
}

} // verus!

//! Points in time, as whole seconds since the Unix epoch plus nanoseconds.

use vstd::prelude::*;
use vstd::std_specs::cmp::PartialEqSpecImpl;
use crate::calendar::{
    parse_rfc3339,
    pattern_writing,
    rfc3339_reading,
    rfc3339_writing,
    text_of,
    write_pattern,
    write_rfc3339,
};

verus! {

/// Seconds in one quantization step.
pub const HOUR_SECS: i64 = 3600;

/// Nanoseconds in one second. A `nanos` field at or above this value marks a
/// leap second, which is ordered after every ordinary instant of the second
/// it belongs to.
pub const SECOND_NANOS: u32 = 1_000_000_000;

/// Seconds in one day.
pub const DAY_SECS: i64 = 86_400;

/// An absolute instant together with the UTC offset it is displayed in.
///
/// Two instants are the same point in time when `secs` and `nanos` agree; the
/// offset only decides how the instant is written out.
#[derive(Clone, Copy, Debug)]
pub struct Instant {
    /// Whole seconds since 1970-01-01T00:00:00Z.
    pub secs: i64,
    /// Nanoseconds past `secs`.
    pub nanos: u32,
    /// Local time minus UTC, in seconds.
    pub offset: i32,
}

impl Instant {
    /// Both name the same point in time, whatever their offsets.
    pub open spec fn same_instant(self, other: Instant) -> bool {
        self.secs == other.secs && self.nanos == other.nanos
    }

    /// `self` is strictly earlier than `other`.
    pub open spec fn before(self, other: Instant) -> bool {
        self.secs < other.secs || (self.secs == other.secs && self.nanos < other.nanos)
    }

    /// `self` is `other` or earlier.
    pub open spec fn at_or_before(self, other: Instant) -> bool {
        self.before(other) || self.same_instant(other)
    }

    /// The nanoseconds an instant has after a step: a leap second does not
    /// survive the step.
    pub open spec fn settled_nanos(self) -> u32 {
        if self.nanos >= SECOND_NANOS {
            (self.nanos - SECOND_NANOS) as u32
        } else {
            self.nanos
        }
    }

    /// The instant falls into a leap second.
    pub open spec fn in_leap_second(self) -> bool {
        self.nanos >= SECOND_NANOS
    }

    /// Whole seconds since the last midnight in UTC.
    pub open spec fn second_of_day(self) -> int {
        self.secs as int % DAY_SECS as int
    }

    /// One hour after `self` is not later than `until`.
    pub open spec fn hour_fits(self, until: Instant) -> bool {
        self.secs + HOUR_SECS < until.secs || (self.secs + HOUR_SECS == until.secs
            && self.settled_nanos() <= until.nanos)
    }

    /// The instant one hour after `self`, in the same offset.
    pub open spec fn plus_hour(self) -> Instant
        recommends
            self.secs + HOUR_SECS <= i64::MAX,
    {
        Instant {
            secs: (self.secs + HOUR_SECS) as i64,
            nanos: self.settled_nanos(),
            offset: self.offset,
        }
    }

    /// The instant that an RFC 3339 timestamp names, if it is one.
    pub open spec fn reading(text: Seq<char>) -> Option<Instant> {
        match rfc3339_reading(text) {
            Some(parts) => Some(Instant { secs: parts.0, nanos: parts.1, offset: parts.2 }),
            None => None,
        }
    }

    /// Reads an RFC 3339 timestamp such as `2021-09-01T10:00:00+03:00`.
    pub fn parse(text: &str) -> (instant: Option<Instant>)
        ensures
            instant == Instant::reading(text@),
    {
        match parse_rfc3339(text) {
            Some(parts) => Some(Instant { secs: parts.0, nanos: parts.1, offset: parts.2 }),
            None => None,
        }
    }

    /// The RFC 3339 timestamp of the instant in its own offset, or `None`
    /// where the calendar cannot hold it.
    pub fn to_rfc3339(&self) -> (written: Option<String>)
        ensures
            text_of(written) == rfc3339_writing(self.secs, self.nanos, self.offset),
    {
        write_rfc3339(self.secs, self.nanos, self.offset)
    }

    /// The instant in its own offset under a `strftime` pattern, or `None`
    /// where the calendar cannot hold it or cannot write it under the pattern.
    pub fn format(&self, pattern: &str) -> (written: Option<String>)
        ensures
            text_of(written) == pattern_writing(self.secs, self.nanos, self.offset, pattern@),
    {
        write_pattern(self.secs, self.nanos, self.offset, pattern)
    }

    pub fn is_same_instant(&self, other: &Instant) -> (same: bool)
        ensures
            same == self.same_instant(*other),
    {
        self.secs == other.secs && self.nanos == other.nanos
    }

    pub fn is_before(&self, other: &Instant) -> (earlier: bool)
        ensures
            earlier == self.before(*other),
    {
        self.secs < other.secs || (self.secs == other.secs && self.nanos < other.nanos)
    }

    pub fn is_at_or_before(&self, other: &Instant) -> (not_later: bool)
        ensures
            not_later == self.at_or_before(*other),
    {
        self.secs < other.secs || (self.secs == other.secs && self.nanos <= other.nanos)
    }

    /// Whole seconds since the last midnight in UTC.
    pub fn seconds_since_midnight(&self) -> (seconds: i64)
        ensures
            seconds == self.second_of_day(),
            0 <= seconds < DAY_SECS,
    {
        // 106_751_991_167_301 days reach past the earliest second there is.
        let days: i128 = 106_751_991_167_301;
        let shifted: i128 = self.secs as i128 + days * 86_400;
        proof {
            vstd::arithmetic::div_mod::lemma_mod_multiples_vanish(
                days as int,
                self.secs as int,
                86_400,
            );
        }
        (shifted % 86_400) as i64
    }

    /// Whether a whole hour starting at `self` ends at or before `until`.
    pub fn fits_hour(&self, until: &Instant) -> (fits: bool)
        ensures
            fits == self.hour_fits(*until),
    {
        if self.secs > i64::MAX - HOUR_SECS {
            false
        } else {
            let stepped: i64 = self.secs + HOUR_SECS;
            let nanos: u32 = if self.nanos >= SECOND_NANOS {
                self.nanos - SECOND_NANOS
            } else {
                self.nanos
            };
            stepped < until.secs || (stepped == until.secs && nanos <= until.nanos)
        }
    }

    /// The instant one hour later, or `None` where its seconds would not fit.
    pub fn add_hour(&self) -> (later: Option<Instant>)
        ensures
            later.is_some() == (self.secs + HOUR_SECS <= i64::MAX),
            later.is_some() ==> later.unwrap() == self.plus_hour(),
    {
        if self.secs > i64::MAX - HOUR_SECS {
            None
        } else {
            let nanos: u32 = if self.nanos >= SECOND_NANOS {
                self.nanos - SECOND_NANOS
            } else {
                self.nanos
            };
            Some(Instant { secs: self.secs + HOUR_SECS, nanos, offset: self.offset })
        }
    }
}

impl PartialEq for Instant {
    fn eq(&self, other: &Instant) -> (same: bool) {
        self.secs == other.secs && self.nanos == other.nanos
    }
}

impl PartialEqSpecImpl for Instant {
    open spec fn obeys_eq_spec() -> bool {
        true
    }

    open spec fn eq_spec(&self, other: &Instant) -> bool {
        self.secs == other.secs && self.nanos == other.nanos
    }
}

} // verus!

//! A half-open range of time.

use vstd::prelude::*;
use vstd::std_specs::cmp::PartialEqSpecImpl;
use crate::calendar::{pattern_writing, text_of};
use crate::instant::{Instant, SECOND_NANOS};
use crate::text::{decimal, push_decimal};

verus! {

/// The half-open range `[start, end)`.
#[derive(Clone, Copy, Debug)]
pub struct Timeslot {
    pub start: Instant,
    pub end: Instant,
}

impl Timeslot {
    /// Both ends name the same instants.
    pub open spec fn same_range(self, other: Timeslot) -> bool {
        self.start.same_instant(other.start) && self.end.same_instant(other.end)
    }

    /// The range holds at least one instant.
    pub open spec fn nonempty(self) -> bool {
        self.start.before(self.end)
    }

    /// `t` lies in `[start, end)`.
    pub open spec fn covers(self, t: Instant) -> bool {
        self.start.at_or_before(t) && t.before(self.end)
    }

    /// `self` comes before `other` in a list ordered by start.
    pub open spec fn starts_before(self, other: Timeslot) -> bool {
        self.start.before(other.start)
    }

    /// `inner` lies wholly inside `self`.
    pub open spec fn encloses(self, inner: Timeslot) -> bool {
        self.start.at_or_before(inner.start) && inner.end.at_or_before(self.end)
    }

    /// The range between two RFC 3339 timestamps, if both are timestamps.
    pub open spec fn reading(start: Seq<char>, end: Seq<char>) -> Option<Timeslot> {
        match (Instant::reading(start), Instant::reading(end)) {
            (Some(start), Some(end)) => Some(Timeslot { start, end }),
            _ => None,
        }
    }

    /// The second that a leap second at the earlier end adds to the length:
    /// it counts where the other end falls at another second of the day, on
    /// the side that the leap second lies on.
    pub open spec fn leap_allowance(self) -> int {
        if self.end.second_of_day() > self.start.second_of_day() && self.start.in_leap_second() {
            1
        } else if self.end.second_of_day() < self.start.second_of_day()
            && self.end.in_leap_second() {
            -1
        } else {
            0
        }
    }

    /// Nanoseconds from `start` to `end`; negative where `end` comes first.
    pub open spec fn elapsed_nanos(self) -> int {
        (self.end.secs - self.start.secs + self.leap_allowance()) * 1_000_000_000 + (self.end.nanos
            - self.start.nanos)
    }

    /// The whole hours from `start` to `end`, rounded toward zero.
    pub open spec fn whole_hours(self) -> int {
        let elapsed = self.elapsed_nanos();
        if elapsed >= 0 {
            elapsed / 3_600_000_000_000
        } else {
            -((-elapsed) / 3_600_000_000_000)
        }
    }

    /// The line that describes a range whose start, end and length are
    /// already written out: `2023-12-01 10:00 - 11:00 (1 h)`.
    pub open spec fn labelled(from: Seq<char>, until: Seq<char>, hours: int) -> Seq<char> {
        from + " - "@ + until + " ("@ + decimal(hours) + " h)"@
    }

    /// The line that describes the range: day and time of the start, time of
    /// the end, and the length in whole hours.
    pub open spec fn description(self) -> Option<Seq<char>> {
        match (
            pattern_writing(self.start.secs, self.start.nanos, self.start.offset, "%Y-%m-%d %H:%M"@),
            pattern_writing(self.end.secs, self.end.nanos, self.end.offset, "%H:%M"@),
        ) {
            (Some(from), Some(until)) => Some(Timeslot::labelled(from, until, self.whole_hours())),
            _ => None,
        }
    }

    /// Reads a range from the RFC 3339 timestamps of its two ends.
    pub fn parse(start: &str, end: &str) -> (slot: Option<Timeslot>)
        ensures
            slot == Timeslot::reading(start@, end@),
    {
        match Instant::parse(start) {
            Some(start) => match Instant::parse(end) {
                Some(end) => Some(Timeslot { start, end }),
                None => None,
            },
            None => None,
        }
    }

    /// The length of the range in whole hours, rounded toward zero.
    pub fn duration(&self) -> (hours: i64)
        ensures
            hours == self.whole_hours(),
    {
        let from: i64 = self.start.seconds_since_midnight();
        let until: i64 = self.end.seconds_since_midnight();
        let allowance: i128 = if until > from && self.start.nanos >= SECOND_NANOS {
            1
        } else if until < from && self.end.nanos >= SECOND_NANOS {
            -1
        } else {
            0
        };
        let secs: i128 = self.end.secs as i128 - self.start.secs as i128 + allowance;
        let nanos: i128 = self.end.nanos as i128 - self.start.nanos as i128;
        let elapsed: i128 = secs * 1_000_000_000 + nanos;
        if elapsed >= 0 {
            (elapsed / 3_600_000_000_000) as i64
        } else {
            (-((-elapsed) / 3_600_000_000_000)) as i64
        }
    }

    /// Puts the written start, end and length of a range into one line.
    pub fn label(from: &str, until: &str, hours: i64) -> (line: String)
        ensures
            line@ == Timeslot::labelled(from@, until@, hours as int),
    {
        let mut line = String::new();
        line.append(from);
        line.append(" - ");
        line.append(until);
        line.append(" (");
        push_decimal(&mut line, hours);
        line.append(" h)");
        assert(line@ =~= Timeslot::labelled(from@, until@, hours as int));
        line
    }

    /// The line that describes the range, or `None` where the calendar
    /// cannot hold one of its ends.
    pub fn describe(&self) -> (line: Option<String>)
        ensures
            text_of(line) == self.description(),
    {
        match self.start.format("%Y-%m-%d %H:%M") {
            Some(from) => match self.end.format("%H:%M") {
                Some(until) => Some(Timeslot::label(from.as_str(), until.as_str(), self.duration())),
                None => None,
            },
            None => None,
        }
    }

    pub fn start_time(&self) -> (start: Instant)
        ensures
            start == self.start,
    {
        self.start
    }

    pub fn end_time(&self) -> (end: Instant)
        ensures
            end == self.end,
    {
        self.end
    }

    pub fn is_same_range(&self, other: &Timeslot) -> (same: bool)
        ensures
            same == self.same_range(*other),
    {
        self.start.is_same_instant(&other.start) && self.end.is_same_instant(&other.end)
    }

    /// Whether `self` comes before `other` in a list ordered by start.
    pub fn is_starting_before(&self, other: &Timeslot) -> (earlier: bool)
        ensures
            earlier == self.starts_before(*other),
    {
        self.start.is_before(&other.start)
    }

    /// Whether `t` lies in `[start, end)`.
    pub fn is_covering(&self, t: &Instant) -> (inside: bool)
        ensures
            inside == self.covers(*t),
    {
        self.start.is_at_or_before(t) && t.is_before(&self.end)
    }
}

impl PartialEq for Timeslot {
    fn eq(&self, other: &Timeslot) -> (same: bool) {
        self.start.is_same_instant(&other.start) && self.end.is_same_instant(&other.end)
    }
}

impl PartialEqSpecImpl for Timeslot {
    open spec fn obeys_eq_spec() -> bool {
        true
    }

    open spec fn eq_spec(&self, other: &Timeslot) -> bool {
        self.start.same_instant(other.start) && self.end.same_instant(other.end)
    }
}

} // verus!

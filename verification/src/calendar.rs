//! Reading and writing instants as text, done by the `chrono` crate.
//!
//! Nothing here is proved: each function states what `chrono` is taken to do.

use vstd::prelude::*;
use chrono::{DateTime, FixedOffset};
use std::fmt::Write;

verus! {

/// What `chrono::DateTime::parse_from_rfc3339` makes of a text: seconds since
/// the epoch, nanoseconds past the second and the offset in seconds, or
/// `None` where it rejects the text.
pub uninterp spec fn rfc3339_reading(text: Seq<char>) -> Option<(i64, u32, i32)>;

/// What `chrono::DateTime::to_rfc3339` writes for an instant shown in the
/// given offset, or `None` where `chrono` cannot hold the instant or the
/// offset.
pub uninterp spec fn rfc3339_writing(secs: i64, nanos: u32, offset: i32) -> Option<Seq<char>>;

/// What `chrono::DateTime::format` writes for an instant shown in the given
/// offset under a `strftime` pattern, or `None` where `chrono` cannot hold the
/// instant or the offset, or cannot write the instant under the pattern.
pub uninterp spec fn pattern_writing(secs: i64, nanos: u32, offset: i32, pattern: Seq<char>) -> Option<
    Seq<char>,
>;

/// The characters of a text that may be absent.
pub open spec fn text_of(written: Option<String>) -> Option<Seq<char>> {
    match written {
        Some(text) => Some(text@),
        None => None,
    }
}

/// Calls `chrono::DateTime::parse_from_rfc3339` and hands back the parsed
/// value as `DateTime::timestamp`, `DateTime::timestamp_subsec_nanos` and
/// `FixedOffset::local_minus_utc` report it. The contract claims only that
/// the outcome is a function of the text.
#[verifier::external_body]
pub(crate) fn parse_rfc3339(text: &str) -> (reading: Option<(i64, u32, i32)>)
    ensures
        reading == rfc3339_reading(text@),
{
    match DateTime::parse_from_rfc3339(text) {
        Ok(stamp) => Some(
            (stamp.timestamp(), stamp.timestamp_subsec_nanos(), stamp.offset().local_minus_utc()),
        ),
        Err(_) => None,
    }
}

/// Calls `chrono::DateTime::to_rfc3339` on the instant that
/// `DateTime::from_timestamp` and `FixedOffset::east_opt` build. The contract
/// claims only that the outcome is a function of the three numbers.
#[verifier::external_body]
pub(crate) fn write_rfc3339(secs: i64, nanos: u32, offset: i32) -> (written: Option<String>)
    ensures
        text_of(written) == rfc3339_writing(secs, nanos, offset),
{
    let utc = DateTime::from_timestamp(secs, nanos)?;
    let zone = FixedOffset::east_opt(offset)?;
    Some(utc.with_timezone(&zone).to_rfc3339())
}

/// Calls `chrono::DateTime::format` on the instant that
/// `DateTime::from_timestamp` and `FixedOffset::east_opt` build, and writes
/// the outcome into a string. The contract claims only that the outcome is a
/// function of the three numbers and the pattern.
#[verifier::external_body]
pub(crate) fn write_pattern(secs: i64, nanos: u32, offset: i32, pattern: &str) -> (written: Option<
    String,
>)
    ensures
        text_of(written) == pattern_writing(secs, nanos, offset, pattern@),
{
    let utc = DateTime::from_timestamp(secs, nanos)?;
    let zone = FixedOffset::east_opt(offset)?;
    let mut out = String::new();
    write!(out, "{}", utc.with_timezone(&zone).format(pattern)).ok()?;
    Some(out)
}

} // verus!

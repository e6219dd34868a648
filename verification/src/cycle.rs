//! One round of the watch: read what the service answered, compute the
//! availability, compare it with what was stored, and say what to store and
//! what to announce.

use vstd::prelude::*;
use crate::availability::{available_times, get_available_times};
use crate::calendar::text_of;
use crate::differ::{diff, new_entries};
use crate::notice::{notice_writing, notification_text};
use crate::snapshot::{parse_snapshot, render_snapshot, snapshot_reading, snapshot_writing, SnapshotError};
use crate::source::{
    decode_json,
    json_document,
    list_reading,
    parse_opening_times,
    parse_reservations,
    SourceError,
};
use crate::timeslot::Timeslot;

verus! {

/// What a round found.
pub struct Cycle {
    /// The availability list.
    pub available: Vec<Timeslot>,
    /// Its ranges that the stored list did not hold.
    pub fresh: Vec<Timeslot>,
    /// The text to store in place of the old one.
    pub snapshot: String,
    /// The message to send, if there is one.
    pub message: Option<String>,
}

/// Why a round gave nothing. The stored list is then left as it is.
#[derive(Clone, Copy, Debug, PartialEq, Eq, Structural)]
pub enum CycleError {
    /// The service's answer cannot be read.
    Source(SourceError),
    /// The stored list cannot be read.
    Stored(SnapshotError),
    /// The new list cannot be written.
    Unwritable,
}

/// The opening windows and the reservations in the service's answer.
pub open spec fn source_reading(text: Seq<char>) -> Result<(Seq<Timeslot>, Seq<Timeslot>), SourceError> {
    match json_document(text) {
        None => Err(SourceError::NotJson),
        Some(doc) => match list_reading(doc, "opening_hours"@, "opens"@, "closes"@) {
            Err(fault) => Err(SourceError::OpeningHours(fault)),
            Ok(openings) => match list_reading(doc, "reservations"@, "begin"@, "end"@) {
                Err(fault) => Err(SourceError::Reservations(fault)),
                Ok(reservations) => Ok((openings, reservations)),
            },
        },
    }
}

/// Reads the service's answer: first the opening hours, then the
/// reservations.
pub fn read_api_data(text: &str) -> (outcome: Result<(Vec<Timeslot>, Vec<Timeslot>), SourceError>)
    ensures
        match outcome {
            Ok(lists) => source_reading(text@) == Ok::<(Seq<Timeslot>, Seq<Timeslot>), SourceError>(
                (lists.0@, lists.1@),
            ),
            Err(fault) => source_reading(text@) == Err::<(Seq<Timeslot>, Seq<Timeslot>), SourceError>(
                fault,
            ),
        },
{
    match decode_json(text) {
        None => Err(SourceError::NotJson),
        Some(doc) => match parse_opening_times(&doc) {
            Err(fault) => Err(SourceError::OpeningHours(fault)),
            Ok(openings) => match parse_reservations(&doc) {
                Err(fault) => Err(SourceError::Reservations(fault)),
                Ok(reservations) => Ok((openings, reservations)),
            },
        },
    }
}

/// The error of comparing a list with the stored text, if there is one: a
/// stored text that cannot be read comes first, then a list that cannot be
/// written.
pub open spec fn settle_fault(available: Seq<Timeslot>, stored: Seq<char>) -> Option<CycleError> {
    match snapshot_reading(stored) {
        Err(fault) => Some(CycleError::Stored(fault)),
        Ok(previous) => if snapshot_writing(available) is None {
            Some(CycleError::Unwritable)
        } else {
            None
        },
    }
}

/// The error of a round, if it has one: an answer that cannot be read comes
/// before anything else.
pub open spec fn round_fault(answer: Seq<char>, stored: Seq<char>) -> Option<CycleError> {
    match source_reading(answer) {
        Err(fault) => Some(CycleError::Source(fault)),
        Ok(lists) => settle_fault(available_times(lists.0, lists.1), stored),
    }
}

/// The availability list that a round computes, where it can read the answer.
pub open spec fn round_available(answer: Seq<char>) -> Seq<Timeslot> {
    let lists = source_reading(answer)->Ok_0;
    available_times(lists.0, lists.1)
}

/// Compares an availability list with the stored text: what is new, what to
/// store in its place, and what to announce.
pub fn settle(available: Vec<Timeslot>, stored: &str) -> (outcome: Result<Cycle, CycleError>)
    ensures
        match outcome {
            Ok(found) => {
                &&& settle_fault(available@, stored@) is None
                &&& found.available@ == available@
                &&& found.fresh@ == new_entries(available@, snapshot_reading(stored@)->Ok_0)
                &&& snapshot_writing(available@) == Some(found.snapshot@)
                &&& text_of(found.message) == notice_writing(found.fresh@)
            },
            Err(fault) => settle_fault(available@, stored@) == Some(fault),
        },
{
    let previous = match parse_snapshot(stored) {
        Ok(previous) => previous,
        Err(fault) => {
            return Err(CycleError::Stored(fault));
        },
    };
    let fresh = diff(&available, &previous);
    let snapshot = match render_snapshot(&available) {
        Some(snapshot) => snapshot,
        None => {
            return Err(CycleError::Unwritable);
        },
    };
    let message = notification_text(&fresh);
    Ok(Cycle { available, fresh, snapshot, message })
}

/// One round, from the service's answer and the stored text.
pub fn run_cycle(answer: &str, stored: &str) -> (outcome: Result<Cycle, CycleError>)
    ensures
        match outcome {
            Ok(found) => {
                &&& round_fault(answer@, stored@) is None
                &&& found.available@ == round_available(answer@)
                &&& found.fresh@ == new_entries(
                    round_available(answer@),
                    snapshot_reading(stored@)->Ok_0,
                )
                &&& snapshot_writing(round_available(answer@)) == Some(found.snapshot@)
                &&& text_of(found.message) == notice_writing(found.fresh@)
            },
            Err(fault) => round_fault(answer@, stored@) == Some(fault),
        },
{
    let lists = match read_api_data(answer) {
        Ok(lists) => lists,
        Err(fault) => {
            return Err(CycleError::Source(fault));
        },
    };
    let available = get_available_times(&lists.0, &lists.1);
    settle(available, stored)
}

} // verus!

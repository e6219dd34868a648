//! The stored form of an availability list: one line per range, the RFC 3339
//! timestamps of its start and end with a comma between them.

use vstd::prelude::*;
use crate::calendar::{rfc3339_writing, text_of};
use crate::text::{split, split_text, texts};
use crate::timeslot::Timeslot;

verus! {

/// Why a stored list cannot be read. Lines count from zero.
#[derive(Clone, Copy, Debug, PartialEq, Eq, Structural)]
pub enum SnapshotError {
    /// The line has no comma, so no end.
    MissingEnd { line: usize },
    /// The start or the end of the line is no RFC 3339 timestamp.
    BadTimestamp { line: usize },
}

/// The stored line of one range, or `None` where the calendar cannot hold
/// one of its ends.
pub open spec fn line_writing(slot: Timeslot) -> Option<Seq<char>> {
    match (
        rfc3339_writing(slot.start.secs, slot.start.nanos, slot.start.offset),
        rfc3339_writing(slot.end.secs, slot.end.nanos, slot.end.offset),
    ) {
        (Some(start), Some(end)) => Some(start + ","@ + end + "\n"@),
        _ => None,
    }
}

/// The stored text of a list: its lines in order, or `None` where one of
/// them cannot be written.
pub open spec fn snapshot_writing(list: Seq<Timeslot>) -> Option<Seq<char>>
    decreases list.len(),
{
    if list.len() == 0 {
        Some(Seq::empty())
    } else {
        match (snapshot_writing(list.drop_last()), line_writing(list.last())) {
            (Some(text), Some(line)) => Some(text + line),
            _ => None,
        }
    }
}

/// What the first `lines` say: empty lines say nothing, any other line gives
/// a range from its first two fields. The first line that gives none decides
/// the error.
pub open spec fn lines_reading(lines: Seq<Seq<char>>) -> Result<Seq<Timeslot>, SnapshotError>
    decreases lines.len(),
{
    if lines.len() == 0 {
        Ok(Seq::empty())
    } else {
        match lines_reading(lines.drop_last()) {
            Err(fault) => Err(fault),
            Ok(list) => {
                let line = lines.last();
                let at = (lines.len() - 1) as usize;
                let fields = split(line, ',');
                if line.len() == 0 {
                    Ok(list)
                } else if fields.len() < 2 {
                    Err(SnapshotError::MissingEnd { line: at })
                } else {
                    match Timeslot::reading(fields[0], fields[1]) {
                        Some(slot) => Ok(list.push(slot)),
                        None => Err(SnapshotError::BadTimestamp { line: at }),
                    }
                }
            },
        }
    }
}

/// The list that a stored text holds.
pub open spec fn snapshot_reading(text: Seq<char>) -> Result<Seq<Timeslot>, SnapshotError> {
    lines_reading(split(text, '\n'))
}

/// Once a line has failed, the lines after it do not change the error.
pub proof fn lemma_first_fault_decides(lines: Seq<Seq<char>>, upto: int)
    requires
        0 <= upto <= lines.len(),
        lines_reading(lines.take(upto)) is Err,
    ensures
        lines_reading(lines) == lines_reading(lines.take(upto)),
    decreases lines.len() - upto,
{
    if upto < lines.len() {
        assert(lines.take(upto + 1).drop_last() == lines.take(upto));
        lemma_first_fault_decides(lines, upto + 1);
    } else {
        assert(lines.take(upto) == lines);
    }
}

/// Once a range cannot be written, neither can any longer list.
pub proof fn lemma_unwritable_stays(list: Seq<Timeslot>, upto: int)
    requires
        0 <= upto <= list.len(),
        snapshot_writing(list.take(upto)) is None,
    ensures
        snapshot_writing(list) is None,
    decreases list.len() - upto,
{
    if upto < list.len() {
        assert(list.take(upto + 1).drop_last() == list.take(upto));
        lemma_unwritable_stays(list, upto + 1);
    } else {
        assert(list.take(upto) == list);
    }
}

/// The stored line of one range.
pub fn snapshot_line(slot: &Timeslot) -> (line: Option<String>)
    ensures
        text_of(line) == line_writing(*slot),
{
    match slot.start.to_rfc3339() {
        Some(start) => match slot.end.to_rfc3339() {
            Some(end) => {
                let mut line = start;
                line.append(",");
                line.append(end.as_str());
                line.append("\n");
                Some(line)
            },
            None => None,
        },
        None => None,
    }
}

/// The stored text of a list, which replaces whatever was stored before.
pub fn render_snapshot(list: &Vec<Timeslot>) -> (text: Option<String>)
    ensures
        text_of(text) == snapshot_writing(list@),
{
    let mut text = String::new();
    let mut i: usize = 0;
    proof {
        assert(list@.take(0) == Seq::<Timeslot>::empty());
    }
    while i < list.len()
        invariant
            i <= list.len(),
            snapshot_writing(list@.take(i as int)) == Some(text@),
        decreases list.len() - i,
    {
        proof {
            let upto = list@.take(i as int + 1);
            assert(upto.drop_last() == list@.take(i as int));
            assert(upto.last() == list@[i as int]);
        }
        match snapshot_line(&list[i]) {
            Some(line) => {
                text.append(line.as_str());
            },
            None => {
                proof {
                    lemma_unwritable_stays(list@, i as int + 1);
                }
                return None;
            },
        }
        i += 1;
    }
    proof {
        assert(list@.take(i as int) == list@);
    }
    Some(text)
}

/// Reads a stored list back. A text without lines gives the empty list.
pub fn parse_snapshot(text: &str) -> (outcome: Result<Vec<Timeslot>, SnapshotError>)
    ensures
        match outcome {
            Ok(list) => snapshot_reading(text@) == Ok::<Seq<Timeslot>, SnapshotError>(list@),
            Err(fault) => snapshot_reading(text@) == Err::<Seq<Timeslot>, SnapshotError>(fault),
        },
{
    let lines = split_text(text, '\n');
    let ghost all = texts(lines@);
    let mut list: Vec<Timeslot> = Vec::new();
    let mut i: usize = 0;
    proof {
        assert(all.take(0) == Seq::<Seq<char>>::empty());
    }
    while i < lines.len()
        invariant
            i <= lines.len(),
            all == texts(lines@),
            all == split(text@, '\n'),
            lines_reading(all.take(i as int)) == Ok::<Seq<Timeslot>, SnapshotError>(list@),
        decreases lines.len() - i,
    {
        let line = lines[i].as_str();
        proof {
            let upto = all.take(i as int + 1);
            assert(upto.drop_last() == all.take(i as int));
            assert(upto.last() == line@);
        }
        if !line.is_empty() {
            let fields = split_text(line, ',');
            assert(texts(fields@).len() == fields@.len());
            if fields.len() < 2 {
                proof {
                    lemma_first_fault_decides(all, i as int + 1);
                }
                return Err(SnapshotError::MissingEnd { line: i });
            }
            assert(texts(fields@)[0] == fields@[0]@);
            assert(texts(fields@)[1] == fields@[1]@);
            match Timeslot::parse(fields[0].as_str(), fields[1].as_str()) {
                Some(slot) => {
                    list.push(slot);
                },
                None => {
                    proof {
                        lemma_first_fault_decides(all, i as int + 1);
                    }
                    return Err(SnapshotError::BadTimestamp { line: i });
                },
            }
        }
        i += 1;
    }
    proof {
        assert(all.take(i as int) == all);
    }
    Ok(list)
}

} // verus!

//! Opening hours and reservations as the booking service reports them: a JSON
//! document with a list of rows for each, every row holding the two
//! timestamps of a window. The document itself is held by `serde_json`.

use vstd::prelude::*;
use serde_json::Value;
use crate::timeslot::Timeslot;

verus! {

#[verifier::external_type_specification]
#[verifier::external_body]
pub struct ExValue(serde_json::Value);

/// A member of a row: absent or null, a text, or anything else.
pub type Member = Option<Option<Seq<char>>>;

/// The document that `serde_json::from_str` reads from a text, or `None`
/// where it rejects the text.
pub uninterp spec fn json_document(text: Seq<char>) -> Option<serde_json::Value>;

/// Whether the member `list` of the document is an array.
pub uninterp spec fn json_is_list(doc: serde_json::Value, list: Seq<char>) -> bool;

/// The rows of the array `list` of the document. Each row maps the names of
/// its members that are not null to their texts, or to `None` for a member
/// that is no text. A row that is no object has no members.
pub uninterp spec fn json_rows(doc: serde_json::Value, list: Seq<char>) -> Seq<
    Map<Seq<char>, Option<Seq<char>>>,
>;

/// The member `key` of a row.
pub open spec fn row_member(row: Map<Seq<char>, Option<Seq<char>>>, key: Seq<char>) -> Member {
    if row.contains_key(key) {
        Some(row[key])
    } else {
        None
    }
}

/// A member of a row, as read from the document.
#[derive(Debug)]
pub enum Field {
    /// The member is absent or null.
    Null,
    /// The member is a text.
    Text(String),
    /// The member is a number, a truth value, a list or an object.
    Other,
}

impl View for Field {
    type V = Member;

    open spec fn view(&self) -> Member {
        match self {
            Field::Null => None,
            Field::Text(text) => Some(Some(text@)),
            Field::Other => Some(None),
        }
    }
}

/// Why a list of windows cannot be read. Rows count from zero.
#[derive(Clone, Copy, Debug, PartialEq, Eq, Structural)]
pub enum ListError {
    /// The document has no such list.
    Missing,
    /// One end of the row is neither null nor a text.
    NotText { row: usize },
    /// One end of the row is no RFC 3339 timestamp.
    BadTimestamp { row: usize },
}

/// Why the service's answer cannot be read.
#[derive(Clone, Copy, Debug, PartialEq, Eq, Structural)]
pub enum SourceError {
    /// The answer is no JSON document.
    NotJson,
    /// The list of opening hours cannot be read.
    OpeningHours(ListError),
    /// The list of reservations cannot be read.
    Reservations(ListError),
}

/// Calls `serde_json::from_str` for a `Value`. The contract claims only that
/// the outcome is a function of the text.
#[verifier::external_body]
pub(crate) fn decode_json(text: &str) -> (doc: Option<Value>)
    ensures
        doc == json_document(text@),
{
    serde_json::from_str(text).ok()
}

/// Indexes the document by `list` and calls `Value::as_array`: the length of
/// that array, or `None` where the member is absent or no array.
#[verifier::external_body]
pub(crate) fn list_len(doc: &Value, list: &str) -> (len: Option<usize>)
    ensures
        len.is_some() == json_is_list(*doc, list@),
        len.is_some() ==> len.unwrap() == json_rows(*doc, list@).len(),
{
    doc[list].as_array().map(Vec::len)
}

/// Indexes the document by `list`, `row` and `key`, which gives null for
/// whatever is absent, and tells the kinds of `Value` apart.
#[verifier::external_body]
pub(crate) fn row_field(doc: &Value, list: &str, row: usize, key: &str) -> (field: Field)
    requires
        json_is_list(*doc, list@),
        row < json_rows(*doc, list@).len(),
    ensures
        field@ == row_member(json_rows(*doc, list@)[row as int], key@),
{
    match &doc[list][row][key] {
        Value::Null => Field::Null,
        Value::String(text) => Field::Text(text.clone()),
        _ => Field::Other,
    }
}

/// The two ends of every row of a list.
pub open spec fn row_ends(
    rows: Seq<Map<Seq<char>, Option<Seq<char>>>>,
    from_key: Seq<char>,
    until_key: Seq<char>,
) -> Seq<(Member, Member)> {
    rows.map_values(
        |row: Map<Seq<char>, Option<Seq<char>>>|
            (row_member(row, from_key), row_member(row, until_key)),
    )
}

/// The members of every pair of fields.
pub open spec fn ends_of(rows: Seq<(Field, Field)>) -> Seq<(Member, Member)> {
    rows.map_values(|row: (Field, Field)| (row.0@, row.1@))
}

/// The windows that rows give. A row with a null end is a closed day and
/// gives none; any other row gives the window between its two timestamps.
/// The first row that cannot be read decides the error.
pub open spec fn windows_reading(rows: Seq<(Member, Member)>) -> Result<Seq<Timeslot>, ListError>
    decreases rows.len(),
{
    if rows.len() == 0 {
        Ok(Seq::empty())
    } else {
        match windows_reading(rows.drop_last()) {
            Err(fault) => Err(fault),
            Ok(windows) => {
                let at = (rows.len() - 1) as usize;
                match rows.last() {
                    (None, _) => Ok(windows),
                    (_, None) => Ok(windows),
                    (Some(Some(from)), Some(Some(until))) => match Timeslot::reading(from, until) {
                        Some(window) => Ok(windows.push(window)),
                        None => Err(ListError::BadTimestamp { row: at }),
                    },
                    _ => Err(ListError::NotText { row: at }),
                }
            },
        }
    }
}

/// The windows in the list `list` of a document.
pub open spec fn list_reading(
    doc: serde_json::Value,
    list: Seq<char>,
    from_key: Seq<char>,
    until_key: Seq<char>,
) -> Result<Seq<Timeslot>, ListError> {
    if json_is_list(doc, list) {
        windows_reading(row_ends(json_rows(doc, list), from_key, until_key))
    } else {
        Err(ListError::Missing)
    }
}

/// Whether an outcome is the one that the model gives.
pub open spec fn agrees<E>(outcome: Result<Vec<Timeslot>, E>, model: Result<Seq<Timeslot>, E>) -> bool {
    match outcome {
        Ok(windows) => model == Ok::<Seq<Timeslot>, E>(windows@),
        Err(fault) => model == Err::<Seq<Timeslot>, E>(fault),
    }
}

/// Once a row has failed, the rows after it do not change the error.
pub proof fn lemma_first_bad_row_decides(rows: Seq<(Member, Member)>, upto: int)
    requires
        0 <= upto <= rows.len(),
        windows_reading(rows.take(upto)) is Err,
    ensures
        windows_reading(rows) == windows_reading(rows.take(upto)),
    decreases rows.len() - upto,
{
    if upto < rows.len() {
        assert(rows.take(upto + 1).drop_last() == rows.take(upto));
        lemma_first_bad_row_decides(rows, upto + 1);
    } else {
        assert(rows.take(upto) == rows);
    }
}

/// The two named members of every row of a list, or `None` where the
/// document has no such list.
pub fn extract_rows(doc: &Value, list: &str, from_key: &str, until_key: &str) -> (rows: Option<
    Vec<(Field, Field)>,
>)
    ensures
        rows.is_some() == json_is_list(*doc, list@),
        rows.is_some() ==> ends_of(rows.unwrap()@) == row_ends(
            json_rows(*doc, list@),
            from_key@,
            until_key@,
        ),
{
    match list_len(doc, list) {
        None => None,
        Some(len) => {
            let mut rows: Vec<(Field, Field)> = Vec::new();
            let mut i: usize = 0;
            while i < len
                invariant
                    i <= len,
                    json_is_list(*doc, list@),
                    len == json_rows(*doc, list@).len(),
                    rows@.len() == i,
                    forall|k: int|
                        0 <= k < i ==> (#[trigger] rows@[k]).0@ == row_member(
                            json_rows(*doc, list@)[k],
                            from_key@,
                        ) && rows@[k].1@ == row_member(json_rows(*doc, list@)[k], until_key@),
                decreases len - i,
            {
                let from = row_field(doc, list, i, from_key);
                let until = row_field(doc, list, i, until_key);
                rows.push((from, until));
                i += 1;
            }
            assert(ends_of(rows@) =~= row_ends(json_rows(*doc, list@), from_key@, until_key@));
            Some(rows)
        },
    }
}

/// The windows that rows give: closed days are passed over, and the first
/// row that is no pair of timestamps stops the reading.
pub fn read_windows(rows: &Vec<(Field, Field)>) -> (outcome: Result<Vec<Timeslot>, ListError>)
    ensures
        agrees(outcome, windows_reading(ends_of(rows@))),
{
    let ghost all = ends_of(rows@);
    let mut windows: Vec<Timeslot> = Vec::new();
    let mut i: usize = 0;
    proof {
        assert(all.take(0) == Seq::<(Member, Member)>::empty());
    }
    while i < rows.len()
        invariant
            i <= rows.len(),
            all == ends_of(rows@),
            windows_reading(all.take(i as int)) == Ok::<Seq<Timeslot>, ListError>(windows@),
        decreases rows.len() - i,
    {
        proof {
            let upto = all.take(i as int + 1);
            assert(upto.drop_last() == all.take(i as int));
            assert(upto.last() == (rows@[i as int].0@, rows@[i as int].1@));
        }
        match (&rows[i].0, &rows[i].1) {
            (Field::Null, _) => {},
            (_, Field::Null) => {},
            (Field::Text(from), Field::Text(until)) => {
                match Timeslot::parse(from.as_str(), until.as_str()) {
                    Some(window) => {
                        windows.push(window);
                    },
                    None => {
                        proof {
                            lemma_first_bad_row_decides(all, i as int + 1);
                        }
                        return Err(ListError::BadTimestamp { row: i });
                    },
                }
            },
            _ => {
                proof {
                    lemma_first_bad_row_decides(all, i as int + 1);
                }
                return Err(ListError::NotText { row: i });
            },
        }
        i += 1;
    }
    proof {
        assert(all.take(i as int) == all);
    }
    Ok(windows)
}

/// The windows in one list of a document.
pub fn read_list(doc: &Value, list: &str, from_key: &str, until_key: &str) -> (outcome: Result<
    Vec<Timeslot>,
    ListError,
>)
    ensures
        agrees(outcome, list_reading(*doc, list@, from_key@, until_key@)),
{
    match extract_rows(doc, list, from_key, until_key) {
        Some(rows) => read_windows(&rows),
        None => Err(ListError::Missing),
    }
}

/// The opening windows of a document: the rows of `opening_hours` with
/// their `opens` and `closes`. A day without either is closed.
pub fn parse_opening_times(api_data: &Value) -> (outcome: Result<Vec<Timeslot>, ListError>)
    ensures
        agrees(outcome, list_reading(*api_data, "opening_hours"@, "opens"@, "closes"@)),
{
    read_list(api_data, "opening_hours", "opens", "closes")
}

/// The reservations of a document: the rows of `reservations` with their
/// `begin` and `end`.
pub fn parse_reservations(api_data: &Value) -> (outcome: Result<Vec<Timeslot>, ListError>)
    ensures
        agrees(outcome, list_reading(*api_data, "reservations"@, "begin"@, "end"@)),
{
    read_list(api_data, "reservations", "begin", "end")
}

} // verus!

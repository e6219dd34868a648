//! Which ranges of an availability list are new since an earlier list.

use vstd::prelude::*;
use crate::timeslot::Timeslot;

verus! {

/// Some entry of `previous` has the same start and the same end as `entry`.
pub open spec fn known(entry: Timeslot, previous: Seq<Timeslot>) -> bool {
    exists|j: int| 0 <= j < previous.len() && #[trigger] previous[j].same_range(entry)
}

/// The entries of `current` that `previous` does not hold, in the order of
/// `current`. A range that grew or shrank is new as a whole.
pub open spec fn new_entries(current: Seq<Timeslot>, previous: Seq<Timeslot>) -> Seq<Timeslot> {
    current.filter(|entry: Timeslot| !known(entry, previous))
}

pub fn is_known(entry: &Timeslot, previous: &Vec<Timeslot>) -> (found: bool)
    ensures
        found == known(*entry, previous@),
{
    let mut j: usize = 0;
    while j < previous.len()
        invariant
            j <= previous.len(),
            forall|k: int| 0 <= k < j ==> !(#[trigger] previous@[k].same_range(*entry)),
        decreases previous.len() - j,
    {
        if previous[j].is_same_range(entry) {
            return true;
        }
        j += 1;
    }
    false
}

/// The entries of `current` that are not in `previous`.
pub fn diff(current: &Vec<Timeslot>, previous: &Vec<Timeslot>) -> (fresh: Vec<Timeslot>)
    ensures
        fresh@ == new_entries(current@, previous@),
{
    let ghost unknown = |entry: Timeslot| !known(entry, previous@);
    let mut fresh: Vec<Timeslot> = Vec::new();
    let mut i: usize = 0;
    proof {
        reveal(Seq::filter);
        assert(current@.take(0) == Seq::<Timeslot>::empty());
    }
    while i < current.len()
        invariant
            i <= current.len(),
            unknown == |entry: Timeslot| !known(entry, previous@),
            fresh@ == current@.take(i as int).filter(unknown),
        decreases current.len() - i,
    {
        let entry = current[i];
        proof {
            reveal(Seq::filter);
            let upto = current@.take(i as int + 1);
            assert(upto.drop_last() == current@.take(i as int));
            assert(upto.last() == entry);
        }
        if !is_known(&entry, previous) {
            fresh.push(entry);
        }
        i += 1;
    }
    proof {
        assert(current@.take(i as int) == current@);
    }
    fresh
}

/// Nothing is new in a list compared with itself.
pub proof fn lemma_diff_with_itself_is_empty(list: Seq<Timeslot>)
    ensures
        new_entries(list, list) == Seq::<Timeslot>::empty(),
{
    let unknown = |entry: Timeslot| !known(entry, list);
    let fresh = list.filter(unknown);
    list.lemma_filter_len(unknown);
    if fresh.len() > 0 {
        let entry = fresh[0];
        list.lemma_filter_pred(unknown, 0);
        list.lemma_filter_contains_rev(unknown, entry);
        let j = choose|j: int| 0 <= j < list.len() && list[j] == entry;
        assert(list[j].same_range(entry));
        assert(known(entry, list));
    }
    assert(fresh =~= Seq::<Timeslot>::empty());
}

/// Compared with an empty list every entry is new.
pub proof fn lemma_diff_with_nothing_is_all(list: Seq<Timeslot>)
    ensures
        new_entries(list, Seq::<Timeslot>::empty()) == list,
    decreases list.len(),
{
    let unknown = |entry: Timeslot| !known(entry, Seq::<Timeslot>::empty());
    reveal(Seq::filter);
    if list.len() > 0 {
        lemma_diff_with_nothing_is_all(list.drop_last());
        assert(unknown(list.last()));
        assert(list.drop_last().push(list.last()) == list);
    }
}

/// An entry is reported as new exactly when it stands in `current` and no
/// entry of `previous` has both its ends.
pub proof fn lemma_diff_membership(current: Seq<Timeslot>, previous: Seq<Timeslot>, entry: Timeslot)
    ensures
        new_entries(current, previous).contains(entry) <==> (current.contains(entry) && !known(
            entry,
            previous,
        )),
{
    let unknown = |e: Timeslot| !known(e, previous);
    if new_entries(current, previous).contains(entry) {
        current.lemma_filter_contains_rev(unknown, entry);
    }
    if current.contains(entry) && !known(entry, previous) {
        let i = choose|i: int| 0 <= i < current.len() && current[i] == entry;
        current.lemma_filter_contains(unknown, i);
    }
}

} // verus!

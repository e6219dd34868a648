//! Free hours of a facility, merged into contiguous ranges.

use vstd::prelude::*;
use crate::instant::Instant;
use crate::timeslot::Timeslot;

verus! {

/// Some reservation covers the instant `t`.
pub open spec fn reserved(t: Instant, reservations: Seq<Timeslot>) -> bool {
    exists|j: int| 0 <= j < reservations.len() && #[trigger] reservations[j].covers(t)
}

pub fn is_reserved(t: &Instant, reservations: &Vec<Timeslot>) -> (taken: bool)
    ensures
        taken == reserved(*t, reservations@),
{
    let mut j: usize = 0;
    while j < reservations.len()
        invariant
            j <= reservations.len(),
            forall|k: int| 0 <= k < j ==> !(#[trigger] reservations@[k].covers(*t)),
        decreases reservations.len() - j,
    {
        if reservations[j].is_covering(t) {
            return true;
        }
        j += 1;
    }
    false
}

/// The one-hour range that starts at `from`.
pub open spec fn hour_at(from: Instant) -> Timeslot {
    Timeslot { start: from, end: from.plus_hour() }
}

/// The one-hour candidate slots met when stepping from `from` in whole hours,
/// as long as the step's end does not pass `until`. A remainder shorter than
/// an hour gives no slot.
pub open spec fn hour_slots(from: Instant, until: Instant) -> Seq<Timeslot>
    decreases until.secs - from.secs,
{
    if from.hour_fits(until) {
        seq![hour_at(from)] + hour_slots(from.plus_hour(), until)
    } else {
        Seq::empty()
    }
}

/// The candidate slots of one opening window whose start no reservation covers.
pub open spec fn window_free(opening: Timeslot, reservations: Seq<Timeslot>) -> Seq<Timeslot> {
    hour_slots(opening.start, opening.end).filter(
        |slot: Timeslot| !reserved(slot.start, reservations),
    )
}

/// The free one-hour slots of all opening windows, window by window in the
/// order given.
pub open spec fn free_slots(openings: Seq<Timeslot>, reservations: Seq<Timeslot>) -> Seq<Timeslot>
    decreases openings.len(),
{
    if openings.len() == 0 {
        Seq::empty()
    } else {
        free_slots(openings.drop_last(), reservations) + window_free(openings.last(), reservations)
    }
}

/// Joins each run of slots in which every slot starts at the instant the one
/// before it ends. The joined range runs from the start of the run's first
/// slot to the end of its last.
pub open spec fn merge_slots(slots: Seq<Timeslot>) -> Seq<Timeslot>
    decreases slots.len(),
{
    if slots.len() == 0 {
        Seq::empty()
    } else {
        let merged = merge_slots(slots.drop_last());
        let next = slots.last();
        if merged.len() > 0 && merged.last().end.same_instant(next.start) {
            merged.drop_last().push(Timeslot { start: merged.last().start, end: next.end })
        } else {
            merged.push(next)
        }
    }
}

/// The availability list: the free hours, merged.
pub open spec fn available_times(openings: Seq<Timeslot>, reservations: Seq<Timeslot>) -> Seq<
    Timeslot,
> {
    merge_slots(free_slots(openings, reservations))
}

/// Appends to `found` the free one-hour slots of `opening`.
pub fn collect_free_hours(
    opening: &Timeslot,
    reservations: &Vec<Timeslot>,
    found: &mut Vec<Timeslot>,
)
    ensures
        final(found)@ == old(found)@ + window_free(*opening, reservations@),
{
    let ghost keep = |slot: Timeslot| !reserved(slot.start, reservations@);
    let ghost before = found@;
    let mut current: Instant = opening.start;
    proof {
        assert(found@ + hour_slots(current, opening.end).filter(keep) == before + window_free(
            *opening,
            reservations@,
        ));
    }
    while current.fits_hour(&opening.end)
        invariant
            keep == |slot: Timeslot| !reserved(slot.start, reservations@),
            found@ + hour_slots(current, opening.end).filter(keep) == before + window_free(
                *opening,
                reservations@,
            ),
        decreases opening.end.secs - current.secs,
    {
        let later = current.add_hour().unwrap();
        let slot = Timeslot { start: current, end: later };
        let taken = is_reserved(&current, reservations);
        proof {
            let rest = hour_slots(later, opening.end);
            assert(slot == hour_at(current));
            assert(hour_slots(current, opening.end) == seq![slot] + rest);
            rest.lemma_filter_prepend(slot, keep);
            assert(Seq::<Timeslot>::empty() + rest.filter(keep) == rest.filter(keep));
            if !taken {
                assert(found@.push(slot) + rest.filter(keep) == found@ + (seq![slot] + rest.filter(
                    keep,
                )));
            }
        }
        if !taken {
            found.push(slot);
        }
        current = later;
    }
    proof {
        assert(hour_slots(current, opening.end) == Seq::<Timeslot>::empty());
        assert(hour_slots(current, opening.end).filter(keep) == Seq::<Timeslot>::empty()) by {
            reveal(Seq::filter);
        }
        assert(found@ + Seq::<Timeslot>::empty() == found@);
    }
}

/// Joins touching slots, scanning once from the front.
pub fn merge_touching(slots: &Vec<Timeslot>) -> (merged: Vec<Timeslot>)
    ensures
        merged@ == merge_slots(slots@),
{
    let mut merged: Vec<Timeslot> = Vec::new();
    let mut running: Option<Timeslot> = None;
    let mut i: usize = 0;
    proof {
        assert(slots@.take(0) == Seq::<Timeslot>::empty());
    }
    while i < slots.len()
        invariant
            i <= slots.len(),
            running.is_none() ==> i == 0 && merged@.len() == 0,
            running.is_some() ==> merged@.push(running.unwrap()) == merge_slots(slots@.take(i as int)),
        decreases slots.len() - i,
    {
        let next = slots[i];
        proof {
            let upto = slots@.take(i as int + 1);
            assert(upto.drop_last() == slots@.take(i as int));
            assert(upto.last() == next);
            if running.is_none() {
                assert(merge_slots(slots@.take(0)) == Seq::<Timeslot>::empty());
                assert(merge_slots(upto) == Seq::<Timeslot>::empty().push(next));
            } else {
                let sofar = merged@.push(running.unwrap());
                assert(sofar.last() == running.unwrap());
                assert(sofar.drop_last() == merged@);
            }
        }
        match running {
            Some(open) => {
                if open.end.is_same_instant(&next.start) {
                    running = Some(Timeslot { start: open.start, end: next.end });
                } else {
                    merged.push(open);
                    running = Some(next);
                }
            },
            None => {
                running = Some(next);
            },
        }
        i += 1;
    }
    proof {
        assert(slots@.take(i as int) == slots@);
    }
    if let Some(open) = running {
        merged.push(open);
    }
    merged
}

/// The availability list of a facility: every whole hour of an opening window
/// whose start no reservation covers, with touching hours joined into one
/// range. Windows are taken in the order given.
pub fn get_available_times(opening_times: &Vec<Timeslot>, reservations: &Vec<Timeslot>) -> (available:
    Vec<Timeslot>)
    ensures
        available@ == available_times(opening_times@, reservations@),
{
    let mut free: Vec<Timeslot> = Vec::new();
    let mut i: usize = 0;
    proof {
        assert(opening_times@.take(0) == Seq::<Timeslot>::empty());
    }
    while i < opening_times.len()
        invariant
            i <= opening_times.len(),
            free@ == free_slots(opening_times@.take(i as int), reservations@),
        decreases opening_times.len() - i,
    {
        proof {
            let upto = opening_times@.take(i as int + 1);
            assert(upto.drop_last() == opening_times@.take(i as int));
            assert(upto.last() == opening_times@[i as int]);
        }
        collect_free_hours(&opening_times[i], reservations, &mut free);
        i += 1;
    }
    proof {
        assert(opening_times@.take(i as int) == opening_times@);
    }
    merge_touching(&free)
}

} // verus!

//! What holds of every availability list, proved from the definitions.

use vstd::prelude::*;
use crate::instant::{Instant, HOUR_SECS, SECOND_NANOS};
use crate::timeslot::Timeslot;
use crate::availability::{
    available_times,
    free_slots,
    hour_at,
    hour_slots,
    merge_slots,
    reserved,
    window_free,
};

verus! {

/// `slot` is one whole hour inside an opening window, and no reservation
/// covers its start.
pub open spec fn free_hour(slot: Timeslot, openings: Seq<Timeslot>, reservations: Seq<Timeslot>) -> bool {
    &&& slot.start.secs + HOUR_SECS <= i64::MAX
    &&& slot == hour_at(slot.start)
    &&& !reserved(slot.start, reservations)
    &&& exists|i: int| 0 <= i < openings.len() && #[trigger] openings[i].encloses(slot)
}

/// Every candidate slot is exactly one hour wide and lies between the
/// stepping's start and its limit.
pub proof fn lemma_hour_slots_lie_within(from: Instant, until: Instant)
    ensures
        forall|k: int|
            0 <= k < hour_slots(from, until).len() ==> {
                let slot = #[trigger] hour_slots(from, until)[k];
                &&& slot.start.secs + HOUR_SECS <= i64::MAX
                &&& slot == hour_at(slot.start)
                &&& from.at_or_before(slot.start)
                &&& slot.end.at_or_before(until)
            },
    decreases until.secs - from.secs,
{
    if from.hour_fits(until) {
        let rest = hour_slots(from.plus_hour(), until);
        lemma_hour_slots_lie_within(from.plus_hour(), until);
        assert forall|k: int| 0 <= k < hour_slots(from, until).len() implies {
            let slot = #[trigger] hour_slots(from, until)[k];
            &&& slot.start.secs + HOUR_SECS <= i64::MAX
            &&& slot == hour_at(slot.start)
            &&& from.at_or_before(slot.start)
            &&& slot.end.at_or_before(until)
        } by {
            if k > 0 {
                assert(hour_slots(from, until)[k] == rest[k - 1]);
            }
        }
    }
}

/// How many whole hours fit between `from` and `until`.
pub open spec fn slot_count(from: Instant, until: Instant) -> int {
    let room = until.secs - from.secs - if from.settled_nanos() <= until.nanos {
        0int
    } else {
        1int
    };
    if room >= 0 {
        room / (HOUR_SECS as int)
    } else {
        0
    }
}

/// A stepping has as many candidate slots as whole hours fit into it, and the
/// slot with the number `k` starts `k` hours after the stepping's start. This
/// holds where the start has fewer than two seconds of nanoseconds, as every
/// instant read from a timestamp has.
pub proof fn lemma_hour_slots_count(from: Instant, until: Instant)
    requires
        from.nanos < 2 * SECOND_NANOS,
    ensures
        hour_slots(from, until).len() == slot_count(from, until),
        forall|k: int|
            0 <= k < hour_slots(from, until).len() ==> {
                let start = (#[trigger] hour_slots(from, until)[k]).start;
                &&& start.secs == from.secs + k * HOUR_SECS
                &&& start.nanos == if k == 0 {
                    from.nanos
                } else {
                    from.settled_nanos()
                }
                &&& start.offset == from.offset
            },
    decreases until.secs - from.secs,
{
    if from.hour_fits(until) {
        let rest = hour_slots(from.plus_hour(), until);
        lemma_hour_slots_count(from.plus_hour(), until);
        assert(from.plus_hour().settled_nanos() == from.settled_nanos());
        assert forall|k: int| 0 <= k < hour_slots(from, until).len() implies {
            let start = (#[trigger] hour_slots(from, until)[k]).start;
            &&& start.secs == from.secs + k * HOUR_SECS
            &&& start.nanos == if k == 0 {
                from.nanos
            } else {
                from.settled_nanos()
            }
            &&& start.offset == from.offset
        } by {
            if k > 0 {
                assert(hour_slots(from, until)[k] == rest[k - 1]);
            }
        }
    }
}

/// A window that ends less than an hour after it starts, or not after it at
/// all, has no candidate slot.
pub proof fn lemma_short_window_has_no_slot(opening: Timeslot, reservations: Seq<Timeslot>)
    requires
        !opening.start.hour_fits(opening.end),
    ensures
        hour_slots(opening.start, opening.end) == Seq::<Timeslot>::empty(),
        window_free(opening, reservations) == Seq::<Timeslot>::empty(),
{
    reveal(Seq::filter);
}

/// With no reservations every candidate slot of a window is free.
pub proof fn lemma_unreserved_window_is_free(opening: Timeslot)
    ensures
        window_free(opening, Seq::<Timeslot>::empty()) == hour_slots(opening.start, opening.end),
{
    lemma_unreserved_slots_are_kept(hour_slots(opening.start, opening.end));
}

proof fn lemma_unreserved_slots_are_kept(slots: Seq<Timeslot>)
    ensures
        slots.filter(|slot: Timeslot| !reserved(slot.start, Seq::<Timeslot>::empty())) == slots,
    decreases slots.len(),
{
    reveal(Seq::filter);
    if slots.len() > 0 {
        lemma_unreserved_slots_are_kept(slots.drop_last());
        assert(!reserved(slots.last().start, Seq::<Timeslot>::empty()));
        assert(slots.drop_last().push(slots.last()) == slots);
    }
}

/// Without opening windows nothing is available.
pub proof fn lemma_no_openings_no_availability(reservations: Seq<Timeslot>)
    ensures
        available_times(Seq::<Timeslot>::empty(), reservations) == Seq::<Timeslot>::empty(),
{
}

/// Every slot collected from the openings is a free hour.
pub proof fn lemma_free_slots_are_free_hours(openings: Seq<Timeslot>, reservations: Seq<Timeslot>)
    ensures
        forall|k: int|
            0 <= k < free_slots(openings, reservations).len() ==> free_hour(
                #[trigger] free_slots(openings, reservations)[k],
                openings,
                reservations,
            ),
    decreases openings.len(),
{
    if openings.len() > 0 {
        let earlier = openings.drop_last();
        let opening = openings.last();
        let head = free_slots(earlier, reservations);
        let tail = window_free(opening, reservations);
        let keep = |slot: Timeslot| !reserved(slot.start, reservations);
        let candidates = hour_slots(opening.start, opening.end);
        lemma_free_slots_are_free_hours(earlier, reservations);
        lemma_hour_slots_lie_within(opening.start, opening.end);
        assert forall|k: int| 0 <= k < free_slots(openings, reservations).len() implies free_hour(
            #[trigger] free_slots(openings, reservations)[k],
            openings,
            reservations,
        ) by {
            let slot = free_slots(openings, reservations)[k];
            if k < head.len() {
                assert(slot == head[k]);
                assert(free_hour(head[k], earlier, reservations));
                let i = choose|i: int| 0 <= i < earlier.len() && #[trigger] earlier[i].encloses(slot);
                assert(openings[i].encloses(slot));
            } else {
                let at = k - head.len();
                assert(slot == tail[at]);
                candidates.lemma_filter_pred(keep, at);
                assert(tail.contains(slot));
                candidates.lemma_filter_contains_rev(keep, slot);
                let c = choose|c: int| 0 <= c < candidates.len() && candidates[c] == slot;
                assert(candidates[c] == hour_at(slot.start));
                assert(openings[openings.len() - 1].encloses(slot));
            }
        }
    }
}

/// Merging keeps the outer ends: the first range starts where the first slot
/// starts, the last range ends where the last slot ends.
pub proof fn lemma_merge_keeps_ends(slots: Seq<Timeslot>)
    requires
        slots.len() > 0,
    ensures
        merge_slots(slots).len() > 0,
        merge_slots(slots).len() <= slots.len(),
        merge_slots(slots).first().start == slots.first().start,
        merge_slots(slots).last().end == slots.last().end,
    decreases slots.len(),
{
    if slots.len() > 1 {
        lemma_merge_keeps_ends(slots.drop_last());
    } else {
        assert(merge_slots(slots.drop_last()) == Seq::<Timeslot>::empty());
    }
}

/// A slot that starts at the instant the slot before it ends lengthens the
/// last range; any other slot opens a range of its own.
pub proof fn lemma_merge_next_slot(slots: Seq<Timeslot>, next: Timeslot)
    ensures
        slots.len() > 0 && slots.last().end.same_instant(next.start) ==> merge_slots(
            slots.push(next),
        ) == merge_slots(slots).drop_last().push(
            Timeslot { start: merge_slots(slots).last().start, end: next.end },
        ),
        slots.len() == 0 || !slots.last().end.same_instant(next.start) ==> merge_slots(
            slots.push(next),
        ) == merge_slots(slots).push(next),
{
    assert(slots.push(next).drop_last() == slots);
    if slots.len() > 0 {
        lemma_merge_keeps_ends(slots);
    }
}

/// In a merged list no range starts at the instant the range before it ends.
pub proof fn lemma_merged_ranges_do_not_touch(slots: Seq<Timeslot>)
    ensures
        forall|i: int|
            0 <= i < merge_slots(slots).len() - 1 ==> !(#[trigger] merge_slots(
                slots,
            )[i]).end.same_instant(merge_slots(slots)[i + 1].start),
    decreases slots.len(),
{
    if slots.len() > 0 {
        lemma_merged_ranges_do_not_touch(slots.drop_last());
        let merged = merge_slots(slots.drop_last());
        assert forall|i: int| 0 <= i < merge_slots(slots).len() - 1 implies !(#[trigger] merge_slots(
            slots,
        )[i]).end.same_instant(merge_slots(slots)[i + 1].start) by {
            if i + 1 < merged.len() {
                assert(merge_slots(slots)[i] == merged[i]);
            }
        }
    }
}

/// Merging ranges that are not empty gives ranges that are not empty.
pub proof fn lemma_merged_ranges_nonempty(slots: Seq<Timeslot>)
    requires
        forall|j: int| 0 <= j < slots.len() ==> (#[trigger] slots[j]).nonempty(),
    ensures
        forall|i: int| 0 <= i < merge_slots(slots).len() ==> (#[trigger] merge_slots(slots)[i]).nonempty(),
    decreases slots.len(),
{
    if slots.len() > 0 {
        let earlier = slots.drop_last();
        assert forall|j: int| 0 <= j < earlier.len() implies (#[trigger] earlier[j]).nonempty() by {
            assert(earlier[j] == slots[j]);
        }
        lemma_merged_ranges_nonempty(earlier);
        let merged = merge_slots(earlier);
        assert(slots[slots.len() - 1].nonempty());
        assert forall|i: int| 0 <= i < merge_slots(slots).len() implies (#[trigger] merge_slots(
            slots,
        )[i]).nonempty() by {
            if i < merged.len() {
                assert(merged[i].nonempty());
            }
        }
    }
}

/// Every instant that a merged range covers is covered by one of the slots
/// it was merged from.
pub proof fn lemma_merged_range_is_covered(slots: Seq<Timeslot>, i: int, t: Instant)
    requires
        0 <= i < merge_slots(slots).len(),
        merge_slots(slots)[i].covers(t),
    ensures
        exists|j: int| 0 <= j < slots.len() && #[trigger] slots[j].covers(t),
    decreases slots.len(),
{
    let earlier = slots.drop_last();
    let merged = merge_slots(earlier);
    let next = slots.last();
    let joined = merged.len() > 0 && merged.last().end.same_instant(next.start);
    let inherited = if joined {
        i < merged.len() - 1 || t.before(merged.last().end)
    } else {
        i < merged.len()
    };
    if inherited {
        assert(merged[i].covers(t));
        lemma_merged_range_is_covered(earlier, i, t);
        let j = choose|j: int| 0 <= j < earlier.len() && #[trigger] earlier[j].covers(t);
        assert(slots[j].covers(t));
    } else {
        assert(slots[slots.len() - 1].covers(t));
    }
}

/// Every slot lies inside one of the ranges it was merged into.
pub proof fn lemma_slot_is_merged(slots: Seq<Timeslot>, j: int)
    requires
        forall|k: int| 0 <= k < slots.len() ==> (#[trigger] slots[k]).nonempty(),
        0 <= j < slots.len(),
    ensures
        exists|i: int|
            0 <= i < merge_slots(slots).len() && (#[trigger] merge_slots(slots)[i]).encloses(slots[j]),
    decreases slots.len(),
{
    let earlier = slots.drop_last();
    let merged = merge_slots(earlier);
    let next = slots.last();
    let joined = merged.len() > 0 && merged.last().end.same_instant(next.start);
    let last = merge_slots(slots).len() - 1;
    assert forall|k: int| 0 <= k < earlier.len() implies (#[trigger] earlier[k]).nonempty() by {
        assert(earlier[k] == slots[k]);
    }
    lemma_merged_ranges_nonempty(earlier);
    assert(slots[slots.len() - 1].nonempty());
    if j < earlier.len() {
        lemma_slot_is_merged(earlier, j);
        let i = choose|i: int|
            0 <= i < merged.len() && (#[trigger] merged[i]).encloses(earlier[j]);
        if joined && i == merged.len() - 1 {
            assert(merge_slots(slots)[last].encloses(slots[j]));
        } else {
            assert(merge_slots(slots)[i] == merged[i]);
            assert(merge_slots(slots)[i].encloses(slots[j]));
        }
    } else {
        if joined {
            assert(merged[merged.len() - 1].nonempty());
        }
        assert(merge_slots(slots)[last].encloses(slots[j]));
    }
}

/// Every instant of an available range lies in a free hour: a whole hour
/// inside some opening window whose start no reservation covers.
pub proof fn lemma_available_instant_is_free(
    openings: Seq<Timeslot>,
    reservations: Seq<Timeslot>,
    i: int,
    t: Instant,
)
    requires
        0 <= i < available_times(openings, reservations).len(),
        available_times(openings, reservations)[i].covers(t),
    ensures
        exists|slot: Timeslot| #[trigger] slot.covers(t) && free_hour(slot, openings, reservations),
        exists|k: int| 0 <= k < openings.len() && #[trigger] openings[k].covers(t),
{
    let free = free_slots(openings, reservations);
    lemma_merged_range_is_covered(free, i, t);
    let j = choose|j: int| 0 <= j < free.len() && #[trigger] free[j].covers(t);
    lemma_free_slots_are_free_hours(openings, reservations);
    let slot = free[j];
    assert(slot.covers(t) && free_hour(slot, openings, reservations));
    let k = choose|k: int| 0 <= k < openings.len() && #[trigger] openings[k].encloses(slot);
    assert(openings[k].covers(t));
}

/// Every free hour lies inside one range of the availability list.
pub proof fn lemma_free_hour_is_available(
    openings: Seq<Timeslot>,
    reservations: Seq<Timeslot>,
    j: int,
)
    requires
        0 <= j < free_slots(openings, reservations).len(),
    ensures
        exists|i: int|
            0 <= i < available_times(openings, reservations).len() && (#[trigger] available_times(
                openings,
                reservations,
            )[i]).encloses(free_slots(openings, reservations)[j]),
{
    let free = free_slots(openings, reservations);
    lemma_free_slots_are_free_hours(openings, reservations);
    assert forall|k: int| 0 <= k < free.len() implies (#[trigger] free[k]).nonempty() by {
        assert(free_hour(free[k], openings, reservations));
    }
    lemma_slot_is_merged(free, j);
    let i = choose|i: int|
        0 <= i < merge_slots(free).len() && (#[trigger] merge_slots(free)[i]).encloses(free[j]);
    assert(available_times(openings, reservations)[i].encloses(free[j]));
}

/// Every range of an availability list ends after it starts, and no range
/// starts at the instant the one before it ends.
pub proof fn lemma_available_ranges_are_maximal(openings: Seq<Timeslot>, reservations: Seq<Timeslot>)
    ensures
        forall|i: int|
            0 <= i < available_times(openings, reservations).len() ==> (#[trigger] available_times(
                openings,
                reservations,
            )[i]).nonempty(),
        forall|i: int|
            0 <= i < available_times(openings, reservations).len() - 1 ==> !(
            #[trigger] available_times(openings, reservations)[i]).end.same_instant(
                available_times(openings, reservations)[i + 1].start,
            ),
{
    let free = free_slots(openings, reservations);
    lemma_free_slots_are_free_hours(openings, reservations);
    assert forall|k: int| 0 <= k < free.len() implies (#[trigger] free[k]).nonempty() by {
        assert(free_hour(free[k], openings, reservations));
    }
    lemma_merged_ranges_nonempty(free);
    lemma_merged_ranges_do_not_touch(free);
}

/// The availability list depends on the windows alone: any two lists computed
/// from the same openings and reservations are equal.
pub proof fn lemma_same_windows_same_list(
    openings: Seq<Timeslot>,
    reservations: Seq<Timeslot>,
    first: Seq<Timeslot>,
    second: Seq<Timeslot>,
)
    requires
        first == available_times(openings, reservations),
        second == available_times(openings, reservations),
    ensures
        first == second,
{
}

/// Every range ends at or before every later range of the list starts.
pub open spec fn in_order(list: Seq<Timeslot>) -> bool {
    forall|i: int, j: int|
        0 <= i < j < list.len() ==> (#[trigger] list[i]).end.at_or_before((#[trigger] list[j]).start)
}

/// Every range ends strictly before every later range of the list starts:
/// the ranges are in chronological order and neither overlap nor touch.
pub open spec fn strictly_apart(list: Seq<Timeslot>) -> bool {
    forall|i: int, j: int|
        0 <= i < j < list.len() ==> (#[trigger] list[i]).end.before((#[trigger] list[j]).start)
}

/// The candidate slots of a stepping follow each other in order.
pub proof fn lemma_hour_slots_in_order(from: Instant, until: Instant)
    ensures
        in_order(hour_slots(from, until)),
    decreases until.secs - from.secs,
{
    if from.hour_fits(until) {
        let rest = hour_slots(from.plus_hour(), until);
        let all = hour_slots(from, until);
        lemma_hour_slots_in_order(from.plus_hour(), until);
        lemma_hour_slots_lie_within(from.plus_hour(), until);
        assert forall|i: int, j: int| 0 <= i < j < all.len() implies (#[trigger] all[i]).end.at_or_before(
            (#[trigger] all[j]).start,
        ) by {
            assert(all[j] == rest[j - 1]);
            if i > 0 {
                assert(all[i] == rest[i - 1]);
            }
        }
    }
}

/// Leaving slots out keeps the order of those that stay.
pub proof fn lemma_filter_keeps_order(slots: Seq<Timeslot>, keep: spec_fn(Timeslot) -> bool)
    requires
        in_order(slots),
    ensures
        in_order(slots.filter(keep)),
    decreases slots.len(),
{
    reveal(Seq::filter);
    if slots.len() > 0 {
        let earlier = slots.drop_last();
        assert forall|i: int, j: int| 0 <= i < j < earlier.len() implies (#[trigger] earlier[i]).end.at_or_before(
            (#[trigger] earlier[j]).start,
        ) by {
            assert(earlier[i] == slots[i] && earlier[j] == slots[j]);
        }
        lemma_filter_keeps_order(earlier, keep);
        let kept = earlier.filter(keep);
        let all = slots.filter(keep);
        assert forall|i: int, j: int| 0 <= i < j < all.len() implies (#[trigger] all[i]).end.at_or_before(
            (#[trigger] all[j]).start,
        ) by {
            if j < kept.len() {
                assert(all[i] == kept[i] && all[j] == kept[j]);
            } else {
                assert(all[j] == slots.last());
                assert(all[i] == kept[i]);
                assert(kept.contains(kept[i]));
                earlier.lemma_filter_contains_rev(keep, kept[i]);
                let k = choose|k: int| 0 <= k < earlier.len() && earlier[k] == kept[i];
                assert(slots[k] == kept[i]);
                assert(slots[k].end.at_or_before(slots[slots.len() - 1].start));
            }
        }
    }
}

/// Openings in order give free slots in order.
pub proof fn lemma_free_slots_in_order(openings: Seq<Timeslot>, reservations: Seq<Timeslot>)
    requires
        in_order(openings),
    ensures
        in_order(free_slots(openings, reservations)),
    decreases openings.len(),
{
    if openings.len() > 0 {
        let earlier = openings.drop_last();
        let opening = openings.last();
        let head = free_slots(earlier, reservations);
        let tail = window_free(opening, reservations);
        let all = free_slots(openings, reservations);
        let keep = |slot: Timeslot| !reserved(slot.start, reservations);
        assert forall|i: int, j: int| 0 <= i < j < earlier.len() implies (#[trigger] earlier[i]).end.at_or_before(
            (#[trigger] earlier[j]).start,
        ) by {
            assert(earlier[i] == openings[i] && earlier[j] == openings[j]);
        }
        lemma_free_slots_in_order(earlier, reservations);
        lemma_free_slots_are_free_hours(earlier, reservations);
        lemma_free_slots_are_free_hours(openings, reservations);
        lemma_hour_slots_in_order(opening.start, opening.end);
        lemma_filter_keeps_order(hour_slots(opening.start, opening.end), keep);
        assert forall|i: int, j: int| 0 <= i < j < all.len() implies (#[trigger] all[i]).end.at_or_before(
            (#[trigger] all[j]).start,
        ) by {
            if j < head.len() {
                assert(all[i] == head[i] && all[j] == head[j]);
            } else if i >= head.len() {
                assert(all[i] == tail[i - head.len()] && all[j] == tail[j - head.len()]);
            } else {
                assert(all[i] == head[i]);
                assert(free_hour(head[i], earlier, reservations));
                let k = choose|k: int| 0 <= k < earlier.len() && #[trigger] earlier[k].encloses(head[i]);
                assert(openings[k].encloses(head[i]));
                assert(openings[k].end.at_or_before(openings[openings.len() - 1].start));
                let at = j - head.len();
                assert(all[j] == tail[at]);
                lemma_window_free_lies_within(opening, reservations, at);
            }
        }
    }
}

/// Every free slot of a window lies inside the window.
pub proof fn lemma_window_free_lies_within(opening: Timeslot, reservations: Seq<Timeslot>, at: int)
    requires
        0 <= at < window_free(opening, reservations).len(),
    ensures
        opening.encloses(window_free(opening, reservations)[at]),
{
    let keep = |slot: Timeslot| !reserved(slot.start, reservations);
    let candidates = hour_slots(opening.start, opening.end);
    let slot = window_free(opening, reservations)[at];
    assert(candidates.filter(keep).contains(slot));
    candidates.lemma_filter_contains_rev(keep, slot);
    let c = choose|c: int| 0 <= c < candidates.len() && candidates[c] == slot;
    lemma_hour_slots_lie_within(opening.start, opening.end);
    assert(opening.encloses(candidates[c]));
}

/// Merging slots that are in order and not empty gives ranges in order.
pub proof fn lemma_merge_keeps_order(slots: Seq<Timeslot>)
    requires
        in_order(slots),
        forall|k: int| 0 <= k < slots.len() ==> (#[trigger] slots[k]).nonempty(),
    ensures
        in_order(merge_slots(slots)),
    decreases slots.len(),
{
    if slots.len() > 0 {
        let earlier = slots.drop_last();
        let merged = merge_slots(earlier);
        let next = slots.last();
        let all = merge_slots(slots);
        assert forall|i: int, j: int| 0 <= i < j < earlier.len() implies (#[trigger] earlier[i]).end.at_or_before(
            (#[trigger] earlier[j]).start,
        ) by {
            assert(earlier[i] == slots[i] && earlier[j] == slots[j]);
        }
        assert forall|k: int| 0 <= k < earlier.len() implies (#[trigger] earlier[k]).nonempty() by {
            assert(earlier[k] == slots[k]);
        }
        lemma_merge_keeps_order(earlier);
        lemma_merged_ranges_nonempty(earlier);
        if earlier.len() > 0 {
            lemma_merge_keeps_ends(earlier);
            assert(earlier.last() == slots[slots.len() - 2]);
            assert(slots[slots.len() - 2].end.at_or_before(slots[slots.len() - 1].start));
        }
        assert forall|i: int, j: int| 0 <= i < j < all.len() implies (#[trigger] all[i]).end.at_or_before(
            (#[trigger] all[j]).start,
        ) by {
            assert(all[i] == merged[i]);
            if j < all.len() - 1 {
                assert(all[j] == merged[j]);
            } else if i < merged.len() - 1 {
                assert(merged[i].end.at_or_before(merged[merged.len() - 1].start));
                assert(merged[merged.len() - 1].nonempty());
            }
        }
    }
}

/// Where the opening windows are in chronological order and do not overlap,
/// the availability list is in chronological order, and its ranges neither
/// overlap nor touch.
pub proof fn lemma_available_ranges_are_apart(openings: Seq<Timeslot>, reservations: Seq<Timeslot>)
    requires
        in_order(openings),
    ensures
        strictly_apart(available_times(openings, reservations)),
{
    let free = free_slots(openings, reservations);
    let list = available_times(openings, reservations);
    lemma_free_slots_in_order(openings, reservations);
    lemma_free_slots_are_free_hours(openings, reservations);
    assert forall|k: int| 0 <= k < free.len() implies (#[trigger] free[k]).nonempty() by {
        assert(free_hour(free[k], openings, reservations));
    }
    lemma_merge_keeps_order(free);
    lemma_merged_ranges_nonempty(free);
    lemma_merged_ranges_do_not_touch(free);
    assert forall|i: int, j: int| 0 <= i < j < list.len() implies (#[trigger] list[i]).end.before(
        (#[trigger] list[j]).start,
    ) by {
        if j == i + 1 {
            assert(list[i].end.at_or_before(list[j].start));
            assert(!list[i].end.same_instant(list[i + 1].start));
        } else {
            assert(list[i].end.at_or_before(list[i + 1].start));
            assert(list[i + 1].nonempty());
            assert(list[i + 1].end.at_or_before(list[j].start));
        }
    }
}

} // verus!

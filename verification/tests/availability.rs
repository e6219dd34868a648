use slotwatch::availability::{get_available_times, is_reserved, merge_touching};
use slotwatch::differ::{diff, is_known};
use slotwatch::instant::Instant;
use slotwatch::timeslot::Timeslot;

fn slot(start: &str, end: &str) -> Timeslot {
    Timeslot::parse(start, end).unwrap()
}

fn day(from: &str, until: &str) -> Timeslot {
    slot(
        &format!("2021-09-01T{}:00+03:00", from),
        &format!("2021-09-01T{}:00+03:00", until),
    )
}

fn texts(list: &Vec<Timeslot>) -> Vec<(String, String)> {
    let mut out = Vec::new();
    for entry in list {
        out.push((
            entry.start.to_rfc3339().unwrap(),
            entry.end.to_rfc3339().unwrap(),
        ));
    }
    out
}

#[test]
fn reservation_in_the_middle_splits_the_day() {
    let opening_times = vec![slot("2021-09-01T08:00:00+03:00", "2021-09-01T16:00:00+03:00")];
    let reservations = vec![slot("2021-09-01T10:00:00+03:00", "2021-09-01T11:00:00+03:00")];
    let available_times = get_available_times(&opening_times, &reservations);
    assert_eq!(available_times.len(), 2);
    assert_eq!(
        texts(&available_times),
        vec![
            (
                "2021-09-01T08:00:00+03:00".to_string(),
                "2021-09-01T10:00:00+03:00".to_string()
            ),
            (
                "2021-09-01T11:00:00+03:00".to_string(),
                "2021-09-01T16:00:00+03:00".to_string()
            ),
        ]
    );
    assert_eq!(available_times, vec![day("08:00", "10:00"), day("11:00", "16:00")]);
}

#[test]
fn day_without_reservations_is_one_range() {
    let available = get_available_times(&vec![day("08:00", "16:00")], &vec![]);
    assert_eq!(available, vec![day("08:00", "16:00")]);
    assert_eq!(available[0].start.secs, 1630472400);
    assert_eq!(available[0].end.secs, 1630501200);
    assert_eq!(available[0].duration(), 8);
}

#[test]
fn fully_booked_day_has_nothing() {
    let available = get_available_times(&vec![day("08:00", "12:00")], &vec![day("08:00", "12:00")]);
    assert_eq!(available, vec![]);
}

#[test]
fn no_openings_give_nothing() {
    let available = get_available_times(&vec![], &vec![day("08:00", "12:00")]);
    assert!(available.is_empty());
}

#[test]
fn window_shorter_than_an_hour_has_no_slot() {
    let available = get_available_times(&vec![day("10:00", "10:45")], &vec![]);
    assert!(available.is_empty());
}

#[test]
fn partial_last_hour_is_dropped() {
    let available = get_available_times(&vec![day("10:00", "12:45")], &vec![]);
    assert_eq!(available, vec![day("10:00", "12:00")]);
}

#[test]
fn window_that_ends_before_it_starts_is_dropped() {
    let available = get_available_times(&vec![day("12:00", "08:00"), day("09:00", "09:00")], &vec![]);
    assert!(available.is_empty());
}

#[test]
fn reservation_that_ends_before_it_starts_blocks_nothing() {
    let available = get_available_times(&vec![day("08:00", "12:00")], &vec![day("11:00", "09:00")]);
    assert_eq!(available, vec![day("08:00", "12:00")]);
}

#[test]
fn reservation_is_tested_at_the_start_of_the_hour() {
    // 09:30-10:30 covers the start of the hour at 10:00, not that of the hour at 09:00.
    let available = get_available_times(&vec![day("08:00", "12:00")], &vec![day("09:30", "10:30")]);
    assert_eq!(available, vec![day("08:00", "10:00"), day("11:00", "12:00")]);
}

#[test]
fn reservation_outside_the_openings_changes_nothing() {
    let other_day = slot("2021-09-05T08:00:00+03:00", "2021-09-05T12:00:00+03:00");
    let available = get_available_times(&vec![day("08:00", "12:00")], &vec![other_day]);
    assert_eq!(available, vec![day("08:00", "12:00")]);
}

#[test]
fn windows_are_taken_in_the_order_given() {
    let next_day = slot("2021-09-02T08:00:00+03:00", "2021-09-02T10:00:00+03:00");
    let available = get_available_times(&vec![next_day, day("08:00", "10:00")], &vec![]);
    assert_eq!(available, vec![next_day, day("08:00", "10:00")]);
}

#[test]
fn touching_windows_merge_and_repeated_windows_repeat() {
    let touching = get_available_times(&vec![day("08:00", "10:00"), day("10:00", "12:00")], &vec![]);
    assert_eq!(touching, vec![day("08:00", "12:00")]);
    let repeated = get_available_times(&vec![day("08:00", "10:00"), day("08:00", "10:00")], &vec![]);
    assert_eq!(repeated, vec![day("08:00", "10:00"), day("08:00", "10:00")]);
}

#[test]
fn same_windows_give_the_same_list() {
    let openings = vec![day("08:00", "16:00"), day("18:00", "20:30")];
    let reservations = vec![day("10:00", "11:00"), day("19:00", "20:00")];
    let first = get_available_times(&openings, &reservations);
    let second = get_available_times(&openings, &reservations);
    assert_eq!(first, second);
    assert_eq!(texts(&first), texts(&second));
    assert_eq!(
        first,
        vec![day("08:00", "10:00"), day("11:00", "16:00"), day("18:00", "19:00")]
    );
}

#[test]
fn every_available_hour_is_open_and_unreserved() {
    let openings = vec![day("08:00", "16:00")];
    let reservations = vec![day("09:00", "10:00"), day("13:00", "15:00")];
    let available = get_available_times(&openings, &reservations);
    assert_eq!(
        available,
        vec![day("08:00", "09:00"), day("10:00", "13:00"), day("15:00", "16:00")]
    );
    for entry in &available {
        assert!(entry.start.is_before(&entry.end));
        let mut hour = entry.start;
        while hour.fits_hour(&entry.end) {
            assert!(!is_reserved(&hour, &reservations));
            assert!(openings[0].is_covering(&hour));
            hour = hour.add_hour().unwrap();
        }
        assert!(hour.is_same_instant(&entry.end));
    }
}

#[test]
fn is_reserved_covers_start_but_not_end() {
    let reservations = vec![day("10:00", "11:00")];
    assert!(is_reserved(&day("10:00", "11:00").start, &reservations));
    assert!(is_reserved(&day("10:30", "11:00").start, &reservations));
    assert!(!is_reserved(&day("11:00", "12:00").start, &reservations));
    assert!(!is_reserved(&day("09:59", "12:00").start, &reservations));
    assert!(!is_reserved(&day("10:00", "11:00").start, &vec![]));
}

#[test]
fn merge_joins_touching_slots_only() {
    let joined = merge_touching(&vec![day("08:00", "09:00"), day("09:00", "10:00")]);
    assert_eq!(joined, vec![day("08:00", "10:00")]);
    let apart = merge_touching(&vec![day("08:00", "09:00"), day("10:00", "11:00")]);
    assert_eq!(apart, vec![day("08:00", "09:00"), day("10:00", "11:00")]);
    let mixed = merge_touching(&vec![
        day("08:00", "09:00"),
        day("09:00", "10:00"),
        day("10:00", "11:00"),
        day("12:00", "13:00"),
        day("13:00", "14:00"),
    ]);
    assert_eq!(mixed, vec![day("08:00", "11:00"), day("12:00", "14:00")]);
    assert_eq!(merge_touching(&vec![]), vec![]);
    assert_eq!(merge_touching(&vec![day("08:00", "09:00")]), vec![day("08:00", "09:00")]);
}

#[test]
fn merge_compares_instants_not_offsets() {
    let first = slot("2021-09-01T08:00:00+03:00", "2021-09-01T09:00:00+03:00");
    let second = slot("2021-09-01T06:00:00Z", "2021-09-01T07:00:00Z");
    let joined = merge_touching(&vec![first, second]);
    assert_eq!(joined.len(), 1);
    assert_eq!(joined[0].start.to_rfc3339().unwrap(), "2021-09-01T08:00:00+03:00");
    assert_eq!(joined[0].end.to_rfc3339().unwrap(), "2021-09-01T07:00:00+00:00");
}

#[test]
fn new_range_is_reported_alone() {
    let previous = vec![day("08:00", "10:00")];
    let current = vec![day("08:00", "10:00"), day("11:00", "16:00")];
    assert_eq!(diff(&current, &previous), vec![day("11:00", "16:00")]);
}

#[test]
fn diff_with_itself_is_empty() {
    let list = vec![day("08:00", "10:00"), day("11:00", "16:00")];
    assert_eq!(diff(&list, &list), vec![]);
    assert_eq!(diff(&vec![], &vec![]), vec![]);
}

#[test]
fn diff_with_nothing_is_everything() {
    let list = vec![day("08:00", "10:00"), day("11:00", "16:00")];
    assert_eq!(diff(&list, &vec![]), list);
}

#[test]
fn grown_or_shrunk_range_is_new() {
    let previous = vec![day("08:00", "10:00"), day("12:00", "14:00")];
    let current = vec![day("08:00", "11:00"), day("12:00", "13:00"), day("15:00", "16:00")];
    assert_eq!(diff(&current, &previous), current);
}

#[test]
fn diff_keeps_the_order_of_the_current_list() {
    let previous = vec![day("10:00", "11:00")];
    let current = vec![day("14:00", "15:00"), day("10:00", "11:00"), day("08:00", "09:00")];
    assert_eq!(
        diff(&current, &previous),
        vec![day("14:00", "15:00"), day("08:00", "09:00")]
    );
}

#[test]
fn known_needs_both_ends() {
    let previous = vec![day("08:00", "10:00")];
    assert!(is_known(&day("08:00", "10:00"), &previous));
    assert!(!is_known(&day("08:00", "09:00"), &previous));
    assert!(!is_known(&day("09:00", "10:00"), &previous));
    assert!(is_known(&slot("2021-09-01T05:00:00Z", "2021-09-01T07:00:00Z"), &previous));
}

#[test]
fn hour_steps_stop_at_the_last_second() {
    let near = Instant { secs: i64::MAX - 3599, nanos: 0, offset: 0 };
    let end = Instant { secs: i64::MAX, nanos: 0, offset: 0 };
    assert!(!near.fits_hour(&end));
    assert_eq!(near.add_hour(), None);
    let earlier = Instant { secs: i64::MAX - 3600, nanos: 0, offset: 0 };
    assert!(earlier.fits_hour(&end));
    assert_eq!(earlier.add_hour(), Some(end));
    let window = Timeslot { start: Instant { secs: i64::MAX - 7300, nanos: 0, offset: 0 }, end };
    let available = get_available_times(&vec![window], &vec![]);
    assert_eq!(available.len(), 1);
    assert_eq!(available[0].start.secs, i64::MAX - 7300);
    assert_eq!(available[0].end.secs, i64::MAX - 100);
}

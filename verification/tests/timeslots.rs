use chrono::{DateTime, Duration};
use slotwatch::instant::Instant;
use slotwatch::text::{push_decimal, push_digits, split_text};
use slotwatch::timeslot::Timeslot;

fn at(text: &str) -> Instant {
    Instant::parse(text).unwrap()
}

fn between(start: &str, end: &str) -> Timeslot {
    Timeslot::parse(start, end).unwrap()
}

fn decimal(n: i64) -> String {
    let mut out = String::new();
    push_decimal(&mut out, n);
    out
}

#[test]
fn parse_reads_seconds_nanos_and_offset() {
    let t = at("2021-09-01T08:00:00+03:00");
    assert_eq!(t.secs, 1630472400);
    assert_eq!(t.nanos, 0);
    assert_eq!(t.offset, 10800);
    let fine = at("2021-09-01T05:00:00.25Z");
    assert_eq!(fine.secs, 1630472400);
    assert_eq!(fine.nanos, 250_000_000);
    assert_eq!(fine.offset, 0);
    let west = at("1969-12-31T23:59:59-01:30");
    assert_eq!(west.secs, 5399);
    assert_eq!(west.offset, -5400);
}

#[test]
fn parse_rejects_what_is_no_timestamp() {
    assert_eq!(Instant::parse(""), None);
    assert_eq!(Instant::parse("2021-09-01"), None);
    assert_eq!(Instant::parse("2021-09-01T08:00:00"), None);
    assert_eq!(Instant::parse("2021-13-01T08:00:00Z"), None);
    assert_eq!(Timeslot::parse("2021-09-01T08:00:00Z", "later"), None);
    assert_eq!(Timeslot::parse("sooner", "2021-09-01T08:00:00Z"), None);
}

#[test]
fn equality_is_by_instant() {
    assert_eq!(at("2021-09-01T08:00:00+03:00"), at("2021-09-01T05:00:00Z"));
    assert_ne!(at("2021-09-01T08:00:00+03:00"), at("2021-09-01T08:00:00Z"));
    assert!(at("2021-09-01T08:00:00+03:00").is_same_instant(&at("2021-09-01T05:00:00Z")));
    assert_eq!(
        between("2021-09-01T08:00:00+03:00", "2021-09-01T09:00:00+03:00"),
        between("2021-09-01T05:00:00Z", "2021-09-01T06:00:00Z")
    );
    assert!(!between("2021-09-01T08:00:00+03:00", "2021-09-01T09:00:00+03:00")
        .is_same_range(&between("2021-09-01T08:00:00+03:00", "2021-09-01T10:00:00+03:00")));
}

#[test]
fn order_is_by_seconds_then_nanos() {
    let a = at("2021-09-01T08:00:00Z");
    let b = at("2021-09-01T08:00:00.000000001Z");
    let c = at("2021-09-01T08:00:01Z");
    assert!(a.is_before(&b) && b.is_before(&c) && a.is_before(&c));
    assert!(!b.is_before(&a) && !a.is_before(&a));
    assert!(a.is_at_or_before(&a) && a.is_at_or_before(&b) && !b.is_at_or_before(&a));
    assert!(at("2021-09-01T08:00:00+03:00").is_before(&at("2021-09-01T08:00:00+02:00")));
}

#[test]
fn start_and_end_are_handed_out() {
    let slot = between("2021-09-01T08:00:00+03:00", "2021-09-01T09:00:00+03:00");
    assert_eq!(slot.start_time().secs, 1630472400);
    assert_eq!(slot.end_time().secs, 1630476000);
    assert!(slot.is_starting_before(&between("2021-09-01T08:30:00+03:00", "2021-09-01T08:45:00+03:00")));
    assert!(!slot.is_starting_before(&slot));
    assert!(slot.is_covering(&slot.start_time()));
    assert!(!slot.is_covering(&slot.end_time()));
}

#[test]
fn add_hour_matches_the_calendar() {
    for text in [
        "2021-09-01T08:00:00+03:00",
        "2021-09-01T23:30:00.5-02:00",
        "2016-12-31T23:59:60Z",
        "2016-12-31T23:59:60.75Z",
        "1969-12-31T23:59:59Z",
    ] {
        let stamp = DateTime::parse_from_rfc3339(text).unwrap();
        let later = stamp + Duration::hours(1);
        let stepped = at(text).add_hour().unwrap();
        assert_eq!(stepped.secs, later.timestamp());
        assert_eq!(stepped.nanos, later.timestamp_subsec_nanos());
        assert_eq!(stepped.offset, later.offset().local_minus_utc());
        assert_eq!(stepped.to_rfc3339().unwrap(), later.to_rfc3339());
    }
}

#[test]
fn leap_second_is_kept_by_parse_and_settled_by_a_step() {
    let leap = at("2016-12-31T23:59:60Z");
    assert_eq!(leap.secs, 1483228799);
    assert_eq!(leap.nanos, 1_000_000_000);
    let stepped = leap.add_hour().unwrap();
    assert_eq!(stepped.secs, 1483232399);
    assert_eq!(stepped.nanos, 0);
    assert!(at("2016-12-31T23:59:59.999Z").is_before(&leap));
    assert!(leap.is_before(&at("2017-01-01T00:00:00Z")));
    assert!(leap.fits_hour(&at("2017-01-01T00:59:59Z")));
    assert!(!leap.fits_hour(&at("2017-01-01T00:59:58.999Z")));
}

#[test]
fn to_rfc3339_writes_in_the_own_offset() {
    assert_eq!(
        at("2021-09-01T08:00:00+03:00").to_rfc3339().unwrap(),
        "2021-09-01T08:00:00+03:00"
    );
    assert_eq!(
        at("2021-09-01T05:00:00Z").to_rfc3339().unwrap(),
        "2021-09-01T05:00:00+00:00"
    );
    assert_eq!(
        Instant { secs: 0, nanos: 500_000_000, offset: -3600 }.to_rfc3339().unwrap(),
        "1969-12-31T23:00:00.500-01:00"
    );
}

#[test]
fn what_the_calendar_cannot_hold_is_not_written() {
    assert_eq!(Instant { secs: i64::MAX, nanos: 0, offset: 0 }.to_rfc3339(), None);
    assert_eq!(Instant { secs: 0, nanos: 0, offset: 86_400 }.to_rfc3339(), None);
    assert_eq!(Instant { secs: 0, nanos: 2_000_000_000, offset: 0 }.to_rfc3339(), None);
    assert_eq!(Instant { secs: i64::MIN, nanos: 0, offset: 0 }.format("%H:%M"), None);
    let broken = Timeslot {
        start: Instant { secs: i64::MAX, nanos: 0, offset: 0 },
        end: Instant { secs: 0, nanos: 0, offset: 0 },
    };
    assert_eq!(broken.describe(), None);
    let half = Timeslot {
        start: Instant { secs: 0, nanos: 0, offset: 0 },
        end: Instant { secs: 0, nanos: 0, offset: 90_000 },
    };
    assert_eq!(half.describe(), None);
}

#[test]
fn format_follows_the_pattern() {
    let t = at("2023-12-01T10:05:00+02:00");
    assert_eq!(t.format("%Y-%m-%d %H:%M").unwrap(), "2023-12-01 10:05");
    assert_eq!(t.format("%H:%M").unwrap(), "10:05");
    assert_eq!(t.format("").unwrap(), "");
    assert_eq!(t.format("%"), None);
}

#[test]
fn duration_counts_whole_hours_toward_zero() {
    assert_eq!(between("2021-09-01T08:00:00+03:00", "2021-09-01T16:00:00+03:00").duration(), 8);
    assert_eq!(between("2021-09-01T10:00:00+03:00", "2021-09-01T10:45:00+03:00").duration(), 0);
    assert_eq!(between("2021-09-01T10:00:00+03:00", "2021-09-01T12:59:59.999+03:00").duration(), 2);
    assert_eq!(between("2021-09-01T10:00:00+03:00", "2021-09-01T10:00:00+03:00").duration(), 0);
    assert_eq!(between("2021-09-01T12:00:00+03:00", "2021-09-01T08:00:00+03:00").duration(), -4);
    assert_eq!(between("2021-09-01T12:00:00+03:00", "2021-09-01T11:15:00+03:00").duration(), 0);
    assert_eq!(between("2021-09-01T12:00:00+03:00", "2021-09-01T10:30:00+03:00").duration(), -1);
    assert_eq!(between("2021-09-01T08:00:00+03:00", "2021-09-01T08:00:00+01:00").duration(), 2);
    assert_eq!(between("2021-09-01T08:00:00.5Z", "2021-09-01T09:00:00.4Z").duration(), 0);
    assert_eq!(between("2021-09-01T08:00:00.5Z", "2021-09-01T09:00:00.5Z").duration(), 1);
}

#[test]
fn duration_at_the_limits() {
    let whole = Timeslot {
        start: Instant { secs: i64::MIN, nanos: 0, offset: 0 },
        end: Instant { secs: i64::MAX, nanos: 999_999_999, offset: 0 },
    };
    assert_eq!(whole.duration(), 5_124_095_576_030_431);
    let back = Timeslot { start: whole.end, end: whole.start };
    assert_eq!(back.duration(), -5_124_095_576_030_431);
}

#[test]
fn duration_matches_the_calendar() {
    let stamps = [
        "2021-09-01T08:00:00+03:00",
        "2021-09-01T10:45:00+03:00",
        "2021-09-03T07:59:59.999Z",
        "1999-12-31T23:00:00.5-05:00",
        "2030-01-01T00:00:00Z",
        "2016-12-31T23:59:60Z",
        "2016-12-31T23:59:60.5Z",
        "2016-12-31T08:59:60Z",
        "2016-12-31T09:59:59Z",
        "2016-12-31T09:59:59.5Z",
        "2016-12-31T07:59:59Z",
        "2016-12-31T07:59:60.25Z",
        "2017-01-01T00:59:59Z",
        "2017-01-01T08:59:60.5+03:00",
    ];
    for start in stamps {
        for end in stamps {
            let expected = (DateTime::parse_from_rfc3339(end).unwrap()
                - DateTime::parse_from_rfc3339(start).unwrap())
            .num_hours();
            assert_eq!(between(start, end).duration(), expected);
        }
    }
}

#[test]
fn leap_second_counts_toward_a_later_second_of_the_day() {
    assert_eq!(between("2016-12-31T08:59:60Z", "2016-12-31T09:59:59Z").duration(), 1);
    assert_eq!(between("2016-12-31T08:59:59Z", "2016-12-31T09:59:58Z").duration(), 0);
    assert_eq!(between("2016-12-31T09:59:59Z", "2016-12-31T08:59:60Z").duration(), -1);
    assert_eq!(at("2016-12-31T08:59:60Z").seconds_since_midnight(), 32399);
    assert_eq!(at("1969-12-31T23:59:59Z").seconds_since_midnight(), 86399);
    assert_eq!(at("1970-01-01T02:00:00+02:00").seconds_since_midnight(), 0);
    assert_eq!(Instant { secs: i64::MIN, nanos: 0, offset: 0 }.seconds_since_midnight(), 30592);
    assert_eq!(Instant { secs: i64::MAX, nanos: 0, offset: 0 }.seconds_since_midnight(), 55807);
}

#[test]
fn describe_gives_day_times_and_hours() {
    assert_eq!(
        between("2023-12-01T10:00:00+02:00", "2023-12-01T11:00:00+02:00").describe().unwrap(),
        "2023-12-01 10:00 - 11:00 (1 h)"
    );
    assert_eq!(
        between("2021-09-01T11:00:00+03:00", "2021-09-01T16:00:00+03:00").describe().unwrap(),
        "2021-09-01 11:00 - 16:00 (5 h)"
    );
    assert_eq!(
        between("2021-09-01T16:00:00+03:00", "2021-09-01T04:30:00+03:00").describe().unwrap(),
        "2021-09-01 16:00 - 04:30 (-11 h)"
    );
    assert_eq!(Timeslot::label("a", "b", 12), "a - b (12 h)");
    assert_eq!(Timeslot::label("", "", 0), " -  (0 h)");
}

#[test]
fn decimal_writes_every_number() {
    assert_eq!(decimal(0), "0");
    assert_eq!(decimal(7), "7");
    assert_eq!(decimal(10), "10");
    assert_eq!(decimal(1234567890), "1234567890");
    assert_eq!(decimal(-1), "-1");
    assert_eq!(decimal(-305), "-305");
    assert_eq!(decimal(i64::MAX), "9223372036854775807");
    assert_eq!(decimal(i64::MIN), "-9223372036854775808");
    let mut out = String::from("n=");
    push_digits(&mut out, u64::MAX);
    assert_eq!(out, "n=18446744073709551615");
    for n in [-1000i64, -99, -10, -9, 9, 19, 100, 101, 65535] {
        assert_eq!(decimal(n), n.to_string());
    }
}

#[test]
fn split_gives_the_pieces_between_separators() {
    assert_eq!(split_text("a,b,,c", ','), vec!["a", "b", "", "c"]);
    assert_eq!(split_text("", ','), vec![""]);
    assert_eq!(split_text("abc", ','), vec!["abc"]);
    assert_eq!(split_text(",", ','), vec!["", ""]);
    assert_eq!(split_text("one\ntwo\n", '\n'), vec!["one", "two", ""]);
    assert_eq!(split_text("\u{e4}\u{20ac},\u{f6}", ','), vec!["\u{e4}\u{20ac}", "\u{f6}"]);
    for text in ["", ",", "a,", ",a", "a,,b", "no separator", ",,,"] {
        let expected: Vec<String> = text.split(",").map(|piece| piece.to_string()).collect();
        assert_eq!(split_text(text, ','), expected);
    }
}

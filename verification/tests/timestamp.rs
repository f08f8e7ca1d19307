use borg_exporter::borg::datetime_format::deserialize;
use borg_exporter::borg::timestamp::Timestamp;

fn at(text: &str) -> Timestamp {
    deserialize(text).unwrap()
}

#[test]
fn new_keeps_the_fields() {
    let t = Timestamp::new(2023, 6, 15, 12, 30, 1, 500_000).unwrap();
    assert_eq!(
        (t.year(), t.month(), t.day(), t.hour(), t.minute(), t.second(), t.microsecond()),
        (2023, 6, 15, 12, 30, 1, 500_000)
    );
}

#[test]
fn new_refuses_what_is_no_instant() {
    assert_eq!(Timestamp::new(10_000, 1, 1, 0, 0, 0, 0), None);
    assert_eq!(Timestamp::new(2023, 0, 1, 0, 0, 0, 0), None);
    assert_eq!(Timestamp::new(2023, 13, 1, 0, 0, 0, 0), None);
    assert_eq!(Timestamp::new(2023, 1, 0, 0, 0, 0, 0), None);
    assert_eq!(Timestamp::new(2023, 1, 32, 0, 0, 0, 0), None);
    assert_eq!(Timestamp::new(2023, 2, 29, 0, 0, 0, 0), None);
    assert_eq!(Timestamp::new(2100, 2, 29, 0, 0, 0, 0), None);
    assert_eq!(Timestamp::new(2023, 6, 31, 0, 0, 0, 0), None);
    assert_eq!(Timestamp::new(2023, 1, 1, 24, 0, 0, 0), None);
    assert_eq!(Timestamp::new(2023, 1, 1, 0, 60, 0, 0), None);
    assert_eq!(Timestamp::new(2023, 1, 1, 0, 0, 61, 0), None);
    assert_eq!(Timestamp::new(2023, 1, 1, 0, 0, 0, 1_000_000), None);
}

#[test]
fn new_accepts_the_edges() {
    assert!(Timestamp::new(0, 1, 1, 0, 0, 0, 0).is_some());
    assert!(Timestamp::new(9999, 12, 31, 23, 59, 60, 999_999).is_some());
    assert!(Timestamp::new(2024, 2, 29, 0, 0, 0, 0).is_some());
    assert!(Timestamp::new(2000, 2, 29, 0, 0, 0, 0).is_some());
    assert!(Timestamp::new(2023, 2, 28, 0, 0, 0, 0).is_some());
}

#[test]
fn month_lengths_of_a_common_and_a_leap_year() {
    let common = [31u8, 28, 31, 30, 31, 30, 31, 31, 30, 31, 30, 31];
    for (i, days) in common.iter().enumerate() {
        let month = i as u8 + 1;
        assert!(Timestamp::new(2023, month, *days, 0, 0, 0, 0).is_some());
        assert!(Timestamp::new(2023, month, *days + 1, 0, 0, 0, 0).is_none());
    }
    assert!(Timestamp::new(2024, 2, 29, 0, 0, 0, 0).is_some());
    assert!(Timestamp::new(2024, 2, 30, 0, 0, 0, 0).is_none());
}

#[test]
fn timestamp_of_the_epoch_is_zero() {
    assert_eq!(at("1970-01-01T00:00:00.000000").timestamp(), 0);
}

#[test]
fn timestamp_counts_seconds_since_the_epoch() {
    assert_eq!(at("1970-01-01T00:00:01.000000").timestamp(), 1);
    assert_eq!(at("1970-01-02T00:00:00.000000").timestamp(), 86_400);
    assert_eq!(at("2015-05-15T00:00:00.000000").timestamp(), 1_431_648_000);
    assert_eq!(at("2023-01-01T00:00:00.000000").timestamp(), 1_672_531_200);
    assert_eq!(at("2023-06-15T12:30:00.500000").timestamp(), 1_686_832_200);
    assert_eq!(at("2023-03-01T00:00:00.000000").timestamp(), 1_677_628_800);
    assert_eq!(at("2000-02-29T12:00:00.000000").timestamp(), 951_825_600);
}

#[test]
fn timestamp_is_negative_before_the_epoch() {
    assert_eq!(at("1969-12-31T23:59:59.000000").timestamp(), -1);
    assert_eq!(at("0000-01-01T00:00:00.000000").timestamp(), -62_167_219_200);
}

#[test]
fn timestamp_of_the_last_instant() {
    assert_eq!(at("9999-12-31T23:59:59.999999").timestamp(), 253_402_300_799);
}

#[test]
fn timestamp_drops_the_fraction() {
    assert_eq!(
        at("2023-06-15T12:30:00.999999").timestamp(),
        at("2023-06-15T12:30:00.000000").timestamp()
    );
}

#[test]
fn timestamp_counts_a_leap_second_as_the_second_before() {
    assert_eq!(
        at("2016-12-31T23:59:60.500000").timestamp(),
        at("2016-12-31T23:59:59.000000").timestamp()
    );
}

#[test]
fn precedes_is_chronological() {
    let t1 = at("2023-01-01T00:00:00.000000");
    let t2 = at("2023-06-15T12:30:00.500000");
    let t3 = at("2023-03-01T00:00:00.000000");
    assert!(t1.precedes(&t2));
    assert!(t1.precedes(&t3));
    assert!(t3.precedes(&t2));
    assert!(!t2.precedes(&t1));
    assert!(!t2.precedes(&t3));
    assert!(!t1.precedes(&t1));
}

#[test]
fn precedes_looks_at_every_field() {
    let base = at("2023-06-15T12:30:30.500000");
    for later in [
        "2024-01-01T00:00:00.000000",
        "2023-07-01T00:00:00.000000",
        "2023-06-16T00:00:00.000000",
        "2023-06-15T13:00:00.000000",
        "2023-06-15T12:31:00.000000",
        "2023-06-15T12:30:31.000000",
        "2023-06-15T12:30:30.500001",
    ] {
        let later = at(later);
        assert!(base.precedes(&later));
        assert!(!later.precedes(&base));
    }
}

#[test]
fn precedes_puts_a_leap_second_between_its_neighbours() {
    let before = at("2016-12-31T23:59:59.999999");
    let leap = at("2016-12-31T23:59:60.000000");
    let after = at("2017-01-01T00:00:00.000000");
    assert!(before.precedes(&leap));
    assert!(leap.precedes(&after));
}

#[test]
fn precedes_agrees_with_chrono() {
    let texts = [
        "2023-01-01T00:00:00.000000",
        "2023-06-15T12:30:00.500000",
        "2023-03-01T00:00:00.000000",
        "2023-06-15T12:30:00.499999",
        "2016-12-31T23:59:60.000000",
        "2017-01-01T00:00:00.000000",
    ];
    for a in texts {
        for b in texts {
            let ours = at(a).precedes(&at(b));
            let format = "%Y-%m-%dT%H:%M:%S%.6f";
            let ca = chrono::NaiveDateTime::parse_from_str(a, format).unwrap();
            let cb = chrono::NaiveDateTime::parse_from_str(b, format).unwrap();
            assert_eq!(ours, ca < cb, "{} {}", a, b);
        }
    }
}

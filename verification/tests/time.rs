//! Civil dates and ISO timestamps.
use lumen::time::{
    civil_from_days, epoch_millis, is_online, is_online_at, iso_from_millis, now_iso, now_millis,
    parse_iso_millis,
};

#[test]
fn iso_parse_utc() {
    let ms = parse_iso_millis("2026-08-05T10:00:00.000Z").unwrap();
    // 2026-08-05T10:00:00Z epoch millis
    assert!(ms > 1_700_000_000_000, "unexpected {ms}");
}

#[test]
fn iso_parse_fraction_and_offset() {
    // Same instant with 6-digit fraction vs offset: both equal.
    let a = parse_iso_millis("2026-08-05T10:00:00.000000Z").unwrap();
    let b = parse_iso_millis("2026-08-05T12:00:00.000+02:00").unwrap();
    assert_eq!(a, b);
}

#[test]
fn iso_parse_bad() {
    assert!(parse_iso_millis("not-a-date").is_none());
    assert!(parse_iso_millis("").is_none());
}

#[test]
fn iso_parse_exact_values() {
    assert_eq!(parse_iso_millis("1970-01-01T00:00:00Z"), Some(0));
    assert_eq!(parse_iso_millis("1970-01-01T00:00:00.5Z"), Some(500));
    assert_eq!(parse_iso_millis("1970-01-01T00:00:01.2345Z"), Some(1_234));
    assert_eq!(parse_iso_millis("1970-01-02T00:00:00-0130"), Some(86_400_000 + 5_400_000));
    assert_eq!(parse_iso_millis("1970-01-01T02:00:00+02"), Some(0));
    assert_eq!(parse_iso_millis("2026-08-05T10:00:00Z"), Some(1_785_924_000_000));
    assert_eq!(parse_iso_millis("1970-01-01T00:00:00X"), None);
    assert_eq!(parse_iso_millis("1970-01-01T00:00:0xZ"), None);
}

#[test]
fn iso_text_exact_values() {
    assert_eq!(iso_from_millis(0), "1970-01-01T00:00:00.000Z");
    assert_eq!(iso_from_millis(1_785_924_000_007), "2026-08-05T10:00:00.007Z");
    assert_eq!(iso_from_millis(-1), "1969-12-31T23:59:59.999Z");
}

#[test]
fn iso_round_trip_holds() {
    for ms in [0i64, 1, 999, 1_000, 86_399_999, 951_782_400_000, 1_785_924_000_123] {
        assert_eq!(parse_iso_millis(&iso_from_millis(ms)), Some(ms));
    }
}

#[test]
fn civil_dates() {
    assert_eq!(civil_from_days(0), (1970, 1, 1));
    assert_eq!(civil_from_days(59), (1970, 3, 1));
    assert_eq!(civil_from_days(11_016), (2000, 2, 29));
    assert_eq!(civil_from_days(-1), (1969, 12, 31));
    assert_eq!(civil_from_days(20_670), (2026, 8, 5));
}

#[test]
fn zone_must_be_complete() {
    assert_eq!(parse_iso_millis("2026-08-05T10:00:00+"), None);
    assert_eq!(parse_iso_millis("1970-01-01T00:00:00-1"), None);
    assert_eq!(parse_iso_millis("1970-01-01T00:00:00.25-"), None);
    assert!(!is_online_at("1970-01-01T00:00:00+", 1));
    assert!(!is_online("1970-01-01T00:00:00+"));
}

#[test]
fn zones_shift_the_instant() {
    let utc = parse_iso_millis("1970-01-02T00:00:00Z").unwrap();
    for (zone, shift) in [("+02:30", -9_000_000), ("+0230", -9_000_000), ("-0230", 9_000_000)] {
        assert_eq!(parse_iso_millis(&format!("1970-01-02T00:00:00{zone}")), Some(utc + shift));
    }
}

#[test]
fn online_for_five_minutes() {
    let seen = "1970-01-01T00:10:00.000Z";
    assert!(!is_online_at(seen, 599_999));
    assert!(is_online_at(seen, 600_000));
    assert!(is_online_at(seen, 600_001));
    assert!(is_online_at(seen, 899_999));
    assert!(!is_online_at(seen, 900_000));
    assert!(!is_online_at("never", 600_001));
}

#[test]
fn online_by_the_clock() {
    let now = now_millis();
    assert!(is_online(&iso_from_millis(now - 60_000)));
    assert!(!is_online(&iso_from_millis(now - 600_000)));
    assert!(!is_online(&iso_from_millis(now + 600_000)));
    assert!(!is_online("never"));
}

#[test]
fn clock_before_the_epoch_reads_zero() {
    assert_eq!(epoch_millis(None), 0);
    assert_eq!(epoch_millis(Some(0)), 0);
    assert_eq!(epoch_millis(Some(1_785_924_000_000)), 1_785_924_000_000);
}

#[test]
fn clock_reads_recently() {
    assert!(now_millis() > 1_700_000_000_000);
    let a = now_millis();
    let text = now_iso();
    let b = now_millis();
    let read = parse_iso_millis(&text).unwrap();
    assert!(a <= read && read <= b);
    assert_eq!(text.len(), 24);
}

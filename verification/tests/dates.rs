use moneyd::dates::{parse_and_format_date, parse_ofx_date};

#[test]
fn numeric_timestamp_matches_dashed_date() {
    let from_numeric = parse_ofx_date("20251212120000");
    let from_dashed = parse_and_format_date("2025-12-12");
    assert_eq!(from_numeric, from_dashed);
    assert_eq!(from_numeric, "2025-12-12T00:00:00+00:00");
}

#[test]
fn unparsable_date_returns_unchanged() {
    assert_eq!(parse_ofx_date("not-a-date"), "not-a-date");
    assert_eq!(parse_and_format_date("not-a-date"), "not-a-date");
    assert_eq!(parse_ofx_date(""), "");
}

#[test]
fn timezone_annotations_are_stripped() {
    assert_eq!(
        parse_ofx_date("20251120000000.000[-7:MST]"),
        "2025-11-20T00:00:00+00:00"
    );
    assert_eq!(
        parse_ofx_date("20251215120000[0:GMT]"),
        "2025-12-15T00:00:00+00:00"
    );
}

#[test]
fn time_of_day_is_zeroed_in_numeric_path() {
    assert_eq!(parse_ofx_date("20251213235959"), "2025-12-13T00:00:00+00:00");
}

#[test]
fn full_timestamps_are_canonicalized() {
    assert_eq!(
        parse_and_format_date("2025-11-01T10:30:00Z"),
        "2025-11-01T10:30:00+00:00"
    );
    assert_eq!(
        parse_and_format_date("2025-11-01T10:30:00-05:00"),
        "2025-11-01T10:30:00-05:00"
    );
    assert_eq!(
        parse_and_format_date("2025-11-01t10:30:00z"),
        "2025-11-01T10:30:00+00:00"
    );
}

#[test]
fn fractional_seconds_are_kept() {
    assert_eq!(
        parse_and_format_date("2025-11-01T10:30:00.123+05:30"),
        "2025-11-01T10:30:00.123+05:30"
    );
    assert_eq!(
        parse_and_format_date("2025-01-01T00:00:00.5Z"),
        "2025-01-01T00:00:00.5+00:00"
    );
}

#[test]
fn leap_second_timestamps_are_recognized() {
    assert_eq!(
        parse_and_format_date("2016-12-31T23:59:60Z"),
        "2016-12-31T23:59:60+00:00"
    );
    // sixty-one is no second
    assert_eq!(
        parse_and_format_date("2016-12-31T23:59:61Z"),
        "2016-12-31T23:59:61Z"
    );
}

#[test]
fn slashed_dates_are_reordered() {
    assert_eq!(
        parse_and_format_date("11/17/2025"),
        "2025-11-17T00:00:00+00:00"
    );
}

#[test]
fn numeric_timestamps_reach_the_last_pattern() {
    assert_eq!(
        parse_and_format_date("20251212120000"),
        "2025-12-12T00:00:00+00:00"
    );
}

#[test]
fn calendar_validity_is_checked() {
    // the thirtieth of February does not exist
    assert_eq!(parse_and_format_date("2025-02-30"), "2025-02-30");
    // a leap day exists only in a leap year
    assert_eq!(
        parse_and_format_date("2024-02-29"),
        "2024-02-29T00:00:00+00:00"
    );
    assert_eq!(parse_and_format_date("2025-02-29"), "2025-02-29");
    assert_eq!(
        parse_and_format_date("2000-02-29"),
        "2000-02-29T00:00:00+00:00"
    );
    assert_eq!(parse_and_format_date("1900-02-29"), "1900-02-29");
    // an out-of-range hour fails the numeric pattern
    assert_eq!(parse_ofx_date("20251212250000"), "20251212250000");
}

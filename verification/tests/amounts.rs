use moneyd::amounts::normalize_amount;

#[test]
fn sign_is_preserved_and_point_removed() {
    assert_eq!(normalize_amount("-999.99"), -99999);
}

#[test]
fn whole_and_short_fractions_scale_truly() {
    assert_eq!(normalize_amount("-1.00"), -100);
    assert_eq!(normalize_amount("12"), 1200);
    assert_eq!(normalize_amount("0.9"), 90);
    assert_eq!(normalize_amount("+3.21"), 321);
    assert_eq!(normalize_amount("0"), 0);
}

#[test]
fn long_fractions_truncate_toward_zero() {
    assert_eq!(normalize_amount("1.234"), 123);
    assert_eq!(normalize_amount("-0.925"), -92);
}

#[test]
fn unparsable_amounts_become_zero() {
    assert_eq!(normalize_amount(""), 0);
    assert_eq!(normalize_amount("-"), 0);
    assert_eq!(normalize_amount("abc"), 0);
    assert_eq!(normalize_amount("1."), 0);
    assert_eq!(normalize_amount(".5"), 0);
    assert_eq!(normalize_amount("1.2.3"), 0);
    assert_eq!(normalize_amount("12,34"), 0);
    assert_eq!(normalize_amount(" 1"), 0);
}

#[test]
fn out_of_range_amounts_become_zero() {
    assert_eq!(normalize_amount("99999999999"), 0);
    assert_eq!(normalize_amount("21474836.47"), 2147483647);
    assert_eq!(normalize_amount("21474836.48"), 0);
    assert_eq!(normalize_amount("-21474836.48"), i32::MIN);
    assert_eq!(normalize_amount("-21474836.49"), 0);
    assert_eq!(normalize_amount("00000000001.50"), 150);
}

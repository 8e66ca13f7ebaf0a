use toggl_youtrack::clock::{
    days_before, lookback_start, seconds_of_millis, MILLIS_PER_SECOND, SECONDS_PER_DAY,
};
use toggl_youtrack::text::signed_decimal_string;

#[test]
fn decimal_of_zero() {
    assert_eq!(signed_decimal_string(0), "0");
}

#[test]
fn decimal_has_no_leading_zero() {
    assert_eq!(signed_decimal_string(7), "7");
    assert_eq!(signed_decimal_string(10), "10");
    assert_eq!(signed_decimal_string(1234), "1234");
    assert_eq!(signed_decimal_string(3_141_592_653), "3141592653");
}

#[test]
fn signed_decimal_of_both_signs() {
    assert_eq!(signed_decimal_string(0), "0");
    assert_eq!(signed_decimal_string(42), "42");
    assert_eq!(signed_decimal_string(-1), "-1");
    assert_eq!(signed_decimal_string(-86_400), "-86400");
}

#[test]
fn signed_decimal_of_extreme_values() {
    assert_eq!(signed_decimal_string(i64::MAX), "9223372036854775807");
    assert_eq!(signed_decimal_string(i64::MIN), "-9223372036854775808");
}

#[test]
fn constants_of_the_clock() {
    assert_eq!(MILLIS_PER_SECOND, 1000);
    assert_eq!(SECONDS_PER_DAY, 86_400);
}

#[test]
fn seconds_of_millis_rounds_down() {
    assert_eq!(seconds_of_millis(1_709_287_200_999), 1_709_287_200);
    assert_eq!(seconds_of_millis(999), 0);
    assert_eq!(seconds_of_millis(-1), -1);
    assert_eq!(seconds_of_millis(-1000), -1);
    assert_eq!(seconds_of_millis(-1001), -2);
    assert_eq!(seconds_of_millis(0), 0);
    assert_eq!(seconds_of_millis(i64::MAX), 9_223_372_036_854_775);
    assert_eq!(seconds_of_millis(i64::MIN), -9_223_372_036_854_776);
}

#[test]
fn days_before_subtracts_whole_days() {
    assert_eq!(days_before(1_709_287_200, 90), Some(1_701_511_200));
    assert_eq!(days_before(1_709_287_200, 0), Some(1_709_287_200));
    assert_eq!(days_before(1000, 1), Some(-85_400));
    assert_eq!(days_before(0, -1), Some(86_400));
}

#[test]
fn days_before_gives_up_out_of_range() {
    assert_eq!(days_before(0, i64::MAX), None);
    assert_eq!(days_before(0, i64::MIN), None);
    assert_eq!(days_before(i64::MIN, 1), None);
    assert_eq!(days_before(i64::MAX, -1), None);
    assert_eq!(days_before(i64::MIN + 86_400, 1), Some(i64::MIN));
}

#[test]
fn clock_reads_a_present_day_instant() {
    let now = lookback_start(0).unwrap();
    // After the first day of 2020 and before the year 3000.
    assert!(now > 1_577_836_800);
    assert!(now < 32_503_680_000);
}

#[test]
fn lookback_start_lies_the_given_days_back() {
    let before = lookback_start(0).unwrap();
    let since = lookback_start(90).unwrap();
    let after = lookback_start(0).unwrap();
    assert!(before - 90 * 86_400 <= since);
    assert!(since <= after - 90 * 86_400);
}

#[test]
fn lookback_start_gives_up_out_of_range() {
    assert_eq!(lookback_start(i64::MIN), None);
}

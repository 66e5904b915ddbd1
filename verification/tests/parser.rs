//! The timestamp parser on concrete texts: every grammar, the priority
//! order between them, and the exact error for each kind of bad input.

use reminders::calendar::{date_to_timestamp, parse_naivetime, parse_ymd};
use reminders::errors::Error;
use reminders::parse::parse_timestamp;
use reminders::scan::multiply_by_position;

const NOW: i64 = 1_000_000_000; // 2001-09-09 01:46:40 UTC

#[test]
fn relative_two_years_three_months() {
    // 2*31557600 + 3*2629800 seconds from now
    assert_eq!(parse_timestamp(b"2y3mo", 0, NOW), Ok(1_071_004_600));
}

#[test]
fn bare_integer_is_minutes() {
    assert_eq!(parse_timestamp(b"90", 0, NOW), Ok(NOW + 90 * 60));
}

#[test]
fn relative_all_units() {
    let expected = NOW + 31557600 + 2629800 + 604800 + 86400 + 3600 + 60 + 1;
    assert_eq!(parse_timestamp(b"1y1M1w1d1h1m1s", 0, NOW), Ok(expected));
}

#[test]
fn relative_written_out_units() {
    assert_eq!(
        parse_timestamp(b"2years3months", 0, NOW),
        Ok(NOW + 2 * 31557600 + 3 * 2629800)
    );
}

#[test]
fn relative_month_versus_minute_markers() {
    // `3mo` is months, `3m` is minutes, and a spent month group leaves
    // `mo` to mean minutes with a trailing letter
    assert_eq!(parse_timestamp(b"3mo", 0, NOW), Ok(NOW + 3 * 2629800));
    assert_eq!(parse_timestamp(b"3m", 0, NOW), Ok(NOW + 180));
    assert_eq!(
        parse_timestamp(b"1mo2mo", 0, NOW),
        Ok(NOW + 2629800 + 2 * 60)
    );
}

#[test]
fn relative_out_of_order_units_fail() {
    assert_eq!(parse_timestamp(b"3m2m", 0, NOW), Err(Error::InvalidTimestamp));
    assert_eq!(parse_timestamp(b"1d1y", 0, NOW), Err(Error::InvalidTimestamp));
}

#[test]
fn relative_overflow_is_duration_error() {
    // 69 years of seconds leave the 32-bit range the sum is computed in
    assert_eq!(parse_timestamp(b"69y", 0, NOW), Err(Error::DurationTooLong));
    assert_eq!(parse_timestamp(b"35791395h", 0, NOW), Err(Error::DurationTooLong));
    // 68 years still fit
    assert_eq!(parse_timestamp(b"68y", 0, NOW), Ok(NOW + 68i64 * 31557600));
}

#[test]
fn relative_component_too_large_for_arithmetic() {
    // the component itself does not fit, so the text is rejected as a
    // timestamp rather than as a duration
    assert_eq!(
        parse_timestamp(b"9999999999y", 0, NOW),
        Err(Error::InvalidTimestamp)
    );
}

#[test]
fn date_year_month_day() {
    assert_eq!(parse_timestamp(b"2025-3-1", 0, NOW), Ok(1_740_787_200));
    assert_eq!(parse_timestamp(b"2025/03/01", 0, NOW), Ok(1_740_787_200));
    assert_eq!(parse_timestamp(b"2025.12.31", 0, NOW), Ok(1_767_139_200));
}

#[test]
fn date_day_month_year() {
    assert_eq!(parse_timestamp(b"1.3.2025", 0, NOW), Ok(1_740_787_200));
    // a two-digit year means the 2000s
    assert_eq!(parse_timestamp(b"1.3.25", 0, NOW), Ok(1_740_787_200));
}

#[test]
fn date_offset_shifts_midnight() {
    // +60 minutes: local midnight is an hour before UTC midnight
    assert_eq!(parse_timestamp(b"2025-3-1", 60, NOW), Ok(1_740_787_200 - 3600));
    assert_eq!(parse_timestamp(b"2025-3-1", -90, NOW), Ok(1_740_787_200 + 5400));
}

#[test]
fn date_that_does_not_exist() {
    assert_eq!(parse_timestamp(b"2025-2-30", 0, NOW), Err(Error::InvalidTimestamp));
    assert_eq!(parse_timestamp(b"31.2.2025", 0, NOW), Err(Error::InvalidTimestamp));
    assert_eq!(parse_timestamp(b"29.2.2024", 0, NOW), Ok(1_709_164_800));
    assert_eq!(parse_timestamp(b"29.2.2023", 0, NOW), Err(Error::InvalidTimestamp));
}

#[test]
fn day_month_without_year_is_rejected() {
    // the day-month grammar matches first but its year field is missing,
    // so `12.11` never reaches the time-of-day grammar
    assert_eq!(parse_timestamp(b"12.11", 0, NOW), Err(Error::InvalidTimestamp));
}

#[test]
fn time_of_day_today_or_tomorrow() {
    // 12:30 today has not passed yet at NOW (01:46 UTC)
    assert_eq!(parse_timestamp(b"12:30", 0, NOW), Ok(1_000_038_600));
    // 01:00 today has passed, so it rolls forward one day
    assert_eq!(parse_timestamp(b"1:00", 0, NOW), Ok(1_000_083_600));
    // seconds and the dot separator are accepted: 12:30:45
    assert_eq!(parse_timestamp(b"12:30:45", 0, NOW), Ok(1_000_038_645));
    assert_eq!(parse_timestamp(b"25:00", 0, NOW), Err(Error::InvalidTimestamp));
}

#[test]
fn time_of_day_with_offset() {
    // 12:30 at +600 minutes is 02:30 UTC, already past at 01:46... no:
    // 02:30 UTC is later than 01:46, so it stays today
    assert_eq!(parse_timestamp(b"12:30", 600, NOW), Ok(1_000_038_600 - 36000));
    // 12:30 at -780 minutes is 25:30 UTC yesterday-relative; the instant
    // 1_000_038_600 + 46800 is tomorrow's slot only if today's passed
    assert_eq!(parse_timestamp(b"12:30", -780, NOW), Ok(1_000_038_600 + 46800));
}

#[test]
fn epoch_token_is_verbatim() {
    assert_eq!(parse_timestamp(b"1700000000", 0, NOW), Ok(1_700_000_000));
    assert_eq!(parse_timestamp(b"<t:1700000000:R>", 0, NOW), Ok(1_700_000_000));
    assert_eq!(parse_timestamp(b"<t:1700000000>", 0, NOW), Ok(1_700_000_000));
    // offset and now do not touch an epoch token
    assert_eq!(parse_timestamp(b"1700000000", 600, NOW), Ok(1_700_000_000));
}

#[test]
fn epoch_token_full_range_is_verbatim() {
    // ten to sixteen digits are all carried verbatim; seventeen digits
    // match nothing
    assert_eq!(parse_timestamp(b"3000000000", 0, NOW), Ok(3_000_000_000));
    assert_eq!(
        parse_timestamp(b"9999999999999999", 0, NOW),
        Ok(9_999_999_999_999_999)
    );
    assert_eq!(
        parse_timestamp(b"12345678901234567", 0, NOW),
        Err(Error::InvalidTimestamp)
    );
}

#[test]
fn seven_digit_number_matches_nothing() {
    assert_eq!(parse_timestamp(b"1234567", 0, NOW), Err(Error::InvalidTimestamp));
}

#[test]
fn datetime_both_orderings() {
    assert_eq!(parse_timestamp(b"2025-3-1 12:30", 0, NOW), Ok(1_740_832_200));
    assert_eq!(parse_timestamp(b"2025-3-1 12:30:45", 0, NOW), Ok(1_740_832_245));
    assert_eq!(parse_timestamp(b"1.3.25 12:30", 0, NOW), Ok(1_740_832_200));
    assert_eq!(parse_timestamp(b"1.3.2025 12:30", 60, NOW), Ok(1_740_832_200 - 3600));
}

#[test]
fn whitespace_shapes_are_strict() {
    assert_eq!(parse_timestamp(b" 90", 0, NOW), Err(Error::InvalidTimestamp));
    assert_eq!(parse_timestamp(b"2025-3-1  12:30", 0, NOW), Err(Error::InvalidTimestamp));
    assert_eq!(parse_timestamp(b"a b c", 0, NOW), Err(Error::InvalidTimestamp));
    assert_eq!(parse_timestamp(b"", 0, NOW), Err(Error::InvalidTimestamp));
}

#[test]
fn date_to_timestamp_exercises_the_calendar() {
    assert_eq!(date_to_timestamp(2025, 3, 1), Ok(1_740_787_200));
    assert_eq!(date_to_timestamp(2000, 1, 1), Ok(946_684_800));
    assert_eq!(date_to_timestamp(2024, 2, 29), Ok(1_709_164_800));
    assert_eq!(date_to_timestamp(2023, 2, 29), Err(Error::InvalidTimestamp));
    assert_eq!(date_to_timestamp(2025, 13, 1), Err(Error::InvalidTimestamp));
    assert_eq!(date_to_timestamp(0, 1, 1), Err(Error::InvalidTimestamp));
}

#[test]
fn parse_ymd_reads_capture_fields() {
    let data = vec![Some(25), Some(12), Some(31)];
    assert_eq!(parse_ymd(&data, 0, 2), Ok((2025, 12, 31)));
    assert_eq!(parse_ymd(&data, 2, 0), Ok((2031, 12, 25)));
    let missing = vec![Some(31), Some(12), None];
    assert_eq!(parse_ymd(&missing, 2, 0), Err(Error::InvalidTimestamp));
}

#[test]
fn parse_naivetime_reads_capture_fields() {
    let data = vec![Some(12), Some(30), None];
    assert_eq!(
        reminders::calendar::parse_naivetime(&data, 0),
        Ok(12 * 3600 + 30 * 60)
    );
    let with_secs = vec![Some(23), Some(59), Some(59)];
    assert_eq!(parse_naivetime(&with_secs, 0), Ok(86399));
    let bad = vec![Some(24), Some(0), None];
    assert_eq!(parse_naivetime(&bad, 0), Err(Error::InvalidTimestamp));
}

#[test]
fn multiply_by_position_sums_and_overflows() {
    let data = vec![Some(2), None, Some(3)];
    let table = vec![10, 100, 1000];
    assert_eq!(multiply_by_position(&data, &table), Ok(3020));
    let big = vec![Some(69)];
    assert_eq!(
        multiply_by_position(&big, &[31557600]),
        Err(Error::DurationTooLong)
    );
}

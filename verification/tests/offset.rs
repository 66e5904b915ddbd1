//! The UTC-offset grammar on concrete texts, including the sign-of-hours
//! rule for the minutes field.

use reminders::errors::Error;
use reminders::offset::parse_utc_offset;

#[test]
fn plain_hours() {
    assert_eq!(parse_utc_offset(b"2"), Ok(120));
    assert_eq!(parse_utc_offset(b"+2"), Ok(120));
    assert_eq!(parse_utc_offset(b"-5"), Ok(-300));
    assert_eq!(parse_utc_offset(b"14"), Ok(840));
    assert_eq!(parse_utc_offset(b"-12"), Ok(-720));
    assert_eq!(parse_utc_offset(b"09"), Ok(540));
}

#[test]
fn hours_and_minutes() {
    assert_eq!(parse_utc_offset(b"+5:30"), Ok(330));
    assert_eq!(parse_utc_offset(b"-12:45"), Ok(-765));
    assert_eq!(parse_utc_offset(b"5:45"), Ok(345));
    // the colon is optional
    assert_eq!(parse_utc_offset(b"530"), Ok(330));
    // one digit of hours followed by a minutes field
    assert_eq!(parse_utc_offset(b"100"), Ok(60));
}

#[test]
fn named_prefixes_in_any_case() {
    assert_eq!(parse_utc_offset(b"UTC+2"), Ok(120));
    assert_eq!(parse_utc_offset(b"utc-5:30"), Ok(-330));
    assert_eq!(parse_utc_offset(b"GMT+14"), Ok(840));
    assert_eq!(parse_utc_offset(b"gmt3"), Ok(180));
}

#[test]
fn minutes_follow_the_sign_of_zero_hours() {
    // the minutes are multiplied by the sign of the hour field, so a
    // zero hour annuls them — the behaviour the grammar is specified with
    assert_eq!(parse_utc_offset(b"0:30"), Ok(0));
    assert_eq!(parse_utc_offset(b"-0:45"), Ok(0));
}

#[test]
fn out_of_range_or_malformed_offsets() {
    assert_eq!(parse_utc_offset(b"+15"), Err(Error::InvalidTimestamp));
    assert_eq!(parse_utc_offset(b"-13"), Err(Error::InvalidTimestamp));
    assert_eq!(parse_utc_offset(b"UTC"), Err(Error::InvalidTimestamp));
    assert_eq!(parse_utc_offset(b"+"), Err(Error::InvalidTimestamp));
    assert_eq!(parse_utc_offset(b"-"), Err(Error::InvalidTimestamp));
    assert_eq!(parse_utc_offset(b":30"), Err(Error::InvalidTimestamp));
    assert_eq!(parse_utc_offset(b""), Err(Error::InvalidTimestamp));
    assert_eq!(parse_utc_offset(b"5:15"), Err(Error::InvalidTimestamp));
    assert_eq!(parse_utc_offset(b"abc"), Err(Error::InvalidTimestamp));
}

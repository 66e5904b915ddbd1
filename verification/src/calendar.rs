//! Proleptic-Gregorian calendar model: date validity, day numbering from the
//! epoch, and the conversion of matched date and time fields into epoch
//! seconds. The conversion of a calendar date to its epoch instant is done
//! by chrono behind a trusted wrapper.

use vstd::prelude::*;

use crate::errors::Error;
use chrono::TimeZone;

verus! {

/// The Gregorian leap-year rule.
pub open spec fn is_leap_year(y: int) -> bool {
    (y % 4 == 0 && y % 100 != 0) || y % 400 == 0
}

/// Number of days of a month, honouring leap years.
pub open spec fn days_in_month(y: int, m: int) -> int {
    if m == 2 {
        if is_leap_year(y) {
            29
        } else {
            28
        }
    } else if m == 4 || m == 6 || m == 9 || m == 11 {
        30
    } else {
        31
    }
}

/// The triple names a real calendar date.
pub open spec fn valid_ymd(y: int, m: int, d: int) -> bool {
    1 <= m <= 12 && 1 <= d <= days_in_month(y, m)
}

/// Days from 1970-01-01 to the given date (negative for earlier dates),
/// counted on the proleptic Gregorian calendar; defined for positive years.
pub open spec fn days_from_civil(y: int, m: int, d: int) -> int {
    let yy = if m <= 2 {
        y - 1
    } else {
        y
    };
    let era = yy / 400;
    let yoe = yy - era * 400;
    let mp = if m > 2 {
        m - 3
    } else {
        m + 9
    };
    let doy = (153 * mp + 2) / 5 + d - 1;
    let doe = yoe * 365 + yoe / 4 - yoe / 100 + doy;
    era * 146097 + doe - 719468
}

/// Epoch seconds of midnight on the given date.
pub open spec fn civil_epoch(y: int, m: int, d: int) -> int {
    86400 * days_from_civil(y, m, d)
}

/// Midnight of any supported date lies within a narrow band of epoch
/// seconds, so calendar arithmetic never leaves `i64`.
pub proof fn lemma_civil_epoch_bounds(y: int, m: int, d: int)
    requires
        1 <= y <= 9999,
        1 <= m <= 12,
        1 <= d <= 31,
    ensures
        -63_000_000_000 <= civil_epoch(y, m, d) <= 260_000_000_000,
{
    let yy = if m <= 2 {
        y - 1
    } else {
        y
    };
    let era = yy / 400;
    let yoe = yy - era * 400;
    let mp = if m > 2 {
        m - 3
    } else {
        m + 9
    };
    let doy = (153 * mp + 2) / 5 + d - 1;
    let doe = yoe * 365 + yoe / 4 - yoe / 100 + doy;
    assert(0 <= yy <= 9999);
    assert(0 <= era <= 24);
    assert(0 <= yoe <= 399) by {
        assert(era * 400 <= yy < era * 400 + 400) by (nonlinear_arith)
            requires
                0 <= yy,
                era == yy / 400,
        ;
    }
    assert(0 <= mp <= 11);
    assert(0 <= doy <= 367);
    assert(0 <= yoe * 365 <= 145635) by (nonlinear_arith)
        requires
            0 <= yoe <= 399,
    ;
    assert(0 <= yoe / 4 <= 99);
    assert(0 <= yoe / 100 <= 3);
    assert(0 <= doe <= 146101);
    assert(0 <= era * 146097 <= 3506328) by (nonlinear_arith)
        requires
            0 <= era <= 24,
    ;
    assert(-719468 <= days_from_civil(y, m, d) <= 2932961);
}

/// Relies on chrono's `TimeZone::with_ymd_and_hms` on `Utc` and on
/// `DateTime::timestamp`: a valid proleptic-Gregorian date maps to its UTC
/// midnight, 86400 seconds per day counted from 1970-01-01, and an invalid
/// date maps to `None`.
#[verifier::external_body]
fn civil_midnight_epoch(year: i32, month: u32, day: u32) -> (r: Option<i64>)
    requires
        1 <= year <= 9999,
    ensures
        r is Some <==> valid_ymd(year as int, month as int, day as int),
        r matches Some(t) ==> t == civil_epoch(year as int, month as int, day as int),
{
    chrono::Utc.with_ymd_and_hms(year, month, day, 0, 0, 0).earliest().map(|dt| dt.timestamp())
}

/// Epoch seconds of midnight on the given date, or `InvalidTimestamp` when
/// the triple is not a real calendar date (or the year is outside the
/// supported 1..=9999 window).
pub fn date_to_timestamp(year: i32, month: u32, day: u32) -> (r: Result<i64, Error>)
    ensures
        r.is_ok() <==> (1 <= year <= 9999 && valid_ymd(year as int, month as int, day as int)),
        r matches Ok(t) ==> t == civil_epoch(year as int, month as int, day as int),
        r matches Err(e) ==> e == Error::InvalidTimestamp,
{
    if year < 1 || year > 9999 {
        return Err(Error::InvalidTimestamp);
    }
    match civil_midnight_epoch(year, month, day) {
        Some(t) => Ok(t),
        None => Err(Error::InvalidTimestamp),
    }
}

/// The capture fields at the year, month and day positions are all present
/// and the month and day are non-negative.
pub open spec fn ymd_fields_ok(data: Seq<Option<i32>>, yi: int, di: int) -> bool {
    &&& 0 <= yi < data.len()
    &&& 1 < data.len()
    &&& 0 <= di < data.len()
    &&& data[yi] is Some
    &&& data[1] is Some
    &&& data[di] is Some
    &&& data[1]->0 >= 0
    &&& data[di]->0 >= 0
}

/// The year field, with two-digit years read as the 2000s.
pub open spec fn ymd_year(data: Seq<Option<i32>>, yi: int) -> int {
    if data[yi]->0 < 100 {
        data[yi]->0 + 2000
    } else {
        data[yi]->0 as int
    }
}

/// Assemble a (year, month, day) triple from matched capture fields: the
/// month always sits at position 1, the year and day positions vary with
/// the ordering of the grammar; two-digit years mean the 2000s.
pub fn parse_ymd(data: &[Option<i32>], year_index: usize, day_index: usize) -> (r: Result<
    (i32, u32, u32),
    Error,
>)
    ensures
        r.is_ok() <==> ymd_fields_ok(data@, year_index as int, day_index as int),
        r matches Ok(t) ==> t.0 == ymd_year(data@, year_index as int) && t.1 == data@[1]->0
            && t.2 == data@[day_index as int]->0,
        r matches Err(e) ==> e == Error::InvalidTimestamp,
{
    if year_index >= data.len() || day_index >= data.len() || data.len() < 2 {
        return Err(Error::InvalidTimestamp);
    }
    let (y, m, d) = match (data[year_index], data[1], data[day_index]) {
        (Some(y), Some(m), Some(d)) => (y, m, d),
        _ => {
            return Err(Error::InvalidTimestamp);
        },
    };
    if m < 0 || d < 0 {
        return Err(Error::InvalidTimestamp);
    }
    let year = if y < 100 {
        y + 2000
    } else {
        y
    };
    Ok((year, m as u32, d as u32))
}

/// The capture fields from the hour position form a valid time of day:
/// hour and minute present and in range, the second field in range when it
/// is present.
pub open spec fn time_fields_ok(data: Seq<Option<i32>>, hi: int) -> bool {
    &&& 0 <= hi
    &&& hi + 2 < data.len()
    &&& data[hi] is Some
    &&& data[hi + 1] is Some
    &&& 0 <= data[hi]->0 < 24
    &&& 0 <= data[hi + 1]->0 < 60
    &&& (data[hi + 2] is Some ==> 0 <= data[hi + 2]->0 < 60)
}

/// Seconds past midnight of the matched time fields; a missing second
/// field counts as zero.
pub open spec fn time_fields_secs(data: Seq<Option<i32>>, hi: int) -> int {
    data[hi]->0 * 3600 + data[hi + 1]->0 * 60 + (if data[hi + 2] is Some {
        data[hi + 2]->0 as int
    } else {
        0
    })
}

/// Assemble a time of day, as seconds past midnight, from the matched
/// capture fields starting at the hour position; the second field may be
/// absent and then counts as zero.
pub fn parse_naivetime(data: &[Option<i32>], hour_index: usize) -> (r: Result<u32, Error>)
    ensures
        r.is_ok() <==> time_fields_ok(data@, hour_index as int),
        r matches Ok(v) ==> v == time_fields_secs(data@, hour_index as int),
        r matches Err(e) ==> e == Error::InvalidTimestamp,
{
    if data.len() < 3 || hour_index > data.len() - 3 {
        return Err(Error::InvalidTimestamp);
    }
    let (h, m) = match (data[hour_index], data[hour_index + 1]) {
        (Some(h), Some(m)) => (h, m),
        _ => {
            return Err(Error::InvalidTimestamp);
        },
    };
    let s = match data[hour_index + 2] {
        Some(s) => {
            if s < 0 || s >= 60 {
                return Err(Error::InvalidTimestamp);
            }
            s
        },
        None => 0,
    };
    if h < 0 || h >= 24 || m < 0 || m >= 60 {
        return Err(Error::InvalidTimestamp);
    }
    Ok((h * 3600 + m * 60 + s) as u32)
}

} // verus!

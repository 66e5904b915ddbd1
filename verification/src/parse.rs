//! The timestamp parser: resolve a user's free-form text, their UTC offset
//! in minutes, and the current instant into an absolute epoch instant. The
//! grammars are tried in a fixed priority order against the whole text;
//! the first that matches decides the result.

use vstd::prelude::*;

use crate::calendar::{
    civil_epoch, date_to_timestamp, parse_naivetime, parse_ymd, time_fields_ok, time_fields_secs,
    valid_ymd, ymd_fields_ok, ymd_year,
};
use crate::datetime::{
    date_dmy_caps, date_dmy_match, date_ymd_caps, date_ymd_match, datetime_dmy_caps,
    datetime_dmy_match, datetime_ymd_caps, datetime_ymd_match, minutes_match, time_caps_at,
    time_match_at, try_date_dmy, try_date_ymd, try_datetime_dmy, try_datetime_ymd, try_minutes,
    try_time_at, try_unix, unix_match, unix_span,
};
use crate::errors::Error;
use crate::relative::{lemma_rel_parse_wf, rel_parse, try_relative};
use crate::scan::{
    caps_all_parse, caps_ints, count_tokens, digits_span_val, digits_val, is_digit,
    lemma_digits_val_bound, matches_to_vecint, mbp_ok, multiply_by_position, parse_i32_span,
    pow10, run_end, token_count, weighted_sum,
};

verus! {

/// Seconds of one year (365.25 days), month (a twelfth of that), week,
/// day, hour, minute and second: the fixed multipliers of the
/// relative-duration components.
pub open spec fn rel_table() -> Seq<i32> {
    seq![31557600i32, 2629800i32, 604800i32, 86400i32, 3600i32, 60i32, 1i32]
}

/// What a matched relative-duration text yields: `now` plus the weighted
/// sum of its components; a component too large for the arithmetic is
/// `InvalidTimestamp`, an overflowing product or sum is `DurationTooLong`.
pub open spec fn rel_result(s: Seq<u8>, now: int) -> Result<i64, Error> {
    let caps = rel_parse(s, 0, 0)->0;
    if !caps_all_parse(s, caps) {
        Err(Error::InvalidTimestamp)
    } else {
        let ints = caps_ints(s, caps);
        if !mbp_ok(ints, rel_table(), 7) {
            Err(Error::DurationTooLong)
        } else {
            Ok((now + weighted_sum(ints, rel_table(), 7)) as i64)
        }
    }
}

/// What a matched date-only text yields: midnight of the date, shifted
/// from the user's local midnight to UTC by the offset; a missing year
/// field or a day that does not exist on the calendar is rejected.
pub open spec fn date_result(
    s: Seq<u8>,
    caps: Seq<Option<(usize, usize)>>,
    yi: int,
    di: int,
    offset: int,
) -> Result<i64, Error> {
    if !caps_all_parse(s, caps) {
        Err(Error::InvalidTimestamp)
    } else {
        let ints = caps_ints(s, caps);
        if !ymd_fields_ok(ints, yi, di) {
            Err(Error::InvalidTimestamp)
        } else {
            let y = ymd_year(ints, yi);
            let m = ints[1]->0 as int;
            let d = ints[di]->0 as int;
            if !(1 <= y <= 9999 && valid_ymd(y, m, d)) {
                Err(Error::InvalidTimestamp)
            } else {
                Ok((civil_epoch(y, m, d) - offset * 60) as i64)
            }
        }
    }
}

/// What a matched date-and-time text yields: the date's midnight plus the
/// time of day, shifted to UTC by the offset.
pub open spec fn datetime_result(
    s: Seq<u8>,
    caps: Seq<Option<(usize, usize)>>,
    yi: int,
    di: int,
    offset: int,
) -> Result<i64, Error> {
    if !caps_all_parse(s, caps) {
        Err(Error::InvalidTimestamp)
    } else {
        let ints = caps_ints(s, caps);
        if !ymd_fields_ok(ints, yi, di) {
            Err(Error::InvalidTimestamp)
        } else {
            let y = ymd_year(ints, yi);
            let m = ints[1]->0 as int;
            let d = ints[di]->0 as int;
            if !(1 <= y <= 9999 && valid_ymd(y, m, d)) {
                Err(Error::InvalidTimestamp)
            } else if !time_fields_ok(ints, 3) {
                Err(Error::InvalidTimestamp)
            } else {
                Ok((civil_epoch(y, m, d) + time_fields_secs(ints, 3) - offset * 60) as i64)
            }
        }
    }
}

/// What a matched time-of-day text yields: that wall-clock time today at
/// the user's offset, rolled forward one day when it has already passed.
pub open spec fn time_result(s: Seq<u8>, offset: int, now: int) -> Result<i64, Error> {
    let caps = time_caps_at(s, 0);
    if !caps_all_parse(s, caps) {
        Err(Error::InvalidTimestamp)
    } else {
        let ints = caps_ints(s, caps);
        if !time_fields_ok(ints, 0) {
            Err(Error::InvalidTimestamp)
        } else {
            let t = now / 86400 * 86400 + time_fields_secs(ints, 0) - offset * 60;
            if t < now {
                Ok((t + 86400) as i64)
            } else {
                Ok(t as i64)
            }
        }
    }
}

/// What a matched epoch-seconds token yields: its digits, verbatim, with
/// neither offset nor `now` applied; ten to sixteen digits always fit.
pub open spec fn unix_result(s: Seq<u8>) -> Result<i64, Error> {
    Ok(digits_val(s.subrange(unix_span(s).0 as int, unix_span(s).1 as int)) as i64)
}

/// A single token is tried against relative durations, year-month-day,
/// day-month-year, time of day, bare minutes and epoch tokens, in that
/// order; the first grammar that matches decides.
pub open spec fn spec_parse_single(s: Seq<u8>, offset: int, now: int) -> Result<i64, Error> {
    if rel_parse(s, 0, 0) is Some {
        rel_result(s, now)
    } else if date_ymd_match(s) {
        date_result(s, date_ymd_caps(s), 0, 2, offset)
    } else if date_dmy_match(s) {
        date_result(s, date_dmy_caps(s), 2, 0, offset)
    } else if time_match_at(s, 0) {
        time_result(s, offset, now)
    } else if minutes_match(s) {
        Ok((now + digits_val(s) * 60) as i64)
    } else if unix_match(s) {
        unix_result(s)
    } else {
        Err(Error::InvalidTimestamp)
    }
}

/// Two tokens are tried against the two date-plus-time orderings.
pub open spec fn spec_parse_two(s: Seq<u8>, offset: int, now: int) -> Result<i64, Error> {
    if datetime_ymd_match(s) {
        datetime_result(s, datetime_ymd_caps(s), 0, 2, offset)
    } else if datetime_dmy_match(s) {
        datetime_result(s, datetime_dmy_caps(s), 2, 0, offset)
    } else {
        Err(Error::InvalidTimestamp)
    }
}

/// The whole parse: one token is tried against the single-token grammars,
/// two tokens against the date-plus-time orderings, anything else is
/// rejected.
pub open spec fn spec_parse(s: Seq<u8>, offset: int, now: int) -> Result<i64, Error> {
    let tc = token_count(s, 0);
    if tc == 1 {
        spec_parse_single(s, offset, now)
    } else if tc == 2 {
        spec_parse_two(s, offset, now)
    } else {
        Err(Error::InvalidTimestamp)
    }
}

fn date_branch(s: &[u8], caps: &Vec<Option<(usize, usize)>>, yi: usize, di: usize, offset: i32) -> (r:
    Result<i64, Error>)
    requires
        forall|k: int|
            0 <= k < caps@.len() ==> (#[trigger] caps@[k] matches Some(sp) ==> sp.0 <= sp.1
                <= s@.len()),
    ensures
        r == date_result(s@, caps@, yi as int, di as int, offset as int),
{
    let ints = match matches_to_vecint(s, caps) {
        Ok(v) => v,
        Err(e) => {
            return Err(e);
        },
    };
    proof {
        assert(ints@ =~= caps_ints(s@, caps@));
    }
    let (y, m, d) = match parse_ymd(ints.as_slice(), yi, di) {
        Ok(t) => t,
        Err(e) => {
            return Err(e);
        },
    };
    let t = match date_to_timestamp(y, m, d) {
        Ok(t) => t,
        Err(e) => {
            return Err(e);
        },
    };
    proof {
        crate::calendar::lemma_civil_epoch_bounds(y as int, m as int, d as int);
    }
    Ok(t - (offset as i64) * 60)
}

fn datetime_branch(
    s: &[u8],
    caps: &Vec<Option<(usize, usize)>>,
    yi: usize,
    di: usize,
    offset: i32,
) -> (r: Result<i64, Error>)
    requires
        forall|k: int|
            0 <= k < caps@.len() ==> (#[trigger] caps@[k] matches Some(sp) ==> sp.0 <= sp.1
                <= s@.len()),
    ensures
        r == datetime_result(s@, caps@, yi as int, di as int, offset as int),
{
    let ints = match matches_to_vecint(s, caps) {
        Ok(v) => v,
        Err(e) => {
            return Err(e);
        },
    };
    proof {
        assert(ints@ =~= caps_ints(s@, caps@));
    }
    let (y, m, d) = match parse_ymd(ints.as_slice(), yi, di) {
        Ok(t) => t,
        Err(e) => {
            return Err(e);
        },
    };
    let t = match date_to_timestamp(y, m, d) {
        Ok(t) => t,
        Err(e) => {
            return Err(e);
        },
    };
    let secs = match parse_naivetime(ints.as_slice(), 3) {
        Ok(v) => v,
        Err(e) => {
            return Err(e);
        },
    };
    proof {
        crate::calendar::lemma_civil_epoch_bounds(y as int, m as int, d as int);
    }
    Ok(t + (secs as i64) - (offset as i64) * 60)
}

fn rel_branch(s: &[u8], caps: &Vec<Option<(usize, usize)>>, now: i64) -> (r: Result<i64, Error>)
    requires
        0 <= now <= 1_000_000_000_000,
        Some(caps@) == rel_parse(s@, 0, 0),
    ensures
        r == rel_result(s@, now as int),
{
    let n = s.len();
    proof {
        assert(s@.len() == n as int);
        lemma_rel_parse_wf(s@, 0, 0);
    }
    let ints = match matches_to_vecint(s, caps) {
        Ok(v) => v,
        Err(e) => {
            return Err(e);
        },
    };
    proof {
        assert(ints@ =~= caps_ints(s@, rel_parse(s@, 0, 0)->0));
    }
    let table: Vec<i32> = vec![31557600, 2629800, 604800, 86400, 3600, 60, 1];
    proof {
        assert(table@ =~= rel_table());
    }
    let seconds = match multiply_by_position(ints.as_slice(), table.as_slice()) {
        Ok(v) => v,
        Err(e) => {
            return Err(e);
        },
    };
    Ok(now + (seconds as i64))
}

fn time_branch(s: &[u8], caps: &Vec<Option<(usize, usize)>>, offset: i32, now: i64) -> (r: Result<
    i64,
    Error,
>)
    requires
        0 <= now <= 1_000_000_000_000,
        time_match_at(s@, 0),
        caps@ == time_caps_at(s@, 0),
    ensures
        r == time_result(s@, offset as int, now as int),
{
    proof {
        crate::scan::lemma_run_end(s@, 0);
        crate::scan::lemma_run_end(s@, run_end(s@, 0) + 1);
    }
    let ints = match matches_to_vecint(s, caps) {
        Ok(v) => v,
        Err(e) => {
            return Err(e);
        },
    };
    proof {
        assert(ints@ =~= caps_ints(s@, time_caps_at(s@, 0)));
    }
    let secs = match parse_naivetime(ints.as_slice(), 0) {
        Ok(v) => v,
        Err(e) => {
            return Err(e);
        },
    };
    let day_start = (((now as u64) / 86400) * 86400) as i64;
    let t = day_start + (secs as i64) - (offset as i64) * 60;
    if t < now {
        Ok(t + 86400)
    } else {
        Ok(t)
    }
}

fn minutes_branch(s: &[u8], now: i64) -> (r: Result<i64, Error>)
    requires
        0 <= now <= 1_000_000_000_000,
        minutes_match(s@),
    ensures
        r == Ok::<i64, Error>((now + digits_val(s@) * 60) as i64),
{
    let v = match parse_i32_span(s, 0, s.len()) {
        Some(v) => v,
        None => {
            proof {
                assert(s@.subrange(0, s@.len() as int) =~= s@);
                lemma_digits_val_bound(s@);
                reveal_with_fuel(pow10, 7);
                assert(false);
            }
            return Err(Error::InvalidTimestamp);
        },
    };
    proof {
        assert(s@.subrange(0, s@.len() as int) =~= s@);
        lemma_digits_val_bound(s@);
        reveal_with_fuel(pow10, 7);
    }
    Ok(now + (v as i64) * 60)
}

fn unix_branch(s: &[u8], a: usize, b: usize) -> (r: Result<i64, Error>)
    requires
        a <= b <= s@.len(),
        (a, b) == unix_span(s@),
        unix_match(s@),
    ensures
        r == unix_result(s@),
{
    let ghost t = s@.subrange(a as int, b as int);
    proof {
        crate::scan::lemma_run_end(s@, a as int);
        assert forall|k: int| 0 <= k < t.len() implies is_digit(#[trigger] t[k]) by {
            assert(t[k] == s@[a + k]);
        }
    }
    let v = digits_span_val(s, a, b);
    proof {
        lemma_digits_val_bound(t);
        crate::scan::lemma_pow10_mono(t.len(), 16);
        reveal_with_fuel(pow10, 17);
    }
    Ok(v)
}

fn parse_single(s: &[u8], offset: i32, now: i64) -> (r: Result<i64, Error>)
    requires
        0 <= now <= 1_000_000_000_000,
    ensures
        r == spec_parse_single(s@, offset as int, now as int),
{
    if let Some(caps) = try_relative(s) {
        return rel_branch(s, &caps, now);
    }
    if let Some(caps) = try_date_ymd(s) {
        return date_branch(s, &caps, 0, 2, offset);
    }
    if let Some(caps) = try_date_dmy(s) {
        return date_branch(s, &caps, 2, 0, offset);
    }
    if let Some(caps) = try_time_at(s, 0) {
        return time_branch(s, &caps, offset, now);
    }
    if try_minutes(s) {
        return minutes_branch(s, now);
    }
    if let Some((a, b)) = try_unix(s) {
        return unix_branch(s, a, b);
    }
    Err(Error::InvalidTimestamp)
}

#[verifier::rlimit(100)]
fn parse_two(s: &[u8], offset: i32, now: i64) -> (r: Result<i64, Error>)
    requires
        0 <= now <= 1_000_000_000_000,
    ensures
        r == spec_parse_two(s@, offset as int, now as int),
{
    if let Some(caps) = try_datetime_ymd(s) {
        return datetime_branch(s, &caps, 0, 2, offset);
    }
    if let Some(caps) = try_datetime_dmy(s) {
        return datetime_branch(s, &caps, 2, 0, offset);
    }
    Err(Error::InvalidTimestamp)
}

/// Resolve the timestamp text, the user's UTC offset in minutes, and the
/// current instant into an absolute epoch instant, or say exactly why the
/// text is rejected.
pub fn parse_timestamp(timestamp: &[u8], offset: i32, now: i64) -> (r: Result<i64, Error>)
    requires
        0 <= now <= 1_000_000_000_000,
    ensures
        r == spec_parse(timestamp@, offset as int, now as int),
{
    let s = timestamp;
    let tc = count_tokens(s);
    if tc == 1 {
        parse_single(s, offset, now)
    } else if tc == 2 {
        parse_two(s, offset, now)
    } else {
        Err(Error::InvalidTimestamp)
    }
}

/// For every text that matches the relative-duration grammar with each
/// component's digits in range, the parse yields `now` plus the sum of
/// each present component times its fixed multiplier; and when a product
/// or the running sum leaves the representable range, it yields
/// `DurationTooLong` — never a wrapped or truncated instant.
pub proof fn lemma_relative_duration(s: Seq<u8>, offset: int, now: int)
    requires
        token_count(s, 0) == 1,
        rel_parse(s, 0, 0) is Some,
        caps_all_parse(s, rel_parse(s, 0, 0)->0),
    ensures
        mbp_ok(caps_ints(s, rel_parse(s, 0, 0)->0), rel_table(), 7) ==> spec_parse(s, offset, now)
            == Ok::<i64, Error>(
            (now + weighted_sum(caps_ints(s, rel_parse(s, 0, 0)->0), rel_table(), 7)) as i64,
        ),
        !mbp_ok(caps_ints(s, rel_parse(s, 0, 0)->0), rel_table(), 7) ==> spec_parse(s, offset, now)
            == Err::<i64, Error>(Error::DurationTooLong),
{
}

} // verus!

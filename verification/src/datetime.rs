//! Matchers for the date, time, date-and-time, bare-minutes and epoch-token
//! grammars of the timestamp text. Each matcher recognises exactly one
//! grammar, anchored to the whole text, and hands back the capture spans of
//! its numeric fields.
//!
//! Numeric fields are bounded digit runs (a month is `1[012]` or `0?[1-9]`,
//! and so on); separators are never digits, so a field always covers a whole
//! maximal digit run and matching needs no backtracking.

use vstd::prelude::*;

use crate::scan::{all_digits, is_digit, run_end};

verus! {

/// A date separator: `/`, `-` or `.`.
pub open spec fn is_sep(c: u8) -> bool {
    c == 47 || c == 45 || c == 46
}

/// A time separator: `:` or `.`.
pub open spec fn is_timesep(c: u8) -> bool {
    c == 58 || c == 46
}

/// A four-digit year of the 2000s: `2` then three digits.
pub open spec fn year4_run(s: Seq<u8>, a: int) -> bool {
    &&& 0 <= a
    &&& a + 4 <= s.len()
    &&& s[a] == 50
    &&& is_digit(s[a + 1])
    &&& is_digit(s[a + 2])
    &&& is_digit(s[a + 3])
}

/// A month field covering `s[a..b]`: 1-12, a leading zero allowed.
pub open spec fn month_run(s: Seq<u8>, a: int, b: int) -> bool {
    &&& 0 <= a
    &&& b <= s.len()
    &&& ((b - a == 1 && 49 <= s[a] <= 57) || (b - a == 2 && ((s[a] == 49 && 48 <= s[a + 1] <= 50)
        || (s[a] == 48 && 49 <= s[a + 1] <= 57))))
}

/// A day-of-month field covering `s[a..b]`: 1-31, a leading zero allowed.
pub open spec fn day_run(s: Seq<u8>, a: int, b: int) -> bool {
    &&& 0 <= a
    &&& b <= s.len()
    &&& ((b - a == 1 && 49 <= s[a] <= 57) || (b - a == 2 && ((s[a] == 51 && 48 <= s[a + 1] <= 49)
        || (49 <= s[a] <= 50 && is_digit(s[a + 1])) || (s[a] == 48 && 49 <= s[a + 1] <= 57))))
}

/// An hour field covering `s[a..b]`: 0-23, a leading zero allowed.
pub open spec fn hour_run(s: Seq<u8>, a: int, b: int) -> bool {
    &&& 0 <= a
    &&& b <= s.len()
    &&& ((b - a == 1 && is_digit(s[a])) || (b - a == 2 && ((s[a] == 50 && 48 <= s[a + 1] <= 51)
        || ((s[a] == 48 || s[a] == 49) && is_digit(s[a + 1])))))
}

/// A minute or second field covering `s[a..b]`: 0-59, a leading zero allowed.
pub open spec fn minsec_run(s: Seq<u8>, a: int, b: int) -> bool {
    &&& 0 <= a
    &&& b <= s.len()
    &&& ((b - a == 1 && is_digit(s[a])) || (b - a == 2 && 48 <= s[a] <= 53 && is_digit(s[a + 1])))
}

/// A year field covering `s[a..b]`: four digits of the 2000s, or any two
/// digits (read later as the 2000s).
pub open spec fn year24_run(s: Seq<u8>, a: int, b: int) -> bool {
    (b - a == 4 && year4_run(s, a)) || (0 <= a && b <= s.len() && b - a == 2 && is_digit(s[a])
        && is_digit(s[a + 1]))
}

/// The whole text is year-month-day with separators.
pub open spec fn date_ymd_match(s: Seq<u8>) -> bool {
    let e2 = run_end(s, 5);
    &&& year4_run(s, 0)
    &&& 5 <= s.len()
    &&& is_sep(s[4])
    &&& month_run(s, 5, e2)
    &&& e2 < s.len()
    &&& is_sep(s[e2])
    &&& day_run(s, e2 + 1, s.len() as int)
}

/// Capture spans of a year-month-day text: year, month, day.
pub open spec fn date_ymd_caps(s: Seq<u8>) -> Seq<Option<(usize, usize)>> {
    let e2 = run_end(s, 5);
    seq![
        Some((0usize, 4usize)),
        Some((5usize, e2 as usize)),
        Some(((e2 + 1) as usize, s.len() as usize)),
    ]
}

/// The whole text is day-month with separators, optionally followed by a
/// separator and a year.
pub open spec fn date_dmy_match(s: Seq<u8>) -> bool {
    let e1 = run_end(s, 0);
    let e2 = run_end(s, e1 + 1);
    &&& day_run(s, 0, e1)
    &&& e1 < s.len()
    &&& is_sep(s[e1])
    &&& month_run(s, e1 + 1, e2)
    &&& (e2 == s.len() || (e2 < s.len() && is_sep(s[e2]) && year24_run(s, e2 + 1, s.len() as int)))
}

/// Capture spans of a day-month(-year) text: day, month, optional year.
pub open spec fn date_dmy_caps(s: Seq<u8>) -> Seq<Option<(usize, usize)>> {
    let e1 = run_end(s, 0);
    let e2 = run_end(s, e1 + 1);
    seq![
        Some((0usize, e1 as usize)),
        Some(((e1 + 1) as usize, e2 as usize)),
        if e2 == s.len() {
            None
        } else {
            Some(((e2 + 1) as usize, s.len() as usize))
        },
    ]
}

/// The text from `a` to its end is a time of day: hour, minute, optional
/// second, separated by `:` or `.`.
pub open spec fn time_match_at(s: Seq<u8>, a: int) -> bool {
    let e1 = run_end(s, a);
    let e2 = run_end(s, e1 + 1);
    &&& 0 <= a
    &&& hour_run(s, a, e1)
    &&& e1 < s.len()
    &&& is_timesep(s[e1])
    &&& minsec_run(s, e1 + 1, e2)
    &&& (e2 == s.len() || (e2 < s.len() && is_timesep(s[e2]) && minsec_run(
        s,
        e2 + 1,
        s.len() as int,
    )))
}

/// Capture spans of a time of day starting at `a`: hour, minute, optional
/// second.
pub open spec fn time_caps_at(s: Seq<u8>, a: int) -> Seq<Option<(usize, usize)>> {
    let e1 = run_end(s, a);
    let e2 = run_end(s, e1 + 1);
    seq![
        Some((a as usize, e1 as usize)),
        Some(((e1 + 1) as usize, e2 as usize)),
        if e2 == s.len() {
            None
        } else {
            Some(((e2 + 1) as usize, s.len() as usize))
        },
    ]
}

/// The whole text is year-month-day, one space, then a time of day.
pub open spec fn datetime_ymd_match(s: Seq<u8>) -> bool {
    let e2 = run_end(s, 5);
    let e3 = run_end(s, e2 + 1);
    &&& year4_run(s, 0)
    &&& 5 <= s.len()
    &&& is_sep(s[4])
    &&& month_run(s, 5, e2)
    &&& e2 < s.len()
    &&& is_sep(s[e2])
    &&& day_run(s, e2 + 1, e3)
    &&& e3 < s.len()
    &&& s[e3] == 32
    &&& time_match_at(s, e3 + 1)
}

/// Capture spans of a year-month-day plus time text.
pub open spec fn datetime_ymd_caps(s: Seq<u8>) -> Seq<Option<(usize, usize)>> {
    let e2 = run_end(s, 5);
    let e3 = run_end(s, e2 + 1);
    seq![
        Some((0usize, 4usize)),
        Some((5usize, e2 as usize)),
        Some(((e2 + 1) as usize, e3 as usize)),
    ] + time_caps_at(s, e3 + 1)
}

/// The whole text is day-month, an optional separator-year, one space, then
/// a time of day.
pub open spec fn datetime_dmy_match(s: Seq<u8>) -> bool {
    let e1 = run_end(s, 0);
    let e2 = run_end(s, e1 + 1);
    &&& day_run(s, 0, e1)
    &&& e1 < s.len()
    &&& is_sep(s[e1])
    &&& month_run(s, e1 + 1, e2)
    &&& e2 < s.len()
    &&& (if s[e2] == 32 {
        time_match_at(s, e2 + 1)
    } else {
        let e3 = run_end(s, e2 + 1);
        &&& is_sep(s[e2])
        &&& year24_run(s, e2 + 1, e3)
        &&& e3 < s.len()
        &&& s[e3] == 32
        &&& time_match_at(s, e3 + 1)
    })
}

/// Capture spans of a day-month(-year) plus time text.
pub open spec fn datetime_dmy_caps(s: Seq<u8>) -> Seq<Option<(usize, usize)>> {
    let e1 = run_end(s, 0);
    let e2 = run_end(s, e1 + 1);
    if s[e2] == 32 {
        seq![
            Some((0usize, e1 as usize)),
            Some(((e1 + 1) as usize, e2 as usize)),
            None,
        ] + time_caps_at(s, e2 + 1)
    } else {
        let e3 = run_end(s, e2 + 1);
        seq![
            Some((0usize, e1 as usize)),
            Some(((e1 + 1) as usize, e2 as usize)),
            Some(((e2 + 1) as usize, e3 as usize)),
        ] + time_caps_at(s, e3 + 1)
    }
}

/// The whole text is one to six digits, read as minutes from now.
pub open spec fn minutes_match(s: Seq<u8>) -> bool {
    1 <= s.len() <= 6 && all_digits(s)
}

/// Length of a platform-decoration prefix: `<`, any byte but a newline,
/// then `:`.
pub open spec fn unix_prefix_len(s: Seq<u8>) -> int {
    if s.len() >= 1 && s[0] == 60 {
        3
    } else {
        0
    }
}

/// The whole text is a 10-16 digit epoch-seconds token, optionally wrapped
/// in platform timestamp decoration.
pub open spec fn unix_match(s: Seq<u8>) -> bool {
    let a = unix_prefix_len(s);
    let e = run_end(s, a);
    &&& (a == 0 || (s.len() >= 3 && s[1] != 10 && s[2] == 58))
    &&& 10 <= e - a <= 16
    &&& (e == s.len() || (e + 1 == s.len() && s[e] == 62) || (e + 3 == s.len() && s[e] == 58 && s[e
        + 1] != 10 && s[e + 2] == 62))
}

/// The digit span of an epoch-seconds token.
pub open spec fn unix_span(s: Seq<u8>) -> (usize, usize) {
    (unix_prefix_len(s) as usize, run_end(s, unix_prefix_len(s)) as usize)
}

fn sep_ok(c: u8) -> (r: bool)
    ensures
        r == is_sep(c),
{
    c == 47 || c == 45 || c == 46
}

fn timesep_ok(c: u8) -> (r: bool)
    ensures
        r == is_timesep(c),
{
    c == 58 || c == 46
}

fn digit_ok(c: u8) -> (r: bool)
    ensures
        r == is_digit(c),
{
    48 <= c && c <= 57
}

fn month_ok(s: &[u8], a: usize, b: usize) -> (r: bool)
    requires
        a <= s@.len(),
        b <= s@.len(),
    ensures
        r == month_run(s@, a as int, b as int),
{
    if b > a && b - a == 1 {
        49 <= s[a] && s[a] <= 57
    } else if b > a && b - a == 2 {
        (s[a] == 49 && 48 <= s[a + 1] && s[a + 1] <= 50) || (s[a] == 48 && 49 <= s[a + 1] && s[a
            + 1] <= 57)
    } else {
        false
    }
}

fn day_ok(s: &[u8], a: usize, b: usize) -> (r: bool)
    requires
        a <= s@.len(),
        b <= s@.len(),
    ensures
        r == day_run(s@, a as int, b as int),
{
    if b > a && b - a == 1 {
        49 <= s[a] && s[a] <= 57
    } else if b > a && b - a == 2 {
        (s[a] == 51 && 48 <= s[a + 1] && s[a + 1] <= 49) || (49 <= s[a] && s[a] <= 50 && digit_ok(
            s[a + 1],
        )) || (s[a] == 48 && 49 <= s[a + 1] && s[a + 1] <= 57)
    } else {
        false
    }
}

fn hour_ok(s: &[u8], a: usize, b: usize) -> (r: bool)
    requires
        a <= s@.len(),
        b <= s@.len(),
    ensures
        r == hour_run(s@, a as int, b as int),
{
    if b > a && b - a == 1 {
        digit_ok(s[a])
    } else if b > a && b - a == 2 {
        (s[a] == 50 && 48 <= s[a + 1] && s[a + 1] <= 51) || ((s[a] == 48 || s[a] == 49) && digit_ok(
            s[a + 1],
        ))
    } else {
        false
    }
}

fn minsec_ok(s: &[u8], a: usize, b: usize) -> (r: bool)
    requires
        a <= s@.len(),
        b <= s@.len(),
    ensures
        r == minsec_run(s@, a as int, b as int),
{
    if b > a && b - a == 1 {
        digit_ok(s[a])
    } else if b > a && b - a == 2 {
        48 <= s[a] && s[a] <= 53 && digit_ok(s[a + 1])
    } else {
        false
    }
}

fn year4_ok(s: &[u8], a: usize) -> (r: bool)
    requires
        a <= s@.len(),
    ensures
        r == year4_run(s@, a as int),
{
    s.len() >= 4 && a <= s.len() - 4 && s[a] == 50 && digit_ok(s[a + 1]) && digit_ok(s[a + 2])
        && digit_ok(s[a + 3])
}

fn year24_ok(s: &[u8], a: usize, b: usize) -> (r: bool)
    requires
        a <= s@.len(),
        b <= s@.len(),
    ensures
        r == year24_run(s@, a as int, b as int),
{
    if b > a && b - a == 4 {
        year4_ok(s, a)
    } else if b > a && b - a == 2 {
        digit_ok(s[a]) && digit_ok(s[a + 1])
    } else {
        false
    }
}

/// Match the whole text against the year-month-day grammar.
pub fn try_date_ymd(s: &[u8]) -> (r: Option<Vec<Option<(usize, usize)>>>)
    ensures
        r is Some <==> date_ymd_match(s@),
        r matches Some(v) ==> v@ == date_ymd_caps(s@),
{
    let n = s.len();
    if !year4_ok(s, 0) {
        return None;
    }
    if n < 5 || !sep_ok(s[4]) {
        return None;
    }
    let e2 = crate::scan::run_end_exec(s, 5);
    if !month_ok(s, 5, e2) {
        return None;
    }
    if e2 >= n || !sep_ok(s[e2]) {
        return None;
    }
    if !day_ok(s, e2 + 1, n) {
        return None;
    }
    let mut v: Vec<Option<(usize, usize)>> = Vec::new();
    v.push(Some((0, 4)));
    v.push(Some((5, e2)));
    v.push(Some((e2 + 1, n)));
    assert(v@ =~= date_ymd_caps(s@));
    Some(v)
}

/// Match the whole text against the day-month, optional year grammar.
pub fn try_date_dmy(s: &[u8]) -> (r: Option<Vec<Option<(usize, usize)>>>)
    ensures
        r is Some <==> date_dmy_match(s@),
        r matches Some(v) ==> v@ == date_dmy_caps(s@),
{
    let n = s.len();
    let e1 = crate::scan::run_end_exec(s, 0);
    if !day_ok(s, 0, e1) {
        return None;
    }
    if e1 >= n || !sep_ok(s[e1]) {
        return None;
    }
    let e2 = crate::scan::run_end_exec(s, e1 + 1);
    if !month_ok(s, e1 + 1, e2) {
        return None;
    }
    let mut v: Vec<Option<(usize, usize)>> = Vec::new();
    v.push(Some((0, e1)));
    v.push(Some((e1 + 1, e2)));
    if e2 == n {
        v.push(None);
    } else {
        if !sep_ok(s[e2]) {
            return None;
        }
        if !year24_ok(s, e2 + 1, n) {
            return None;
        }
        v.push(Some((e2 + 1, n)));
    }
    assert(v@ =~= date_dmy_caps(s@));
    Some(v)
}

/// Match the text from `a` to its end against the time-of-day grammar.
pub fn try_time_at(s: &[u8], a: usize) -> (r: Option<Vec<Option<(usize, usize)>>>)
    requires
        a <= s@.len(),
    ensures
        r is Some <==> time_match_at(s@, a as int),
        r matches Some(v) ==> v@ == time_caps_at(s@, a as int) && forall|k: int|
            0 <= k < v@.len() ==> (#[trigger] v@[k] matches Some(sp) ==> sp.0 <= sp.1 <= s@.len()),
{
    let n = s.len();
    let e1 = crate::scan::run_end_exec(s, a);
    if !hour_ok(s, a, e1) {
        return None;
    }
    if e1 >= n || !timesep_ok(s[e1]) {
        return None;
    }
    let e2 = crate::scan::run_end_exec(s, e1 + 1);
    if !minsec_ok(s, e1 + 1, e2) {
        return None;
    }
    let mut v: Vec<Option<(usize, usize)>> = Vec::new();
    v.push(Some((a, e1)));
    v.push(Some((e1 + 1, e2)));
    if e2 == n {
        v.push(None);
    } else {
        if !timesep_ok(s[e2]) {
            return None;
        }
        if !minsec_ok(s, e2 + 1, n) {
            return None;
        }
        v.push(Some((e2 + 1, n)));
    }
    assert(v@ =~= time_caps_at(s@, a as int));
    Some(v)
}

/// Match the whole text against the year-month-day plus time grammar.
pub fn try_datetime_ymd(s: &[u8]) -> (r: Option<Vec<Option<(usize, usize)>>>)
    ensures
        r is Some <==> datetime_ymd_match(s@),
        r matches Some(v) ==> v@ == datetime_ymd_caps(s@) && forall|k: int|
            0 <= k < v@.len() ==> (#[trigger] v@[k] matches Some(sp) ==> sp.0 <= sp.1 <= s@.len()),
{
    let n = s.len();
    if !year4_ok(s, 0) {
        return None;
    }
    if n < 5 || !sep_ok(s[4]) {
        return None;
    }
    let e2 = crate::scan::run_end_exec(s, 5);
    if !month_ok(s, 5, e2) {
        return None;
    }
    if e2 >= n || !sep_ok(s[e2]) {
        return None;
    }
    let e3 = crate::scan::run_end_exec(s, e2 + 1);
    if !day_ok(s, e2 + 1, e3) {
        return None;
    }
    if e3 >= n || s[e3] != 32 {
        return None;
    }
    let tcaps = match try_time_at(s, e3 + 1) {
        Some(t) => t,
        None => {
            return None;
        },
    };
    let mut v: Vec<Option<(usize, usize)>> = Vec::new();
    v.push(Some((0, 4)));
    v.push(Some((5, e2)));
    v.push(Some((e2 + 1, e3)));
    v.push(tcaps[0]);
    v.push(tcaps[1]);
    v.push(tcaps[2]);
    assert(v@ =~= datetime_ymd_caps(s@));
    Some(v)
}

/// Match the whole text against the day-month, optional year, plus time
/// grammar.
pub fn try_datetime_dmy(s: &[u8]) -> (r: Option<Vec<Option<(usize, usize)>>>)
    ensures
        r is Some <==> datetime_dmy_match(s@),
        r matches Some(v) ==> v@ == datetime_dmy_caps(s@) && forall|k: int|
            0 <= k < v@.len() ==> (#[trigger] v@[k] matches Some(sp) ==> sp.0 <= sp.1 <= s@.len()),
{
    let n = s.len();
    let e1 = crate::scan::run_end_exec(s, 0);
    if !day_ok(s, 0, e1) {
        return None;
    }
    if e1 >= n || !sep_ok(s[e1]) {
        return None;
    }
    let e2 = crate::scan::run_end_exec(s, e1 + 1);
    if !month_ok(s, e1 + 1, e2) {
        return None;
    }
    if e2 >= n {
        return None;
    }
    let mut v: Vec<Option<(usize, usize)>> = Vec::new();
    v.push(Some((0, e1)));
    v.push(Some((e1 + 1, e2)));
    let tstart: usize;
    if s[e2] == 32 {
        v.push(None);
        tstart = e2 + 1;
    } else {
        if !sep_ok(s[e2]) {
            return None;
        }
        let e3 = crate::scan::run_end_exec(s, e2 + 1);
        if !year24_ok(s, e2 + 1, e3) {
            return None;
        }
        if e3 >= n || s[e3] != 32 {
            return None;
        }
        v.push(Some((e2 + 1, e3)));
        tstart = e3 + 1;
    }
    let tcaps = match try_time_at(s, tstart) {
        Some(t) => t,
        None => {
            return None;
        },
    };
    v.push(tcaps[0]);
    v.push(tcaps[1]);
    v.push(tcaps[2]);
    assert(v@ =~= datetime_dmy_caps(s@));
    Some(v)
}

/// Match the whole text against the bare-minutes grammar: one to six
/// digits.
pub fn try_minutes(s: &[u8]) -> (r: bool)
    ensures
        r == minutes_match(s@),
{
    let n = s.len();
    let e = crate::scan::run_end_exec(s, 0);
    proof {
        crate::scan::lemma_run_end(s@, 0);
        if e == n {
            assert(all_digits(s@));
        } else {
            assert(!is_digit(s@[e as int]));
        }
    }
    n >= 1 && n <= 6 && e == n
}

/// Match the whole text against the epoch-seconds token grammar and return
/// the digit span.
pub fn try_unix(s: &[u8]) -> (r: Option<(usize, usize)>)
    ensures
        r is Some <==> unix_match(s@),
        r matches Some(sp) ==> sp == unix_span(s@) && sp.0 <= sp.1 <= s@.len(),
{
    let n = s.len();
    let a: usize;
    if n >= 1 && s[0] == 60 {
        if n >= 3 && s[1] != 10 && s[2] == 58 {
            a = 3;
        } else {
            return None;
        }
    } else {
        a = 0;
    }
    let e = crate::scan::run_end_exec(s, a);
    if e - a < 10 || e - a > 16 {
        return None;
    }
    let rem = n - e;
    if rem == 0 {
        return Some((a, e));
    }
    if rem == 1 && s[e] == 62 {
        return Some((a, e));
    }
    if rem == 3 && s[e] == 58 && s[e + 1] != 10 && s[e + 2] == 62 {
        return Some((a, e));
    }
    None
}

} // verus!

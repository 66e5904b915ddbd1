//! The UTC-offset grammar and its evaluation: an optional case-insensitive
//! `UTC` or `GMT`, signed hours from -12 to +14, and optional minutes of
//! `00`, `30` or `45` behind an optional colon. The total is the signed
//! hour value times sixty, plus the minutes times the sign of the hours —
//! so minutes behind a zero hour count for nothing, exactly as stated.

use vstd::prelude::*;

use crate::errors::Error;
use crate::scan::{
    caps_all_parse, caps_ints, is_digit, matches_to_vecint, mbp_ok, multiply_by_position, sig,
    span_int, weighted_sum,
};

verus! {

/// ASCII lower-casing of one byte.
pub open spec fn to_lower(c: u8) -> u8 {
    if 65 <= c <= 90 {
        (c + 32) as u8
    } else {
        c
    }
}

/// Length of a leading case-insensitive `UTC` or `GMT`, if any.
pub open spec fn off_prefix_len(s: Seq<u8>) -> int {
    if s.len() >= 3 && ((to_lower(s[0]) == 117 && to_lower(s[1]) == 116 && to_lower(s[2]) == 99) || (
    to_lower(s[0]) == 103 && to_lower(s[1]) == 109 && to_lower(s[2]) == 116)) {
        3
    } else {
        0
    }
}

/// A two-digit hour field at `b`: 10-12 or 00-09 when negative, 10-14 or
/// 00-09 when positive.
pub open spec fn off_hour2_ok(s: Seq<u8>, b: int, neg: bool) -> bool {
    b + 2 <= s.len() && (if neg {
        (s[b] == 49 && 48 <= s[b + 1] <= 50) || (s[b] == 48 && is_digit(s[b + 1]))
    } else {
        (s[b] == 49 && 48 <= s[b + 1] <= 52) || (s[b] == 48 && is_digit(s[b + 1]))
    })
}

/// A minutes field covering the rest of the text from `q`: `00`, `30` or
/// `45`.
pub open spec fn off_minutes(s: Seq<u8>, q: int) -> bool {
    q + 2 == s.len() && ((s[q] == 48 && s[q + 1] == 48) || (s[q] == 51 && s[q + 1] == 48) || (s[q]
        == 52 && s[q + 1] == 53))
}

/// The rest of the text from `p` is an optional colon followed by an
/// optional minutes field.
pub open spec fn off_rest_ok(s: Seq<u8>, p: int) -> bool {
    if p == s.len() {
        true
    } else {
        let q = if s[p] == 58 {
            p + 1
        } else {
            p
        };
        q == s.len() || off_minutes(s, q)
    }
}

/// The minutes capture span of the rest of the text from `p`, if one is
/// present.
pub open spec fn off_min_span(s: Seq<u8>, p: int) -> Option<(usize, usize)> {
    if p == s.len() {
        None
    } else {
        let q = if s[p] == 58 {
            p + 1
        } else {
            p
        };
        if q == s.len() {
            None
        } else {
            Some((q as usize, (q + 2) as usize))
        }
    }
}

/// Where the hour digits end, trying the longest field first as the
/// pattern's alternation does: two digits, one digit, none — whichever
/// lets the rest of the text match.
pub open spec fn off_hour_end(s: Seq<u8>, b: int, neg: bool) -> Option<int> {
    if off_hour2_ok(s, b, neg) && off_rest_ok(s, b + 2) {
        Some(b + 2)
    } else if b < s.len() && is_digit(s[b]) && off_rest_ok(s, b + 1) {
        Some(b + 1)
    } else if off_rest_ok(s, b) {
        Some(b)
    } else {
        None
    }
}

/// Start of the hour digits: behind the prefix and an optional sign.
pub open spec fn off_digits_start(s: Seq<u8>) -> int {
    let a = off_prefix_len(s);
    if a < s.len() && (s[a] == 45 || s[a] == 43) {
        a + 1
    } else {
        a
    }
}

/// The hour field is negated.
pub open spec fn off_neg(s: Seq<u8>) -> bool {
    let a = off_prefix_len(s);
    a < s.len() && s[a] == 45
}

/// The whole text matches the UTC-offset grammar.
pub open spec fn off_match(s: Seq<u8>) -> bool {
    off_hour_end(s, off_digits_start(s), off_neg(s)) is Some
}

/// Capture spans of an offset text: the signed hours (sign included) and
/// the optional minutes.
pub open spec fn off_caps(s: Seq<u8>) -> Seq<Option<(usize, usize)>> {
    let a = off_prefix_len(s);
    let e = off_hour_end(s, off_digits_start(s), off_neg(s))->0;
    seq![Some((a as usize, e as usize)), off_min_span(s, e)]
}

/// What parsing an offset text yields: the signed hours times sixty plus
/// the minutes times the sign of the hours, or `InvalidTimestamp` when the
/// text does not match or its hour field is empty or a bare sign.
pub open spec fn off_result(s: Seq<u8>) -> Result<i32, Error> {
    if !off_match(s) {
        Err(Error::InvalidTimestamp)
    } else if !caps_all_parse(s, off_caps(s)) {
        Err(Error::InvalidTimestamp)
    } else {
        let ints = caps_ints(s, off_caps(s));
        let table = seq![60i32, sig(ints[0]->0 as int) as i32];
        if !mbp_ok(ints, table, 2) {
            Err(Error::DurationTooLong)
        } else {
            Ok(weighted_sum(ints, table, 2) as i32)
        }
    }
}

fn off_rest_exec(s: &[u8], p: usize) -> (r: bool)
    requires
        p <= s@.len(),
    ensures
        r == off_rest_ok(s@, p as int),
{
    let n = s.len();
    if p == n {
        return true;
    }
    let q = if s[p] == 58 {
        p + 1
    } else {
        p
    };
    if q == n {
        return true;
    }
    if n - q != 2 {
        return false;
    }
    (s[q] == 48 && s[q + 1] == 48) || (s[q] == 51 && s[q + 1] == 48) || (s[q] == 52 && s[q + 1]
        == 53)
}

/// Match the whole text against the UTC-offset grammar and return the
/// capture spans of the signed hours and the optional minutes.
pub fn try_utc_offset(s: &[u8]) -> (r: Option<Vec<Option<(usize, usize)>>>)
    ensures
        r is Some <==> off_match(s@),
        r matches Some(v) ==> v@ == off_caps(s@),
{
    let n = s.len();
    let a: usize;
    if n >= 3 {
        let c0 = if 65 <= s[0] && s[0] <= 90 {
            s[0] + 32
        } else {
            s[0]
        };
        let c1 = if 65 <= s[1] && s[1] <= 90 {
            s[1] + 32
        } else {
            s[1]
        };
        let c2 = if 65 <= s[2] && s[2] <= 90 {
            s[2] + 32
        } else {
            s[2]
        };
        if (c0 == 117 && c1 == 116 && c2 == 99) || (c0 == 103 && c1 == 109 && c2 == 116) {
            a = 3;
        } else {
            a = 0;
        }
    } else {
        a = 0;
    }
    let neg: bool;
    let b: usize;
    if a < n && s[a] == 45 {
        neg = true;
        b = a + 1;
    } else if a < n && s[a] == 43 {
        neg = false;
        b = a + 1;
    } else {
        neg = false;
        b = a;
    }
    let hour2 = n - b >= 2 && (if neg {
        (s[b] == 49 && 48 <= s[b + 1] && s[b + 1] <= 50) || (s[b] == 48 && 48 <= s[b + 1] && s[b
            + 1] <= 57)
    } else {
        (s[b] == 49 && 48 <= s[b + 1] && s[b + 1] <= 52) || (s[b] == 48 && 48 <= s[b + 1] && s[b
            + 1] <= 57)
    });
    let e: usize;
    if hour2 && off_rest_exec(s, b + 2) {
        e = b + 2;
    } else if b < n && 48 <= s[b] && s[b] <= 57 && off_rest_exec(s, b + 1) {
        e = b + 1;
    } else if off_rest_exec(s, b) {
        e = b;
    } else {
        return None;
    }
    let mut v: Vec<Option<(usize, usize)>> = Vec::new();
    v.push(Some((a, e)));
    if e == n {
        v.push(None);
    } else {
        let q = if s[e] == 58 {
            e + 1
        } else {
            e
        };
        if q == n {
            v.push(None);
        } else {
            v.push(Some((q, q + 2)));
        }
    }
    assert(v@ =~= off_caps(s@));
    Some(v)
}

/// Parse a user's UTC-offset text into signed minutes: signed hours times
/// sixty, plus the minutes field times the sign of the hours.
pub fn parse_utc_offset(offset: &[u8]) -> (r: Result<i32, Error>)
    ensures
        r == off_result(offset@),
{
    let caps = match try_utc_offset(offset) {
        Some(c) => c,
        None => {
            return Err(Error::InvalidTimestamp);
        },
    };
    let ints = match matches_to_vecint(offset, &caps) {
        Ok(v) => v,
        Err(e) => {
            return Err(e);
        },
    };
    proof {
        assert(ints@ =~= caps_ints(offset@, off_caps(offset@)));
    }
    let sign: i32 = match ints[0] {
        Some(h) => {
            if h > 0 {
                1
            } else if h < 0 {
                -1
            } else {
                0
            }
        },
        None => {
            proof {
                assert(span_int(offset@, off_caps(offset@)[0]) is Some);
                assert(false);
            }
            0
        },
    };
    let table: Vec<i32> = vec![60, sign];
    proof {
        assert(table@ =~= seq![
            60i32,
            sig(caps_ints(offset@, off_caps(offset@))[0]->0 as int) as i32,
        ]);
    }
    multiply_by_position(ints.as_slice(), table.as_slice())
}

} // verus!

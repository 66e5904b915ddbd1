//! Byte classification, decimal number reading, and the positional
//! multiply-and-sum used to turn matched duration components into seconds.

use vstd::prelude::*;

use crate::errors::Error;

verus! {

/// The byte is an ASCII decimal digit.
pub open spec fn is_digit(c: u8) -> bool {
    48 <= c <= 57
}

/// The byte is an ASCII letter.
pub open spec fn is_alpha(c: u8) -> bool {
    (65 <= c <= 90) || (97 <= c <= 122)
}

/// The byte separates tokens of the timestamp text.
pub open spec fn is_space(c: u8) -> bool {
    c == 32 || c == 9 || c == 10 || c == 13 || c == 11 || c == 12
}

/// Value of a run of ASCII digits, most significant digit first.
pub open spec fn digits_val(s: Seq<u8>) -> int
    decreases s.len(),
{
    if s.len() == 0 {
        0
    } else {
        digits_val(s.drop_last()) * 10 + (s.last() - 48)
    }
}

/// Every byte of the sequence is an ASCII digit.
pub open spec fn all_digits(s: Seq<u8>) -> bool {
    forall|i: int| 0 <= i < s.len() ==> is_digit(#[trigger] s[i])
}

/// The text is an optionally signed, non-empty run of ASCII digits,
/// exactly what Rust's integer parsing accepts.
pub open spec fn is_int_text(t: Seq<u8>) -> bool {
    if t.len() > 0 && (t[0] == 43 || t[0] == 45) {
        t.len() > 1 && all_digits(t.subrange(1, t.len() as int))
    } else {
        t.len() > 0 && all_digits(t)
    }
}

/// Signed value of an optionally signed digit run.
pub open spec fn int_text_val(t: Seq<u8>) -> int {
    if t.len() > 0 && t[0] == 45 {
        -digits_val(t.subrange(1, t.len() as int))
    } else if t.len() > 0 && t[0] == 43 {
        digits_val(t.subrange(1, t.len() as int))
    } else {
        digits_val(t)
    }
}

pub proof fn lemma_digits_val_nonneg(s: Seq<u8>)
    requires
        all_digits(s),
    ensures
        digits_val(s) >= 0,
    decreases s.len(),
{
    if s.len() > 0 {
        assert forall|i: int| 0 <= i < s.drop_last().len() implies is_digit(
            #[trigger] s.drop_last()[i],
        ) by {
            assert(s.drop_last()[i] == s[i]);
        }
        lemma_digits_val_nonneg(s.drop_last());
    }
}

/// Ten to the given power.
pub open spec fn pow10(n: nat) -> int
    decreases n,
{
    if n == 0 {
        1
    } else {
        10 * pow10((n - 1) as nat)
    }
}

/// A digit run's value is bounded by ten to its length.
pub proof fn lemma_digits_val_bound(s: Seq<u8>)
    requires
        all_digits(s),
    ensures
        0 <= digits_val(s) < pow10(s.len()),
    decreases s.len(),
{
    if s.len() == 0 {
    } else {
        assert forall|i: int| 0 <= i < s.drop_last().len() implies is_digit(
            #[trigger] s.drop_last()[i],
        ) by {
            assert(s.drop_last()[i] == s[i]);
        }
        lemma_digits_val_bound(s.drop_last());
    }
}

/// End of the maximal digit run starting at `i`.
pub open spec fn run_end(s: Seq<u8>, i: int) -> int
    decreases s.len() - i,
{
    if 0 <= i < s.len() && is_digit(s[i]) {
        run_end(s, i + 1)
    } else {
        i
    }
}

/// End of the maximal letter run starting at `i`.
pub open spec fn alpha_end(s: Seq<u8>, i: int) -> int
    decreases s.len() - i,
{
    if 0 <= i < s.len() && is_alpha(s[i]) {
        alpha_end(s, i + 1)
    } else {
        i
    }
}

pub proof fn lemma_run_end(s: Seq<u8>, i: int)
    requires
        0 <= i <= s.len(),
    ensures
        i <= run_end(s, i) <= s.len(),
        forall|k: int| i <= k < run_end(s, i) ==> is_digit(#[trigger] s[k]),
        run_end(s, i) < s.len() ==> !is_digit(s[run_end(s, i)]),
    decreases s.len() - i,
{
    if i < s.len() && is_digit(s[i]) {
        lemma_run_end(s, i + 1);
    }
}

pub proof fn lemma_alpha_end(s: Seq<u8>, i: int)
    requires
        0 <= i <= s.len(),
    ensures
        i <= alpha_end(s, i) <= s.len(),
        forall|k: int| i <= k < alpha_end(s, i) ==> is_alpha(#[trigger] s[k]),
        alpha_end(s, i) < s.len() ==> !is_alpha(s[alpha_end(s, i)]),
    decreases s.len() - i,
{
    if i < s.len() && is_alpha(s[i]) {
        lemma_alpha_end(s, i + 1);
    }
}

/// Find the end of the maximal digit run starting at `i`.
pub fn run_end_exec(s: &[u8], i: usize) -> (r: usize)
    requires
        i <= s@.len(),
    ensures
        r == run_end(s@, i as int),
        i <= r <= s@.len(),
{
    proof {
        lemma_run_end(s@, i as int);
    }
    let mut j: usize = i;
    while j < s.len() && 48 <= s[j] && s[j] <= 57
        invariant
            i <= j <= s@.len(),
            run_end(s@, i as int) == run_end(s@, j as int),
        decreases s@.len() - j,
    {
        j = j + 1;
    }
    j
}

/// Find the end of the maximal letter run starting at `i`.
pub fn alpha_end_exec(s: &[u8], i: usize) -> (r: usize)
    requires
        i <= s@.len(),
    ensures
        r == alpha_end(s@, i as int),
        i <= r <= s@.len(),
{
    proof {
        lemma_alpha_end(s@, i as int);
    }
    let mut j: usize = i;
    while j < s.len() && ((65 <= s[j] && s[j] <= 90) || (97 <= s[j] && s[j] <= 122))
        invariant
            i <= j <= s@.len(),
            alpha_end(s@, i as int) == alpha_end(s@, j as int),
        decreases s@.len() - j,
    {
        j = j + 1;
    }
    j
}

/// Number of whitespace-separated tokens in `s[i..]`, counted by their
/// starting positions.
pub open spec fn token_count(s: Seq<u8>, i: int) -> int
    decreases s.len() - i,
{
    if i < 0 || i >= s.len() {
        0
    } else {
        (if !is_space(s[i]) && (i == 0 || is_space(s[i - 1])) {
            1int
        } else {
            0int
        }) + token_count(s, i + 1)
    }
}

/// Count the whitespace-separated tokens of the text.
pub fn count_tokens(s: &[u8]) -> (r: usize)
    ensures
        r == token_count(s@, 0),
{
    let mut count: usize = 0;
    let mut i: usize = 0;
    while i < s.len()
        invariant
            i <= s@.len(),
            count <= i,
            count + token_count(s@, i as int) == token_count(s@, 0),
        decreases s@.len() - i,
    {
        let c = s[i];
        let starts = !(c == 32 || c == 9 || c == 10 || c == 13 || c == 11 || c == 12) && (i == 0 || {
            let p = s[i - 1];
            p == 32 || p == 9 || p == 10 || p == 13 || p == 11 || p == 12
        });
        if starts {
            count = count + 1;
        }
        i = i + 1;
    }
    count
}


/// Ten to a power is at least one and grows with the exponent.
pub proof fn lemma_pow10_mono(m: nat, n: nat)
    requires
        m <= n,
    ensures
        1 <= pow10(m) <= pow10(n),
    decreases n,
{
    if m == n {
        if n > 0 {
            lemma_pow10_mono((n - 1) as nat, (n - 1) as nat);
        }
    } else {
        lemma_pow10_mono(m, (n - 1) as nat);
    }
}

/// Read an unsigned run of at most sixteen digits as an `i64`; such a
/// value always fits.
pub fn digits_span_val(s: &[u8], a: usize, b: usize) -> (r: i64)
    requires
        a <= b <= s@.len(),
        b - a <= 16,
        all_digits(s@.subrange(a as int, b as int)),
    ensures
        r == digits_val(s@.subrange(a as int, b as int)),
{
    let ghost t = s@.subrange(a as int, b as int);
    let mut acc: i64 = 0;
    let mut i: usize = a;
    while i < b
        invariant
            a <= i <= b,
            acc == digits_val(s@.subrange(a as int, i as int)),
        decreases b - i,
    {
        let ghost pre = s@.subrange(a as int, i as int);
        proof {
            assert forall|k: int| 0 <= k < pre.len() implies is_digit(#[trigger] pre[k]) by {
                assert(pre[k] == t[k]);
            }
            lemma_digits_val_bound(pre);
            lemma_pow10_mono(pre.len(), 15);
            reveal_with_fuel(pow10, 16);
            assert(acc < 1_000_000_000_000_000);
        }
        let c = s[i];
        proof {
            assert(t[i - a] == c);
            let post = s@.subrange(a as int, i + 1 as int);
            assert(post.drop_last() =~= pre);
            assert(post.last() == c);
        }
        acc = acc * 10 + ((c - 48) as i64);
        i = i + 1;
    }
    proof {
        assert(s@.subrange(a as int, i as int) =~= t);
    }
    acc
}

/// The span, interpreted as signed decimal text, parses and fits an `i32`.
pub open spec fn span_parses(s: Seq<u8>, sp: (usize, usize)) -> bool {
    let t = s.subrange(sp.0 as int, sp.1 as int);
    is_int_text(t) && i32::MIN <= int_text_val(t) <= i32::MAX
}

/// The parsed value of an optional capture span.
pub open spec fn span_int(s: Seq<u8>, c: Option<(usize, usize)>) -> Option<i32> {
    match c {
        None => None,
        Some(sp) => Some(int_text_val(s.subrange(sp.0 as int, sp.1 as int)) as i32),
    }
}

/// The parsed values of a capture list.
pub open spec fn caps_ints(s: Seq<u8>, caps: Seq<Option<(usize, usize)>>) -> Seq<Option<i32>> {
    Seq::new(caps.len(), |k: int| span_int(s, caps[k]))
}

/// Every present capture parses and fits an `i32`.
pub open spec fn caps_all_parse(s: Seq<u8>, caps: Seq<Option<(usize, usize)>>) -> bool {
    forall|k: int|
        0 <= k < caps.len() ==> (#[trigger] caps[k] matches Some(sp) ==> span_parses(s, sp))
}

/// The sign of an integer: 1, 0 or -1.
pub open spec fn sig(v: int) -> int {
    if v > 0 {
        1
    } else if v < 0 {
        -1
    } else {
        0
    }
}

/// Read the bytes `s[a..b]` as a signed decimal `i32`, exactly as Rust's
/// integer parsing would: an optional sign, then at least one digit, and the
/// value must fit the type.
pub fn parse_i32_span(s: &[u8], a: usize, b: usize) -> (r: Option<i32>)
    requires
        a <= b <= s@.len(),
    ensures
        r.is_some() <==> span_parses(s@, (a, b)),
        r.is_some() ==> r == Some((int_text_val(s@.subrange(a as int, b as int)) as i32)),
{
    let ghost t = s@.subrange(a as int, b as int);
    if a == b {
        return None;
    }
    let mut start: usize = a;
    let mut negative: bool = false;
    if s[a] == 43 {
        start = a + 1;
    } else if s[a] == 45 {
        start = a + 1;
        negative = true;
    }
    if start == b {
        return None;
    }
    let ghost d = s@.subrange(start as int, b as int);
    proof {
        if start > a {
            assert(d =~= t.subrange(1, t.len() as int));
        } else {
            assert(d =~= t);
        }
    }
    // Accumulate the magnitude; once it exceeds the largest magnitude an
    // `i32` can hold, only digit validity still matters.
    let mut acc: u64 = 0;
    let mut big: bool = false;
    let mut i: usize = start;
    while i < b
        invariant
            start <= i <= b <= s@.len(),
            d == s@.subrange(start as int, b as int),
            all_digits(s@.subrange(start as int, i as int)),
            !big ==> acc == digits_val(s@.subrange(start as int, i as int)) && acc <= 2147483648,
            big ==> digits_val(s@.subrange(start as int, i as int)) > 2147483648,
        decreases b - i,
    {
        let c = s[i];
        if !(48 <= c && c <= 57) {
            proof {
                assert(d[i - start] == c);
                assert(!all_digits(d));
                assert(t[0] == s@[a as int]);
                assert(!is_int_text(t));
            }
            return None;
        }
        let ghost pre = s@.subrange(start as int, i as int);
        let ghost post = s@.subrange(start as int, i + 1 as int);
        proof {
            assert(post.drop_last() =~= pre);
            assert(post.last() == c);
            assert(digits_val(post) == digits_val(pre) * 10 + (c - 48));
            assert forall|k: int| 0 <= k < post.len() implies is_digit(#[trigger] post[k]) by {
                if k < pre.len() {
                    assert(post[k] == pre[k]);
                }
            }
        }
        if big {
            proof {
                lemma_digits_val_nonneg(pre);
            }
        } else {
            acc = acc * 10 + ((c - 48) as u64);
            if acc > 2147483648 {
                big = true;
            }
        }
        i = i + 1;
    }
    assert(s@.subrange(start as int, i as int) =~= d);
    if big {
        return None;
    }
    proof {
        lemma_digits_val_nonneg(d);
    }
    if negative {
        Some((-(acc as i64)) as i32)
    } else {
        if acc <= 2147483647 {
            Some(acc as i32)
        } else {
            None
        }
    }
}

/// Parse each capture span of a match into an `i32`, keeping absent captures
/// absent; any capture whose text does not fit an `i32` rejects the whole
/// match.
pub fn matches_to_vecint(s: &[u8], caps: &Vec<Option<(usize, usize)>>) -> (r: Result<
    Vec<Option<i32>>,
    Error,
>)
    requires
        forall|i: int|
            0 <= i < caps@.len() ==> (#[trigger] caps@[i] matches Some(sp) ==> sp.0 <= sp.1
                <= s@.len()),
    ensures
        r matches Ok(v) ==> v@.len() == caps@.len() && forall|i: int|
            0 <= i < caps@.len() ==> #[trigger] v@[i] == span_int(s@, caps@[i]),
        r.is_ok() <==> (forall|i: int|
            0 <= i < caps@.len() ==> (#[trigger] caps@[i] matches Some(sp) ==> span_parses(
                s@,
                sp,
            ))),
        r matches Err(e) ==> e == Error::InvalidTimestamp,
{
    let mut out: Vec<Option<i32>> = Vec::new();
    let mut i: usize = 0;
    while i < caps.len()
        invariant
            i <= caps@.len(),
            out@.len() == i,
            forall|k: int| 0 <= k < i ==> #[trigger] out@[k] == span_int(s@, caps@[k]),
            forall|k: int|
                0 <= k < i ==> (#[trigger] caps@[k] matches Some(sp) ==> span_parses(s@, sp)),
            forall|k: int|
                0 <= k < caps@.len() ==> (#[trigger] caps@[k] matches Some(sp) ==> sp.0 <= sp.1
                    <= s@.len()),
        decreases caps@.len() - i,
    {
        match caps[i] {
            None => {
                out.push(None);
            },
            Some((a, b)) => {
                match parse_i32_span(s, a, b) {
                    Some(v) => {
                        out.push(Some(v));
                    },
                    None => {
                        return Err(Error::InvalidTimestamp);
                    },
                }
            },
        }
        i = i + 1;
    }
    Ok(out)
}

/// Weighted sum of the first `n` present components against the table.
pub open spec fn weighted_sum(data: Seq<Option<i32>>, table: Seq<i32>, n: int) -> int
    decreases n,
{
    if n <= 0 {
        0
    } else {
        weighted_sum(data, table, n - 1) + (match data[n - 1] {
            Some(c) => c * table[n - 1],
            None => 0int,
        })
    }
}

/// Every step of the multiply-and-sum over the first `n` components stays
/// within `i32` and finds its table entry.
pub open spec fn mbp_ok(data: Seq<Option<i32>>, table: Seq<i32>, n: int) -> bool
    decreases n,
{
    if n <= 0 {
        true
    } else {
        mbp_ok(data, table, n - 1) && (match data[n - 1] {
            None => true,
            Some(c) => n - 1 < table.len() && i32::MIN <= c * table[n - 1] <= i32::MAX && i32::MIN
                <= weighted_sum(data, table, n) <= i32::MAX,
        })
    }
}

pub proof fn lemma_mbp_ok_prefix(data: Seq<Option<i32>>, table: Seq<i32>, m: int, n: int)
    requires
        m <= n,
        mbp_ok(data, table, n),
    ensures
        mbp_ok(data, table, m),
    decreases n - m,
{
    if m < n {
        lemma_mbp_ok_prefix(data, table, m, n - 1);
    }
}

/// Multiply each present component by the table entry at its position and
/// sum the results, rejecting any step that leaves `i32` range.
pub fn multiply_by_position(data: &[Option<i32>], table: &[i32]) -> (r: Result<i32, Error>)
    ensures
        r matches Ok(v) ==> mbp_ok(data@, table@, data@.len() as int) && v == weighted_sum(
            data@,
            table@,
            data@.len() as int,
        ),
        r.is_ok() <==> mbp_ok(data@, table@, data@.len() as int),
        r matches Err(e) ==> (e == Error::DurationTooLong || e == Error::InvalidTimestamp),
        (r.is_err() && (forall|i: int|
            0 <= i < data@.len() ==> (#[trigger] data@[i] matches Some(c) ==> i
                < table@.len()))) ==> r == Err::<i32, Error>(Error::DurationTooLong),
{
    let mut amount: i32 = 0;
    let mut i: usize = 0;
    while i < data.len()
        invariant
            i <= data@.len(),
            mbp_ok(data@, table@, i as int),
            amount == weighted_sum(data@, table@, i as int),
        decreases data@.len() - i,
    {
        if let Some(c) = data[i] {
            if i >= table.len() {
                proof {
                    if mbp_ok(data@, table@, data@.len() as int) {
                        lemma_mbp_ok_prefix(data@, table@, i + 1, data@.len() as int);
                    }
                }
                return Err(Error::InvalidTimestamp);
            }
            let m = match c.checked_mul(table[i]) {
                Some(m) => m,
                None => {
                    proof {
                        if mbp_ok(data@, table@, data@.len() as int) {
                            lemma_mbp_ok_prefix(data@, table@, i + 1, data@.len() as int);
                        }
                    }
                    return Err(Error::DurationTooLong);
                },
            };
            let a2 = match amount.checked_add(m) {
                Some(a2) => a2,
                None => {
                    proof {
                        if mbp_ok(data@, table@, data@.len() as int) {
                            lemma_mbp_ok_prefix(data@, table@, i + 1, data@.len() as int);
                        }
                    }
                    return Err(Error::DurationTooLong);
                },
            };
            amount = a2;
        }
        i = i + 1;
    }
    Ok(amount)
}

} // verus!

//! Matcher for the relative-duration grammar: optional components for
//! years, months, weeks, days, hours, minutes and seconds, in that order,
//! each written as digits, a unit marker, and optional trailing letters
//! (`2y`, `3mo`, `2years3months`). The unit markers are `y`/`Y`, `M`/`mo`,
//! `w`/`W`, `d`/`D`, `h`/`H`, `m`, `s`/`S`; only months and minutes share a
//! letter, and a `mo` marker means months while they are still available,
//! else minutes followed by a trailing letter.

use vstd::prelude::*;

use crate::scan::{alpha_end, run_end};

verus! {

/// Which component group a unit marker starting at `de` (letters running
/// to `ae`) selects, with groups below `g` already spent: 0 years,
/// 1 months, 2 weeks, 3 days, 4 hours, 5 minutes, 6 seconds.
pub open spec fn unit_group(s: Seq<u8>, de: int, ae: int, g: int) -> Option<int> {
    let c = s[de];
    if c == 121 || c == 89 {
        if g <= 0 {
            Some(0int)
        } else {
            None
        }
    } else if c == 77 {
        if g <= 1 {
            Some(1int)
        } else {
            None
        }
    } else if c == 109 {
        if de + 1 < ae && s[de + 1] == 111 && g <= 1 {
            Some(1int)
        } else if g <= 5 {
            Some(5int)
        } else {
            None
        }
    } else if c == 119 || c == 87 {
        if g <= 2 {
            Some(2int)
        } else {
            None
        }
    } else if c == 100 || c == 68 {
        if g <= 3 {
            Some(3int)
        } else {
            None
        }
    } else if c == 104 || c == 72 {
        if g <= 4 {
            Some(4int)
        } else {
            None
        }
    } else if c == 115 || c == 83 {
        if g <= 6 {
            Some(6int)
        } else {
            None
        }
    } else {
        None
    }
}

/// Parse the relative-duration text from position `i` with the component
/// groups below `g` spent: the rest of the text is a sequence of digit
/// runs, each followed by a letter run that starts with a unit marker of a
/// still-available group. Yields the seven capture spans (the digit run of
/// each component), or nothing when the text does not fit the grammar.
pub open spec fn rel_parse(s: Seq<u8>, i: int, g: int) -> Option<Seq<Option<(usize, usize)>>>
    decreases 7 - g,
{
    if i >= s.len() {
        Some(Seq::new(7, |k: int| None::<(usize, usize)>))
    } else if g >= 7 {
        None
    } else {
        let de = run_end(s, i);
        let ae = alpha_end(s, de);
        if de == i || ae == de {
            None
        } else {
            match unit_group(s, de, ae, g) {
                None => None,
                Some(gg) => match rel_parse(s, ae, gg + 1) {
                    None => None,
                    Some(rest) => Some(rest.update(gg, Some((i as usize, de as usize)))),
                },
            }
        }
    }
}

/// A successful relative-duration parse always yields seven spans, each
/// within the text.
pub proof fn lemma_rel_parse_wf(s: Seq<u8>, i: int, g: int)
    requires
        0 <= i <= s.len() <= usize::MAX,
        0 <= g <= 7,
    ensures
        rel_parse(s, i, g) matches Some(sp) ==> sp.len() == 7 && forall|k: int|
            0 <= k < 7 ==> (#[trigger] sp[k] matches Some(p) ==> p.0 <= p.1 <= s.len()),
    decreases 7 - g,
{
    if i >= s.len() {
    } else if g >= 7 {
    } else {
        let de = run_end(s, i);
        let ae = alpha_end(s, de);
        crate::scan::lemma_run_end(s, i);
        crate::scan::lemma_alpha_end(s, de);
        if de != i && ae != de {
            match unit_group(s, de, ae, g) {
                None => {},
                Some(gg) => {
                    lemma_rel_parse_wf(s, ae, gg + 1);
                    if rel_parse(s, ae, gg + 1) is Some {
                        let rest = rel_parse(s, ae, gg + 1)->0;
                        let sp = rest.update(gg, Some((i as usize, de as usize)));
                        assert forall|k: int|
                            0 <= k < 7 implies (#[trigger] sp[k] matches Some(p) ==> p.0 <= p.1
                            <= s.len()) by {
                            if k != gg {
                                assert(sp[k] == rest[k]);
                            }
                        }
                    }
                },
            }
        }
    }
}

fn rel_parse_from(s: &[u8], i: usize, g: usize) -> (r: Option<Vec<Option<(usize, usize)>>>)
    requires
        i <= s@.len(),
        g <= 7,
    ensures
        r is Some <==> rel_parse(s@, i as int, g as int) is Some,
        r matches Some(v) ==> Some(v@) == rel_parse(s@, i as int, g as int),
    decreases 7 - g,
{
    if i == s.len() {
        let mut v: Vec<Option<(usize, usize)>> = Vec::new();
        v.push(None);
        v.push(None);
        v.push(None);
        v.push(None);
        v.push(None);
        v.push(None);
        v.push(None);
        assert(v@ =~= Seq::new(7, |k: int| None::<(usize, usize)>));
        return Some(v);
    }
    if g >= 7 {
        return None;
    }
    let de = crate::scan::run_end_exec(s, i);
    if de == i {
        return None;
    }
    let ae = crate::scan::alpha_end_exec(s, de);
    if ae == de {
        return None;
    }
    let c = s[de];
    let gg: usize;
    if c == 121 || c == 89 {
        if g <= 0 {
            gg = 0;
        } else {
            return None;
        }
    } else if c == 77 {
        if g <= 1 {
            gg = 1;
        } else {
            return None;
        }
    } else if c == 109 {
        if de + 1 < ae && s[de + 1] == 111 && g <= 1 {
            gg = 1;
        } else if g <= 5 {
            gg = 5;
        } else {
            return None;
        }
    } else if c == 119 || c == 87 {
        if g <= 2 {
            gg = 2;
        } else {
            return None;
        }
    } else if c == 100 || c == 68 {
        if g <= 3 {
            gg = 3;
        } else {
            return None;
        }
    } else if c == 104 || c == 72 {
        if g <= 4 {
            gg = 4;
        } else {
            return None;
        }
    } else if c == 115 || c == 83 {
        if g <= 6 {
            gg = 6;
        } else {
            return None;
        }
    } else {
        return None;
    }
    match rel_parse_from(s, ae, gg + 1) {
        None => None,
        Some(mut v) => {
            proof {
                lemma_rel_parse_wf(s@, ae as int, gg + 1 as int);
            }
            v.set(gg, Some((i, de)));
            Some(v)
        },
    }
}

/// Match the whole text against the relative-duration grammar and return
/// the seven capture spans.
pub fn try_relative(s: &[u8]) -> (r: Option<Vec<Option<(usize, usize)>>>)
    ensures
        r is Some <==> rel_parse(s@, 0, 0) is Some,
        r matches Some(v) ==> Some(v@) == rel_parse(s@, 0, 0),
{
    rel_parse_from(s, 0, 0)
}

} // verus!

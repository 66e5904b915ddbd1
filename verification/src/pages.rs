//! Pagination of listing entries: chunking into pages of eight, and the
//! wrap-around page navigation the listing's buttons drive.

use vstd::prelude::*;

verus! {

/// A listing page holds at most eight entries.
pub const PAGE_ITEMS: usize = 8;

/// Split the entries into pages of eight, the last page holding the
/// remainder; every entry keeps its position.
pub fn chunk_pages(items: Vec<String>) -> (pages: Vec<Vec<String>>)
    ensures
        items@.len() == 0 ==> pages@.len() == 0,
        items@.len() > 0 ==> pages@.len() == (items@.len() + 7) / 8,
        forall|p: int|
            0 <= p < pages@.len() ==> (#[trigger] pages@[p])@.len() == (if 8 * p + 8
                <= items@.len() {
                8int
            } else {
                items@.len() - 8 * p
            }),
        forall|p: int, j: int|
            0 <= p < pages@.len() && 0 <= j < pages@[p]@.len() ==> pages@[p]@[j] == items@[8 * p
                + j],
{
    let n = items.len();
    let mut rest = items;
    let mut pages: Vec<Vec<String>> = Vec::new();
    let mut cur: Vec<String> = Vec::new();
    let mut done: usize = 0;
    while done < n
        invariant
            done <= n == items@.len(),
            rest@ == items@.subrange(done as int, n as int),
            done == 8 * pages@.len() + cur@.len(),
            cur@.len() < 8,
            forall|p: int| 0 <= p < pages@.len() ==> (#[trigger] pages@[p])@.len() == 8,
            forall|p: int, j: int|
                0 <= p < pages@.len() && 0 <= j < 8 ==> pages@[p]@[j] == items@[8 * p + j],
            forall|j: int| 0 <= j < cur@.len() ==> cur@[j] == items@[8 * pages@.len() + j],
        decreases n - done,
    {
        let item = rest.remove(0);
        proof {
            assert(item == items@[done as int]);
            assert(rest@ =~= items@.subrange(done + 1 as int, n as int));
        }
        cur.push(item);
        done = done + 1;
        if cur.len() == 8 {
            pages.push(cur);
            cur = Vec::new();
        }
    }
    if cur.len() > 0 {
        pages.push(cur);
    }
    pages
}

/// An out-of-range starting page begins at the first page.
pub fn wrap_page(page: usize, len: usize) -> (r: usize)
    ensures
        r == (if page >= len {
            0int
        } else {
            page as int
        }),
{
    if page >= len {
        0
    } else {
        page
    }
}

/// The page after this one, wrapping to the first past the end.
pub fn next_page(page: usize, len: usize) -> (r: usize)
    requires
        page < len,
    ensures
        r == (if page + 1 >= len {
            0int
        } else {
            page + 1
        }),
{
    if page + 1 >= len {
        0
    } else {
        page + 1
    }
}

/// The page before this one, wrapping to the last before the first.
pub fn prev_page(page: usize, len: usize) -> (r: usize)
    requires
        page < len,
    ensures
        r == (if page == 0 {
            len - 1
        } else {
            page - 1
        }),
{
    if page == 0 {
        len - 1
    } else {
        page - 1
    }
}

} // verus!

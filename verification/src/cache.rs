//! The next-due cache: one process-wide slot naming the due instant of the
//! earliest-due active reminder, best effort. The store stays the single
//! source of truth; the cache is a hint that every code path may safely
//! ignore or clear, and the sweep recomputes it whenever it is empty.
//! The unverified edge serialises access behind one lock, held only for
//! these in-memory updates, never across I/O.

use vstd::prelude::*;

verus! {

/// The single cached due instant, or nothing.
pub struct NextDueCache {
    pub next: Option<i64>,
}

impl NextDueCache {
    /// An empty cache; the process fills it from the store at startup.
    pub fn new() -> (c: NextDueCache)
        ensures
            c.next is None,
    {
        NextDueCache { next: None }
    }

    /// What the cache holds after a due instant is offered to it: the
    /// sooner of the offered instant and what it already held.
    pub open spec fn spec_offer(held: Option<i64>, t: i64) -> Option<i64> {
        match held {
            None => Some(t),
            Some(m) => if t < m {
                Some(t)
            } else {
                Some(m)
            },
        }
    }

    /// What the cache holds after the sweep reconciles it against a fresh
    /// query: adopted wholesale when the cache still names the instant the
    /// tick fired on, and otherwise only when the fresh instant is
    /// strictly sooner than the held one.
    pub open spec fn spec_reconcile(held: Option<i64>, trigger: i64, fresh: Option<i64>) -> Option<
        i64,
    > {
        match held {
            None => fresh,
            Some(m) => if m == trigger {
                fresh
            } else {
                match fresh {
                    None => held,
                    Some(f) => if f < m {
                        fresh
                    } else {
                        held
                    },
                }
            },
        }
    }

    /// Clear the hint unconditionally; the next sweep tick recomputes it
    /// from the store.
    pub fn invalidate(&mut self)
        ensures
            final(self).next is None,
    {
        self.next = None;
    }

    /// Adopt the freshly queried next due instant after a delivery, as
    /// `spec_reconcile` says, tolerating a creation or unfollow that
    /// raced with the sweep.
    pub fn reconcile(&mut self, trigger: i64, fresh: Option<i64>)
        ensures
            final(self).next == Self::spec_reconcile(old(self).next, trigger, fresh),
    {
        match self.next {
            None => {
                self.next = fresh;
            },
            Some(m) => {
                if m == trigger {
                    self.next = fresh;
                } else {
                    if let Some(f) = fresh {
                        if f < m {
                            self.next = fresh;
                        }
                    }
                }
            },
        }
    }
}

/// Offer a reminder's due instant to the cache: it keeps the sooner of the
/// offered instant and what it already holds.
pub fn cache_reminder(cache: &mut NextDueCache, r: i64)
    ensures
        final(cache).next == NextDueCache::spec_offer(old(cache).next, r),
{
    match cache.next {
        None => {
            cache.next = Some(r);
        },
        Some(m) => {
            if r < m {
                cache.next = Some(r);
            }
        },
    }
}

} // verus!

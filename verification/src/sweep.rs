//! The delivery sweep: each tick checks whether the cached next-due
//! instant has elapsed, resolves the earliest active reminder and its
//! recipients, and — after the unverified edge has attempted the direct
//! notifications — retires the reminder, routes unreachable recipients to
//! the guild's fallback channel, and reconciles the cache against a fresh
//! store query. The tick is split in two around the outside sends, so a
//! creation or unfollow may land in between; the cache never ends up past
//! the true earliest due instant, and never empty while work remains.

use vstd::prelude::*;

use crate::cache::NextDueCache;
use crate::store::{
    get_next_reminder_ts, lemma_min_due_upto, min_due_upto, user_ids_from_reminder_id, Store,
};

verus! {

/// Everything the edge needs to deliver one due reminder: where it came
/// from, who gets notified, and where unreachable recipients fall back to.
pub struct DeliveryPlan {
    pub reminder_id: i64,
    pub trigger_due: i64,
    pub due_at: i64,
    pub message_id: i64,
    pub channel_id: i64,
    pub guild_id: i64,
    pub fallback_channel: Option<i64>,
    pub recipients: Vec<i64>,
}

/// One combined fallback notification: the channel to post in and the
/// users to mention there.
pub struct FallbackNotice {
    pub channel: i64,
    pub mentions: Vec<i64>,
}

/// What a whole tick did: the plan it delivered and the fallback notice
/// it asks the edge to post, if any.
pub struct TickOutcome {
    pub plan: DeliveryPlan,
    pub fallback: Option<FallbackNotice>,
}

/// The instant that decides whether this tick acts: the cached hint, or a
/// fresh query when the cache is empty.
pub open spec fn tick_trigger(store: Store, cache: NextDueCache) -> Option<i64> {
    if cache.next is Some {
        cache.next
    } else {
        store.earliest_due()
    }
}

fn earliest_active_idx(store: &Store) -> (r: Option<usize>)
    ensures
        r is Some <==> store.has_active(),
        r matches Some(i) ==> i < store.reminders@.len() && store.reminders@[i as int].active
            && Some(store.reminders@[i as int].due_at) == store.earliest_due(),
{
    let n = store.reminders.len();
    let mut best: Option<usize> = None;
    let mut i: usize = 0;
    proof {
        lemma_min_due_upto(store.reminders@, n as int);
    }
    while i < n
        invariant
            i <= n == store.reminders@.len(),
            best is None ==> min_due_upto(store.reminders@, i as int) is None,
            best matches Some(b) ==> b < i && store.reminders@[b as int].active && Some(
                store.reminders@[b as int].due_at,
            ) == min_due_upto(store.reminders@, i as int),
        decreases n - i,
    {
        if store.reminders[i].active {
            best = match best {
                None => Some(i),
                Some(b) => {
                    if store.reminders[i].due_at < store.reminders[b].due_at {
                        Some(i)
                    } else {
                        Some(b)
                    }
                },
            };
        }
        i = i + 1;
    }
    best
}

/// Read the trigger and resolve the earliest-due active reminder with its
/// full delivery metadata. Nothing is changed: the edge attempts the
/// direct notifications next and then calls `sweep_finish`. A tick whose
/// trigger has not elapsed, or that finds no active reminder, does nothing.
pub fn sweep_begin(store: &Store, cache: &NextDueCache, now: i64) -> (r: Option<DeliveryPlan>)
    requires
        store.wf(),
        store.reminders@.len() < 1_000_000_000_000,
    ensures
        r is Some <==> (tick_trigger(*store, *cache) matches Some(g) && g <= now
            && store.has_active()),
        r matches Some(p) ==> {
            let rem = store.reminder_of(p.reminder_id as int);
            &&& Some(p.trigger_due) == tick_trigger(*store, *cache)
            &&& p.trigger_due <= now
            &&& store.active_id(p.reminder_id as int)
            &&& Some(p.due_at) == store.earliest_due()
            &&& p.due_at == rem.due_at
            &&& p.message_id == rem.message_id
            &&& p.channel_id == store.channels@[rem.channel as int].discord_id
            &&& p.guild_id == store.guilds@[rem.guild as int].discord_id
            &&& (match store.guilds@[rem.guild as int].fallback_channel {
                None => p.fallback_channel is None,
                Some(c) => p.fallback_channel == Some(
                    store.channels@[c as int].discord_id,
                ),
            })
            &&& p.recipients@.len() == rem.followers@.len()
            &&& (forall|k: int|
                0 <= k < rem.followers@.len() ==> p.recipients@[k] == store.users@[
                    #[trigger] rem.followers@[k] as int
                ].discord_id)
        },
{
    let trigger: Option<i64> = match cache.next {
        Some(t) => Some(t),
        None => get_next_reminder_ts(store),
    };
    let g = match trigger {
        Some(g) => g,
        None => {
            proof {
                lemma_min_due_upto(store.reminders@, store.reminders@.len() as int);
            }
            return None;
        },
    };
    if g > now {
        return None;
    }
    let idx = match earliest_active_idx(store) {
        Some(i) => i,
        None => {
            return None;
        },
    };
    let n = store.reminders.len();
    assert(idx < n);
    let rid = (idx + 1) as i64;
    proof {
        assert(store.active_id(rid as int));
    }
    let recipients = user_ids_from_reminder_id(store, rid);
    let rem = &store.reminders[idx];
    let fallback_channel: Option<i64> = match store.guilds[rem.guild].fallback_channel {
        None => None,
        Some(c) => Some(store.channels[c].discord_id),
    };
    Some(
        DeliveryPlan {
            reminder_id: rid,
            trigger_due: g,
            due_at: rem.due_at,
            message_id: rem.message_id,
            channel_id: store.channels[rem.channel].discord_id,
            guild_id: store.guilds[rem.guild].discord_id,
            fallback_channel,
            recipients,
        },
    )
}

/// Retire the delivered reminder, decide the fallback notice for the
/// recipients whose direct notification failed, and reconcile the cache
/// against a fresh query. Whatever raced with the tick, the cache never
/// ends up past the true earliest due instant and never empty while an
/// active reminder remains — no reminder is ever skipped.
pub fn sweep_finish(
    store: &mut Store,
    cache: &mut NextDueCache,
    reminder_id: i64,
    trigger_due: i64,
    fallback_channel: Option<i64>,
    dm_failed: &Vec<i64>,
) -> (r: Option<FallbackNotice>)
    requires
        old(store).wf(),
        old(store).valid_id(reminder_id as int),
    ensures
        final(store).wf(),
        forall|k: int|
            0 <= k < old(store).reminders@.len() ==> ((#[trigger] final(store).reminders@[k]).active
                ==> old(store).reminders@[k].active),
        final(store).users@ == old(store).users@,
        final(store).channels@ == old(store).channels@,
        final(store).guilds@ == old(store).guilds@,
        final(store).reminders@.len() == old(store).reminders@.len(),
        forall|k: int|
            0 <= k < old(store).reminders@.len() && k != reminder_id - 1 ==> final(store).reminders@[k] == old(store).reminders@[k],
        ({
            let orr = old(store).reminder_of(reminder_id as int);
            let nrr = final(store).reminder_of(reminder_id as int);
            &&& !nrr.active
            &&& nrr.due_at == orr.due_at
            &&& nrr.message == orr.message
            &&& nrr.created_at == orr.created_at
            &&& nrr.message_id == orr.message_id
            &&& nrr.channel == orr.channel
            &&& nrr.guild == orr.guild
            &&& nrr.followers@ == orr.followers@
        }),
        r is Some <==> dm_failed@.len() > 0 && fallback_channel is Some,
        r matches Some(f) ==> f.channel == fallback_channel->0 && f.mentions@ == dm_failed@,
        final(cache).next == NextDueCache::spec_reconcile(
            old(cache).next,
            trigger_due,
            final(store).earliest_due(),
        ),
        final(store).has_active() ==> final(cache).next is Some,
        (final(store).earliest_due() is Some && final(cache).next is Some)
            ==> final(cache).next->0 <= final(store).earliest_due()->0,
        (old(cache).next is None || old(cache).next == Some(trigger_due)) ==> final(cache).next
            == final(store).earliest_due(),
{
    let n = store.reminders.len();
    assert(reminder_id - 1 < n as int);
    let idx = ((reminder_id as u64) - 1) as usize;
    let rr = &mut store.reminders[idx];
    rr.active = false;
    proof {
        assert forall|i: int|
            0 <= i < store.reminders@.len() implies store.reminder_wf(
            #[trigger] store.reminders@[i],
        ) by {
            assert(old(store).reminder_wf(old(store).reminders@[i]));
        }
    }
    let fresh = get_next_reminder_ts(store);
    cache.reconcile(trigger_due, fresh);
    proof {
        lemma_min_due_upto(store.reminders@, store.reminders@.len() as int);
    }
    if dm_failed.len() > 0 {
        match fallback_channel {
            Some(c) => {
                let mentions = copy_ids(dm_failed);
                Some(FallbackNotice { channel: c, mentions })
            },
            None => None,
        }
    } else {
        None
    }
}

fn copy_ids(v: &Vec<i64>) -> (r: Vec<i64>)
    ensures
        r@ == v@,
{
    let n = v.len();
    let mut r: Vec<i64> = Vec::new();
    let mut i: usize = 0;
    while i < n
        invariant
            i <= n == v@.len(),
            r@ == v@.subrange(0, i as int),
        decreases n - i,
    {
        r.push(v[i]);
        proof {
            assert(r@ =~= v@.subrange(0, i + 1 as int));
        }
        i = i + 1;
    }
    proof {
        assert(r@ =~= v@);
    }
    r
}

/// The recipients that appear in the unreachable list, in recipient
/// order, among the first `n`.
pub open spec fn failed_upto(rec: Seq<i64>, dm: Seq<i64>, n: int) -> Seq<i64>
    decreases n,
{
    if n <= 0 {
        Seq::empty()
    } else {
        failed_upto(rec, dm, n - 1) + (if dm.contains(rec[n - 1]) {
            seq![rec[n - 1]]
        } else {
            Seq::empty()
        })
    }
}

fn failed_recipients(rec: &Vec<i64>, dm: &Vec<i64>) -> (r: Vec<i64>)
    ensures
        r@ == failed_upto(rec@, dm@, rec@.len() as int),
{
    let n = rec.len();
    let mut r: Vec<i64> = Vec::new();
    let mut i: usize = 0;
    while i < n
        invariant
            i <= n == rec@.len(),
            r@ == failed_upto(rec@, dm@, i as int),
        decreases n - i,
    {
        let mut hit: bool = false;
        let m = dm.len();
        let mut k: usize = 0;
        while k < m
            invariant
                k <= m == dm@.len(),
                i < n == rec@.len(),
                hit <==> exists|j: int| 0 <= j < k && dm@[j] == rec@[i as int],
            decreases m - k,
        {
            if dm[k] == rec[i] {
                hit = true;
            }
            k = k + 1;
        }
        if hit {
            r.push(rec[i]);
            proof {
                assert(r@ =~= failed_upto(rec@, dm@, i + 1 as int));
            }
        } else {
            proof {
                assert(r@ =~= failed_upto(rec@, dm@, i + 1 as int));
            }
        }
        i = i + 1;
    }
    r
}

/// One whole sweep tick, with the set of users whose direct notifications
/// fail given up front: read the trigger, resolve and retire the earliest
/// due reminder, decide the fallback notice, and leave the cache naming
/// exactly the store's next due instant.
pub fn check_reminders(store: &mut Store, cache: &mut NextDueCache, now: i64, dm_disabled: &Vec<
    i64,
>) -> (r: Option<TickOutcome>)
    requires
        old(store).wf(),
        old(store).reminders@.len() < 1_000_000_000_000,
    ensures
        final(store).wf(),
        forall|k: int|
            0 <= k < old(store).reminders@.len() ==> ((#[trigger] final(store).reminders@[k]).active
                ==> old(store).reminders@[k].active),
        r is Some <==> (tick_trigger(*old(store), *old(cache)) matches Some(g) && g <= now && old(
            store,
        ).has_active()),
        r is None ==> final(store).reminders@ == old(store).reminders@ && final(cache).next == old(
            cache,
        ).next,
        r matches Some(t) ==> {
            let orr = old(store).reminder_of(t.plan.reminder_id as int);
            &&& old(store).active_id(t.plan.reminder_id as int)
            &&& Some(t.plan.due_at) == old(store).earliest_due()
            &&& t.plan.due_at == orr.due_at
            &&& t.plan.trigger_due <= now
            &&& Some(t.plan.trigger_due) == tick_trigger(*old(store), *old(cache))
            &&& t.plan.recipients@.len() == orr.followers@.len()
            &&& (forall|k: int|
                0 <= k < orr.followers@.len() ==> t.plan.recipients@[k] == old(store).users@[
                    #[trigger] orr.followers@[k] as int
                ].discord_id)
            &&& (match old(store).guilds@[orr.guild as int].fallback_channel {
                None => t.plan.fallback_channel is None,
                Some(c) => t.plan.fallback_channel == Some(
                    old(store).channels@[c as int].discord_id,
                ),
            })
            &&& ({
                let nrr = final(store).reminder_of(t.plan.reminder_id as int);
                &&& !nrr.active
                &&& nrr.message == orr.message
                &&& nrr.due_at == orr.due_at
                &&& nrr.created_at == orr.created_at
                &&& nrr.message_id == orr.message_id
                &&& nrr.channel == orr.channel
                &&& nrr.guild == orr.guild
                &&& nrr.followers@ == orr.followers@
            })
            &&& (forall|k: int|
                0 <= k < old(store).reminders@.len() && k != t.plan.reminder_id - 1 ==> final(store).reminders@[k] == old(store).reminders@[k])
            &&& final(store).reminders@.len() == old(store).reminders@.len()
            &&& (t.fallback is Some <==> failed_upto(
                t.plan.recipients@,
                dm_disabled@,
                t.plan.recipients@.len() as int,
            ).len() > 0 && t.plan.fallback_channel is Some)
            &&& (t.fallback matches Some(f) ==> f.channel == t.plan.fallback_channel->0
                && f.mentions@ == failed_upto(
                t.plan.recipients@,
                dm_disabled@,
                t.plan.recipients@.len() as int,
            ))
            &&& final(cache).next == final(store).earliest_due()
        },
{
    let plan = match sweep_begin(store, cache, now) {
        Some(p) => p,
        None => {
            return None;
        },
    };
    let failed = failed_recipients(&plan.recipients, dm_disabled);
    let fallback = sweep_finish(
        store,
        cache,
        plan.reminder_id,
        plan.trigger_due,
        plan.fallback_channel,
        &failed,
    );
    Some(TickOutcome { plan, fallback })
}

} // verus!

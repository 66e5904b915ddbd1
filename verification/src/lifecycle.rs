//! The reminder lifecycle: create, follow and unfollow, each keeping the
//! next-due cache coherent with the store. A reminder needs a follower to
//! stay active; dropping the last follower retires it for good.

use vstd::prelude::*;

use crate::cache::{cache_reminder, NextDueCache};
use crate::errors::Error;
use crate::offset::{off_result, parse_utc_offset};
use crate::parse::{parse_timestamp, spec_parse};
use crate::store::{
    author_active_count, check_author_reminder_count, ensure_guild_in_db, ensure_user_in_db,
    get_author_utc_offset,
    get_internal_user_id, get_internal_channel_id, get_internal_guild_id, get_next_reminder_ts,
    reminder_exists_and_active, spec_force_guild_id, force_guild_id, user_ids_from_reminder_id,
    guild_from_reminder_id, Reminder, Store,
};
use vstd::string::StringExecFns;

verus! {

/// A reminder may live at most 34,560,000 seconds (about 400 days) into
/// the future.
pub const MAX_REMINDER_SECONDS: i64 = 34560000;

/// The bytes a caller handed over, if any.
pub open spec fn opt_view(o: Option<&[u8]>) -> Option<Seq<u8>> {
    match o {
        None => None,
        Some(t) => Some(t@),
    }
}

/// The UTC offset a creation runs under: the parsed override when one is
/// given, else the author's stored preference.
pub open spec fn offset_for(store: Store, author: i64, override_text: Option<Seq<u8>>) -> Result<
    i32,
    Error,
> {
    match override_text {
        Some(t) => off_result(t),
        None => Ok(store.stored_offset(author)),
    }
}

/// What creating a reminder decides, before any row is written: the due
/// instant, or the exact reason the request is rejected — too many active
/// reminders, a bad offset or timestamp text, an instant beyond the
/// horizon, or one not in the future.
pub open spec fn remindme_plan(
    store: Store,
    author: i64,
    text: Seq<u8>,
    override_text: Option<Seq<u8>>,
    now: int,
) -> Result<i64, Error> {
    if author_active_count(store, author, store.reminders@.len() as int) >= 25 {
        Err(Error::TooManyReminders)
    } else {
        match offset_for(store, author, override_text) {
            Err(e) => Err(e),
            Ok(off) => match spec_parse(text, off as int, now) {
                Err(e) => Err(e),
                Ok(due) => if due > now + 34560000 {
                    Err(Error::ReminderTooFar)
                } else if due <= now {
                    Err(Error::ReminderInPast)
                } else {
                    Ok(due)
                },
            },
        }
    }
}

/// Create a reminder: validate the author's quota, the timestamp text and
/// the future/horizon bounds, record the identities involved, insert the
/// row with the author as its only follower, and offer the new due
/// instant to the cache. A rejected request writes no reminder row.
#[verifier::rlimit(100)]
pub fn remindme(
    store: &mut Store,
    cache: &mut NextDueCache,
    author: i64,
    channel: i64,
    guild: Option<i64>,
    message_id: i64,
    now: i64,
    timestamp: &[u8],
    message: Option<String>,
    offset: Option<&[u8]>,
) -> (r: Result<i64, Error>)
    requires
        old(store).wf(),
        0 <= now <= 1_000_000_000_000,
        old(store).reminders@.len() < 1_000_000_000_000,
    ensures
        final(store).wf(),
        forall|k: int|
            0 <= k < old(store).reminders@.len() ==> ((#[trigger] final(store).reminders@[k]).active
                ==> old(store).reminders@[k].active),
        r is Err <==> remindme_plan(*old(store), author, timestamp@, opt_view(offset), now as int)
            is Err,
        r matches Err(e) ==> remindme_plan(
            *old(store),
            author,
            timestamp@,
            opt_view(offset),
            now as int,
        ) == Err::<i64, Error>(e),
        r is Err ==> final(store).reminders@ == old(store).reminders@ && final(cache).next == old(
            cache,
        ).next,
        r matches Ok(id) ==> ({
            let plan = remindme_plan(
                *old(store),
                author,
                timestamp@,
                opt_view(offset),
                now as int,
            );
            let nr = final(store).reminders@.last();
            &&& plan matches Ok(due)
            &&& id == old(store).reminders@.len() + 1
            &&& final(store).reminders@.len() == old(store).reminders@.len() + 1
            &&& (forall|k: int|
                0 <= k < old(store).reminders@.len() ==> final(store).reminders@[k] == old(
                    store,
                ).reminders@[k])
            &&& nr.due_at == plan->Ok_0
            &&& now < nr.due_at <= now + 34560000
            &&& nr.created_at == now
            &&& nr.message_id == message_id
            &&& nr.active
            &&& nr.followers@.len() == 1
            &&& final(store).users@[nr.followers@[0] as int].discord_id == author
            &&& final(store).channels@[nr.channel as int].discord_id == channel
            &&& final(store).guilds@[nr.guild as int].discord_id == spec_force_guild_id(guild)
            &&& (old(store).has_guild(spec_force_guild_id(guild))
                ==> final(store).guilds@ == old(store).guilds@)
            &&& (!old(store).has_guild(spec_force_guild_id(guild)) ==> ((guild is Some
                ==> (final(store).guilds@[nr.guild as int].fallback_channel matches Some(c)
                    && c < final(store).channels@.len()
                    && final(store).channels@[c as int].discord_id == channel)) && (guild is None
                ==> final(store).guilds@[nr.guild as int].fallback_channel is None)))
            &&& (message matches Some(m) ==> nr.message == m)
            &&& (message is None ==> nr.message@ == "something"@)
            &&& final(cache).next == NextDueCache::spec_offer(old(cache).next, plan->Ok_0)
        }),
{
    if let Err(e) = check_author_reminder_count(store, author) {
        return Err(e);
    }
    let parsed_offset: i32 = match offset {
        Some(text) => {
            match parse_utc_offset(text) {
                Ok(v) => v,
                Err(e) => {
                    return Err(e);
                },
            }
        },
        None => get_author_utc_offset(store, author),
    };
    let unix_timestamp = match parse_timestamp(timestamp, parsed_offset, now) {
        Ok(t) => t,
        Err(e) => {
            return Err(e);
        },
    };
    if unix_timestamp > now + MAX_REMINDER_SECONDS {
        return Err(Error::ReminderTooFar);
    }
    if unix_timestamp <= now {
        return Err(Error::ReminderInPast);
    }
    let msg: String = match message {
        Some(m) => m,
        None => String::from_str("something"),
    };
    let i_user = get_internal_user_id(store, author);
    let i_channel = get_internal_channel_id(store, channel);
    let ghost mid = *store;
    let i_guild = get_internal_guild_id(store, guild, channel);
    proof {
        // only the user and channel tables changed so far, so the guild
        // was known at entry exactly when it was known just now
        let gid = spec_force_guild_id(guild);
        assert(mid.guilds@ == old(store).guilds@);
        if old(store).has_guild(gid) {
            let w = choose|i: int|
                0 <= i < old(store).guilds@.len() && (#[trigger] old(
                    store,
                ).guilds@[i]).discord_id == gid;
            assert(mid.guilds@[w].discord_id == gid);
            assert(mid.has_guild(gid));
        }
        if mid.has_guild(gid) {
            let w = choose|i: int|
                0 <= i < mid.guilds@.len() && (#[trigger] mid.guilds@[i]).discord_id == gid;
            assert(old(store).guilds@[w].discord_id == gid);
            assert(old(store).has_guild(gid));
        }
    }
    let followers: Vec<usize> = vec![i_user];
    store.reminders.push(
        Reminder {
            message: msg,
            due_at: unix_timestamp,
            created_at: now,
            message_id,
            active: true,
            channel: i_channel,
            guild: i_guild,
            followers,
        },
    );
    proof {
        assert forall|i: int|
            0 <= i < store.reminders@.len() implies store.reminder_wf(
            #[trigger] store.reminders@[i],
        ) by {
            if i < store.reminders@.len() - 1 {
                assert(old(store).reminder_wf(old(store).reminders@[i]));
            }
        }
    }
    cache_reminder(cache, unix_timestamp);
    Ok((store.reminders.len()) as i64)
}

/// The guild identity the reminder at row `i` belongs to.
pub open spec fn rem_guild_id(store: Store, i: int) -> i64 {
    store.guilds@[store.reminders@[i].guild as int].discord_id
}

/// Some active reminder belongs to the guild.
pub open spec fn guild_has_active(store: Store, gid: i64) -> bool {
    exists|i: int|
        0 <= i < store.reminders@.len() && (#[trigger] store.reminders@[i]).active && rem_guild_id(
            store,
            i,
        ) == gid
}

/// Row of the most recently created active reminder of the guild among
/// the first `n` rows, the later row winning ties.
pub open spec fn latest_guild_rem(store: Store, gid: i64, n: int) -> Option<int>
    decreases n,
{
    if n <= 0 {
        None
    } else {
        let rest = latest_guild_rem(store, gid, n - 1);
        if store.reminders@[n - 1].active && rem_guild_id(store, n - 1) == gid && (rest is None
            || store.reminders@[n - 1].created_at >= store.reminders@[rest->0].created_at) {
            Some(n - 1)
        } else {
            rest
        }
    }
}

fn latest_guild_reminder(store: &Store, gid: i64) -> (r: Option<usize>)
    requires
        store.wf(),
    ensures
        r is Some <==> latest_guild_rem(*store, gid, store.reminders@.len() as int) is Some,
        r matches Some(i) ==> latest_guild_rem(*store, gid, store.reminders@.len() as int) == Some(
            i as int,
        ),
{
    let n = store.reminders.len();
    let mut best: Option<usize> = None;
    let mut i: usize = 0;
    while i < n
        invariant
            i <= n == store.reminders@.len(),
            store.wf(),
            best is Some <==> latest_guild_rem(*store, gid, i as int) is Some,
            best matches Some(b) ==> latest_guild_rem(*store, gid, i as int) == Some(b as int) && b
                < i,
        decreases n - i,
    {
        if store.reminders[i].active && store.guilds[store.reminders[i].guild].discord_id == gid {
            best = match best {
                None => Some(i),
                Some(b) => {
                    if store.reminders[i].created_at >= store.reminders[b].created_at {
                        Some(i)
                    } else {
                        Some(b)
                    }
                },
            };
        }
        i = i + 1;
    }
    best
}

fn contains_i64(v: &Vec<i64>, x: i64) -> (r: bool)
    ensures
        r <==> exists|k: int| 0 <= k < v@.len() && v@[k] == x,
{
    let n = v.len();
    let mut i: usize = 0;
    while i < n
        invariant
            i <= n == v@.len(),
            forall|k: int| 0 <= k < i ==> v@[k] != x,
        decreases n - i,
    {
        if v[i] == x {
            return true;
        }
        i = i + 1;
    }
    false
}

/// Why following this reminder is refused, if it is: an unknown, expired
/// or foreign-guild reminder, or one the author already follows.
pub open spec fn follow_check(store: Store, author: i64, gid: i64, id: int) -> Result<(), Error> {
    if !store.active_id(id) {
        Err(Error::NotFoundOrExpired)
    } else if crate::store::follower_has_user(store, store.reminder_of(id), author) {
        Err(Error::AlreadyFollowing)
    } else if rem_guild_id(store, id - 1) != gid {
        Err(Error::NotFoundOrExpired)
    } else {
        Ok(())
    }
}

/// The author was appended to the followers of the reminder `id` names,
/// and nothing else about the reminders changed.
pub open spec fn followed(old_s: Store, new_s: Store, author: i64, id: int) -> bool {
    &&& new_s.reminders@.len() == old_s.reminders@.len()
    &&& (forall|k: int|
        0 <= k < old_s.reminders@.len() && k != id - 1 ==> new_s.reminders@[k]
            == old_s.reminders@[k])
    &&& ({
        let orr = old_s.reminder_of(id);
        let nrr = new_s.reminder_of(id);
        &&& nrr.followers@.len() == orr.followers@.len() + 1
        &&& (forall|k: int| 0 <= k < orr.followers@.len() ==> nrr.followers@[k] == orr.followers@[k])
        &&& new_s.users@[nrr.followers@.last() as int].discord_id == author
        &&& nrr.active == orr.active
        &&& nrr.due_at == orr.due_at
        &&& nrr.message == orr.message
        &&& nrr.created_at == orr.created_at
        &&& nrr.message_id == orr.message_id
        &&& nrr.channel == orr.channel
        &&& nrr.guild == orr.guild
    })
}

/// Follow a reminder: the caller is added to its follower set, so they are
/// notified too when it is delivered. Without an ID, the guild's most
/// recently created active reminder is taken. Following can never make
/// the earliest due instant sooner, so the next-due cache is left alone.
pub fn follow(store: &mut Store, author: i64, guild: Option<i64>, reminder_id: Option<u32>) -> (r:
    Result<i64, Error>)
    requires
        old(store).wf(),
        old(store).reminders@.len() < 1_000_000_000_000,
    ensures
        final(store).wf(),
        forall|k: int|
            0 <= k < old(store).reminders@.len() ==> ((#[trigger] final(store).reminders@[k]).active
                ==> old(store).reminders@[k].active),
        final(store).channels@ == old(store).channels@,
        final(store).guilds@ == old(store).guilds@,
        forall|k: int|
            0 <= k < old(store).users@.len() ==> final(store).users@[k] == old(store).users@[k],
        r is Err ==> final(store).reminders@ == old(store).reminders@ && final(store).users@ == old(
            store,
        ).users@,
        r == Err::<i64, Error>(Error::TooManyReminders) <==> author_active_count(
            *old(store),
            author,
            old(store).reminders@.len() as int,
        ) >= 25,
        ({
            let cnt_ok = author_active_count(
                *old(store),
                author,
                old(store).reminders@.len() as int,
            ) < 25;
            let gid = spec_force_guild_id(guild);
            &&& (cnt_ok && reminder_id is Some ==> {
                let u = reminder_id->0;
                &&& (follow_check(*old(store), author, gid, u as int) matches Err(e) ==> r == Err::<
                    i64,
                    Error,
                >(e))
                &&& (follow_check(*old(store), author, gid, u as int) is Ok ==> r == Ok::<
                    i64,
                    Error,
                >(u as i64) && followed(*old(store), *final(store), author, u as int))
            })
            &&& (cnt_ok && reminder_id is None ==> {
                &&& (!guild_has_active(*old(store), gid) ==> r == Err::<i64, Error>(
                    Error::NotFoundOrExpired,
                ))
                &&& (guild_has_active(*old(store), gid) ==> {
                    let id = latest_guild_rem(
                        *old(store),
                        gid,
                        old(store).reminders@.len() as int,
                    )->0 + 1;
                    &&& (follow_check(*old(store), author, gid, id) matches Err(e) ==> r == Err::<
                        i64,
                        Error,
                    >(e))
                    &&& (follow_check(*old(store), author, gid, id) is Ok ==> r == Ok::<i64, Error>(
                        id as i64,
                    ) && followed(*old(store), *final(store), author, id))
                })
            })
        }),
{
    if let Err(e) = check_author_reminder_count(store, author) {
        return Err(e);
    }
    let gid = force_guild_id(guild);
    let rid: i64 = match reminder_id {
        Some(u) => u as i64,
        None => {
            proof {
                lemma_latest_guild_rem(*store, gid, store.reminders@.len() as int);
            }
            let n = store.reminders.len();
            match latest_guild_reminder(store, gid) {
                Some(i) => {
                    proof {
                        assert(latest_guild_rem(*store, gid, store.reminders@.len() as int)
                            == Some(i as int));
                        assert(i < n);
                    }
                    (i + 1) as i64
                },
                None => {
                    return Err(Error::NotFoundOrExpired);
                },
            }
        },
    };
    if !reminder_exists_and_active(store, rid) {
        return Err(Error::NotFoundOrExpired);
    }
    let user_ids = user_ids_from_reminder_id(store, rid);
    let ghost orr = store.reminder_of(rid as int);
    if contains_i64(&user_ids, author) {
        proof {
            let k = choose|k: int| 0 <= k < user_ids@.len() && user_ids@[k] == author;
            assert(store.users@[orr.followers@[k] as int].discord_id == author);
        }
        return Err(Error::AlreadyFollowing);
    }
    proof {
        if crate::store::follower_has_user(*store, orr, author) {
            let k = choose|k: int|
                0 <= k < orr.followers@.len() && store.users@[
                    #[trigger] orr.followers@[k] as int
                ].discord_id == author;
            assert(user_ids@[k] == author);
        }
    }
    let rguild = match guild_from_reminder_id(store, rid) {
        Ok(g) => g,
        Err(_) => {
            proof {
                assert(false);
            }
            return Err(Error::NotFoundOrExpired);
        },
    };
    if rguild != gid {
        return Err(Error::NotFoundOrExpired);
    }
    let i_user = get_internal_user_id(store, author);
    let idx = ((rid as u64) - 1) as usize;
    proof {
        // the new follower is not yet in the set: a duplicate row index
        // would carry the author's identity, which no follower does
        assert(store.reminder_wf(store.reminders@[idx as int]));
        assert forall|k: int|
            0 <= k < store.reminders@[idx as int].followers@.len() implies #[trigger] store.reminders@[idx as int].followers@[k] != i_user as int by {
            if store.reminders@[idx as int].followers@[k] == i_user as int {
                assert(store.users@[store.reminders@[idx as int].followers@[k] as int].discord_id
                    == author);
            }
        }
    }
    let rr = &mut store.reminders[idx];
    rr.followers.push(i_user);
    proof {
        assert forall|i: int|
            0 <= i < store.reminders@.len() implies store.reminder_wf(
            #[trigger] store.reminders@[i],
        ) by {
            if i != idx as int {
                assert(old(store).reminder_wf(old(store).reminders@[i]));
            }
        }
    }
    Ok(rid)
}

/// The author's row was removed from the followers of the reminder `id`
/// names; the reminder stays active exactly when other followers remain,
/// and nothing else about the reminders changed.
pub open spec fn unfollowed(old_s: Store, new_s: Store, author: i64, id: int) -> bool {
    &&& new_s.reminders@.len() == old_s.reminders@.len()
    &&& (forall|k: int|
        0 <= k < old_s.reminders@.len() && k != id - 1 ==> new_s.reminders@[k]
            == old_s.reminders@[k])
    &&& ({
        let orr = old_s.reminder_of(id);
        let nrr = new_s.reminder_of(id);
        &&& (exists|k: int|
            0 <= k < orr.followers@.len() && old_s.users@[
                #[trigger] orr.followers@[k] as int
            ].discord_id == author && nrr.followers@ == orr.followers@.remove(k))
        &&& !crate::store::follower_has_user(new_s, nrr, author)
        &&& nrr.active == (orr.followers@.len() > 1)
        &&& nrr.due_at == orr.due_at
        &&& nrr.message == orr.message
        &&& nrr.created_at == orr.created_at
        &&& nrr.message_id == orr.message_id
        &&& nrr.channel == orr.channel
        &&& nrr.guild == orr.guild
    })
}

/// Unfollow a reminder: the caller leaves its follower set. When they
/// were its last follower the reminder is retired in the same step — no
/// state ever shows an active reminder without followers — and the
/// next-due cache is cleared and repopulated from the store.
pub fn unfollow(store: &mut Store, cache: &mut NextDueCache, author: i64, reminder_id: u32) -> (r:
    Result<bool, Error>)
    requires
        old(store).wf(),
    ensures
        final(store).wf(),
        forall|k: int|
            0 <= k < old(store).reminders@.len() ==> ((#[trigger] final(store).reminders@[k]).active
                ==> old(store).reminders@[k].active),
        final(store).users@ == old(store).users@,
        final(store).channels@ == old(store).channels@,
        final(store).guilds@ == old(store).guilds@,
        r == Err::<bool, Error>(Error::NotFoundOrExpired) <==> !old(store).active_id(
            reminder_id as int,
        ),
        r == Err::<bool, Error>(Error::NotFollowing) <==> old(store).active_id(reminder_id as int)
            && !crate::store::follower_has_user(
            *old(store),
            old(store).reminder_of(reminder_id as int),
            author,
        ),
        r is Ok <==> old(store).active_id(reminder_id as int)
            && crate::store::follower_has_user(
            *old(store),
            old(store).reminder_of(reminder_id as int),
            author,
        ),
        r is Err ==> final(store).reminders@ == old(store).reminders@ && final(cache).next == old(
            cache,
        ).next,
        r matches Ok(was_last) ==> {
            &&& old(store).active_id(reminder_id as int)
            &&& crate::store::follower_has_user(
                *old(store),
                old(store).reminder_of(reminder_id as int),
                author,
            )
            &&& (was_last <==> old(store).reminder_of(reminder_id as int).followers@.len() == 1)
            &&& unfollowed(*old(store), *final(store), author, reminder_id as int)
            &&& (!was_last ==> final(cache).next == old(cache).next)
            &&& (was_last ==> final(cache).next == final(store).earliest_due())
        },
{
    let rid = reminder_id as i64;
    if !reminder_exists_and_active(store, rid) {
        return Err(Error::NotFoundOrExpired);
    }
    let user_ids = user_ids_from_reminder_id(store, rid);
    let ghost orr = store.reminder_of(rid as int);
    if !contains_i64(&user_ids, author) {
        proof {
            if crate::store::follower_has_user(*store, orr, author) {
                let k = choose|k: int|
                    0 <= k < orr.followers@.len() && store.users@[
                        #[trigger] orr.followers@[k] as int
                    ].discord_id == author;
                assert(user_ids@[k] == author);
            }
        }
        return Err(Error::NotFollowing);
    }
    proof {
        let k = choose|k: int| 0 <= k < user_ids@.len() && user_ids@[k] == author;
        assert(store.users@[orr.followers@[k] as int].discord_id == author);
    }
    let idx = ((rid as u64) - 1) as usize;
    // locate the author's follower row
    let fl_len = store.reminders[idx].followers.len();
    let mut pos: usize = 0;
    let mut found: bool = false;
    while pos < fl_len && !found
        invariant
            pos <= fl_len == orr.followers@.len(),
            idx < store.reminders@.len(),
            store.reminders@[idx as int] == orr,
            store == old(store),
            found ==> pos < fl_len && store.users@[orr.followers@[pos as int] as int].discord_id
                == author,
            !found ==> forall|k: int|
                0 <= k < pos ==> store.users@[#[trigger] orr.followers@[k] as int].discord_id
                    != author,
        decreases fl_len - pos + (if found { 0int } else { 1int }),
    {
        if store.users[store.reminders[idx].followers[pos]].discord_id == author {
            found = true;
        } else {
            pos = pos + 1;
        }
    }
    proof {
        if !found {
            assert(!crate::store::follower_has_user(*store, orr, author));
            assert(false);
        }
    }
    let was_last = fl_len == 1;
    let rr = &mut store.reminders[idx];
    rr.followers.remove(pos);
    if !was_last {
        proof {
            unfollow_wf_glue(*old(store), *store, author, idx as int, pos as int);
        }
        Ok(false)
    } else {
        rr.active = false;
        proof {
            unfollow_wf_glue(*old(store), *store, author, idx as int, pos as int);
        }
        cache.invalidate();
        let upcoming = get_next_reminder_ts(store);
        if let Some(t) = upcoming {
            cache_reminder(cache, t);
        }
        Ok(true)
    }
}

/// Removing one follower keeps the store well formed and touches no other
/// reminder: follower rows stay in range and distinct, and the author's
/// identity is gone from the set because identities are unique per row.
proof fn unfollow_wf_glue(old_s: Store, new_s: Store, author: i64, idx: int, pos: int)
    requires
        old_s.wf(),
        0 <= idx < old_s.reminders@.len(),
        new_s.users@ == old_s.users@,
        new_s.channels@ == old_s.channels@,
        new_s.guilds@ == old_s.guilds@,
        new_s.reminders@.len() == old_s.reminders@.len(),
        forall|k: int|
            0 <= k < old_s.reminders@.len() && k != idx ==> new_s.reminders@[k]
                == old_s.reminders@[k],
        0 <= pos < old_s.reminders@[idx].followers@.len(),
        old_s.users@[old_s.reminders@[idx].followers@[pos] as int].discord_id == author,
        new_s.reminders@[idx].followers@ == old_s.reminders@[idx].followers@.remove(pos),
        new_s.reminders@[idx].active ==> new_s.reminders@[idx].followers@.len() >= 1,
        new_s.reminders@[idx].channel == old_s.reminders@[idx].channel,
        new_s.reminders@[idx].guild == old_s.reminders@[idx].guild,
    ensures
        new_s.wf(),
        !crate::store::follower_has_user(new_s, new_s.reminders@[idx], author),
{
    let ofl = old_s.reminders@[idx].followers@;
    let nfl = new_s.reminders@[idx].followers@;
    assert(old_s.reminder_wf(old_s.reminders@[idx]));
    assert forall|k: int| 0 <= k < nfl.len() implies #[trigger] nfl[k] < new_s.users@.len() by {
        if k < pos {
            assert(nfl[k] == ofl[k]);
        } else {
            assert(nfl[k] == ofl[k + 1]);
        }
    }
    assert forall|k: int, l: int| 0 <= k < l < nfl.len() implies nfl[k] != nfl[l] by {
        let k0 = if k < pos {
            k
        } else {
            k + 1
        };
        let l0 = if l < pos {
            l
        } else {
            l + 1
        };
        assert(nfl[k] == ofl[k0] && nfl[l] == ofl[l0]);
    }
    assert forall|k: int|
        0 <= k < nfl.len() implies new_s.users@[#[trigger] nfl[k] as int].discord_id != author by {
        let k0 = if k < pos {
            k
        } else {
            k + 1
        };
        assert(nfl[k] == ofl[k0]);
        if new_s.users@[nfl[k] as int].discord_id == author {
            // two distinct user rows would share the author's identity
            assert(ofl[k0] != ofl[pos]);
            assert(old_s.users@[ofl[k0] as int].discord_id == old_s.users@[ofl[pos] as int].discord_id);
        }
    }
    assert forall|i: int|
        0 <= i < new_s.reminders@.len() implies new_s.reminder_wf(#[trigger] new_s.reminders@[i]) by {
        assert(old_s.reminder_wf(old_s.reminders@[i]));
    }
}

/// Set the author's UTC-offset preference from its text form and report
/// the minutes, together with what noon UTC of today reads as in the new
/// local time, for the confirmation shown to the user.
pub fn set_utc_offset(store: &mut Store, author: i64, offset_text: &[u8], now: i64) -> (r: Result<
    (i32, i64),
    Error,
>)
    requires
        old(store).wf(),
        0 <= now <= 1_000_000_000_000,
    ensures
        final(store).wf(),
        final(store).channels@ == old(store).channels@,
        final(store).guilds@ == old(store).guilds@,
        final(store).reminders@ == old(store).reminders@,
        r is Err <==> off_result(offset_text@) is Err,
        r matches Err(e) ==> off_result(offset_text@) == Err::<i32, Error>(e) && final(store).users@
            == old(store).users@,
        r matches Ok(v) ==> {
            &&& off_result(offset_text@) == Ok::<i32, Error>(v.0)
            &&& v.1 == now / 86400 * 86400 + 43200 - 60 * (v.0 as int)
            &&& final(store).stored_offset(author) == v.0
            &&& final(store).has_user(author)
            &&& forall|k: int|
                0 <= k < old(store).users@.len() ==> (#[trigger] final(store).users@[k]).discord_id
                    == old(store).users@[k].discord_id && (old(store).users@[k].discord_id != author
                    ==> final(store).users@[k] == old(store).users@[k])
        },
{
    let minutes = match parse_utc_offset(offset_text) {
        Ok(v) => v,
        Err(e) => {
            return Err(e);
        },
    };
    ensure_user_in_db(store, author);
    let i = match crate::store::find_user(store, author) {
        Some(i) => i,
        None => {
            proof {
                assert(false);
            }
            0
        },
    };
    let u = &mut store.users[i];
    u.utc_offset = minutes;
    proof {
        assert forall|k: int|
            0 <= k < store.reminders@.len() implies store.reminder_wf(
            #[trigger] store.reminders@[k],
        ) by {
            assert(old(store).reminder_wf(old(store).reminders@[k]));
        }
        assert(store.users@[i as int].discord_id == author);
        let j = choose|j: int|
            0 <= j < store.users@.len() && (#[trigger] store.users@[j]).discord_id == author;
        assert(j == i as int);
    }
    let noon = (((now as u64) / 86400) * 86400) as i64 + 43200 - 60 * (minutes as i64);
    Ok((minutes, noon))
}

/// Set the guild's fallback channel, where users whose direct
/// notifications fail are mentioned instead.
pub fn set_fallback_channel(store: &mut Store, guild_id: i64, channel_id: i64)
    requires
        old(store).wf(),
    ensures
        final(store).wf(),
        final(store).users@ == old(store).users@,
        final(store).reminders@ == old(store).reminders@,
        forall|k: int|
            0 <= k < old(store).channels@.len() ==> final(store).channels@[k] == old(
                store,
            ).channels@[k],
        forall|k: int|
            0 <= k < old(store).guilds@.len() ==> (#[trigger] final(store).guilds@[k]).discord_id
                == old(store).guilds@[k].discord_id && (old(store).guilds@[k].discord_id != guild_id
                ==> final(store).guilds@[k] == old(store).guilds@[k]),
        exists|g: int|
            0 <= g < final(store).guilds@.len() && (#[trigger] final(store).guilds@[g]).discord_id
                == guild_id && (final(store).guilds@[g].fallback_channel matches Some(c) && c
                < final(store).channels@.len() && final(store).channels@[c as int].discord_id
                == channel_id),
{
    let ic = get_internal_channel_id(store, channel_id);
    ensure_guild_in_db(store, Some(guild_id), channel_id);
    let g = match crate::store::find_guild(store, guild_id) {
        Some(g) => g,
        None => {
            proof {
                assert(false);
            }
            0
        },
    };
    let gr = &mut store.guilds[g];
    gr.fallback_channel = Some(ic);
    proof {
        assert forall|k: int|
            0 <= k < store.reminders@.len() implies store.reminder_wf(
            #[trigger] store.reminders@[k],
        ) by {
            assert(old(store).reminder_wf(old(store).reminders@[k]));
        }
        assert(store.guilds@[g as int].discord_id == guild_id);
        assert(store.guilds@[g as int].fallback_channel matches Some(c) && c
            < store.channels@.len() && store.channels@[c as int].discord_id == channel_id);
    }
}

/// Resolving the guild's most recent active reminder succeeds exactly when
/// the guild has an active reminder, and yields an active row of that
/// guild.
pub proof fn lemma_latest_guild_rem(store: Store, gid: i64, n: int)
    requires
        0 <= n <= store.reminders@.len(),
    ensures
        latest_guild_rem(store, gid, n) is Some <==> exists|i: int|
            0 <= i < n && (#[trigger] store.reminders@[i]).active && rem_guild_id(store, i) == gid,
        latest_guild_rem(store, gid, n) matches Some(i) ==> 0 <= i < n
            && store.reminders@[i].active && rem_guild_id(store, i) == gid,
    decreases n,
{
    if n > 0 {
        lemma_latest_guild_rem(store, gid, n - 1);
    }
}

} // verus!

//! The delivery sweep on the store model: due reminders are delivered and
//! retired, unreachable recipients fall back to the guild channel, and a
//! creation racing with an in-flight tick is never skipped.

use reminders::cache::{cache_reminder, NextDueCache};
use reminders::lifecycle::{follow, remindme, unfollow};
use reminders::store::{get_next_reminder_ts, Store};
use reminders::sweep::{check_reminders, sweep_begin, sweep_finish};

const ALICE: i64 = 100;
const BOB: i64 = 101;
const CHANNEL: i64 = 200;
const GUILD: i64 = 300;

fn create_at(
    store: &mut Store,
    cache: &mut NextDueCache,
    author: i64,
    guild: Option<i64>,
    now: i64,
    text: &[u8],
) -> i64 {
    remindme(
        store,
        cache,
        author,
        CHANNEL,
        guild,
        1,
        now,
        text,
        Some("test".to_string()),
        None,
    )
    .unwrap()
}

#[test]
fn reminder_due_in_two_seconds_fires_within_a_tick() {
    let mut store = Store::new();
    let mut cache = NextDueCache::new();
    let now = 1_600_000_000;
    create_at(&mut store, &mut cache, ALICE, Some(GUILD), now, b"2s");
    let none: Vec<i64> = Vec::new();
    // one tick before it elapses: nothing happens
    assert!(check_reminders(&mut store, &mut cache, now + 1, &none).is_none());
    assert!(store.reminders[0].active);
    // six seconds later, covering one five-second tick interval
    let outcome = check_reminders(&mut store, &mut cache, now + 6, &none).unwrap();
    assert_eq!(outcome.plan.reminder_id, 1);
    assert_eq!(outcome.plan.due_at, now + 2);
    assert_eq!(outcome.plan.recipients, vec![ALICE]);
    assert_eq!(outcome.plan.message_id, 1);
    assert_eq!(store.reminders[0].message, "test");
    assert!(outcome.fallback.is_none());
    // the reminder is retired and the cache is empty again
    assert!(!store.reminders[0].active);
    assert_eq!(cache.next, None);
    // a later tick finds nothing to do
    assert!(check_reminders(&mut store, &mut cache, now + 11, &none).is_none());
}

#[test]
fn unreachable_recipient_lands_in_one_fallback_notice() {
    let mut store = Store::new();
    let mut cache = NextDueCache::new();
    let now = 1_600_000_000;
    // creating in a guild records the origin channel as its fallback
    create_at(&mut store, &mut cache, ALICE, Some(GUILD), now, b"2s");
    follow(&mut store, BOB, Some(GUILD), Some(1)).unwrap();
    let disabled = vec![BOB];
    let outcome = check_reminders(&mut store, &mut cache, now + 6, &disabled).unwrap();
    // the reachable user was a direct recipient
    assert_eq!(outcome.plan.recipients, vec![ALICE, BOB]);
    // the unreachable one appears once, in one combined notice
    let fallback = outcome.fallback.unwrap();
    assert_eq!(fallback.channel, CHANNEL);
    assert_eq!(fallback.mentions, vec![BOB]);
    assert!(!store.reminders[0].active);
}

#[test]
fn without_fallback_channel_failures_are_dropped() {
    let mut store = Store::new();
    let mut cache = NextDueCache::new();
    let now = 1_600_000_000;
    // a private-context reminder has no fallback channel
    create_at(&mut store, &mut cache, ALICE, None, now, b"2s");
    let disabled = vec![ALICE];
    let outcome = check_reminders(&mut store, &mut cache, now + 6, &disabled).unwrap();
    assert_eq!(outcome.plan.fallback_channel, None);
    assert!(outcome.fallback.is_none());
    assert!(!store.reminders[0].active);
}

#[test]
fn creation_racing_a_tick_is_not_skipped() {
    let mut store = Store::new();
    let mut cache = NextDueCache::new();
    let t0 = 1_600_000_000;
    // a reminder due at t0 + 2, cached
    create_at(&mut store, &mut cache, ALICE, Some(GUILD), t0, b"2s");
    assert_eq!(cache.next, Some(t0 + 2));
    // the tick starts after it elapsed
    let now = t0 + 10;
    let plan = sweep_begin(&store, &cache, now).unwrap();
    assert_eq!(plan.reminder_id, 1);
    // while the tick's notifications are in flight, a sooner reminder
    // arrives and offers itself to the cache
    let id2 = create_at(&mut store, &mut cache, BOB, Some(GUILD), now, b"30s");
    assert_eq!(cache.next, Some(t0 + 2));
    // the tick finishes: the cache must now name the racing reminder
    let none: Vec<i64> = Vec::new();
    sweep_finish(
        &mut store,
        &mut cache,
        plan.reminder_id,
        plan.trigger_due,
        plan.fallback_channel,
        &none,
    );
    assert!(!store.reminders[0].active);
    assert!(store.reminders[(id2 - 1) as usize].active);
    assert_eq!(cache.next, Some(now + 30));
    assert_eq!(cache.next, get_next_reminder_ts(&store));
    // and the next tick delivers it
    let outcome = check_reminders(&mut store, &mut cache, now + 35, &none).unwrap();
    assert_eq!(outcome.plan.reminder_id, id2);
    assert_eq!(cache.next, None);
}

#[test]
fn unfollow_racing_a_tick_keeps_the_cache_safe() {
    let mut store = Store::new();
    let mut cache = NextDueCache::new();
    let t0 = 1_600_000_000;
    create_at(&mut store, &mut cache, ALICE, Some(GUILD), t0, b"2s");
    create_at(&mut store, &mut cache, ALICE, Some(GUILD), t0, b"60s");
    let now = t0 + 10;
    let plan = sweep_begin(&store, &cache, now).unwrap();
    assert_eq!(plan.reminder_id, 1);
    // mid-tick, the second reminder is cancelled; the cache is cleared
    // and repopulated from the store
    unfollow(&mut store, &mut cache, ALICE, 2).unwrap();
    assert_eq!(cache.next, Some(t0 + 2));
    let none: Vec<i64> = Vec::new();
    sweep_finish(
        &mut store,
        &mut cache,
        plan.reminder_id,
        plan.trigger_due,
        plan.fallback_channel,
        &none,
    );
    // nothing active remains and the cache agrees
    assert_eq!(get_next_reminder_ts(&store), None);
    assert_eq!(cache.next, None);
}

#[test]
fn empty_cache_falls_back_to_a_store_query() {
    let mut store = Store::new();
    let mut cache = NextDueCache::new();
    let t0 = 1_600_000_000;
    create_at(&mut store, &mut cache, ALICE, Some(GUILD), t0, b"2s");
    // the hint vanishes; the sweep recomputes it from the store
    cache.invalidate();
    let none: Vec<i64> = Vec::new();
    let outcome = check_reminders(&mut store, &mut cache, t0 + 6, &none).unwrap();
    assert_eq!(outcome.plan.reminder_id, 1);
}

#[test]
fn future_trigger_does_nothing() {
    let mut store = Store::new();
    let mut cache = NextDueCache::new();
    // a stale hint for the future, no store rows at all
    cache_reminder(&mut cache, 2_000_000_000);
    let none: Vec<i64> = Vec::new();
    assert!(check_reminders(&mut store, &mut cache, 1_600_000_000, &none).is_none());
    // an elapsed hint with no active reminder also does nothing
    assert!(check_reminders(&mut store, &mut cache, 2_000_000_100, &none).is_none());
}

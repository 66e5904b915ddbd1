//! Creating, following and unfollowing reminders against the store model:
//! quotas, the follower rules, the horizon bounds, and the cache staying
//! coherent through it all.

use reminders::cache::NextDueCache;
use reminders::errors::Error;
use reminders::lifecycle::{follow, remindme, set_fallback_channel, set_utc_offset, unfollow};
use reminders::store::{
    check_author_reminder_count, force_guild_id, get_author_utc_offset, get_next_reminder_ts,
    reminder_exists_and_active, reminder_list, user_ids_from_reminder_id, Store,
};

const NOW: i64 = 1_600_000_000;
const ALICE: i64 = 100;
const BOB: i64 = 101;
const CAROL: i64 = 102;
const CHANNEL: i64 = 200;
const GUILD: i64 = 300;

fn create(store: &mut Store, cache: &mut NextDueCache, author: i64, text: &[u8]) -> Result<i64, Error> {
    remindme(
        store,
        cache,
        author,
        CHANNEL,
        Some(GUILD),
        1,
        NOW,
        text,
        Some("test".to_string()),
        None,
    )
}

#[test]
fn create_inserts_row_and_offers_cache() {
    let mut store = Store::new();
    let mut cache = NextDueCache::new();
    let id = create(&mut store, &mut cache, ALICE, b"90").unwrap();
    assert_eq!(id, 1);
    assert_eq!(store.reminders.len(), 1);
    let r = &store.reminders[0];
    assert!(r.active);
    assert_eq!(r.due_at, NOW + 5400);
    assert_eq!(r.created_at, NOW);
    assert_eq!(r.message, "test");
    assert_eq!(r.followers.len(), 1);
    assert_eq!(store.users[r.followers[0]].discord_id, ALICE);
    assert_eq!(cache.next, Some(NOW + 5400));
    assert!(reminder_exists_and_active(&store, 1));
    assert_eq!(user_ids_from_reminder_id(&store, 1), vec![ALICE]);
}

#[test]
fn default_message_is_something() {
    let mut store = Store::new();
    let mut cache = NextDueCache::new();
    remindme(
        &mut store,
        &mut cache,
        ALICE,
        CHANNEL,
        None,
        1,
        NOW,
        b"90",
        None,
        None,
    )
    .unwrap();
    assert_eq!(store.reminders[0].message, "something");
}

#[test]
fn cache_keeps_the_sooner_due() {
    let mut store = Store::new();
    let mut cache = NextDueCache::new();
    create(&mut store, &mut cache, ALICE, b"90").unwrap();
    create(&mut store, &mut cache, ALICE, b"30").unwrap();
    assert_eq!(cache.next, Some(NOW + 1800));
    create(&mut store, &mut cache, ALICE, b"60").unwrap();
    assert_eq!(cache.next, Some(NOW + 1800));
    assert_eq!(get_next_reminder_ts(&store), Some(NOW + 1800));
}

#[test]
fn horizon_boundary_is_exact() {
    let mut store = Store::new();
    let mut cache = NextDueCache::new();
    // epoch tokens are taken verbatim, so the horizon can be hit exactly:
    // NOW + 34_560_000 succeeds, one second past fails, NOW itself is
    // not in the future
    assert!(create(&mut store, &mut cache, ALICE, b"1634560000").is_ok());
    assert_eq!(
        create(&mut store, &mut cache, ALICE, b"1634560001"),
        Err(Error::ReminderTooFar)
    );
    assert_eq!(
        create(&mut store, &mut cache, ALICE, b"1600000000"),
        Err(Error::ReminderInPast)
    );
    assert_eq!(
        create(&mut store, &mut cache, ALICE, b"1500000000"),
        Err(Error::ReminderInPast)
    );
    // failed creations left no rows behind
    assert_eq!(store.reminders.len(), 1);
}

#[test]
fn bad_timestamp_text_is_rejected() {
    let mut store = Store::new();
    let mut cache = NextDueCache::new();
    assert_eq!(
        create(&mut store, &mut cache, ALICE, b"not a time"),
        Err(Error::InvalidTimestamp)
    );
    assert_eq!(store.reminders.len(), 0);
    assert_eq!(cache.next, None);
}

#[test]
fn quota_is_twenty_five() {
    let mut store = Store::new();
    let mut cache = NextDueCache::new();
    for _ in 0..25 {
        create(&mut store, &mut cache, ALICE, b"90").unwrap();
    }
    assert_eq!(
        create(&mut store, &mut cache, ALICE, b"90"),
        Err(Error::TooManyReminders)
    );
    assert_eq!(
        check_author_reminder_count(&store, ALICE),
        Err(Error::TooManyReminders)
    );
    // another user is not affected
    assert!(create(&mut store, &mut cache, BOB, b"90").is_ok());
}

#[test]
fn follow_twice_fails_without_duplicating() {
    let mut store = Store::new();
    let mut cache = NextDueCache::new();
    create(&mut store, &mut cache, ALICE, b"90").unwrap();
    assert_eq!(follow(&mut store, BOB, Some(GUILD), Some(1)), Ok(1));
    assert_eq!(store.reminders[0].followers.len(), 2);
    assert_eq!(
        follow(&mut store, BOB, Some(GUILD), Some(1)),
        Err(Error::AlreadyFollowing)
    );
    assert_eq!(store.reminders[0].followers.len(), 2);
    assert_eq!(user_ids_from_reminder_id(&store, 1), vec![ALICE, BOB]);
}

#[test]
fn follow_rejects_missing_expired_and_foreign() {
    let mut store = Store::new();
    let mut cache = NextDueCache::new();
    create(&mut store, &mut cache, ALICE, b"90").unwrap();
    assert_eq!(
        follow(&mut store, BOB, Some(GUILD), Some(7)),
        Err(Error::NotFoundOrExpired)
    );
    assert_eq!(
        follow(&mut store, BOB, Some(999), Some(1)),
        Err(Error::NotFoundOrExpired)
    );
    unfollow(&mut store, &mut cache, ALICE, 1).unwrap();
    assert_eq!(
        follow(&mut store, BOB, Some(GUILD), Some(1)),
        Err(Error::NotFoundOrExpired)
    );
}

#[test]
fn follow_without_id_takes_latest_in_guild() {
    let mut store = Store::new();
    let mut cache = NextDueCache::new();
    create(&mut store, &mut cache, ALICE, b"90").unwrap();
    create(&mut store, &mut cache, ALICE, b"30").unwrap();
    // both created at NOW; the later row wins the tie
    assert_eq!(follow(&mut store, BOB, Some(GUILD), None), Ok(2));
    assert_eq!(
        follow(&mut store, CAROL, Some(777), None),
        Err(Error::NotFoundOrExpired)
    );
}

#[test]
fn unfollow_keeps_reminder_alive_while_others_remain() {
    let mut store = Store::new();
    let mut cache = NextDueCache::new();
    create(&mut store, &mut cache, ALICE, b"90").unwrap();
    follow(&mut store, BOB, Some(GUILD), Some(1)).unwrap();
    assert_eq!(unfollow(&mut store, &mut cache, BOB, 1), Ok(false));
    assert!(store.reminders[0].active);
    assert_eq!(user_ids_from_reminder_id(&store, 1), vec![ALICE]);
    assert_eq!(cache.next, Some(NOW + 5400));
}

#[test]
fn unfollowing_sole_follower_deactivates_atomically() {
    let mut store = Store::new();
    let mut cache = NextDueCache::new();
    create(&mut store, &mut cache, ALICE, b"90").unwrap();
    create(&mut store, &mut cache, ALICE, b"30").unwrap();
    assert_eq!(unfollow(&mut store, &mut cache, ALICE, 2), Ok(true));
    // terminal: inactive with the follower gone, never to come back
    assert!(!store.reminders[1].active);
    assert_eq!(store.reminders[1].followers.len(), 0);
    assert!(!reminder_exists_and_active(&store, 2));
    // the cache was repopulated from the store
    assert_eq!(cache.next, Some(NOW + 5400));
    // the other reminder is untouched
    assert!(store.reminders[0].active);
    // errors are symmetric
    assert_eq!(
        unfollow(&mut store, &mut cache, ALICE, 2),
        Err(Error::NotFoundOrExpired)
    );
    assert_eq!(
        unfollow(&mut store, &mut cache, BOB, 1),
        Err(Error::NotFollowing)
    );
}

#[test]
fn unfollow_last_reminder_empties_cache() {
    let mut store = Store::new();
    let mut cache = NextDueCache::new();
    create(&mut store, &mut cache, ALICE, b"90").unwrap();
    assert_eq!(unfollow(&mut store, &mut cache, ALICE, 1), Ok(true));
    assert_eq!(cache.next, None);
    assert_eq!(get_next_reminder_ts(&store), None);
}

#[test]
fn reminder_list_sorts_by_due_and_filters() {
    let mut store = Store::new();
    let mut cache = NextDueCache::new();
    create(&mut store, &mut cache, ALICE, b"90").unwrap();
    create(&mut store, &mut cache, ALICE, b"30").unwrap();
    create(&mut store, &mut cache, ALICE, b"60").unwrap();
    assert_eq!(reminder_list(&store, ALICE, Some(GUILD)), Ok(vec![2, 3, 1]));
    // a private context lists every guild
    assert_eq!(reminder_list(&store, ALICE, None), Ok(vec![2, 3, 1]));
    assert_eq!(
        reminder_list(&store, ALICE, Some(999)),
        Err(Error::NotFoundOrExpired)
    );
    assert_eq!(
        reminder_list(&store, BOB, Some(GUILD)),
        Err(Error::NotFoundOrExpired)
    );
    // retired reminders leave the listing
    unfollow(&mut store, &mut cache, ALICE, 2).unwrap();
    assert_eq!(reminder_list(&store, ALICE, Some(GUILD)), Ok(vec![3, 1]));
}

#[test]
fn stored_offset_feeds_the_parser() {
    let mut store = Store::new();
    let mut cache = NextDueCache::new();
    // +02:00 stored: local midnight is two hours before UTC midnight
    let (minutes, noon) = set_utc_offset(&mut store, ALICE, b"+2:00", NOW).unwrap();
    assert_eq!(minutes, 120);
    assert_eq!(noon, NOW / 86400 * 86400 + 43200 - 7200);
    assert_eq!(get_author_utc_offset(&mut store, ALICE), 120);
    let id = remindme(
        &mut store,
        &mut cache,
        ALICE,
        CHANNEL,
        Some(GUILD),
        1,
        NOW,
        b"2021-3-1",
        None,
        None,
    )
    .unwrap();
    assert_eq!(store.reminders[(id - 1) as usize].due_at, 1_614_556_800 - 7200);
    // an explicit override beats the stored preference
    let id2 = remindme(
        &mut store,
        &mut cache,
        ALICE,
        CHANNEL,
        Some(GUILD),
        1,
        NOW,
        b"2021-3-1",
        None,
        Some(b"-1:00"),
    )
    .unwrap();
    assert_eq!(store.reminders[(id2 - 1) as usize].due_at, 1_614_556_800 + 3600);
}

#[test]
fn bad_offset_text_is_rejected() {
    let mut store = Store::new();
    let mut cache = NextDueCache::new();
    assert_eq!(
        set_utc_offset(&mut store, ALICE, b"UTC", NOW),
        Err(Error::InvalidTimestamp)
    );
    assert_eq!(
        remindme(
            &mut store,
            &mut cache,
            ALICE,
            CHANNEL,
            Some(GUILD),
            1,
            NOW,
            b"90",
            None,
            Some(b"+15"),
        ),
        Err(Error::InvalidTimestamp)
    );
    assert_eq!(store.reminders.len(), 0);
}

#[test]
fn fallback_channel_is_recorded() {
    let mut store = Store::new();
    set_fallback_channel(&mut store, GUILD, 201);
    let g = store
        .guilds
        .iter()
        .position(|gr| gr.discord_id == GUILD)
        .unwrap();
    let c = store.guilds[g].fallback_channel.unwrap();
    assert_eq!(store.channels[c].discord_id, 201);
    // updating points the guild at the new channel
    set_fallback_channel(&mut store, GUILD, 202);
    let c2 = store.guilds[g].fallback_channel.unwrap();
    assert_eq!(store.channels[c2].discord_id, 202);
}

#[test]
fn force_guild_id_defaults_to_minus_one() {
    assert_eq!(force_guild_id(Some(42)), 42);
    assert_eq!(force_guild_id(None), -1);
}

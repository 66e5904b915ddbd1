//! In-memory model of the persistent store: identity rows for users,
//! channels and guilds, and the reminders with their follower sets. Rows
//! are addressed by their position; a reminder's public ID is its position
//! plus one, assigned at creation and never reused. The unverified edge
//! mirrors these rows in durable storage; every rule about them is stated
//! and checked here.

use vstd::prelude::*;

use crate::errors::Error;

verus! {

/// A known user: platform identity and their UTC-offset preference in
/// minutes.
pub struct UserRow {
    pub discord_id: i64,
    pub utc_offset: i32,
}

/// A known channel.
pub struct ChannelRow {
    pub discord_id: i64,
}

/// A known guild and its optional fallback channel (internal index).
pub struct GuildRow {
    pub discord_id: i64,
    pub fallback_channel: Option<usize>,
}

/// One reminder: its text, instants, origin, soft-delete flag and
/// follower set (internal user indices).
pub struct Reminder {
    pub message: String,
    pub due_at: i64,
    pub created_at: i64,
    pub message_id: i64,
    pub active: bool,
    pub channel: usize,
    pub guild: usize,
    pub followers: Vec<usize>,
}

/// The whole store.
pub struct Store {
    pub users: Vec<UserRow>,
    pub channels: Vec<ChannelRow>,
    pub guilds: Vec<GuildRow>,
    pub reminders: Vec<Reminder>,
}

/// Earliest due instant among the first `n` reminders that are active.
pub open spec fn min_due_upto(reminders: Seq<Reminder>, n: int) -> Option<i64>
    decreases n,
{
    if n <= 0 {
        None
    } else {
        let rest = min_due_upto(reminders, n - 1);
        if !reminders[n - 1].active {
            rest
        } else {
            match rest {
                None => Some(reminders[n - 1].due_at),
                Some(m) => if reminders[n - 1].due_at < m {
                    Some(reminders[n - 1].due_at)
                } else {
                    Some(m)
                },
            }
        }
    }
}

impl Store {
    /// An empty store.
    pub fn new() -> (s: Store)
        ensures
            s.wf(),
            s.users@.len() == 0,
            s.channels@.len() == 0,
            s.guilds@.len() == 0,
            s.reminders@.len() == 0,
    {
        Store { users: Vec::new(), channels: Vec::new(), guilds: Vec::new(), reminders: Vec::new() }
    }

    /// One reminder is internally consistent with the identity tables:
    /// its origin rows exist, its followers exist and are listed once
    /// each, and it has a follower while it is active.
    pub open spec fn reminder_wf(self, r: Reminder) -> bool {
        &&& r.channel < self.channels@.len()
        &&& r.guild < self.guilds@.len()
        &&& (forall|k: int| 0 <= k < r.followers@.len() ==> #[trigger] r.followers@[k] < self.users@.len())
        &&& (forall|k: int, l: int|
            0 <= k < l < r.followers@.len() ==> r.followers@[k] != r.followers@[l])
        &&& (r.active ==> r.followers@.len() >= 1)
    }

    /// The store is well formed: identity rows are unique per platform
    /// identity, fallback channels exist, and every reminder is
    /// internally consistent.
    pub open spec fn wf(self) -> bool {
        &&& (forall|i: int, j: int|
            0 <= i < j < self.users@.len() ==> self.users@[i].discord_id
                != self.users@[j].discord_id)
        &&& (forall|i: int, j: int|
            0 <= i < j < self.channels@.len() ==> self.channels@[i].discord_id
                != self.channels@[j].discord_id)
        &&& (forall|i: int, j: int|
            0 <= i < j < self.guilds@.len() ==> self.guilds@[i].discord_id
                != self.guilds@[j].discord_id)
        &&& (forall|g: int|
            0 <= g < self.guilds@.len() ==> (#[trigger] self.guilds@[g].fallback_channel matches
                Some(c) ==> c < self.channels@.len()))
        &&& (forall|i: int|
            0 <= i < self.reminders@.len() ==> self.reminder_wf(#[trigger] self.reminders@[i]))
    }

    /// Some reminder is still active.
    pub open spec fn has_active(self) -> bool {
        exists|i: int| 0 <= i < self.reminders@.len() && (#[trigger] self.reminders@[i]).active
    }

    /// The earliest due instant among active reminders, if any.
    pub open spec fn earliest_due(self) -> Option<i64> {
        min_due_upto(self.reminders@, self.reminders@.len() as int)
    }

    /// The ID names an existing reminder.
    pub open spec fn valid_id(self, id: int) -> bool {
        1 <= id <= self.reminders@.len()
    }

    /// The reminder a valid ID names.
    pub open spec fn reminder_of(self, id: int) -> Reminder {
        self.reminders@[id - 1]
    }

    /// The ID names an existing, still-active reminder.
    pub open spec fn active_id(self, id: int) -> bool {
        self.valid_id(id) && self.reminder_of(id).active
    }

    /// A known user carries this platform identity.
    pub open spec fn has_user(self, discord_id: i64) -> bool {
        exists|i: int|
            0 <= i < self.users@.len() && (#[trigger] self.users@[i]).discord_id == discord_id
    }

    /// A known channel carries this platform identity.
    pub open spec fn has_channel(self, discord_id: i64) -> bool {
        exists|i: int|
            0 <= i < self.channels@.len() && (#[trigger] self.channels@[i]).discord_id == discord_id
    }

    /// A known guild carries this platform identity.
    pub open spec fn has_guild(self, discord_id: i64) -> bool {
        exists|i: int|
            0 <= i < self.guilds@.len() && (#[trigger] self.guilds@[i]).discord_id == discord_id
    }

    /// The stored UTC offset of a user, zero when the user is unknown.
    pub open spec fn stored_offset(self, discord_id: i64) -> i32 {
        if self.has_user(discord_id) {
            self.users@[choose|i: int|
                0 <= i < self.users@.len() && (#[trigger] self.users@[i]).discord_id
                    == discord_id].utc_offset
        } else {
            0
        }
    }
}

/// What `min_due_upto` yields is the minimum: it names the due instant of
/// some active reminder, below every other active due instant, and it is
/// absent exactly when no reminder among the first `n` is active.
pub proof fn lemma_min_due_upto(reminders: Seq<Reminder>, n: int)
    requires
        0 <= n <= reminders.len(),
    ensures
        min_due_upto(reminders, n) is Some <==> exists|i: int|
            0 <= i < n && (#[trigger] reminders[i]).active,
        min_due_upto(reminders, n) matches Some(m) ==> (exists|i: int|
            0 <= i < n && (#[trigger] reminders[i]).active && reminders[i].due_at == m) && (
        forall|i: int| 0 <= i < n && (#[trigger] reminders[i]).active ==> m <= reminders[i].due_at),
    decreases n,
{
    if n > 0 {
        lemma_min_due_upto(reminders, n - 1);
    }
}

/// The guild identity a command runs under: the guild's own, or -1 in a
/// private context.
pub open spec fn spec_force_guild_id(guild: Option<i64>) -> i64 {
    match guild {
        Some(g) => g,
        None => -1i64,
    }
}

/// The guild identity a command runs under: the guild's own, or -1 in a
/// private context.
pub fn force_guild_id(guild: Option<i64>) -> (r: i64)
    ensures
        r == spec_force_guild_id(guild),
{
    match guild {
        Some(g) => g,
        None => -1,
    }
}

/// Due instant of the earliest active reminder, if any reminder is still
/// active.
pub fn get_next_reminder_ts(store: &Store) -> (r: Option<i64>)
    ensures
        r == store.earliest_due(),
{
    let n = store.reminders.len();
    let mut best: Option<i64> = None;
    let mut i: usize = 0;
    while i < n
        invariant
            i <= n == store.reminders@.len(),
            best == min_due_upto(store.reminders@, i as int),
        decreases n - i,
    {
        if store.reminders[i].active {
            best = match best {
                None => Some(store.reminders[i].due_at),
                Some(m) => {
                    if store.reminders[i].due_at < m {
                        Some(store.reminders[i].due_at)
                    } else {
                        Some(m)
                    }
                },
            };
        }
        i = i + 1;
    }
    best
}

/// Whether the ID names an existing, still-active reminder.
pub fn reminder_exists_and_active(store: &Store, reminder_id: i64) -> (r: bool)
    ensures
        r == store.active_id(reminder_id as int),
{
    if reminder_id < 1 {
        return false;
    }
    let idu = (reminder_id as u64) - 1;
    if idu >= store.reminders.len() as u64 {
        return false;
    }
    let idx = idu as usize;
    store.reminders[idx].active
}

/// The reminder at `i` has a follower with this platform identity.
pub open spec fn follower_has_user(store: Store, r: Reminder, author: i64) -> bool {
    exists|k: int|
        0 <= k < r.followers@.len() && store.users@[#[trigger] r.followers@[k] as int].discord_id
            == author
}

fn reminder_has_follower(store: &Store, i: usize, author: i64) -> (r: bool)
    requires
        store.wf(),
        i < store.reminders@.len(),
    ensures
        r == follower_has_user(*store, store.reminders@[i as int], author),
{
    let fl = &store.reminders[i].followers;
    let m = fl.len();
    let mut k: usize = 0;
    while k < m
        invariant
            k <= m == fl@.len(),
            fl == store.reminders@[i as int].followers,
            forall|j: int|
                0 <= j < k ==> store.users@[#[trigger] fl@[j] as int].discord_id != author,
        decreases m - k,
    {
        if store.users[fl[k]].discord_id == author {
            return true;
        }
        k = k + 1;
    }
    false
}

/// Platform identities of the followers of an active reminder, in stored
/// order; an unknown or inactive reminder has no recipients.
pub fn user_ids_from_reminder_id(store: &Store, reminder_id: i64) -> (v: Vec<i64>)
    requires
        store.wf(),
    ensures
        store.active_id(reminder_id as int) ==> {
            let fl = store.reminder_of(reminder_id as int).followers;
            v@.len() == fl@.len() && forall|k: int|
                0 <= k < fl@.len() ==> v@[k] == store.users@[#[trigger] fl@[k] as int].discord_id
        },
        !store.active_id(reminder_id as int) ==> v@.len() == 0,
{
    let mut v: Vec<i64> = Vec::new();
    if !reminder_exists_and_active(store, reminder_id) {
        return v;
    }
    let n = store.reminders.len();
    assert(reminder_id - 1 < n as int);
    let idx = ((reminder_id as u64) - 1) as usize;
    let fl = &store.reminders[idx].followers;
    let m = fl.len();
    let mut k: usize = 0;
    while k < m
        invariant
            k <= m == fl@.len(),
            fl == store.reminders@[idx as int].followers,
            idx < store.reminders@.len(),
            v@.len() == k,
            forall|j: int|
                0 <= j < k ==> v@[j] == store.users@[#[trigger] fl@[j] as int].discord_id,
        decreases m - k,
    {
        v.push(store.users[fl[k]].discord_id);
        k = k + 1;
    }
    v
}

/// Platform identity of the guild an active reminder belongs to.
pub fn guild_from_reminder_id(store: &Store, reminder_id: i64) -> (r: Result<i64, Error>)
    requires
        store.wf(),
    ensures
        r.is_ok() <==> store.active_id(reminder_id as int),
        r matches Ok(g) ==> g == store.guilds@[store.reminder_of(
            reminder_id as int,
        ).guild as int].discord_id,
        r matches Err(e) ==> e == Error::NotFoundOrExpired,
{
    if !reminder_exists_and_active(store, reminder_id) {
        return Err(Error::NotFoundOrExpired);
    }
    let n = store.reminders.len();
    assert(reminder_id - 1 < n as int);
    let idx = ((reminder_id as u64) - 1) as usize;
    Ok(store.guilds[store.reminders[idx].guild].discord_id)
}

pub(crate) fn find_user(store: &Store, discord_id: i64) -> (r: Option<usize>)
    ensures
        r matches Some(i) ==> i < store.users@.len() && store.users@[i as int].discord_id
            == discord_id,
        r is None ==> forall|i: int|
            0 <= i < store.users@.len() ==> (#[trigger] store.users@[i]).discord_id != discord_id,
{
    let n = store.users.len();
    let mut i: usize = 0;
    while i < n
        invariant
            i <= n == store.users@.len(),
            forall|j: int|
                0 <= j < i ==> (#[trigger] store.users@[j]).discord_id != discord_id,
        decreases n - i,
    {
        if store.users[i].discord_id == discord_id {
            return Some(i);
        }
        i = i + 1;
    }
    None
}

pub(crate) fn find_channel(store: &Store, discord_id: i64) -> (r: Option<usize>)
    ensures
        r matches Some(i) ==> i < store.channels@.len() && store.channels@[i as int].discord_id
            == discord_id,
        r is None ==> forall|i: int|
            0 <= i < store.channels@.len() ==> (#[trigger] store.channels@[i]).discord_id
                != discord_id,
{
    let n = store.channels.len();
    let mut i: usize = 0;
    while i < n
        invariant
            i <= n == store.channels@.len(),
            forall|j: int|
                0 <= j < i ==> (#[trigger] store.channels@[j]).discord_id != discord_id,
        decreases n - i,
    {
        if store.channels[i].discord_id == discord_id {
            return Some(i);
        }
        i = i + 1;
    }
    None
}

pub(crate) fn find_guild(store: &Store, discord_id: i64) -> (r: Option<usize>)
    ensures
        r matches Some(i) ==> i < store.guilds@.len() && store.guilds@[i as int].discord_id
            == discord_id,
        r is None ==> forall|i: int|
            0 <= i < store.guilds@.len() ==> (#[trigger] store.guilds@[i]).discord_id != discord_id,
{
    let n = store.guilds.len();
    let mut i: usize = 0;
    while i < n
        invariant
            i <= n == store.guilds@.len(),
            forall|j: int|
                0 <= j < i ==> (#[trigger] store.guilds@[j]).discord_id != discord_id,
        decreases n - i,
    {
        if store.guilds[i].discord_id == discord_id {
            return Some(i);
        }
        i = i + 1;
    }
    None
}

/// Record the user, with the default UTC offset of zero, unless they are
/// already known.
pub fn ensure_user_in_db(store: &mut Store, discord_id: i64)
    requires
        old(store).wf(),
    ensures
        final(store).wf(),
        final(store).has_user(discord_id),
        final(store).channels@ == old(store).channels@,
        final(store).guilds@ == old(store).guilds@,
        final(store).reminders@ == old(store).reminders@,
        old(store).has_user(discord_id) ==> final(store).users@ == old(store).users@,
        !old(store).has_user(discord_id) ==> final(store).users@ == old(store).users@.push(
            UserRow { discord_id, utc_offset: 0 },
        ),
        forall|k: int| 0 <= k < old(store).users@.len() ==> final(store).users@[k] == old(store).users@[k],
{
    match find_user(store, discord_id) {
        Some(_) => {},
        None => {
            store.users.push(UserRow { discord_id, utc_offset: 0 });
            proof {
                assert(store.users@[store.users@.len() - 1].discord_id == discord_id);
                assert forall|i: int|
                    0 <= i < store.reminders@.len() implies store.reminder_wf(
                    #[trigger] store.reminders@[i],
                ) by {
                    assert(old(store).reminder_wf(old(store).reminders@[i]));
                }
            }
        },
    }
}

/// Internal row index of the user, recording them first if need be.
pub fn get_internal_user_id(store: &mut Store, discord_id: i64) -> (r: usize)
    requires
        old(store).wf(),
    ensures
        final(store).wf(),
        final(store).channels@ == old(store).channels@,
        final(store).guilds@ == old(store).guilds@,
        final(store).reminders@ == old(store).reminders@,
        old(store).has_user(discord_id) ==> final(store).users@ == old(store).users@,
        !old(store).has_user(discord_id) ==> final(store).users@ == old(store).users@.push(
            UserRow { discord_id, utc_offset: 0 },
        ),
        forall|k: int| 0 <= k < old(store).users@.len() ==> final(store).users@[k] == old(store).users@[k],
        r < final(store).users@.len(),
        final(store).users@[r as int].discord_id == discord_id,
{
    ensure_user_in_db(store, discord_id);
    match find_user(store, discord_id) {
        Some(i) => i,
        None => {
            proof {
                assert(false);
            }
            0
        },
    }
}

/// Record the channel unless it is already known.
pub fn ensure_channel_in_db(store: &mut Store, discord_id: i64)
    requires
        old(store).wf(),
    ensures
        final(store).wf(),
        final(store).has_channel(discord_id),
        final(store).users@ == old(store).users@,
        final(store).guilds@ == old(store).guilds@,
        final(store).reminders@ == old(store).reminders@,
        old(store).has_channel(discord_id) ==> final(store).channels@ == old(store).channels@,
        !old(store).has_channel(discord_id) ==> final(store).channels@ == old(store).channels@.push(
            ChannelRow { discord_id },
        ),
        forall|k: int|
            0 <= k < old(store).channels@.len() ==> final(store).channels@[k] == old(store).channels@[k],
{
    match find_channel(store, discord_id) {
        Some(_) => {},
        None => {
            store.channels.push(ChannelRow { discord_id });
            proof {
                assert(store.channels@[store.channels@.len() - 1].discord_id == discord_id);
                assert forall|i: int|
                    0 <= i < store.reminders@.len() implies store.reminder_wf(
                    #[trigger] store.reminders@[i],
                ) by {
                    assert(old(store).reminder_wf(old(store).reminders@[i]));
                }
            }
        },
    }
}

/// Internal row index of the channel, recording it first if need be.
pub fn get_internal_channel_id(store: &mut Store, discord_id: i64) -> (r: usize)
    requires
        old(store).wf(),
    ensures
        final(store).wf(),
        final(store).users@ == old(store).users@,
        final(store).guilds@ == old(store).guilds@,
        final(store).reminders@ == old(store).reminders@,
        old(store).has_channel(discord_id) ==> final(store).channels@ == old(store).channels@,
        !old(store).has_channel(discord_id) ==> final(store).channels@ == old(store).channels@.push(
            ChannelRow { discord_id },
        ),
        forall|k: int|
            0 <= k < old(store).channels@.len() ==> final(store).channels@[k] == old(store).channels@[k],
        r < final(store).channels@.len(),
        final(store).channels@[r as int].discord_id == discord_id,
{
    ensure_channel_in_db(store, discord_id);
    match find_channel(store, discord_id) {
        Some(i) => i,
        None => {
            proof {
                assert(false);
            }
            0
        },
    }
}

/// Record the guild unless it is already known. A new guild row of a
/// guild context takes the current channel as its fallback channel; a
/// private context gets none.
pub fn ensure_guild_in_db(store: &mut Store, guild: Option<i64>, channel_discord_id: i64)
    requires
        old(store).wf(),
    ensures
        final(store).wf(),
        final(store).has_guild(spec_force_guild_id(guild)),
        final(store).users@ == old(store).users@,
        final(store).reminders@ == old(store).reminders@,
        forall|k: int|
            0 <= k < old(store).channels@.len() ==> final(store).channels@[k] == old(store).channels@[k],
        old(store).channels@.len() <= final(store).channels@.len(),
        forall|k: int|
            0 <= k < old(store).guilds@.len() ==> final(store).guilds@[k] == old(store).guilds@[k],
        old(store).has_guild(spec_force_guild_id(guild)) ==> final(store).channels@ == old(
            store,
        ).channels@ && final(store).guilds@ == old(store).guilds@,
        !old(store).has_guild(spec_force_guild_id(guild)) ==> {
            &&& final(store).guilds@.len() == old(store).guilds@.len() + 1
            &&& final(store).guilds@.last().discord_id == spec_force_guild_id(guild)
            &&& (guild is None ==> final(store).guilds@.last().fallback_channel is None
                && final(store).channels@ == old(store).channels@)
            &&& (guild is Some ==> (final(store).guilds@.last().fallback_channel matches Some(c) && c
                < final(store).channels@.len() && final(store).channels@[c as int].discord_id
                == channel_discord_id))
        },
{
    let gid = force_guild_id(guild);
    match find_guild(store, gid) {
        Some(_) => {},
        None => {
            let fallback: Option<usize> = match guild {
                Some(_) => Some(get_internal_channel_id(store, channel_discord_id)),
                None => None,
            };
            store.guilds.push(GuildRow { discord_id: gid, fallback_channel: fallback });
            proof {
                assert(store.guilds@[store.guilds@.len() - 1].discord_id == gid);
                assert forall|i: int|
                    0 <= i < store.reminders@.len() implies store.reminder_wf(
                    #[trigger] store.reminders@[i],
                ) by {
                    assert(old(store).reminder_wf(old(store).reminders@[i]));
                }
            }
        },
    }
}

/// Internal row index of the guild, recording it first if need be.
pub fn get_internal_guild_id(store: &mut Store, guild: Option<i64>, channel_discord_id: i64) -> (r:
    usize)
    requires
        old(store).wf(),
    ensures
        final(store).wf(),
        final(store).users@ == old(store).users@,
        final(store).reminders@ == old(store).reminders@,
        forall|k: int|
            0 <= k < old(store).channels@.len() ==> final(store).channels@[k] == old(store).channels@[k],
        old(store).channels@.len() <= final(store).channels@.len(),
        forall|k: int|
            0 <= k < old(store).guilds@.len() ==> final(store).guilds@[k] == old(store).guilds@[k],
        old(store).guilds@.len() <= final(store).guilds@.len(),
        r < final(store).guilds@.len(),
        final(store).guilds@[r as int].discord_id == spec_force_guild_id(guild),
        old(store).has_guild(spec_force_guild_id(guild)) ==> final(store).channels@ == old(
            store,
        ).channels@ && final(store).guilds@ == old(store).guilds@,
        !old(store).has_guild(spec_force_guild_id(guild)) ==> {
            &&& final(store).guilds@.len() == old(store).guilds@.len() + 1
            &&& r == old(store).guilds@.len()
            &&& (guild is None ==> final(store).guilds@[r as int].fallback_channel is None
                && final(store).channels@ == old(store).channels@)
            &&& (guild is Some ==> (final(store).guilds@[r as int].fallback_channel matches Some(c)
                && c < final(store).channels@.len()
                && final(store).channels@[c as int].discord_id == channel_discord_id))
        },
{
    let gid = force_guild_id(guild);
    ensure_guild_in_db(store, guild, channel_discord_id);
    match find_guild(store, gid) {
        Some(i) => {
            proof {
                if !old(store).has_guild(gid) {
                    // no earlier row carries this identity, so the found
                    // row is the one just pushed at the end
                    if (i as int) < old(store).guilds@.len() {
                        assert(store.guilds@[i as int] == old(store).guilds@[i as int]);
                        assert(old(store).has_guild(gid));
                    }
                }
            }
            i
        },
        None => {
            proof {
                assert(false);
            }
            0
        },
    }
}

/// The author's stored UTC offset in minutes, recording them with the
/// default of zero first if they are unknown.
pub fn get_author_utc_offset(store: &mut Store, author: i64) -> (r: i32)
    requires
        old(store).wf(),
    ensures
        final(store).wf(),
        final(store).channels@ == old(store).channels@,
        final(store).guilds@ == old(store).guilds@,
        final(store).reminders@ == old(store).reminders@,
        old(store).has_user(author) ==> final(store).users@ == old(store).users@,
        !old(store).has_user(author) ==> final(store).users@ == old(store).users@.push(
            UserRow { discord_id: author, utc_offset: 0 },
        ),
        r == old(store).stored_offset(author),
{
    ensure_user_in_db(store, author);
    match find_user(store, author) {
        Some(i) => {
            proof {
                if old(store).has_user(author) {
                    let j = choose|j: int|
                        0 <= j < old(store).users@.len() && (#[trigger] old(
                            store,
                        ).users@[j]).discord_id == author;
                    assert(j == i as int);
                }
            }
            store.users[i].utc_offset
        },
        None => {
            proof {
                assert(false);
            }
            0
        },
    }
}

/// How many reminders with this author as a follower are still active,
/// among the first `n`.
pub open spec fn author_active_count(store: Store, author: i64, n: int) -> int
    decreases n,
{
    if n <= 0 {
        0
    } else {
        author_active_count(store, author, n - 1) + (if store.reminders@[n - 1].active
            && follower_has_user(store, store.reminders@[n - 1], author) {
            1int
        } else {
            0int
        })
    }
}

/// One user may have at most 25 concurrently active reminders.
pub const MAX_REMINDERS: u64 = 25;

/// The author may create or follow another reminder only below the
/// ceiling of 25 concurrently active ones.
pub fn check_author_reminder_count(store: &Store, author: i64) -> (r: Result<bool, Error>)
    requires
        store.wf(),
    ensures
        r.is_ok() <==> author_active_count(*store, author, store.reminders@.len() as int) < 25,
        r matches Ok(b) ==> b,
        r matches Err(e) ==> e == Error::TooManyReminders,
{
    let n = store.reminders.len();
    let mut count: u64 = 0;
    let mut i: usize = 0;
    while i < n
        invariant
            i <= n == store.reminders@.len(),
            store.wf(),
            count == author_active_count(*store, author, i as int),
            count <= i,
        decreases n - i,
    {
        if store.reminders[i].active && reminder_has_follower(store, i, author) {
            count = count + 1;
        }
        i = i + 1;
    }
    if count >= MAX_REMINDERS {
        Err(Error::TooManyReminders)
    } else {
        Ok(true)
    }
}

/// The reminder at row `i` belongs to the author's listing: active,
/// followed by the author, and within the guild filter (-1 lists every
/// guild).
pub open spec fn listed(store: Store, author: i64, gid: i64, i: int) -> bool {
    &&& 0 <= i < store.reminders@.len()
    &&& store.reminders@[i].active
    &&& follower_has_user(store, store.reminders@[i], author)
    &&& (gid == -1 || store.guilds@[store.reminders@[i].guild as int].discord_id == gid)
}

/// The author's active reminders as public IDs, filtered to the guild
/// when the command runs in one, ordered by due instant ascending; an
/// empty listing is reported as an error, as the command shows it.
#[verifier::rlimit(100)]
pub fn reminder_list(store: &Store, author: i64, guild: Option<i64>) -> (r: Result<Vec<i64>, Error>)
    requires
        store.wf(),
        store.reminders@.len() < 1_000_000_000_000,
    ensures
        ({
            let gid = spec_force_guild_id(guild);
            &&& (r is Err <==> (forall|i: int|
                0 <= i < store.reminders@.len() ==> !listed(*store, author, gid, i)))
            &&& (r matches Err(e) ==> e == Error::NotFoundOrExpired)
            &&& (r matches Ok(v) ==> {
                &&& v@.len() >= 1
                &&& (forall|k: int|
                    0 <= k < v@.len() ==> listed(*store, author, gid, #[trigger] v@[k] - 1))
                &&& (forall|i: int| listed(*store, author, gid, i) ==> v@.contains((i + 1) as i64))
                &&& (forall|k: int, l: int|
                    0 <= k < l < v@.len() ==> store.reminders@[v@[k] - 1].due_at
                        <= store.reminders@[v@[l] - 1].due_at)
                &&& (forall|k: int, l: int| 0 <= k < l < v@.len() ==> v@[k] != v@[l])
            })
        }),
{
    let gid = force_guild_id(guild);
    let n = store.reminders.len();
    let mut v: Vec<i64> = Vec::new();
    let mut i: usize = 0;
    while i < n
        invariant
            i <= n == store.reminders@.len(),
            n < 1_000_000_000_000,
            store.wf(),
            gid == spec_force_guild_id(guild),
            forall|k: int|
                0 <= k < v@.len() ==> listed(*store, author, gid, #[trigger] v@[k] - 1) && v@[k] - 1
                    < i,
            forall|j: int| 0 <= j < i && listed(*store, author, gid, j) ==> v@.contains((j + 1) as i64),
            forall|k: int, l: int|
                0 <= k < l < v@.len() ==> store.reminders@[v@[k] - 1].due_at
                    <= store.reminders@[v@[l] - 1].due_at,
            forall|k: int, l: int| 0 <= k < l < v@.len() ==> v@[k] != v@[l],
        decreases n - i,
    {
        let take = store.reminders[i].active && reminder_has_follower(store, i, author) && (gid
            == -1 || store.guilds[store.reminders[i].guild].discord_id == gid);
        if take {
            let due_i = store.reminders[i].due_at;
            let mut pos: usize = v.len();
            while pos > 0 && store.reminders[((v[pos - 1] as u64) - 1) as usize].due_at > due_i
                invariant
                    pos <= v@.len(),
                    i < n == store.reminders@.len(),
                    forall|k: int|
                        0 <= k < v@.len() ==> listed(*store, author, gid, #[trigger] v@[k] - 1)
                            && v@[k] - 1 < i,
                    forall|k: int|
                        pos <= k < v@.len() ==> store.reminders@[#[trigger] v@[k] - 1].due_at
                            > due_i,
                decreases pos,
            {
                pos = pos - 1;
            }
            let ghost oldv = v@;
            let id = (i + 1) as i64;
            v.insert(pos, id);
            proof {
                oldv.insert_ensures(pos as int, id);
                assert(listed(*store, author, gid, i as int));
                assert forall|k: int|
                    0 <= k < v@.len() implies listed(*store, author, gid, #[trigger] v@[k] - 1)
                    && v@[k] - 1 < i + 1 by {
                    if k < pos {
                        assert(v@[k] == oldv[k]);
                    } else if k == pos {
                        assert(v@[k] == id);
                    } else {
                        assert(v@[k] == oldv[k - 1]);
                    }
                }
                assert forall|j: int|
                    0 <= j < i + 1 && listed(*store, author, gid, j) implies v@.contains(
                    (j + 1) as i64,
                ) by {
                    if j == i {
                        assert(v@[pos as int] == (j + 1) as i64);
                    } else {
                        let k0 = choose|k0: int| 0 <= k0 < oldv.len() && oldv[k0] == (j + 1) as i64;
                        if k0 < pos {
                            assert(v@[k0] == (j + 1) as i64);
                        } else {
                            assert(v@[k0 + 1] == (j + 1) as i64);
                        }
                    }
                }
                assert forall|k: int, l: int|
                    0 <= k < l < v@.len() implies store.reminders@[v@[k] - 1].due_at
                    <= store.reminders@[v@[l] - 1].due_at by {
                    if l < pos {
                        assert(v@[k] == oldv[k] && v@[l] == oldv[l]);
                    } else if k > pos {
                        assert(v@[k] == oldv[k - 1] && v@[l] == oldv[l - 1]);
                    } else if k == pos {
                        assert(v@[k] == id && v@[l] == oldv[l - 1]);
                    } else if l == pos {
                        assert(v@[k] == oldv[k] && v@[l] == id);
                        if pos > 0 {
                            assert(store.reminders@[oldv[pos - 1] - 1].due_at <= due_i);
                            assert(store.reminders@[oldv[k] - 1].due_at <= store.reminders@[oldv[
                                pos - 1
                            ] - 1].due_at);
                        }
                    } else {
                        assert(v@[k] == oldv[k] && v@[l] == oldv[l - 1]);
                        assert(store.reminders@[oldv[l - 1] - 1].due_at > due_i);
                        if pos > 0 && k < pos {
                            assert(store.reminders@[oldv[k] - 1].due_at <= store.reminders@[oldv[
                                pos - 1
                            ] - 1].due_at);
                        }
                    }
                }
                assert forall|k: int, l: int| 0 <= k < l < v@.len() implies v@[k] != v@[l] by {
                    if k == pos {
                        assert(v@[l] == oldv[l - 1] && oldv[l - 1] - 1 < i);
                    } else if l == pos {
                        assert(v@[k] == oldv[k] && oldv[k] - 1 < i);
                    } else {
                        let k0 = if k < pos { k } else { k - 1 };
                        let l0 = if l < pos { l } else { l - 1 };
                        if k0 < l0 {
                            assert(v@[k] == oldv[k0] && v@[l] == oldv[l0]);
                        } else {
                            assert(k0 == l0 && k == pos);
                        }
                    }
                }
            }
        }
        i = i + 1;
    }
    if v.len() == 0 {
        proof {
            assert forall|j: int|
                0 <= j < store.reminders@.len() implies !listed(*store, author, gid, j) by {
                if listed(*store, author, gid, j) {
                    assert(v@.contains((j + 1) as i64));
                }
            }
        }
        Err(Error::NotFoundOrExpired)
    } else {
        proof {
            assert(listed(*store, author, spec_force_guild_id(guild), v@[0] - 1));
        }
        Ok(v)
    }
}

/// While a reminder is active, its follower set is non-empty: the law the
/// store's well-formedness carries for every state the library can reach.
pub proof fn lemma_active_has_follower(store: Store, id: int)
    requires
        store.wf(),
        store.active_id(id),
    ensures
        store.reminder_of(id).followers@.len() >= 1,
{
    assert(store.reminder_wf(store.reminders@[id - 1]));
}

} // verus!

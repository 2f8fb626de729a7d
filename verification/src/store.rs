//! A model of the gateway's tables, and of what each operation does to them.
//!
//! The laws of the library are stated over this model: a flow starts on some
//! database, and every answer it is given is one that its operation can give
//! there. The model covers one flow at a time.

use crate::ops::{texts, Answer, Op, OptoutRow, StaleUser, UserGuild};
use crate::plugins::known_plugin;
use crate::services::discord_oauth::GuildRecord;
use crate::text::relative_path;
use vstd::prelude::*;
use vstd::relations::*;

verus! {

/// A CSRF state: where to send the user, and until when it is good.
pub struct StateRow {
    pub return_to: Seq<char>,
    pub expires_at: int,
}

/// A user's refresh token, and when the guild list was last refreshed.
pub struct TokenRow {
    pub refresh_token: Seq<char>,
    pub refreshed_at: int,
}

/// A user's membership of a guild.
pub struct GuildRow {
    pub guild_name: Option<Seq<char>>,
    pub manage_guild: bool,
    pub icon_hash: Option<Seq<char>>,
    pub username: Option<Seq<char>>,
}

/// The tables. Times are microseconds since 1970.
#[verifier::ext_equal]
pub struct Store {
    pub oauth_states: Map<Seq<char>, StateRow>,
    pub tokens: Map<Seq<char>, TokenRow>,
    /// Keyed by user and guild.
    pub user_guilds: Map<(Seq<char>, Seq<char>), GuildRow>,
    /// When an opt-out was last set, keyed by user, guild and plugin; the
    /// empty plugin stands for the whole guild.
    pub optouts: Map<(Seq<char>, Seq<char>, Seq<char>), int>,
    /// "Auto-enable new servers", for the users who ever set it.
    pub settings: Map<Seq<char>, bool>,
    /// The order in which the database sorts texts.
    pub collation: spec_fn(Seq<char>, Seq<char>) -> bool,
}

/// The database as a flow sees it: what is committed, what its open
/// transaction would commit and when it was opened, and the time.
pub struct Db {
    pub committed: Store,
    pub pending: Option<Store>,
    pub opened: int,
    pub now: int,
}

/// The plugin column of a guild-wide opt-out.
pub open spec fn master() -> Seq<char> {
    Seq::<char>::empty()
}

/// Whether the opt-out is the user's guild-wide one of one of the guilds.
pub open spec fn guild_wide(
    k: (Seq<char>, Seq<char>, Seq<char>),
    user: Seq<char>,
    guilds: Set<Seq<char>>,
) -> bool {
    k.0 == user && k.2 == master() && guilds.contains(k.1)
}

/// What a text says, if there is one.
pub open spec fn text_of(s: Option<String>) -> Option<Seq<char>> {
    match s {
        Some(t) => Some(t@),
        None => None,
    }
}

/// Seconds in microseconds.
pub open spec fn micros(secs: int) -> int {
    secs * 1_000_000
}

/// The row that records a guild membership.
pub open spec fn guild_row(g: GuildRecord, username: Option<String>) -> GuildRow {
    GuildRow {
        guild_name: Some(g.guild_name@),
        manage_guild: g.manage_guild,
        icon_hash: text_of(g.icon_hash),
        username: text_of(username),
    }
}

/// Whether the records hold the guild `g`.
pub open spec fn records_guild(guilds: Seq<GuildRecord>, g: Seq<char>) -> bool {
    exists|i: int| 0 <= i < guilds.len() && (#[trigger] guilds[i]).guild_id@ == g
}

/// The record of the guild `g`.
pub open spec fn guild_record(guilds: Seq<GuildRecord>, g: Seq<char>) -> GuildRecord {
    guilds[choose|i: int| 0 <= i < guilds.len() && (#[trigger] guilds[i]).guild_id@ == g]
}

/// What guilds are listed by: the name, if there is one, and the ID.
pub struct GuildKey {
    pub name: Option<Seq<char>>,
    pub id: Seq<char>,
}

/// The order guilds are listed in: by name, the unnamed last, and by ID where
/// the names are the same.
pub open spec fn listed_before(
    collation: spec_fn(Seq<char>, Seq<char>) -> bool,
) -> spec_fn(GuildKey, GuildKey) -> bool {
    |a: GuildKey, b: GuildKey|
        match (a.name, b.name) {
            (Some(x), Some(y)) => collation(x, y) || (x == y && collation(a.id, b.id)),
            (Some(_), None) => true,
            (None, Some(_)) => false,
            (None, None) => collation(a.id, b.id),
        }
}

/// The keys of the rows, in order.
pub open spec fn guild_keys(rows: Seq<UserGuild>) -> Seq<GuildKey> {
    rows.map_values(|r: UserGuild| GuildKey { name: text_of(r.guild_name), id: r.guild_id@ })
}

/// Whether no guild comes twice.
pub open spec fn distinct_guilds(guilds: Seq<GuildRecord>) -> bool {
    forall|i: int, j: int|
        0 <= i < guilds.len() && 0 <= j < guilds.len() && (#[trigger] guilds[i]).guild_id@ == (
        #[trigger] guilds[j]).guild_id@ ==> i == j
}

impl Store {
    /// Whether the user is recorded as a member of the guild.
    pub open spec fn is_member(self, user: Seq<char>, guild: Seq<char>) -> bool {
        self.user_guilds.contains_key((user, guild))
    }

    /// Whether the gateway lets `plugin` give the user roles in the guild:
    /// neither the guild nor the plugin there is opted out of.
    pub open spec fn opted_in(self, user: Seq<char>, guild: Seq<char>, plugin: Seq<char>) -> bool {
        !self.optouts.contains_key((user, guild, master())) && !self.optouts.contains_key(
            (user, guild, plugin),
        )
    }

    /// The user's "auto-enable new servers" preference; off unless the user
    /// turned it on.
    pub open spec fn auto_enable(self, user: Seq<char>) -> bool {
        self.settings.contains_key(user) && self.settings[user]
    }

    /// Whether a CSRF state can be taken at the time `now`.
    pub open spec fn state_good(self, state: Seq<char>, now: int) -> bool {
        self.oauth_states.contains_key(state) && self.oauth_states[state].expires_at > now
    }

    /// Whether a refresh can be claimed at the time `now`.
    pub open spec fn claimable(self, user: Seq<char>, cooldown_secs: u64, now: int) -> bool {
        self.tokens.contains_key(user) && self.tokens[user].refreshed_at < now - micros(
            cooldown_secs as int,
        )
    }

    /// The tables after all guild memberships of the user are removed.
    pub open spec fn without_guilds(self, user: Seq<char>) -> Store {
        Store {
            user_guilds: Map::new(
                |k: (Seq<char>, Seq<char>)| self.user_guilds.contains_key(k) && k.0 != user,
                |k: (Seq<char>, Seq<char>)| self.user_guilds[k],
            ),
            ..self
        }
    }

    /// The tables after guild memberships of the user are added.
    pub open spec fn with_guilds(
        self,
        user: Seq<char>,
        username: Option<String>,
        guilds: Seq<GuildRecord>,
    ) -> Store {
        Store {
            user_guilds: Map::new(
                |k: (Seq<char>, Seq<char>)|
                    self.user_guilds.contains_key(k) || (k.0 == user && records_guild(guilds, k.1)),
                |k: (Seq<char>, Seq<char>)|
                    if k.0 == user && records_guild(guilds, k.1) {
                        guild_row(guild_record(guilds, k.1), username)
                    } else {
                        self.user_guilds[k]
                    },
            ),
            ..self
        }
    }

    /// The tables after guild-wide opt-outs of the user are added at the time
    /// `at`. Those that are there already stay as they are.
    pub open spec fn with_master_optouts(
        self,
        user: Seq<char>,
        guilds: Set<Seq<char>>,
        at: int,
    ) -> Store {
        Store {
            optouts: Map::new(
                |k: (Seq<char>, Seq<char>, Seq<char>)|
                    self.optouts.contains_key(k) || guild_wide(k, user, guilds),
                |k: (Seq<char>, Seq<char>, Seq<char>)|
                    if self.optouts.contains_key(k) {
                        self.optouts[k]
                    } else {
                        at
                    },
            ),
            ..self
        }
    }

    /// The tables after guild-wide opt-outs of the user are added at the time
    /// `at`, or set anew.
    pub open spec fn with_renewed_optouts(
        self,
        user: Seq<char>,
        guilds: Set<Seq<char>>,
        at: int,
    ) -> Store {
        Store {
            optouts: Map::new(
                |k: (Seq<char>, Seq<char>, Seq<char>)|
                    self.optouts.contains_key(k) || guild_wide(k, user, guilds),
                |k: (Seq<char>, Seq<char>, Seq<char>)|
                    if guild_wide(k, user, guilds) {
                        at
                    } else {
                        self.optouts[k]
                    },
            ),
            ..self
        }
    }

    /// The guild-wide opt-outs of the user.
    pub open spec fn master_optouts(self, user: Seq<char>) -> Set<
        (Seq<char>, Seq<char>, Seq<char>),
    > {
        self.optouts.dom().filter(
            |k: (Seq<char>, Seq<char>, Seq<char>)| k.0 == user && k.2 == master(),
        )
    }

    /// The tables after all guild-wide opt-outs of the user are removed.
    pub open spec fn without_master_optouts(self, user: Seq<char>) -> Store {
        Store { optouts: self.optouts.remove_keys(self.master_optouts(user)), ..self }
    }

    /// The tables after the user, if there is a token, is marked as refreshed.
    pub open spec fn with_refreshed_at(self, user: Seq<char>, at: int) -> Store {
        if self.tokens.contains_key(user) {
            Store {
                tokens: self.tokens.insert(
                    user,
                    TokenRow { refreshed_at: at, ..self.tokens[user] },
                ),
                ..self
            }
        } else {
            self
        }
    }

    /// The guilds of a user.
    pub open spec fn guilds_of(self, user: Seq<char>) -> Set<Seq<char>> {
        Set::new(|g: Seq<char>| self.is_member(user, g))
    }

    /// What the operation makes of the tables at the time `now`.
    pub open spec fn after_op(self, op: Op<'_>, now: int) -> Store {
        match op {
            Op::InsertOauthState { state, return_to, expires_at } => Store {
                oauth_states: self.oauth_states.insert(
                    state@,
                    StateRow { return_to: return_to@, expires_at: expires_at as int },
                ),
                ..self
            },
            Op::TakeOauthState { state } => if self.state_good(state@, now) {
                Store { oauth_states: self.oauth_states.remove(state@), ..self }
            } else {
                self
            },
            Op::UpsertRefreshToken { discord_id, refresh_token } => Store {
                tokens: self.tokens.insert(
                    discord_id@,
                    TokenRow {
                        refresh_token: refresh_token@,
                        refreshed_at: if self.tokens.contains_key(discord_id@) {
                            self.tokens[discord_id@].refreshed_at
                        } else {
                            now
                        },
                    },
                ),
                ..self
            },
            Op::UpdateRefreshToken { discord_id, refresh_token } => if self.tokens.contains_key(
                discord_id@,
            ) {
                Store {
                    tokens: self.tokens.insert(
                        discord_id@,
                        TokenRow { refresh_token: refresh_token@, ..self.tokens[discord_id@] },
                    ),
                    ..self
                }
            } else {
                self
            },
            Op::DeleteRefreshToken { discord_id } => Store {
                tokens: self.tokens.remove(discord_id@),
                ..self
            },
            Op::ClaimRefresh { discord_id, cooldown_secs } => if self.claimable(
                discord_id@,
                cooldown_secs,
                now,
            ) {
                self.with_refreshed_at(discord_id@, now)
            } else {
                self
            },
            Op::TouchRefreshed { discord_id } => self.with_refreshed_at(discord_id@, now),
            Op::DeleteUserGuilds { discord_id } => self.without_guilds(discord_id@),
            Op::InsertUserGuilds { discord_id, username, guilds } => self.with_guilds(
                discord_id@,
                *username,
                guilds@,
            ),
            Op::DeleteOptout { discord_id, guild_id, plugin } => Store {
                optouts: self.optouts.remove((discord_id@, guild_id@, plugin@)),
                ..self
            },
            Op::UpsertOptout { discord_id, guild_id, plugin } => Store {
                optouts: self.optouts.insert((discord_id@, guild_id@, plugin@), now),
                ..self
            },
            Op::DeleteMasterOptouts { discord_id } => self.without_master_optouts(discord_id@),
            Op::UpsertMasterOptouts { discord_id } => self.with_renewed_optouts(
                discord_id@,
                self.guilds_of(discord_id@),
                now,
            ),
            Op::InsertMasterOptouts { discord_id, guild_ids } => self.with_master_optouts(
                discord_id@,
                texts(guild_ids@).to_set(),
                now,
            ),
            Op::UpsertAutoEnable { discord_id, enabled } => Store {
                settings: self.settings.insert(discord_id@, enabled),
                ..self
            },
            _ => self,
        }
    }

    /// Whether the operation, on these tables at the time `now`, can come to
    /// this answer, a failure aside.
    pub open spec fn can_answer(self, op: Op<'_>, now: int, answer: Answer) -> bool {
        match op {
            Op::InsertOauthState { state, .. } => answer is Done
                && !self.oauth_states.contains_key(state@),
            Op::TakeOauthState { state } => answer matches Answer::Text(target) && text_of(target)
                == (if self.state_good(state@, now) {
                Some(self.oauth_states[state@].return_to)
            } else {
                None
            }),
            Op::ClaimRefresh { discord_id, cooldown_secs } => answer matches Answer::Text(token)
                && text_of(token) == (if self.claimable(discord_id@, cooldown_secs, now) {
                Some(self.tokens[discord_id@].refresh_token)
            } else {
                None
            }),
            Op::SelectStaleUser { stale_hours, tried } => answer matches Answer::Stale(found)
                && self.can_pick(found, now - micros(3600 * stale_hours), texts(tried@)),
            Op::SelectManageGuild { discord_id, guild_id } => answer == Answer::Flag(
                if self.is_member(discord_id@, guild_id@) {
                    Some(self.user_guilds[(discord_id@, guild_id@)].manage_guild)
                } else {
                    None
                },
            ),
            Op::SelectMembership { discord_id, guild_id } => answer == Answer::Found(
                self.is_member(discord_id@, guild_id@),
            ),
            Op::SelectGuildMembers { guild_id } => answer matches Answer::Ids(ids)
                && self.lists_members(guild_id@, texts(ids@)),
            Op::SelectGuildName { guild_id } => answer matches Answer::Text(name)
                && self.can_name(guild_id@, text_of(name)),
            Op::SelectUserGuilds { discord_id } => answer matches Answer::UserGuilds(rows)
                && self.lists_guilds(discord_id@, rows@),
            Op::SelectGuildIds { discord_id } => answer matches Answer::Ids(ids)
                && self.lists_guild_ids(discord_id@, texts(ids@)),
            Op::InsertUserGuilds { discord_id, guilds, .. } => answer is Done
                && self.has_none_of(discord_id@, guilds@),
            Op::SelectOptouts { discord_id } => answer matches Answer::Optouts(rows)
                && self.lists_optouts(discord_id@, rows@),
            Op::DeleteMasterOptouts { discord_id } => answer matches Answer::Affected(count)
                && count == self.master_optouts(discord_id@).len(),
            Op::UpsertMasterOptouts { discord_id } => answer matches Answer::Affected(count)
                && count == self.guilds_of(discord_id@).len(),
            Op::SelectAutoEnable { discord_id } => answer == Answer::Flag(
                if self.settings.contains_key(discord_id@) {
                    Some(self.settings[discord_id@])
                } else {
                    None
                },
            ),
            Op::ExchangeCode { .. } => answer is Tokens,
            Op::RefreshAccessToken { .. } => answer is Tokens,
            Op::GetUser { .. } => answer is User,
            Op::GetUserGuilds { .. } => answer is DiscordGuilds,
            _ => answer is Done,
        }
    }

    /// Whether `ids` are the members of a guild, each once.
    pub open spec fn lists_members(self, guild: Seq<char>, ids: Seq<Seq<char>>) -> bool {
        &&& ids.no_duplicates()
        &&& forall|u: Seq<char>| #[trigger] self.is_member(u, guild) <==> ids.contains(u)
    }

    /// Whether `ids` are the guilds of a user, each once.
    pub open spec fn lists_guild_ids(self, user: Seq<char>, ids: Seq<Seq<char>>) -> bool {
        &&& ids.no_duplicates()
        &&& forall|g: Seq<char>| #[trigger] self.is_member(user, g) <==> ids.contains(g)
    }

    /// Whether the user is in none of the guilds yet, and none comes twice.
    pub open spec fn has_none_of(self, user: Seq<char>, guilds: Seq<GuildRecord>) -> bool {
        &&& distinct_guilds(guilds)
        &&& forall|g: Seq<char>| records_guild(guilds, g) ==> !(#[trigger] self.is_member(user, g))
    }

    /// Whether `name` is one recorded for the guild, or none is.
    pub open spec fn can_name(self, guild: Seq<char>, name: Option<Seq<char>>) -> bool {
        match name {
            Some(_) => exists|u: Seq<char>| #[trigger]
                self.is_member(u, guild) && self.user_guilds[(u, guild)].guild_name == name,
            None => forall|u: Seq<char>| #[trigger]
                self.is_member(u, guild) ==> self.user_guilds[(u, guild)].guild_name is None,
        }
    }

    /// Whether `found` is the user whose last refresh is the longest ago and
    /// before `limit`, or there is none, those tried aside.
    pub open spec fn can_pick(
        self,
        found: Option<StaleUser>,
        limit: int,
        tried: Seq<Seq<char>>,
    ) -> bool {
        match found {
            Some(user) => {
                &&& self.tokens.contains_key(user.discord_id@)
                &&& self.tokens[user.discord_id@].refresh_token == user.refresh_token@
                &&& self.tokens[user.discord_id@].refreshed_at < limit
                &&& !tried.contains(user.discord_id@)
                &&& forall|u: Seq<char>| #[trigger]
                    self.tokens.contains_key(u) && !tried.contains(u)
                        ==> self.tokens[user.discord_id@].refreshed_at
                        <= self.tokens[u].refreshed_at
            },
            None => forall|u: Seq<char>| #[trigger]
                self.tokens.contains_key(u) && !tried.contains(u) ==> self.tokens[u].refreshed_at
                    >= limit,
        }
    }

    /// What the guild is listed by among the user's.
    pub open spec fn key_of(self, user: Seq<char>, guild: Seq<char>) -> GuildKey {
        GuildKey { name: self.user_guilds[(user, guild)].guild_name, id: guild }
    }

    /// Whether the rows list the user's guilds, each once and in order.
    pub open spec fn lists_guilds(self, user: Seq<char>, rows: Seq<UserGuild>) -> bool {
        &&& sorted_by(guild_keys(rows), listed_before(self.collation))
        &&& forall|i: int, j: int|
            0 <= i < rows.len() && 0 <= j < rows.len() && (#[trigger] rows[i]).guild_id@ == (
            #[trigger] rows[j]).guild_id@ ==> i == j
        &&& forall|i: int|
            0 <= i < rows.len() ==> {
                let row = #[trigger] rows[i];
                &&& self.is_member(user, row.guild_id@)
                &&& self.user_guilds[(user, row.guild_id@)].guild_name == text_of(row.guild_name)
                &&& self.user_guilds[(user, row.guild_id@)].manage_guild == row.manage_guild
                &&& self.user_guilds[(user, row.guild_id@)].icon_hash == text_of(row.icon_hash)
            }
        &&& forall|g: Seq<char>| #[trigger]
            self.is_member(user, g) ==> exists|i: int|
                0 <= i < rows.len() && (#[trigger] rows[i]).guild_id@ == g
    }

    /// Whether the rows list the user's opt-outs, each once.
    pub open spec fn lists_optouts(self, user: Seq<char>, rows: Seq<OptoutRow>) -> bool {
        &&& forall|i: int, j: int|
            0 <= i < rows.len() && 0 <= j < rows.len() && (#[trigger] rows[i]).guild_id@ == (
            #[trigger] rows[j]).guild_id@ && rows[i].plugin@ == rows[j].plugin@ ==> i == j
        &&& forall|i: int|
            0 <= i < rows.len() ==> self.optouts.contains_key(
                (user, (#[trigger] rows[i]).guild_id@, rows[i].plugin@),
            )
        &&& forall|g: Seq<char>, p: Seq<char>| #[trigger]
            self.optouts.contains_key((user, g, p)) ==> exists|i: int|
                0 <= i < rows.len() && (#[trigger] rows[i]).guild_id@ == g && rows[i].plugin@ == p
    }

    /// What no flow may break: every CSRF state leads back to this site, and
    /// every opt-out is guild-wide or names a registered plugin.
    pub open spec fn sound(self) -> bool {
        &&& forall|s: Seq<char>| #[trigger]
            self.oauth_states.contains_key(s) ==> relative_path(self.oauth_states[s].return_to)
        &&& forall|k: (Seq<char>, Seq<char>, Seq<char>)| #[trigger]
            self.optouts.contains_key(k) ==> k.2 == master() || known_plugin(k.2)
    }
}

impl Db {
    /// The tables as a statement finds them.
    pub open spec fn current(self) -> Store {
        match self.pending {
            Some(store) => store,
            None => self.committed,
        }
    }

    /// The time a statement goes by: inside a transaction, when that was
    /// opened.
    pub open spec fn statement_time(self) -> int {
        match self.pending {
            Some(_) => self.opened,
            None => self.now,
        }
    }

    /// Whether the operation can take this database to `after`, coming to
    /// this answer. A failure rolls an open transaction back. A statement of
    /// its own, or a commit, that is reported as failed may still have been
    /// carried out, its answer being lost; a statement inside a transaction
    /// that fails changes nothing.
    pub open spec fn performs(self, op: Op<'_>, answer: Answer, after: Db) -> bool {
        &&& self.now <= after.now
        &&& match (op, answer) {
            (Op::Begin, Answer::Failed(_)) => after.pending is None && after.committed
                == self.committed,
            (Op::Begin, _) => answer is Done && after.committed == self.committed && after.pending
                == Some(self.committed) && after.opened == self.now,
            (Op::Commit, Answer::Failed(_)) => after.pending is None && (after.committed
                == self.committed || after.committed == self.current()),
            (Op::Commit, _) => answer is Done && after.committed == self.current()
                && after.pending is None,
            (_, Answer::Failed(_)) => after.pending is None && (after.committed == self.committed
                || (self.pending is None && after.committed == self.committed.after_op(
                op,
                self.now,
            ))),
            _ => self.current().can_answer(op, self.statement_time(), answer) && (
            match self.pending {
                Some(store) => after.committed == self.committed && after.pending == Some(
                    store.after_op(op, self.opened),
                ) && after.opened == self.opened,
                None => after.committed == self.committed.after_op(op, self.now)
                    && after.pending is None,
            }),
        }
    }

    /// Whether all the flow sees is sound.
    pub open spec fn sound(self) -> bool {
        self.committed.sound() && self.current().sound()
    }
}

/// An operation that keeps the tables sound: the CSRF states it adds lead
/// back to this site, the opt-outs it adds are guild-wide or name a
/// registered plugin.
pub open spec fn sound_op(op: Op<'_>) -> bool {
    match op {
        Op::InsertOauthState { return_to, .. } => relative_path(return_to@),
        Op::UpsertOptout { plugin, .. } => plugin@ == master() || known_plugin(plugin@),
        _ => true,
    }
}

/// Sound operations keep a sound database sound, whatever they come to.
pub proof fn sound_ops_keep_the_store_sound(before: Db, op: Op<'_>, answer: Answer, after: Db)
    requires
        before.sound(),
        sound_op(op),
        before.performs(op, answer, after),
    ensures
        after.sound(),
{
    let store = before.current();
    let next = store.after_op(op, before.statement_time());
    assert forall|k: (Seq<char>, Seq<char>, Seq<char>)| #[trigger]
        next.optouts.contains_key(k) implies k.2 == master() || known_plugin(k.2) by {
        if store.optouts.contains_key(k) {
        }
    }
    assert(next.sound());
}

/// The order guilds are listed in is total, if the database's order of texts
/// is.
pub proof fn lemma_listing_order(collation: spec_fn(Seq<char>, Seq<char>) -> bool)
    requires
        strict_total_ordering(collation),
    ensures
        strict_total_ordering(listed_before(collation)),
{
    let r = listed_before(collation);
    assert forall|x: GuildKey, y: GuildKey| #[trigger] r(x, y) && #[trigger] r(y, x) implies x
        == y by {
        if let (Some(a), Some(b)) = (x.name, y.name) {
            assert(collation(a, b) && collation(b, a) ==> a == b);
        }
    }
    assert forall|x: GuildKey, y: GuildKey, z: GuildKey| #[trigger]
        r(x, y) && #[trigger] r(y, z) implies r(x, z) by {}
    assert forall|x: GuildKey, y: GuildKey| x != y implies #[trigger] r(x, y) || #[trigger] r(
        y,
        x,
    ) by {
        if let (Some(a), Some(b)) = (x.name, y.name) {
            if a != b {
                assert(collation(a, b) || collation(b, a));
            }
        }
        if x.id != y.id {
            assert(collation(x.id, y.id) || collation(y.id, x.id));
        }
    }
}

/// There is one way to list things in order.
pub proof fn lemma_same_listing<T>(a: Seq<T>, b: Seq<T>, r: spec_fn(T, T) -> bool)
    requires
        strict_total_ordering(r),
        sorted_by(a, r),
        sorted_by(b, r),
        forall|x: T| #[trigger] a.contains(x) <==> b.contains(x),
    ensures
        a == b,
    decreases a.len(),
{
    if a.len() == 0 {
        if b.len() > 0 {
            assert(b.contains(b[0]));
            assert(a.contains(b[0]));
        }
    } else {
        let last = a.last();
        assert(a.contains(last));
        let j = choose|j: int| 0 <= j < b.len() && b[j] == last;
        if j < b.len() - 1 {
            assert(r(b[j], b[b.len() - 1]));
            assert(b.contains(b.last()));
            assert(a.contains(b.last()));
            let i = choose|i: int| 0 <= i < a.len() && a[i] == b.last();
            assert(r(a[i], a[a.len() - 1]) || i == a.len() - 1);
            assert(r(last, last));
        }
        assert(b.last() == last);
        let (p, q) = (a.drop_last(), b.drop_last());
        assert forall|x: T| #[trigger] p.contains(x) <==> q.contains(x) by {
            if p.contains(x) {
                let i = choose|i: int| 0 <= i < p.len() && p[i] == x;
                assert(a[i] == x);
                assert(a.contains(x));
                let k = choose|k: int| 0 <= k < b.len() && b[k] == x;
                assert(r(a[i], a[a.len() - 1]));
                assert(k < b.len() - 1);
                assert(q[k] == x);
            }
            if q.contains(x) {
                let i = choose|i: int| 0 <= i < q.len() && q[i] == x;
                assert(b[i] == x);
                assert(b.contains(x));
                assert(a.contains(x));
                let k = choose|k: int| 0 <= k < a.len() && a[k] == x;
                assert(r(b[i], b[b.len() - 1]));
                assert(k < a.len() - 1);
                assert(p[k] == x);
            }
        }
        assert(sorted_by(p, r)) by {
            assert forall|i: int, j: int| 0 <= i < j < p.len() implies #[trigger] r(p[i], p[j]) by {
                assert(r(a[i], a[j]));
            }
        }
        assert(sorted_by(q, r)) by {
            assert forall|i: int, j: int| 0 <= i < j < q.len() implies #[trigger] r(q[i], q[j]) by {
                assert(r(b[i], b[j]));
            }
        }
        lemma_same_listing(p, q, r);
        assert(a == p.push(last));
        assert(b == q.push(last));
    }
}

} // verus!

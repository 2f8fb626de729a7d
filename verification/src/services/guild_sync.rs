//! Re-fetching a user's Discord guild list and replacing the recorded one.
//!
//! Two entry points share one core: the background worker sweeps every user
//! whose list is stale ([`replace_user_guilds`]), and a request handler asks
//! for a refresh right now ([`refresh_on_demand`]), for a user who may just
//! have joined a server.
//!
//! A refresh on demand starts with one claim of the refresh token, which the
//! cooldown can hold back. The claim also keeps two refreshes from running at
//! once: Discord rotates the token on every use, so they would invalidate
//! each other's.

use crate::error::AppError;
use crate::ops::{texts, Answer, Op};
use crate::services::discord_oauth::{
    display_name_of, record_of, record_says_who_may_manage, DiscordGuild, DiscordOAuth,
    DiscordUser, GuildRecord, TokenResponse,
};
use crate::services::optout::{
    apply_optouts_for_new_guilds, auto_enable, brand_new, brand_new_guilds, snapshot_guild_ids,
    truly_new,
};
use crate::store::{
    distinct_guilds, guild_record, guild_row, guild_wide, master, micros, records_guild, text_of,
    Db, Store, TokenRow,
};
use crate::text::{decimal, parsed_u64};
use vstd::prelude::*;
use vstd::string::*;

verus! {

// ---------------------------------------------------------------------
// Replacing the recorded guild list
// ---------------------------------------------------------------------

/// Where a replacement stands. All of it but the ends is one transaction.
pub enum SwapPhase {
    Begin,
    /// Reading the guilds recorded so far.
    Snapshot,
    /// Removing them.
    Wipe { old: Vec<String> },
    /// Recording the new ones.
    Insert { old: Vec<String> },
    /// Some are brand new: reading whether those are enabled by themselves.
    ReadSetting { fresh: Vec<String> },
    /// They are not: opting out of them.
    OptOut { fresh: Vec<String> },
    /// Noting the time of the refresh.
    Touch,
    Commit,
    Finished,
    Failed(AppError),
}

/// The replacement of a user's recorded guild list by a fetched one.
pub struct GuildSwap {
    pub discord_id: String,
    /// The display name to record with the memberships, if one is.
    pub username: Option<String>,
    pub guilds: Vec<GuildRecord>,
    /// Whether this counts as a refresh of the list.
    pub touch: bool,
    pub phase: SwapPhase,
}

/// The IDs of the guilds, in order.
pub open spec fn ids_of(guilds: Seq<GuildRecord>) -> Seq<Seq<char>> {
    guilds.map_values(|g: GuildRecord| g.guild_id@)
}

fn guild_ids(guilds: &Vec<GuildRecord>) -> (res: Vec<String>)
    ensures
        texts(res@) == ids_of(guilds@),
{
    let mut ids: Vec<String> = Vec::new();
    let mut i: usize = 0;
    while i < guilds.len()
        invariant
            i <= guilds@.len(),
            texts(ids@) == ids_of(guilds@.take(i as int)),
        decreases guilds@.len() - i,
    {
        let ghost before = texts(ids@);
        ids.push(guilds[i].guild_id.clone());
        assert(texts(ids@) == before.push(guilds@[i as int].guild_id@));
        assert(ids_of(guilds@.take(i + 1)) == before.push(guilds@[i as int].guild_id@));
        i = i + 1;
    }
    assert(guilds@.take(i as int) == guilds@);
    ids
}

impl GuildSwap {
    /// What follows the writes to the guild list.
    pub open spec fn closing(self) -> SwapPhase {
        if self.touch {
            SwapPhase::Touch
        } else {
            SwapPhase::Commit
        }
    }

    /// The operation the replacement waits for.
    pub open spec fn waits_for<'a>(&'a self) -> Option<Op<'a>> {
        match &self.phase {
            SwapPhase::Begin => Some(Op::Begin),
            SwapPhase::Snapshot => Some(Op::SelectGuildIds { discord_id: &self.discord_id }),
            SwapPhase::Wipe { .. } => Some(Op::DeleteUserGuilds { discord_id: &self.discord_id }),
            SwapPhase::Insert { .. } => Some(
                Op::InsertUserGuilds {
                    discord_id: &self.discord_id,
                    username: &self.username,
                    guilds: &self.guilds,
                },
            ),
            SwapPhase::ReadSetting { .. } => Some(
                Op::SelectAutoEnable { discord_id: &self.discord_id },
            ),
            SwapPhase::OptOut { fresh } => Some(
                Op::InsertMasterOptouts { discord_id: &self.discord_id, guild_ids: fresh },
            ),
            SwapPhase::Touch => Some(Op::TouchRefreshed { discord_id: &self.discord_id }),
            SwapPhase::Commit => Some(Op::Commit),
            SwapPhase::Finished => None,
            SwapPhase::Failed(_) => None,
        }
    }

    /// Whether `answer` takes this replacement to `after`.
    pub open spec fn stepped(self, answer: Answer, after: GuildSwap) -> bool {
        &&& after.discord_id == self.discord_id
        &&& after.username == self.username
        &&& after.guilds == self.guilds
        &&& after.touch == self.touch
        &&& match (self.phase, answer) {
            (SwapPhase::Finished, _) => after.phase == self.phase,
            (SwapPhase::Failed(_), _) => after.phase == self.phase,
            (_, Answer::Failed(e)) => after.phase == SwapPhase::Failed(e),
            (SwapPhase::Begin, Answer::Done) => after.phase == SwapPhase::Snapshot,
            (SwapPhase::Snapshot, Answer::Ids(old)) => after.phase == (SwapPhase::Wipe { old }),
            (SwapPhase::Wipe { old }, Answer::Done) => after.phase == (if self.guilds@.len() == 0 {
                self.closing()
            } else {
                SwapPhase::Insert { old }
            }),
            (SwapPhase::Insert { old }, Answer::Done) => {
                let brand_new_ids = brand_new(texts(old@), ids_of(self.guilds@));
                if brand_new_ids.len() == 0 {
                    after.phase == self.closing()
                } else {
                    after.phase matches SwapPhase::ReadSetting { fresh } && texts(fresh@)
                        == brand_new_ids
                }
            },
            (SwapPhase::ReadSetting { fresh }, Answer::Flag(setting)) => after.phase == (
            if auto_enable(setting) {
                self.closing()
            } else {
                SwapPhase::OptOut { fresh }
            }),
            (SwapPhase::OptOut { .. }, Answer::Done) => after.phase == self.closing(),
            (SwapPhase::Touch, Answer::Done) => after.phase == SwapPhase::Commit,
            (SwapPhase::Commit, Answer::Done) => after.phase == SwapPhase::Finished,
            _ => after.phase == self.phase,
        }
    }

    /// What to carry out next; nothing when the flow is over.
    pub fn next_op<'a>(&'a self) -> (res: Option<Op<'a>>)
        ensures
            res == self.waits_for(),
    {
        match &self.phase {
            SwapPhase::Begin => Some(Op::Begin),
            SwapPhase::Snapshot => Some(snapshot_guild_ids(&self.discord_id)),
            SwapPhase::Wipe { .. } => Some(Op::DeleteUserGuilds { discord_id: &self.discord_id }),
            SwapPhase::Insert { .. } => Some(
                Op::InsertUserGuilds {
                    discord_id: &self.discord_id,
                    username: &self.username,
                    guilds: &self.guilds,
                },
            ),
            SwapPhase::ReadSetting { .. } => Some(
                Op::SelectAutoEnable { discord_id: &self.discord_id },
            ),
            SwapPhase::OptOut { fresh } => Some(
                Op::InsertMasterOptouts { discord_id: &self.discord_id, guild_ids: fresh },
            ),
            SwapPhase::Touch => Some(Op::TouchRefreshed { discord_id: &self.discord_id }),
            SwapPhase::Commit => Some(Op::Commit),
            SwapPhase::Finished => None,
            SwapPhase::Failed(_) => None,
        }
    }

    /// Takes the answer.
    pub fn step(self, answer: Answer) -> (res: GuildSwap)
        ensures
            self.stepped(answer, res),
    {
        let GuildSwap { discord_id, username, guilds, touch, phase } = self;
        let closing: SwapPhase = if touch {
            SwapPhase::Touch
        } else {
            SwapPhase::Commit
        };
        let next: SwapPhase = match (phase, answer) {
            (SwapPhase::Finished, _) => SwapPhase::Finished,
            (SwapPhase::Failed(e), _) => SwapPhase::Failed(e),
            (_, Answer::Failed(e)) => SwapPhase::Failed(e),
            (SwapPhase::Begin, Answer::Done) => SwapPhase::Snapshot,
            (SwapPhase::Snapshot, Answer::Ids(old)) => SwapPhase::Wipe { old },
            (SwapPhase::Wipe { old }, Answer::Done) => {
                if guilds.len() == 0 {
                    closing
                } else {
                    SwapPhase::Insert { old }
                }
            },
            (SwapPhase::Insert { old }, Answer::Done) => {
                let new_ids: Vec<String> = guild_ids(&guilds);
                let fresh: Vec<String> = truly_new(&old, &new_ids);
                assert(texts(fresh@).len() == fresh@.len());
                if fresh.len() == 0 {
                    closing
                } else {
                    SwapPhase::ReadSetting { fresh }
                }
            },
            (SwapPhase::ReadSetting { fresh }, Answer::Flag(setting)) => {
                match apply_optouts_for_new_guilds(fresh, setting) {
                    None => closing,
                    Some(fresh) => SwapPhase::OptOut { fresh },
                }
            },
            (SwapPhase::OptOut { .. }, Answer::Done) => closing,
            (SwapPhase::Touch, Answer::Done) => SwapPhase::Commit,
            (SwapPhase::Commit, Answer::Done) => SwapPhase::Finished,
            (phase, _) => phase,
        };
        GuildSwap { discord_id, username, guilds, touch, phase: next }
    }
}

// ---------------------------------------------------------------------
// What a replacement does to the tables
// ---------------------------------------------------------------------

/// The fetched guilds the user was not recorded in before.
pub open spec fn newly_joined(before: Store, id: Seq<char>, guilds: Seq<GuildRecord>) -> Set<
    Seq<char>,
> {
    Set::new(|g: Seq<char>| records_guild(guilds, g) && !before.is_member(id, g))
}

/// Whether guild-wide opt-outs of the user have been added for these guilds,
/// and no others. Those that were there already are as they were.
pub open spec fn optouts_added(
    before: Store,
    after: Store,
    id: Seq<char>,
    guilds: Set<Seq<char>>,
) -> bool {
    &&& forall|k: (Seq<char>, Seq<char>, Seq<char>)| #[trigger]
        after.optouts.contains_key(k) <==> before.optouts.contains_key(k) || guild_wide(
            k,
            id,
            guilds,
        )
    &&& forall|k: (Seq<char>, Seq<char>, Seq<char>)| #[trigger]
        before.optouts.contains_key(k) ==> after.optouts[k] == before.optouts[k]
}

/// Whether every opt-out that was added was set between `from` and `to`.
pub open spec fn added_between(before: Store, after: Store, from: int, to: int) -> bool {
    forall|k: (Seq<char>, Seq<char>, Seq<char>)| #[trigger]
        after.optouts.contains_key(k) && !before.optouts.contains_key(k) ==> from
            <= after.optouts[k] <= to
}

/// Whether `after` is `before` with the user's guild list replaced: the user
/// is in exactly the fetched guilds, and nobody else's memberships changed;
/// unless the user has new guilds enabled by themselves, there is a
/// guild-wide opt-out for each newly joined one; no opt-out that was there
/// went away or was set anew, and none else was added. The refresh tokens are
/// not spoken of.
pub open spec fn guilds_replaced(
    before: Store,
    after: Store,
    id: Seq<char>,
    username: Option<String>,
    guilds: Seq<GuildRecord>,
) -> bool {
    &&& distinct_guilds(guilds)
    &&& after.user_guilds == before.without_guilds(id).with_guilds(
        id,
        username,
        guilds,
    ).user_guilds
    &&& optouts_added(
        before,
        after,
        id,
        if before.auto_enable(id) {
            Set::empty()
        } else {
            newly_joined(before, id, guilds)
        },
    )
    &&& after.oauth_states == before.oauth_states
    &&& after.settings == before.settings
    &&& after.collation == before.collation
}

impl GuildSwap {
    /// Whether `after` is what this replacement makes of `before`, with the
    /// time of the refresh, where it is noted, and of new opt-outs between
    /// `from` and `to`.
    pub open spec fn replaced(self, before: Store, after: Store, from: int, to: int) -> bool {
        &&& guilds_replaced(before, after, self.discord_id@, self.username, self.guilds@)
        &&& added_between(before, after, from, to)
        &&& if self.touch {
            exists|at: int|
                from <= at <= to && after.tokens == (#[trigger] before.with_refreshed_at(
                    self.discord_id@,
                    at,
                )).tokens
        } else {
            after.tokens == before.tokens
        }
    }

    /// Whether the replacement, given this answer on this database, moves on
    /// to `after` and `next`.
    pub open spec fn moves(self, db: Db, answer: Answer, after: GuildSwap, next: Db) -> bool {
        &&& self.waits_for() is Some
        &&& db.performs(self.waits_for()->0, answer, next)
        &&& self.stepped(answer, after)
    }

    /// How the database stands in the midst of a replacement that began at
    /// the time `from` on the tables `before`.
    pub open spec fn underway(self, before: Store, from: int, db: Db) -> bool {
        let id = self.discord_id@;
        let wiped = before.without_guilds(id);
        let filled = wiped.with_guilds(id, self.username, self.guilds@);
        &&& from <= db.now
        &&& db.pending is Some ==> from <= db.opened <= db.now
        &&& match self.phase {
            SwapPhase::Begin => db.committed == before && db.pending is None,
            SwapPhase::Snapshot => db.committed == before && db.pending == Some(before),
            SwapPhase::Wipe { old } => {
                &&& db.committed == before
                &&& db.pending == Some(before)
                &&& forall|g: Seq<char>|
                    #![trigger before.is_member(id, g)]
                    texts(old@).contains(g) <==> before.is_member(id, g)
            },
            SwapPhase::Insert { old } => {
                &&& db.committed == before
                &&& db.pending == Some(wiped)
                &&& forall|g: Seq<char>|
                    #![trigger before.is_member(id, g)]
                    texts(old@).contains(g) <==> before.is_member(id, g)
            },
            SwapPhase::ReadSetting { fresh } => {
                &&& db.committed == before
                &&& db.pending == Some(filled)
                &&& distinct_guilds(self.guilds@)
                &&& texts(fresh@).to_set() == newly_joined(before, id, self.guilds@)
            },
            SwapPhase::OptOut { fresh } => {
                &&& db.committed == before
                &&& db.pending == Some(filled)
                &&& distinct_guilds(self.guilds@)
                &&& texts(fresh@).to_set() == newly_joined(before, id, self.guilds@)
                &&& !before.auto_enable(id)
            },
            SwapPhase::Touch => {
                &&& self.touch
                &&& db.committed == before
                &&& db.pending matches Some(store) && store.tokens == before.tokens
                    && guilds_replaced(before, store, id, self.username, self.guilds@)
                    && added_between(before, store, from, db.now)
            },
            SwapPhase::Commit => {
                &&& db.committed == before
                &&& db.pending matches Some(store) && self.replaced(before, store, from, db.now)
            },
            SwapPhase::Finished => db.pending is None && self.replaced(
                before,
                db.committed,
                from,
                db.now,
            ),
            SwapPhase::Failed(_) => db.pending is None && (db.committed == before || self.replaced(
                before,
                db.committed,
                from,
                db.now,
            )),
        }
    }
}

proof fn lemma_records_guild_ids(guilds: Seq<GuildRecord>, g: Seq<char>)
    ensures
        ids_of(guilds).contains(g) <==> records_guild(guilds, g),
{
    if ids_of(guilds).contains(g) {
        let i = choose|i: int| 0 <= i < ids_of(guilds).len() && ids_of(guilds)[i] == g;
        assert(guilds[i].guild_id@ == g);
    }
    if records_guild(guilds, g) {
        let i = choose|i: int| 0 <= i < guilds.len() && (#[trigger] guilds[i]).guild_id@ == g;
        assert(ids_of(guilds)[i] == g);
    }
}

proof fn lemma_newly_joined(
    before: Store,
    id: Seq<char>,
    old: Seq<Seq<char>>,
    guilds: Seq<GuildRecord>,
)
    requires
        forall|g: Seq<char>|
            #![trigger before.is_member(id, g)]
            old.contains(g) <==> before.is_member(id, g),
    ensures
        brand_new(old, ids_of(guilds)).to_set() == newly_joined(before, id, guilds),
{
    let fresh = brand_new(old, ids_of(guilds));
    assert forall|g: Seq<char>| fresh.to_set().contains(g) <==> newly_joined(
        before,
        id,
        guilds,
    ).contains(g) by {
        brand_new_guilds(old, ids_of(guilds), g);
        lemma_records_guild_ids(guilds, g);
        let _ = before.is_member(id, g);
    }
}

/// Each step keeps a replacement on its way.
pub proof fn lemma_step_underway(
    swap: GuildSwap,
    before: Store,
    from: int,
    db: Db,
    answer: Answer,
    after: GuildSwap,
    next: Db,
)
    requires
        swap.underway(before, from, db),
        swap.moves(db, answer, after, next),
    ensures
        after.underway(before, from, next),
{
    let id = swap.discord_id@;
    let guilds = swap.guilds@;
    let wiped = before.without_guilds(id);
    let filled = wiped.with_guilds(id, swap.username, guilds);
    match swap.phase {
        SwapPhase::Wipe { old } => {
            if answer is Done && guilds.len() == 0 {
                assert(next.pending == Some(wiped));
                assert(filled.user_guilds =~= wiped.user_guilds);
                assert(newly_joined(before, id, guilds) =~= Set::empty());
                assert(guilds_replaced(before, wiped, id, swap.username, guilds));
            }
        },
        SwapPhase::Insert { old } => {
            if answer is Done {
                lemma_newly_joined(before, id, texts(old@), guilds);
                let fresh = brand_new(texts(old@), ids_of(guilds));
                assert(next.pending == Some(filled));
                if fresh.len() == 0 {
                    assert(fresh.to_set() =~= Set::empty());
                    assert(guilds_replaced(before, filled, id, swap.username, guilds));
                }
            }
        },
        SwapPhase::OptOut { fresh } => {
            if answer is Done {
                let store = filled.with_master_optouts(id, texts(fresh@).to_set(), db.opened);
                assert(next.pending == Some(store));
                assert(guilds_replaced(before, store, id, swap.username, guilds));
            }
        },
        SwapPhase::Touch => {
            if answer is Done {
                let store = db.pending->0;
                let touched = store.with_refreshed_at(id, db.opened);
                assert(next.pending == Some(touched));
                assert(touched.tokens == before.with_refreshed_at(id, db.opened).tokens);
                assert(swap.replaced(before, touched, from, next.now));
            }
        },
        _ => {},
    }
}

/// A replacement, from one state to the next: the states, the database at
/// each, and the answers between them.
pub open spec fn swap_run(swaps: Seq<GuildSwap>, dbs: Seq<Db>, answers: Seq<Answer>) -> bool {
    &&& swaps.len() == answers.len() + 1
    &&& dbs.len() == answers.len() + 1
    &&& forall|i: int|
        #![trigger answers[i]]
        0 <= i < answers.len() ==> swaps[i].moves(dbs[i], answers[i], swaps[i + 1], dbs[i + 1])
}

/// The replacement of a guild list is all or nothing, whatever answers come:
/// once it has finished, the list is the fetched one (guilds joined and
/// guilds left both show), newly joined guilds are opted out of unless the
/// user has them enabled by themselves, existing opt-outs are untouched and
/// so is everybody else; if it fails, the tables are either as they were or
/// fully changed; and until then nothing has changed at all.
pub proof fn guild_replacement_is_atomic(
    swaps: Seq<GuildSwap>,
    dbs: Seq<Db>,
    answers: Seq<Answer>,
)
    requires
        swap_run(swaps, dbs, answers),
        swaps[0].phase is Begin,
        dbs[0].pending is None,
    ensures
        ({
            let swap = swaps.last();
            let before = dbs[0].committed;
            let after = dbs.last();
            &&& swap.underway(before, dbs[0].now, after)
            &&& swap.phase is Finished ==> swap.replaced(
                before,
                after.committed,
                dbs[0].now,
                after.now,
            )
            &&& swap.phase is Failed ==> after.committed == before || swap.replaced(
                before,
                after.committed,
                dbs[0].now,
                after.now,
            )
            &&& !(swap.phase is Finished || swap.phase is Failed) ==> after.committed == before
            &&& swap.discord_id == swaps[0].discord_id
            &&& swap.username == swaps[0].username
            &&& swap.guilds == swaps[0].guilds
            &&& swap.touch == swaps[0].touch
        }),
    decreases answers.len(),
{
    if answers.len() > 0 {
        let n = answers.len() - 1;
        let earlier = answers.drop_last();
        assert forall|i: int| #![trigger earlier[i]] 0 <= i < earlier.len() implies
            swaps.drop_last()[i].moves(
            dbs.drop_last()[i],
            earlier[i],
            swaps.drop_last()[i + 1],
            dbs.drop_last()[i + 1],
        ) by {
            assert(answers[i] == earlier[i]);
        }
        guild_replacement_is_atomic(swaps.drop_last(), dbs.drop_last(), earlier);
        assert(answers[n] == answers.last());
        lemma_step_underway(
            swaps[n],
            dbs[0].committed,
            dbs[0].now,
            dbs[n],
            answers[n],
            swaps[n + 1],
            dbs[n + 1],
        );
    }
}

// ---------------------------------------------------------------------
// Refreshing the list from Discord
// ---------------------------------------------------------------------

/// Outcome of a refresh.
pub enum OnDemand {
    /// A live refresh ran; the payload is the new guild count.
    Refreshed(usize),
    /// None ran: the last one is within the cooldown, or the user has no
    /// refresh token on file.
    Skipped,
}

/// Where a refresh stands.
pub enum RefreshPhase {
    /// Claiming the refresh token, subject to the cooldown.
    Claim { cooldown_secs: u64 },
    /// Trading it for new tokens.
    RefreshToken { refresh_token: String },
    /// That failed: dropping the token, which Discord will not take again.
    DropToken { error: AppError },
    /// Storing the new refresh token, the old one being invalid now.
    StoreToken { access_token: String, refresh_token: String },
    /// Fetching the guild list.
    GetGuilds { access_token: String },
    /// Fetching the current display name.
    GetUser { access_token: String, guilds: Vec<GuildRecord> },
    /// Replacing the recorded list.
    Swap(GuildSwap),
    Finished(OnDemand),
    Failed(AppError),
}

/// The refresh of a user's guild list.
pub struct GuildRefresh {
    pub discord_id: String,
    pub phase: RefreshPhase,
}

/// What a replacement means for the refresh it is part of.
pub open spec fn after_swap(swap: GuildSwap) -> RefreshPhase {
    match swap.phase {
        SwapPhase::Finished => RefreshPhase::Finished(
            OnDemand::Refreshed(swap.guilds.len()),
        ),
        SwapPhase::Failed(e) => RefreshPhase::Failed(e),
        _ => RefreshPhase::Swap(swap),
    }
}

/// Refreshes the user's guild list right now, unless the last refresh is
/// within the cooldown.
pub fn refresh_on_demand(discord_id: String, cooldown_secs: u64) -> (res: GuildRefresh)
    ensures
        res == (GuildRefresh { discord_id, phase: RefreshPhase::Claim { cooldown_secs } }),
{
    GuildRefresh { discord_id, phase: RefreshPhase::Claim { cooldown_secs } }
}

/// Refreshes the user's guild list with the stored refresh token.
pub fn replace_user_guilds(discord_id: String, refresh_token: String) -> (res: GuildRefresh)
    ensures
        res == (GuildRefresh { discord_id, phase: RefreshPhase::RefreshToken { refresh_token } }),
{
    GuildRefresh { discord_id, phase: RefreshPhase::RefreshToken { refresh_token } }
}

impl GuildRefresh {
    /// The operation the refresh waits for.
    pub open spec fn waits_for<'a>(&'a self) -> Option<Op<'a>> {
        match &self.phase {
            RefreshPhase::Claim { cooldown_secs } => Some(
                Op::ClaimRefresh { discord_id: &self.discord_id, cooldown_secs: *cooldown_secs },
            ),
            RefreshPhase::RefreshToken { refresh_token } => Some(
                Op::RefreshAccessToken { refresh_token },
            ),
            RefreshPhase::DropToken { .. } => Some(
                Op::DeleteRefreshToken { discord_id: &self.discord_id },
            ),
            RefreshPhase::StoreToken { refresh_token, .. } => Some(
                Op::UpdateRefreshToken { discord_id: &self.discord_id, refresh_token },
            ),
            RefreshPhase::GetGuilds { access_token } => Some(Op::GetUserGuilds { access_token }),
            RefreshPhase::GetUser { access_token, .. } => Some(Op::GetUser { access_token }),
            RefreshPhase::Swap(swap) => swap.waits_for(),
            RefreshPhase::Finished(_) => None,
            RefreshPhase::Failed(_) => None,
        }
    }

    /// Whether `answer` takes this refresh to `after`.
    pub open spec fn stepped(self, answer: Answer, after: GuildRefresh) -> bool {
        &&& after.discord_id == self.discord_id
        &&& match (self.phase, answer) {
            (RefreshPhase::Finished(_), _) => after.phase == self.phase,
            (RefreshPhase::Failed(_), _) => after.phase == self.phase,
            (RefreshPhase::Swap(swap), _) => exists|next: GuildSwap| #[trigger]
                swap.stepped(answer, next) && after.phase == after_swap(next),
            (RefreshPhase::RefreshToken { .. }, Answer::Failed(error)) => after.phase == (
            RefreshPhase::DropToken { error }),
            (RefreshPhase::DropToken { error }, Answer::Done) => after.phase
                == RefreshPhase::Failed(error),
            (RefreshPhase::DropToken { error }, Answer::Failed(_)) => after.phase
                == RefreshPhase::Failed(error),
            (_, Answer::Failed(e)) => after.phase == RefreshPhase::Failed(e),
            (RefreshPhase::Claim { .. }, Answer::Text(token)) => after.phase == (match token {
                Some(refresh_token) => RefreshPhase::RefreshToken { refresh_token },
                None => RefreshPhase::Finished(OnDemand::Skipped),
            }),
            (RefreshPhase::RefreshToken { .. }, Answer::Tokens(tokens)) => {
                match tokens.refresh_token {
                    Some(refresh_token) => after.phase == (RefreshPhase::StoreToken {
                        access_token: tokens.access_token,
                        refresh_token,
                    }),
                    None => after.phase matches RefreshPhase::DropToken {
                        error: AppError::Internal(message),
                    } && message@ == "Discord token refresh returned no refresh_token"@,
                }
            },
            (RefreshPhase::StoreToken { access_token, .. }, Answer::Done) => after.phase == (
            RefreshPhase::GetGuilds { access_token }),
            (RefreshPhase::GetGuilds { access_token }, Answer::DiscordGuilds(fetched)) => {
                after.phase matches RefreshPhase::GetUser { access_token: token, guilds } && token
                    == access_token && guilds@ == fetched@.map_values(
                    |g: DiscordGuild| record_of(g),
                )
            },
            (RefreshPhase::GetUser { guilds, .. }, Answer::User(user)) => after.phase
                == RefreshPhase::Swap(
                GuildSwap {
                    discord_id: self.discord_id,
                    username: Some(display_name_of(user)),
                    guilds,
                    touch: true,
                    phase: SwapPhase::Begin,
                },
            ),
            _ => after.phase == self.phase,
        }
    }

    /// What to carry out next; nothing when the flow is over.
    pub fn next_op<'a>(&'a self) -> (res: Option<Op<'a>>)
        ensures
            res == self.waits_for(),
    {
        match &self.phase {
            RefreshPhase::Claim { cooldown_secs } => Some(
                Op::ClaimRefresh { discord_id: &self.discord_id, cooldown_secs: *cooldown_secs },
            ),
            RefreshPhase::RefreshToken { refresh_token } => Some(
                Op::RefreshAccessToken { refresh_token },
            ),
            RefreshPhase::DropToken { .. } => Some(
                Op::DeleteRefreshToken { discord_id: &self.discord_id },
            ),
            RefreshPhase::StoreToken { refresh_token, .. } => Some(
                Op::UpdateRefreshToken { discord_id: &self.discord_id, refresh_token },
            ),
            RefreshPhase::GetGuilds { access_token } => Some(Op::GetUserGuilds { access_token }),
            RefreshPhase::GetUser { access_token, .. } => Some(Op::GetUser { access_token }),
            RefreshPhase::Swap(swap) => swap.next_op(),
            RefreshPhase::Finished(_) => None,
            RefreshPhase::Failed(_) => None,
        }
    }

    /// Takes the answer.
    pub fn step(self, answer: Answer) -> (res: GuildRefresh)
        ensures
            self.stepped(answer, res),
    {
        let GuildRefresh { discord_id, phase } = self;
        let next: RefreshPhase = match (phase, answer) {
            (RefreshPhase::Finished(outcome), _) => RefreshPhase::Finished(outcome),
            (RefreshPhase::Failed(e), _) => RefreshPhase::Failed(e),
            (RefreshPhase::Swap(swap), answer) => {
                let GuildSwap { discord_id, username, guilds, touch, phase } = swap.step(answer);
                match phase {
                    SwapPhase::Finished => RefreshPhase::Finished(
                        OnDemand::Refreshed(guilds.len()),
                    ),
                    SwapPhase::Failed(e) => RefreshPhase::Failed(e),
                    phase => RefreshPhase::Swap(
                        GuildSwap { discord_id, username, guilds, touch, phase },
                    ),
                }
            },
            (RefreshPhase::RefreshToken { .. }, Answer::Failed(error)) => RefreshPhase::DropToken {
                error,
            },
            (RefreshPhase::DropToken { error }, Answer::Done) => RefreshPhase::Failed(error),
            (RefreshPhase::DropToken { error }, Answer::Failed(_)) => RefreshPhase::Failed(error),
            (_, Answer::Failed(e)) => RefreshPhase::Failed(e),
            (RefreshPhase::Claim { .. }, Answer::Text(token)) => match token {
                Some(refresh_token) => RefreshPhase::RefreshToken { refresh_token },
                None => RefreshPhase::Finished(OnDemand::Skipped),
            },
            (RefreshPhase::RefreshToken { .. }, Answer::Tokens(tokens)) => {
                match DiscordOAuth::refresh_access_token_reply(tokens) {
                    Ok((access_token, refresh_token)) => RefreshPhase::StoreToken {
                        access_token,
                        refresh_token,
                    },
                    Err(error) => RefreshPhase::DropToken { error },
                }
            },
            (RefreshPhase::StoreToken { access_token, .. }, Answer::Done) => {
                RefreshPhase::GetGuilds { access_token }
            },
            (RefreshPhase::GetGuilds { access_token }, Answer::DiscordGuilds(fetched)) => {
                let guilds: Vec<GuildRecord> = DiscordOAuth::get_user_guilds_reply(fetched);
                RefreshPhase::GetUser { access_token, guilds }
            },
            (RefreshPhase::GetUser { guilds, .. }, Answer::User(user)) => {
                let (_, display_name) = DiscordOAuth::get_user_reply(user);
                RefreshPhase::Swap(
                    GuildSwap {
                        discord_id: discord_id.clone(),
                        username: Some(display_name),
                        guilds,
                        touch: true,
                        phase: SwapPhase::Begin,
                    },
                )
            },
            (phase, _) => phase,
        };
        GuildRefresh { discord_id, phase: next }
    }
}

// ---------------------------------------------------------------------
// What a refresh does to the tables
// ---------------------------------------------------------------------

/// Whether the two differ in refresh tokens only.
pub open spec fn same_but_tokens(before: Store, after: Store) -> bool {
    after == (Store { tokens: after.tokens, ..before })
}

/// Whether nobody's refresh token but this user's has changed.
pub open spec fn other_tokens_kept(before: Store, after: Store, id: Seq<char>) -> bool {
    after.tokens.remove(id) == before.tokens.remove(id)
}

/// Whether the user still has a refresh token, if there was one, and counts
/// as refreshed when the refresh claimed it, between `from` and `to`, or, if
/// it did not have to, when the user did before.
pub open spec fn time_kept(
    k: int,
    before: Store,
    after: Store,
    id: Seq<char>,
    from: int,
    to: int,
) -> bool {
    before.tokens.contains_key(id) ==> after.tokens.contains_key(id) && (if k == 0 {
        after.tokens[id].refreshed_at == before.tokens[id].refreshed_at
    } else {
        from <= after.tokens[id].refreshed_at <= to
    })
}

/// Whether a user with a refresh token counts as refreshed at some time from
/// `from` to `to`.
pub open spec fn refreshed_since(
    before: Store,
    after: Store,
    id: Seq<char>,
    from: int,
    to: int,
) -> bool {
    before.tokens.contains_key(id) ==> after.tokens.contains_key(id) && from
        <= after.tokens[id].refreshed_at <= to
}

/// How many answers a refresh that begins so gets before it trades the
/// token: one, if it has to claim it.
pub open spec fn lead(start: GuildRefresh) -> int {
    if start.phase is Claim {
        1
    } else {
        0
    }
}

/// The refresh token Discord gave in place of the old one, if it did. The
/// answer at `k` is that to the trading of the token.
pub open spec fn granted_token(k: int, answers: Seq<Answer>) -> Option<String> {
    if k < answers.len() {
        match answers[k] {
            Answer::Tokens(tokens) => tokens.refresh_token,
            _ => None,
        }
    } else {
        None
    }
}

/// The guild list Discord gave, as it is recorded, if it did.
pub open spec fn fetched_guilds(k: int, answers: Seq<Answer>) -> Option<Seq<GuildRecord>> {
    if k + 2 < answers.len() {
        match answers[k + 2] {
            Answer::DiscordGuilds(fetched) => Some(
                fetched@.map_values(|g: DiscordGuild| record_of(g)),
            ),
            _ => None,
        }
    } else {
        None
    }
}

/// The display name Discord gave, if it did.
pub open spec fn fetched_name(k: int, answers: Seq<Answer>) -> Option<String> {
    if k + 3 < answers.len() {
        match answers[k + 3] {
            Answer::User(user) => Some(display_name_of(user)),
            _ => None,
        }
    } else {
        None
    }
}

/// Whether a user with a refresh token now has this one.
pub open spec fn rotated(
    before: Store,
    after: Store,
    id: Seq<char>,
    token: Option<String>,
) -> bool {
    token matches Some(t) && (before.tokens.contains_key(id) ==> after.tokens.contains_key(id)
        && after.tokens[id].refresh_token == t@)
}

/// Whether the user's guild list has been replaced by the one Discord gave,
/// with the display name Discord gave.
pub open spec fn refreshed_from(
    k: int,
    answers: Seq<Answer>,
    before: Store,
    after: Store,
    id: Seq<char>,
) -> bool {
    &&& fetched_guilds(k, answers) is Some
    &&& fetched_name(k, answers) is Some
    &&& guilds_replaced(
        before,
        after,
        id,
        fetched_name(k, answers),
        fetched_guilds(k, answers)->0,
    )
}

impl GuildRefresh {
    /// Whether the operation, on this database, can come to this answer and
    /// take the flow to `after` and the database to `next`.
    pub open spec fn moves(self, db: Db, answer: Answer, after: GuildRefresh, next: Db) -> bool {
        &&& self.waits_for() is Some
        &&& db.performs(self.waits_for()->0, answer, next)
        &&& self.stepped(answer, after)
    }

    /// How the database stands in the midst of a refresh that began at the
    /// time `from` on the tables `before`. The answers given so far are those
    /// that went before it, if any, and its own; that at `k` is the answer to
    /// the trading of the token.
    pub open spec fn underway(
        self,
        k: int,
        before: Store,
        from: int,
        answers: Seq<Answer>,
        db: Db,
    ) -> bool {
        let id = self.discord_id@;
        let n = answers.len();
        let token = granted_token(k, answers);
        &&& k >= 0
        &&& from <= db.now
        &&& other_tokens_kept(before, db.committed, id)
        &&& match self.phase {
            RefreshPhase::Claim { .. } => n == k - 1 && db.pending is None && db.committed
                == before,
            RefreshPhase::RefreshToken { .. } => n == k && db.pending is None && same_but_tokens(
                before,
                db.committed,
            ) && time_kept(k, before, db.committed, id, from, db.now),
            RefreshPhase::DropToken { .. } => n == k + 1 && token is None && db.pending is None
                && same_but_tokens(before, db.committed) && time_kept(
                k,
                before,
                db.committed,
                id,
                from,
                db.now,
            ),
            RefreshPhase::StoreToken { refresh_token, .. } => n == k + 1 && token == Some(
                refresh_token,
            ) && db.pending is None && same_but_tokens(before, db.committed) && time_kept(
                k,
                before,
                db.committed,
                id,
                from,
                db.now,
            ),
            RefreshPhase::GetGuilds { .. } => n == k + 2 && db.pending is None && same_but_tokens(
                before,
                db.committed,
            ) && rotated(before, db.committed, id, token) && time_kept(
                k,
                before,
                db.committed,
                id,
                from,
                db.now,
            ),
            RefreshPhase::GetUser { guilds, .. } => n == k + 3 && fetched_guilds(k, answers)
                == Some(guilds@) && db.pending is None && same_but_tokens(before, db.committed)
                && rotated(before, db.committed, id, token) && time_kept(
                k,
                before,
                db.committed,
                id,
                from,
                db.now,
            ),
            RefreshPhase::Swap(swap) => {
                &&& n >= k + 4
                &&& fetched_guilds(k, answers) == Some(swap.guilds@)
                &&& fetched_name(k, answers) == swap.username
                &&& swap.username is Some
                &&& swap.discord_id == self.discord_id
                &&& swap.touch
                &&& exists|mid: Store, began: int|
                    from <= began && same_but_tokens(before, mid) && other_tokens_kept(
                        before,
                        mid,
                        id,
                    ) && rotated(before, mid, id, token) && time_kept(
                        k,
                        before,
                        mid,
                        id,
                        from,
                        db.now,
                    ) && #[trigger] swap.underway(mid, began, db)
            },
            RefreshPhase::Finished(OnDemand::Skipped) => n == k && db.pending is None
                && db.committed == before,
            RefreshPhase::Finished(OnDemand::Refreshed(count)) => {
                &&& db.pending is None
                &&& refreshed_from(k, answers, before, db.committed, id)
                &&& fetched_guilds(k, answers)->0.len() == count
                &&& refreshed_since(before, db.committed, id, from, db.now)
                &&& rotated(before, db.committed, id, token)
            },
            RefreshPhase::Failed(_) => {
                &&& db.pending is None
                &&& {
                    ||| same_but_tokens(before, db.committed) && (n > k ==> time_kept(
                        k,
                        before,
                        db.committed,
                        id,
                        from,
                        db.now,
                    ) || (token is None && !db.committed.tokens.contains_key(id)))
                    ||| token is Some && refreshed_from(k, answers, before, db.committed, id)
                        && refreshed_since(before, db.committed, id, from, db.now)
                }
                &&& token is None && n == k + 2 && answers.last() is Done
                    ==> !db.committed.tokens.contains_key(id)
                &&& token is Some && n >= k + 3 ==> rotated(before, db.committed, id, token)
            },
        }
    }
}

/// A replacement on tables that differ from `before` in tokens only is one
/// on `before`.
pub proof fn lemma_replaced_but_tokens(
    before: Store,
    mid: Store,
    after: Store,
    id: Seq<char>,
    username: Option<String>,
    guilds: Seq<GuildRecord>,
)
    requires
        same_but_tokens(before, mid),
        guilds_replaced(mid, after, id, username, guilds),
    ensures
        guilds_replaced(before, after, id, username, guilds),
{
    assert(mid.without_guilds(id).user_guilds =~= before.without_guilds(id).user_guilds);
    assert(mid.without_guilds(id).with_guilds(id, username, guilds).user_guilds
        =~= before.without_guilds(id).with_guilds(id, username, guilds).user_guilds);
    assert(newly_joined(mid, id, guilds) =~= newly_joined(before, id, guilds));
}

/// What a replacement that has committed leaves behind.
proof fn lemma_swap_committed(
    swap: GuildSwap,
    before: Store,
    mid: Store,
    began: int,
    token: Option<String>,
    db: Db,
)
    requires
        swap.touch,
        same_but_tokens(before, mid),
        other_tokens_kept(before, mid, swap.discord_id@),
        rotated(before, mid, swap.discord_id@, token),
        swap.replaced(mid, db.committed, began, db.now),
    ensures
        guilds_replaced(before, db.committed, swap.discord_id@, swap.username, swap.guilds@),
        refreshed_since(before, db.committed, swap.discord_id@, began, db.now),
        other_tokens_kept(before, db.committed, swap.discord_id@),
        rotated(before, db.committed, swap.discord_id@, token),
{
    let id = swap.discord_id@;
    lemma_replaced_but_tokens(before, mid, db.committed, id, swap.username, swap.guilds@);
    let at = choose|at: int|
        began <= at <= db.now && db.committed.tokens == (#[trigger] mid.with_refreshed_at(
            id,
            at,
        )).tokens;
    assert(mid.with_refreshed_at(id, at).tokens.remove(id) =~= mid.tokens.remove(id));
}

/// Each step keeps a refresh on its way.
pub proof fn lemma_refresh_step_underway(
    refresh: GuildRefresh,
    k: int,
    before: Store,
    from: int,
    answers: Seq<Answer>,
    db: Db,
    answer: Answer,
    after: GuildRefresh,
    next: Db,
)
    requires
        refresh.underway(k, before, from, answers, db),
        refresh.moves(db, answer, after, next),
    ensures
        after.underway(k, before, from, answers.push(answer), next),
        after.discord_id == refresh.discord_id,
{
    let id = refresh.discord_id@;
    let op = refresh.waits_for()->0;
    let token = granted_token(k, answers);
    if let RefreshPhase::Swap(swap) = refresh.phase {
        let (mid, began) = choose|mid: Store, began: int|
            from <= began && same_but_tokens(before, mid) && other_tokens_kept(before, mid, id)
                && rotated(before, mid, id, token) && time_kept(k, before, mid, id, from, db.now)
                && #[trigger] swap.underway(mid, began, db);
        let moved = choose|moved: GuildSwap| #[trigger]
            swap.stepped(answer, moved) && after.phase == after_swap(moved);
        assert(swap.moves(db, answer, moved, next));
        lemma_step_underway(swap, mid, began, db, answer, moved, next);
        assert(moved.underway(mid, began, next));
        assert(moved.guilds.len() == moved.guilds@.len());
        if moved.replaced(mid, next.committed, began, next.now) {
            lemma_swap_committed(moved, before, mid, began, token, next);
        }
    } else {
        let done = db.committed.after_op(op, db.now);
        assert(done.tokens.remove(id) =~= db.committed.tokens.remove(id));
        assert(same_but_tokens(before, done));
        if let RefreshPhase::Swap(swap) = after.phase {
            assert(swap.underway(next.committed, next.now, next));
        }
    }
}

/// A refresh, from one state to the next: the states, the database at each,
/// and the answers between them.
pub open spec fn refresh_run(
    refreshes: Seq<GuildRefresh>,
    dbs: Seq<Db>,
    answers: Seq<Answer>,
) -> bool {
    &&& refreshes.len() == answers.len() + 1
    &&& dbs.len() == answers.len() + 1
    &&& forall|i: int|
        #![trigger answers[i]]
        0 <= i < answers.len() ==> refreshes[i].moves(
            dbs[i],
            answers[i],
            refreshes[i + 1],
            dbs[i + 1],
        )
}

/// A refresh, whatever answers come, replaces the user's guild list by the
/// one Discord gave, in full, or leaves every membership and opt-out as it
/// was; one that was skipped has changed nothing; one that ran to its end
/// counts as a refresh since it began, and has stored the refresh token that
/// Discord gave in place of the old one; so has one that failed, if it got as
/// far as having stored it; and nobody else's refresh token is touched.
pub proof fn refresh_replaces_or_keeps(
    refreshes: Seq<GuildRefresh>,
    dbs: Seq<Db>,
    answers: Seq<Answer>,
)
    requires
        refresh_run(refreshes, dbs, answers),
        refreshes[0].phase is Claim || refreshes[0].phase is RefreshToken,
        dbs[0].pending is None,
    ensures
        refreshes.last().discord_id == refreshes[0].discord_id,
        refreshes.last().underway(
            lead(refreshes[0]),
            dbs[0].committed,
            dbs[0].now,
            answers,
            dbs.last(),
        ),
    decreases answers.len(),
{
    if answers.len() > 0 {
        let n = answers.len() - 1;
        let earlier = answers.drop_last();
        assert forall|i: int| #![trigger earlier[i]] 0 <= i < earlier.len() implies
            refreshes.drop_last()[i].moves(
            dbs.drop_last()[i],
            earlier[i],
            refreshes.drop_last()[i + 1],
            dbs.drop_last()[i + 1],
        ) by {
            assert(answers[i] == earlier[i]);
        }
        refresh_replaces_or_keeps(refreshes.drop_last(), dbs.drop_last(), earlier);
        assert(answers[n] == answers.last());
        assert(answers == earlier.push(answers[n]));
        lemma_refresh_step_underway(
            refreshes[n],
            lead(refreshes[0]),
            dbs[0].committed,
            dbs[0].now,
            earlier,
            dbs[n],
            answers[n],
            refreshes[n + 1],
            dbs[n + 1],
        );
    }
}

/// A refresh token that Discord does not take is dropped, and the error is
/// what the refresh ends in, whatever becomes of the dropping.
pub proof fn unusable_token_is_dropped(
    refresh: GuildRefresh,
    error: AppError,
    dropping: GuildRefresh,
    db: Db,
    answer: Answer,
    after: GuildRefresh,
    next: Db,
)
    requires
        refresh.phase is RefreshToken,
        refresh.stepped(Answer::Failed(error), dropping),
        db.pending is None,
        dropping.moves(db, answer, after, next),
    ensures
        after.phase == RefreshPhase::Failed(error),
        answer is Done ==> !next.committed.tokens.contains_key(refresh.discord_id@),
{
}

/// The refresh token that Discord hands out in place of the old one is stored
/// before anything else is done.
pub proof fn rotated_token_is_stored(
    refresh: GuildRefresh,
    access_token: String,
    refresh_token: String,
    storing: GuildRefresh,
    db: Db,
    answer: Answer,
    after: GuildRefresh,
    next: Db,
)
    requires
        refresh.phase is RefreshToken,
        refresh.stepped(
            Answer::Tokens(TokenResponse { access_token, refresh_token: Some(refresh_token) }),
            storing,
        ),
        db.pending is None,
        db.committed.tokens.contains_key(refresh.discord_id@),
        storing.moves(db, answer, after, next),
        answer is Done,
    ensures
        next.committed.tokens.contains_key(refresh.discord_id@),
        next.committed.tokens[refresh.discord_id@].refresh_token == refresh_token@,
        after.phase == (RefreshPhase::GetGuilds { access_token }),
{
}

/// A refresh with a stored token that fails once the new token is stored, at
/// anything but the commit, has changed that token and nothing else: not the
/// time of the last refresh, no membership, no opt-out. (What becomes of a
/// commit that is reported as failed is not known: see
/// [`refresh_replaces_or_keeps`].)
pub proof fn failed_refresh_changes_the_token_alone(
    refreshes: Seq<GuildRefresh>,
    dbs: Seq<Db>,
    answers: Seq<Answer>,
    access_token: String,
    refresh_token: String,
)
    requires
        refresh_run(refreshes, dbs, answers),
        refreshes[0].phase is RefreshToken,
        dbs[0].pending is None,
        dbs[0].committed.tokens.contains_key(refreshes[0].discord_id@),
        answers.len() >= 3,
        answers[0] == Answer::Tokens(
            TokenResponse { access_token, refresh_token: Some(refresh_token) },
        ),
        answers[1] is Done,
        answers.last() is Failed,
        !(refreshes[answers.len() - 1].waits_for()->0 is Commit),
    ensures
        refreshes.last().phase is Failed,
        ({
            let before = dbs[0].committed;
            let id = refreshes[0].discord_id@;
            dbs.last().committed == (Store {
                tokens: before.tokens.insert(
                    id,
                    TokenRow { refresh_token: refresh_token@, ..before.tokens[id] },
                ),
                ..before
            })
        }),
{
    let n = answers.len() - 1;
    let before = dbs[0].committed;
    let id = refreshes[0].discord_id@;
    let earlier = answers.drop_last();
    let (rs, ds) = (refreshes.drop_last(), dbs.drop_last());
    assert forall|i: int| #![trigger earlier[i]] 0 <= i < earlier.len() implies rs[i].moves(
        ds[i],
        earlier[i],
        rs[i + 1],
        ds[i + 1],
    ) by {
        assert(answers[i] == earlier[i]);
    }
    refresh_replaces_or_keeps(rs, ds, earlier);
    assert(answers[n] == answers.last());
    let (last, db, next) = (refreshes[n], dbs[n], dbs[n + 1]);
    assert(last.moves(db, answers[n], refreshes[n + 1], next));
    assert(earlier[0] == answers[0] && earlier[1] == answers[1]);
    assert(granted_token(0, earlier) == Some(refresh_token));
    let mid = if let RefreshPhase::Swap(swap) = last.phase {
        let (mid, began) = choose|mid: Store, began: int|
            dbs[0].now <= began && same_but_tokens(before, mid) && other_tokens_kept(
                before,
                mid,
                id,
            ) && rotated(before, mid, id, Some(refresh_token)) && time_kept(
                0,
                before,
                mid,
                id,
                dbs[0].now,
                db.now,
            ) && #[trigger] swap.underway(mid, began, db);
        let moved = choose|moved: GuildSwap| #[trigger]
            swap.stepped(answers[n], moved) && refreshes[n + 1].phase == after_swap(moved);
        assert(moved.phase is Failed);
        mid
    } else {
        db.committed
    };
    assert(next.committed == mid);
    let row = TokenRow { refresh_token: refresh_token@, ..before.tokens[id] };
    assert(mid.tokens =~= before.tokens.insert(id, row)) by {
        assert forall|u: Seq<char>| u != id implies #[trigger] mid.tokens.contains_key(u)
            == before.tokens.contains_key(u) && (before.tokens.contains_key(u) ==> mid.tokens[u]
            == before.tokens[u]) by {
            assert(mid.tokens.remove(id).contains_key(u) == before.tokens.remove(id).contains_key(
                u,
            ));
            assert(before.tokens.contains_key(u) ==> mid.tokens.remove(id)[u]
                == before.tokens.remove(id)[u]);
        }
    }
}

/// Statements, one after the other: the tables before and after each, what it
/// does, and the time it goes by.
pub open spec fn statements(stores: Seq<Store>, ops: Seq<Op<'_>>, times: Seq<int>) -> bool {
    &&& stores.len() == ops.len() + 1
    &&& times.len() == ops.len()
    &&& forall|i: int|
        #![trigger ops[i]]
        0 <= i < ops.len() ==> stores[i + 1] == stores[i].after_op(ops[i], times[i])
}

proof fn lemma_no_earlier_refresh(
    stores: Seq<Store>,
    ops: Seq<Op<'_>>,
    times: Seq<int>,
    user: Seq<char>,
    claimed_at: int,
    i: int,
)
    requires
        statements(stores, ops, times),
        forall|j: int| 0 <= j < times.len() ==> claimed_at <= #[trigger] times[j],
        stores[0].tokens.contains_key(user) ==> claimed_at <= stores[0].tokens[user].refreshed_at,
        0 <= i < stores.len(),
    ensures
        stores[i].tokens.contains_key(user) ==> claimed_at <= stores[i].tokens[user].refreshed_at,
    decreases i,
{
    if i > 0 {
        lemma_no_earlier_refresh(stores, ops, times, user, claimed_at, i - 1);
        assert(stores[i] == stores[i - 1].after_op(ops[i - 1], times[i - 1]));
        assert(claimed_at <= times[i - 1]);
    }
}

/// The cooldown: once a claim has got a user's token, no claim gets it before
/// the cooldown is over, whatever is done to the tables in between, by
/// statements that go by no earlier time. So of all the requests in a window
/// one at most refreshes.
pub proof fn one_refresh_per_cooldown(
    store: Store,
    discord_id: String,
    claimed_under: u64,
    claimed_at: int,
    stores: Seq<Store>,
    ops: Seq<Op<'_>>,
    times: Seq<int>,
    cooldown_secs: u64,
    later: int,
)
    requires
        store.claimable(discord_id@, claimed_under, claimed_at),
        stores[0] == store.after_op(
            Op::ClaimRefresh { discord_id: &discord_id, cooldown_secs: claimed_under },
            claimed_at,
        ),
        statements(stores, ops, times),
        forall|j: int| 0 <= j < times.len() ==> claimed_at <= #[trigger] times[j],
        later <= claimed_at + micros(cooldown_secs as int),
    ensures
        forall|i: int|
            0 <= i < stores.len() ==> !(#[trigger] stores[i]).claimable(
                discord_id@,
                cooldown_secs,
                later,
            ),
{
    assert forall|i: int| 0 <= i < stores.len() implies !(#[trigger] stores[i]).claimable(
        discord_id@,
        cooldown_secs,
        later,
    ) by {
        lemma_no_earlier_refresh(stores, ops, times, discord_id@, claimed_at, i);
    }
}

/// The time of a user's last refresh is only ever set to the time of the
/// statement that sets it, so it never moves back, but by dropping the user's
/// token: what holds a claim off goes on to do so. (A statement inside a
/// transaction goes by the time that was opened. If another flow claims the
/// token meanwhile, the time can fall back to that, and no further.)
pub proof fn refresh_times_move_forward(store: Store, op: Op<'_>, time: int, user: Seq<char>)
    requires
        store.tokens.contains_key(user),
        !(op matches Op::DeleteRefreshToken { discord_id } && discord_id@ == user),
    ensures
        ({
            let old_time = store.tokens[user].refreshed_at;
            let new_time = store.after_op(op, time).tokens[user].refreshed_at;
            &&& store.after_op(op, time).tokens.contains_key(user)
            &&& new_time == old_time || new_time == time
            &&& old_time <= time ==> old_time <= new_time <= time
        }),
{
}

// ---------------------------------------------------------------------
// Both end
// ---------------------------------------------------------------------

impl GuildSwap {
    /// A bound on the answers a replacement still needs.
    pub open spec fn remaining(self) -> nat {
        match self.phase {
            SwapPhase::Begin => 8,
            SwapPhase::Snapshot => 7,
            SwapPhase::Wipe { .. } => 6,
            SwapPhase::Insert { .. } => 5,
            SwapPhase::ReadSetting { .. } => 4,
            SwapPhase::OptOut { .. } => 3,
            SwapPhase::Touch => 2,
            SwapPhase::Commit => 1,
            SwapPhase::Finished => 0,
            SwapPhase::Failed(_) => 0,
        }
    }
}

impl GuildRefresh {
    /// A bound on the answers a refresh still needs.
    pub open spec fn remaining(self) -> nat {
        match self.phase {
            RefreshPhase::Claim { .. } => 13,
            RefreshPhase::RefreshToken { .. } => 12,
            RefreshPhase::DropToken { .. } => 1,
            RefreshPhase::StoreToken { .. } => 11,
            RefreshPhase::GetGuilds { .. } => 10,
            RefreshPhase::GetUser { .. } => 9,
            RefreshPhase::Swap(swap) => swap.remaining(),
            RefreshPhase::Finished(_) => 0,
            RefreshPhase::Failed(_) => 0,
        }
    }
}

/// A replacement ends: it waits for something just as long as it is not
/// over, and every answer its operation can give brings it nearer the end.
pub proof fn replacement_ends(swap: GuildSwap, db: Db, answer: Answer, after: GuildSwap, next: Db)
    requires
        swap.moves(db, answer, after, next),
    ensures
        after.remaining() < swap.remaining(),
        after.waits_for() is None <==> after.remaining() == 0,
{
}

/// A refresh ends, in the same way: it takes 13 answers at most.
pub proof fn refresh_ends(
    refresh: GuildRefresh,
    db: Db,
    answer: Answer,
    after: GuildRefresh,
    next: Db,
)
    requires
        refresh.moves(db, answer, after, next),
    ensures
        after.remaining() < refresh.remaining(),
        after.waits_for() is None <==> after.remaining() == 0,
{
    if let RefreshPhase::Swap(swap) = refresh.phase {
        let moved = choose|moved: GuildSwap| #[trigger]
            swap.stepped(answer, moved) && after.phase == after_swap(moved);
        replacement_ends(swap, db, answer, moved, next);
    }
}

// ---------------------------------------------------------------------
// From what Discord says to the tables
// ---------------------------------------------------------------------

/// Whether the user's rows in `after` are what Discord says in `fetched`, and
/// all else is as in `before`. The user is a member of just the guilds listed,
/// under their names, and may manage a guild as its owner or if bit 5 of the
/// permissions is set. The display name is `name`. The icons are recorded if
/// `icons` says so. The guilds the user was not in before are opted out of as
/// a whole, unless the user has new guilds enabled by themselves; the opt-outs
/// there were are as they were, and there are no others.
pub open spec fn holds_discords_list(
    before: Store,
    after: Store,
    id: Seq<char>,
    fetched: Seq<DiscordGuild>,
    name: Option<Seq<char>>,
    icons: bool,
) -> bool {
    let enabled = before.settings.contains_key(id) && before.settings[id];
    &&& forall|g: Seq<char>| #[trigger]
        after.user_guilds.contains_key((id, g)) <==> exists|i: int|
            0 <= i < fetched.len() && (#[trigger] fetched[i]).id@ == g
    &&& forall|i: int|
        0 <= i < fetched.len() ==> {
            let given = #[trigger] fetched[i];
            let row = after.user_guilds[(id, given.id@)];
            &&& row.guild_name == Some(given.name@)
            &&& row.username == name
            &&& row.icon_hash == (if icons && given.icon is Some {
                Some(given.icon->0@)
            } else {
                None
            })
            &&& given.owner ==> row.manage_guild
            &&& !given.owner ==> (row.manage_guild <==> (parsed_u64(
                given.permissions@,
            ) matches Some(v) && (v / 32) % 2 == 1))
        }
    &&& forall|i: int, v: u64|
        #![trigger fetched[i], decimal(v as int)]
        0 <= i < fetched.len() && !fetched[i].owner && fetched[i].permissions@ == decimal(v as int)
            ==> (after.user_guilds[(id, fetched[i].id@)].manage_guild <==> (v / 32) % 2 == 1)
    &&& forall|u: Seq<char>, g: Seq<char>|
        u != id ==> (#[trigger] after.user_guilds.contains_key((u, g))
            <==> before.user_guilds.contains_key((u, g)))
    &&& forall|u: Seq<char>, g: Seq<char>|
        u != id && #[trigger] before.user_guilds.contains_key((u, g)) ==> after.user_guilds[(u, g)]
            == before.user_guilds[(u, g)]
    &&& forall|k: (Seq<char>, Seq<char>, Seq<char>)| #[trigger]
        before.optouts.contains_key(k) ==> after.optouts.contains_key(k) && after.optouts[k]
            == before.optouts[k]
    &&& forall|k: (Seq<char>, Seq<char>, Seq<char>)| #[trigger]
        after.optouts.contains_key(k) && !before.optouts.contains_key(k) ==> k.0 == id && k.2.len()
            == 0 && !enabled && after.user_guilds.contains_key((id, k.1))
            && !before.user_guilds.contains_key((id, k.1))
    &&& forall|g: Seq<char>| #[trigger]
        after.user_guilds.contains_key((id, g)) && !before.user_guilds.contains_key((id, g))
            && !enabled ==> after.optouts.contains_key((id, g, Seq::<char>::empty()))
    &&& after.settings == before.settings
    &&& after.oauth_states == before.oauth_states
}

proof fn lemma_recorded_row(guilds: Seq<GuildRecord>, i: int)
    requires
        distinct_guilds(guilds),
        0 <= i < guilds.len(),
    ensures
        records_guild(guilds, guilds[i].guild_id@),
        guild_record(guilds, guilds[i].guild_id@) == guilds[i],
{
    let g = guilds[i].guild_id@;
    let j = choose|j: int| 0 <= j < guilds.len() && (#[trigger] guilds[j]).guild_id@ == g;
    assert(guilds[j].guild_id@ == guilds[i].guild_id@);
}

/// A list of records, each made of what Discord says of a guild, is Discord's
/// list once it is recorded.
pub proof fn lemma_recorded_list(
    before: Store,
    after: Store,
    id: Seq<char>,
    username: Option<String>,
    guilds: Seq<GuildRecord>,
    fetched: Seq<DiscordGuild>,
    icons: bool,
)
    requires
        guilds_replaced(before, after, id, username, guilds),
        guilds.len() == fetched.len(),
        forall|i: int|
            0 <= i < fetched.len() ==> (#[trigger] guilds[i]) == (GuildRecord {
                icon_hash: if icons {
                    fetched[i].icon
                } else {
                    None
                },
                ..record_of(fetched[i])
            }),
    ensures
        holds_discords_list(before, after, id, fetched, text_of(username), icons),
{
    let wiped = before.without_guilds(id);
    let enabled = before.settings.contains_key(id) && before.settings[id];
    assert(after.user_guilds == wiped.with_guilds(id, username, guilds).user_guilds);
    assert forall|g: Seq<char>| #[trigger] after.user_guilds.contains_key((id, g)) <==> exists|
        i: int,
    | 0 <= i < fetched.len() && (#[trigger] fetched[i]).id@ == g by {
        if records_guild(guilds, g) {
            let i = choose|i: int| 0 <= i < guilds.len() && (#[trigger] guilds[i]).guild_id@ == g;
            assert(fetched[i].id@ == g);
        }
        if exists|i: int| 0 <= i < fetched.len() && (#[trigger] fetched[i]).id@ == g {
            let i = choose|i: int| 0 <= i < fetched.len() && (#[trigger] fetched[i]).id@ == g;
            assert(guilds[i].guild_id@ == g);
        }
    }
    assert forall|i: int| 0 <= i < fetched.len() implies after.user_guilds[(
        id,
        (#[trigger] fetched[i]).id@,
    )] == guild_row(guilds[i], username) by {
        assert(guilds[i].guild_id@ == fetched[i].id@);
        lemma_recorded_row(guilds, i);
    }
    assert forall|i: int, v: u64|
        #![trigger fetched[i], decimal(v as int)]
        0 <= i < fetched.len() && !fetched[i].owner && fetched[i].permissions@ == decimal(
            v as int,
        ) implies (after.user_guilds[(id, fetched[i].id@)].manage_guild <==> (v / 32) % 2 == 1) by {
        record_says_who_may_manage(fetched[i], v);
        assert(after.user_guilds[(id, fetched[i].id@)] == guild_row(guilds[i], username));
    }
    assert forall|i: int| 0 <= i < fetched.len() implies ({
        let given = #[trigger] fetched[i];
        let row = after.user_guilds[(id, given.id@)];
        &&& given.owner ==> row.manage_guild
        &&& !given.owner ==> (row.manage_guild <==> (parsed_u64(given.permissions@) matches Some(v)
            && (v / 32) % 2 == 1))
    }) by {
        record_says_who_may_manage(fetched[i], 0);
        assert(after.user_guilds[(id, fetched[i].id@)] == guild_row(guilds[i], username));
    }
    assert forall|k: (Seq<char>, Seq<char>, Seq<char>)| #[trigger]
        after.optouts.contains_key(k) && !before.optouts.contains_key(k) implies k.0 == id
        && k.2.len() == 0 && !enabled && after.user_guilds.contains_key((id, k.1))
        && !before.user_guilds.contains_key((id, k.1)) by {
        assert(records_guild(guilds, k.1));
        let i = choose|i: int| 0 <= i < guilds.len() && (#[trigger] guilds[i]).guild_id@ == k.1;
        assert(fetched[i].id@ == k.1);
    }
    assert forall|g: Seq<char>| #[trigger]
        after.user_guilds.contains_key((id, g)) && !before.user_guilds.contains_key((id, g))
        && !enabled implies after.optouts.contains_key((id, g, Seq::<char>::empty())) by {
        assert(records_guild(guilds, g));
        assert(newly_joined(before, id, guilds).contains(g));
        assert(guild_wide((id, g, master()), id, newly_joined(before, id, guilds)));
    }
}

/// What a refresh does, from one end to the other. One that ran to its end has
/// traded the user's token for a new one, which is stored in its place, and
/// has recorded the list that Discord gave with the display name that Discord
/// gave, and the user counts as refreshed since it began. Nobody else's row
/// has changed. One that was skipped has changed nothing.
pub proof fn refresh_records_discords_list(
    refreshes: Seq<GuildRefresh>,
    dbs: Seq<Db>,
    answers: Seq<Answer>,
)
    requires
        refresh_run(refreshes, dbs, answers),
        refreshes[0].phase is Claim || refreshes[0].phase is RefreshToken,
        dbs[0].pending is None,
    ensures
        refreshes.last().phase == RefreshPhase::Finished(OnDemand::Skipped)
            ==> dbs.last().committed == dbs[0].committed && answers.len() == 1
            && refreshes[0].phase is Claim,
        refreshes.last().phase matches RefreshPhase::Finished(OnDemand::Refreshed(count)) ==> {
            let k: int = if refreshes[0].phase is Claim {
                1
            } else {
                0
            };
            let (before, after) = (dbs[0].committed, dbs.last().committed);
            let id = refreshes[0].discord_id@;
            &&& answers.len() > k + 3
            &&& answers[k] matches Answer::Tokens(tokens) && tokens.refresh_token is Some && (
            before.tokens.contains_key(id) ==> after.tokens.contains_key(id)
                && after.tokens[id].refresh_token == tokens.refresh_token->0@ && dbs[0].now
                <= after.tokens[id].refreshed_at <= dbs.last().now)
            &&& forall|u: Seq<char>|
                u != id ==> (#[trigger] after.tokens.contains_key(u)
                    <==> before.tokens.contains_key(u)) && (before.tokens.contains_key(u) ==> after.tokens[u] == before.tokens[u])
            &&& answers[k + 2] matches Answer::DiscordGuilds(fetched) && fetched@.len() == count
                && (answers[k + 3] matches Answer::User(user) && holds_discords_list(
                before,
                after,
                id,
                fetched@,
                Some(
                    match user.global_name {
                        Some(name) => name@,
                        None => user.username@,
                    },
                ),
                true,
            ))
        },
{
    refresh_replaces_or_keeps(refreshes, dbs, answers);
    let k = lead(refreshes[0]);
    let (before, after) = (dbs[0].committed, dbs.last().committed);
    let id = refreshes[0].discord_id@;
    if let RefreshPhase::Finished(outcome) = refreshes.last().phase {
        if outcome is Refreshed {
            let guilds = fetched_guilds(k, answers)->0;
            if let Answer::DiscordGuilds(fetched) = answers[k + 2] {
                assert forall|i: int| 0 <= i < fetched@.len() implies (#[trigger] guilds[i]) == (
                GuildRecord { icon_hash: fetched@[i].icon, ..record_of(fetched@[i]) }) by {
                    record_says_who_may_manage(fetched@[i], 0);
                }
                lemma_recorded_list(
                    before,
                    after,
                    id,
                    fetched_name(k, answers),
                    guilds,
                    fetched@,
                    true,
                );
            }
            assert forall|u: Seq<char>| u != id implies (#[trigger] after.tokens.contains_key(u)
                <==> before.tokens.contains_key(u)) && (before.tokens.contains_key(u)
                ==> after.tokens[u] == before.tokens[u]) by {
                assert(after.tokens.remove(id).contains_key(u) == before.tokens.remove(
                    id,
                ).contains_key(u));
                assert(before.tokens.contains_key(u) ==> after.tokens.remove(id)[u]
                    == before.tokens.remove(id)[u]);
            }
        } else {
            assert(refreshes[0].phase is Claim) by {
                if answers.len() == 0 {
                    assert(refreshes.last() == refreshes[0]);
                }
            }
        }
    }
}

/// The order of a refresh, and what each call is made with: the claim asks for
/// the user's token under the cooldown; the token that comes back is traded;
/// the new one is stored for the user; the list and the name are fetched with
/// the access token that came with it; and the user whose list is replaced is
/// the same throughout.
pub proof fn refresh_asks_for_what_it_needs(
    claiming: GuildRefresh,
    cooldown_secs: u64,
    token: String,
    trading: GuildRefresh,
    access_token: String,
    refresh_token: String,
    storing: GuildRefresh,
    listing: GuildRefresh,
    fetched: Vec<DiscordGuild>,
    naming: GuildRefresh,
    user: DiscordUser,
    replacing: GuildRefresh,
)
    requires
        claiming.phase == (RefreshPhase::Claim { cooldown_secs }),
        claiming.stepped(Answer::Text(Some(token)), trading),
        trading.stepped(
            Answer::Tokens(TokenResponse { access_token, refresh_token: Some(refresh_token) }),
            storing,
        ),
        storing.stepped(Answer::Done, listing),
        listing.stepped(Answer::DiscordGuilds(fetched), naming),
        naming.stepped(Answer::User(user), replacing),
    ensures
        claiming.waits_for() == Some(
            Op::ClaimRefresh { discord_id: &claiming.discord_id, cooldown_secs },
        ),
        trading.waits_for() == Some(Op::RefreshAccessToken { refresh_token: &token }),
        storing.waits_for() == Some(
            Op::UpdateRefreshToken {
                discord_id: &claiming.discord_id,
                refresh_token: &refresh_token,
            },
        ),
        listing.waits_for() == Some(Op::GetUserGuilds { access_token: &access_token }),
        naming.waits_for() == Some(Op::GetUser { access_token: &access_token }),
        replacing.waits_for() == Some(Op::Begin),
        replacing.phase matches RefreshPhase::Swap(swap) && swap.discord_id@
            == claiming.discord_id@,
        replacing.discord_id@ == claiming.discord_id@,
{
}

/// A replacement fails with an answer that failed, and with that error; in no
/// other case, whatever the list and the answers hold.
pub proof fn replacement_fails_with_its_answer(
    swap: GuildSwap,
    answer: Answer,
    after: GuildSwap,
    error: AppError,
)
    requires
        swap.waits_for() is Some,
        swap.stepped(answer, after),
    ensures
        after.phase == SwapPhase::Failed(error) <==> answer == Answer::Failed(error),
{
}

/// A refresh fails with an answer that failed, and with that error. The one
/// other reason is a trade of the token that brought no new token. Where a
/// trade failed, for whatever reason, the token is dropped first.
pub proof fn refresh_fails_with_its_answer(
    refresh: GuildRefresh,
    answer: Answer,
    after: GuildRefresh,
)
    requires
        refresh.waits_for() is Some,
        refresh.stepped(answer, after),
    ensures
        after.phase matches RefreshPhase::Failed(error) ==> answer == Answer::Failed(error)
            || refresh.phase == (RefreshPhase::DropToken { error }),
        after.phase matches RefreshPhase::DropToken { error } ==> refresh.phase is DropToken || (
        refresh.phase is RefreshToken && (answer == Answer::Failed(error) || (
        answer matches Answer::Tokens(tokens) && tokens.refresh_token is None && (
        error matches AppError::Internal(message) && message@
            == "Discord token refresh returned no refresh_token"@)))),
        answer is Failed ==> after.phase is Failed || after.phase is DropToken,
        after.phase == RefreshPhase::Finished(OnDemand::Skipped) ==> refresh.phase is Claim
            && answer == Answer::Text(None),
        refresh.phase is RefreshToken && (answer is Failed || (answer matches Answer::Tokens(tokens)
            && tokens.refresh_token is None)) ==> (after.waits_for() matches Some(
            Op::DeleteRefreshToken { discord_id },
        ) && discord_id@ == refresh.discord_id@),
        refresh.phase is Claim && answer == Answer::Text(None) ==> after.phase
            == RefreshPhase::Finished(OnDemand::Skipped),
        after.discord_id@ == refresh.discord_id@,
{
    if let RefreshPhase::Swap(swap) = refresh.phase {
        let moved = choose|moved: GuildSwap| #[trigger]
            swap.stepped(answer, moved) && after.phase == after_swap(moved);
        if swap.waits_for() is Some {
            if let SwapPhase::Failed(e) = moved.phase {
                replacement_fails_with_its_answer(swap, answer, moved, e);
            }
        }
    }
}

} // verus!

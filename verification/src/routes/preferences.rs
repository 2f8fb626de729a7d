//! User preferences: which servers are to receive the roles that plugins
//! assign, narrowed to single plugins where the user wants that.
//!
//! The table stores opt-outs only: no row means opted in. Toggling something
//! off adds a row, toggling it back on removes it.

use crate::encoding::{percent_decoded, percent_encoded, percent_encoding_reads_back};
use crate::error::AppError;
use crate::ops::{texts, Answer, Op, OptoutRow, UserGuild};
use crate::plugins::{
    is_known_plugin, known_plugin, known_plugin_is_named, lists_registry, plugins,
    registry_as_it_is_shown, PluginEntry,
};
use crate::routes::caller::{caller_at, caller_discord_id};
use crate::routes::my_servers_html::{after_link, before_link, page, render_my_servers_html};
use crate::routes::oauth::on_site;
use crate::services::discord_oauth::{
    record_of, record_says_who_may_manage, DiscordGuild, GuildRecord,
};
use crate::services::guild_sync::{
    fetched_guilds, fetched_name, lemma_recorded_list, lemma_refresh_step_underway,
    other_tokens_kept, refresh_ends, refresh_fails_with_its_answer, refresh_on_demand,
    refreshed_from, same_but_tokens, GuildRefresh, RefreshPhase,
};
use crate::services::optout::{
    auto_enable, auto_enable_new_guilds, set_auto_enable_new_guilds,
};
use crate::store::{
    guild_keys, lemma_listing_order, lemma_same_listing, listed_before, master, sound_op, text_of,
    Db, GuildKey, Store,
};
use crate::text::{all_digits, is_relative_path, relative_path, same_text};
use crate::trusted::{clock_reading, url_encode};
use vstd::prelude::*;
use vstd::relations::*;
use vstd::string::*;

verus! {

/// Minimum seconds between refreshes of a user's guild list for the sake of
/// one guild. Short enough that "join the server, reload the page" works
/// within a few seconds; long enough that a reload loop cannot hammer
/// Discord.
pub const ENSURE_GUILD_COOLDOWN_SECS: u64 = 5;

/// Minimum seconds between the refreshes that the My Servers page asks for
/// on every load.
pub const MY_SERVERS_REFRESH_COOLDOWN_SECS: u64 = 15;

/// A Discord snowflake: 5 to 25 digits.
pub open spec fn snowflake(s: Seq<char>) -> bool {
    5 <= s.len() <= 25 && all_digits(s)
}

/// Whether `s` can be a Discord ID.
pub fn is_snowflake(s: &str) -> (res: bool)
    ensures
        res == snowflake(s@),
        res <==> 5 <= s@.len() <= 25 && forall|i: int|
            0 <= i < s@.len() ==> '0' <= #[trigger] s@[i] <= '9',
{
    let n: usize = s.unicode_len();
    if n < 5 || n > 25 {
        return false;
    }
    let mut i: usize = 0;
    while i < n
        invariant
            i <= n,
            n == s@.len(),
            forall|j: int| 0 <= j < i ==> '0' <= #[trigger] s@[j] <= '9',
        decreases n - i,
    {
        let c: char = s.get_char(i);
        if !('0' <= c && c <= '9') {
            return false;
        }
        i = i + 1;
    }
    true
}

// ---------------------------------------------------------------------
// Reading the preferences
// ---------------------------------------------------------------------

pub struct PreferencesQuery {
    /// A guild the page is about. If the caller is not known to be in it,
    /// the guild list is refreshed first, for the caller may just have
    /// joined.
    pub ensure_guild: Option<String>,
    /// If present, whatever it says, the guild list is refreshed first.
    pub refresh: Option<String>,
}

/// A guild of the caller, with the opt-outs there.
pub struct GuildPreference {
    pub guild_id: String,
    pub guild_name: Option<String>,
    pub icon_hash: Option<String>,
    pub master_optout: bool,
    pub plugin_optouts: Vec<String>,
}

/// What the toggles are drawn from.
pub struct Preferences {
    pub discord_id: String,
    pub guilds: Vec<GuildPreference>,
    /// The opt-outs in guilds that are not among those.
    pub other_optouts: Vec<OptoutRow>,
    pub plugins: Vec<PluginEntry>,
    pub auto_enable_new_guilds: bool,
}

/// Whether the rows hold a guild-wide opt-out of the guild.
pub open spec fn master_optout(rows: Seq<OptoutRow>, guild: Seq<char>) -> bool {
    exists|i: int|
        0 <= i < rows.len() && (#[trigger] rows[i]).guild_id@ == guild && rows[i].plugin@.len() == 0
}

/// The plugins the rows opt out of in the guild, in order.
pub open spec fn plugin_optouts(rows: Seq<OptoutRow>, guild: Seq<char>) -> Seq<Seq<char>> {
    rows.filter(|r: OptoutRow| r.guild_id@ == guild && r.plugin@.len() > 0).map_values(
        |r: OptoutRow| r.plugin@,
    )
}

/// Whether no earlier row is of the same guild.
pub open spec fn first_of_guild(rows: Seq<UserGuild>, i: int) -> bool {
    forall|j: int| 0 <= j < i ==> (#[trigger] rows[j]).guild_id@ != rows[i].guild_id@
}

/// Whether the entry shows the guild in row `i` with its opt-outs. They are
/// shown once, where the guild comes first.
pub open spec fn shows(
    entry: GuildPreference,
    rows: Seq<UserGuild>,
    i: int,
    optouts: Seq<OptoutRow>,
) -> bool {
    let guild = rows[i].guild_id@;
    &&& entry.guild_id == rows[i].guild_id
    &&& entry.guild_name == rows[i].guild_name
    &&& entry.icon_hash == rows[i].icon_hash
    &&& entry.master_optout == (first_of_guild(rows, i) && master_optout(optouts, guild))
    &&& texts(entry.plugin_optouts@) == (if first_of_guild(rows, i) {
        plugin_optouts(optouts, guild)
    } else {
        Seq::<Seq<char>>::empty()
    })
}

/// Whether the entries show the guilds in the rows, in order.
pub open spec fn all_shown(
    entries: Seq<GuildPreference>,
    rows: Seq<UserGuild>,
    optouts: Seq<OptoutRow>,
) -> bool {
    &&& entries.len() == rows.len()
    &&& forall|i: int| 0 <= i < rows.len() ==> shows(#[trigger] entries[i], rows, i, optouts)
}

/// Whether the rows list the guild.
pub open spec fn lists_guild(rows: Seq<UserGuild>, guild: Seq<char>) -> bool {
    exists|i: int| 0 <= i < rows.len() && (#[trigger] rows[i]).guild_id@ == guild
}

/// The opt-outs in guilds that are not listed, in order.
pub open spec fn optouts_elsewhere(rows: Seq<UserGuild>, optouts: Seq<OptoutRow>) -> Seq<
    OptoutRow,
> {
    optouts.filter(|r: OptoutRow| !lists_guild(rows, r.guild_id@))
}

fn has_guild(rows: &Vec<UserGuild>, guild_id: &str) -> (res: bool)
    ensures
        res == lists_guild(rows@, guild_id@),
{
    let mut i: usize = 0;
    while i < rows.len()
        invariant
            i <= rows@.len(),
            forall|j: int| 0 <= j < i ==> (#[trigger] rows@[j]).guild_id@ != guild_id@,
        decreases rows@.len() - i,
    {
        if same_text(rows[i].guild_id.as_str(), guild_id) {
            assert(rows@[i as int].guild_id@ == guild_id@);
            return true;
        }
        i = i + 1;
    }
    false
}

/// The opt-outs in guilds that are not listed.
pub fn remaining_optouts(rows: &Vec<UserGuild>, optouts: &Vec<OptoutRow>) -> (res: Vec<OptoutRow>)
    ensures
        res@ == optouts_elsewhere(rows@, optouts@),
{
    let ghost pred = |r: OptoutRow| !lists_guild(rows@, r.guild_id@);
    let mut out: Vec<OptoutRow> = Vec::new();
    let mut i: usize = 0;
    assert(out@ == optouts@.take(0).filter(pred)) by {
        reveal(Seq::filter);
    }
    while i < optouts.len()
        invariant
            i <= optouts@.len(),
            pred == (|r: OptoutRow| !lists_guild(rows@, r.guild_id@)),
            out@ == optouts@.take(i as int).filter(pred),
        decreases optouts@.len() - i,
    {
        let row: &OptoutRow = &optouts[i];
        proof {
            reveal(Seq::filter);
            assert(optouts@.take(i + 1).drop_last() == optouts@.take(i as int));
            assert(optouts@.take(i + 1).last() == *row);
        }
        if !has_guild(rows, row.guild_id.as_str()) {
            out.push(OptoutRow { guild_id: row.guild_id.clone(), plugin: row.plugin.clone() });
        }
        i = i + 1;
    }
    assert(optouts@.take(i as int) == optouts@);
    out
}

/// The opt-outs in one guild.
fn optouts_in(rows: &Vec<OptoutRow>, guild_id: &str) -> (res: (bool, Vec<String>))
    ensures
        res.0 == master_optout(rows@, guild_id@),
        texts((res.1)@) == plugin_optouts(rows@, guild_id@),
{
    let ghost pred = |r: OptoutRow| r.guild_id@ == guild_id@ && r.plugin@.len() > 0;
    let ghost plugin = |r: OptoutRow| r.plugin@;
    let mut master: bool = false;
    let mut slugs: Vec<String> = Vec::new();
    let mut i: usize = 0;
    assert(texts(slugs@) == rows@.take(0).filter(pred).map_values(plugin)) by {
        reveal(Seq::filter);
    }
    while i < rows.len()
        invariant
            i <= rows@.len(),
            pred == (|r: OptoutRow| r.guild_id@ == guild_id@ && r.plugin@.len() > 0),
            plugin == (|r: OptoutRow| r.plugin@),
            master == master_optout(rows@.take(i as int), guild_id@),
            texts(slugs@) == rows@.take(i as int).filter(pred).map_values(plugin),
        decreases rows@.len() - i,
    {
        let ghost before = texts(slugs@);
        let ghost seen = rows@.take(i as int);
        let row: &OptoutRow = &rows[i];
        proof {
            reveal(Seq::filter);
            assert(rows@.take(i + 1).drop_last() == seen);
            assert(rows@.take(i + 1).last() == *row);
            assert(rows@.take(i + 1)[i as int] == *row);
            if master_optout(seen, guild_id@) {
                let j = choose|j: int|
                    0 <= j < seen.len() && (#[trigger] seen[j]).guild_id@ == guild_id@
                        && seen[j].plugin@.len() == 0;
                assert(rows@.take(i + 1)[j] == seen[j]);
            }
            if master_optout(rows@.take(i + 1), guild_id@) {
                let j = choose|j: int|
                    0 <= j < i + 1 && (#[trigger] rows@.take(i + 1)[j]).guild_id@ == guild_id@
                        && rows@.take(i + 1)[j].plugin@.len() == 0;
                assert(j < i ==> seen[j] == rows@.take(i + 1)[j]);
            }
        }
        if same_text(row.guild_id.as_str(), guild_id) {
            if row.plugin.as_str().unicode_len() == 0 {
                master = true;
            } else {
                slugs.push(row.plugin.clone());
                proof {
                    assert(texts(slugs@) == before.push(row.plugin@));
                    assert(seen.filter(pred).push(*row).map_values(plugin) == seen.filter(
                        pred,
                    ).map_values(plugin).push(row.plugin@));
                }
            }
        }
        i = i + 1;
    }
    assert(rows@.take(i as int) == rows@);
    (master, slugs)
}

fn is_first_of_guild(rows: &Vec<UserGuild>, i: usize) -> (res: bool)
    requires
        i < rows@.len(),
    ensures
        res == first_of_guild(rows@, i as int),
{
    let mut j: usize = 0;
    while j < i
        invariant
            j <= i < rows@.len(),
            forall|k: int|
                0 <= k < j ==> (#[trigger] rows@[k]).guild_id@ != rows@[i as int].guild_id@,
        decreases i - j,
    {
        if same_text(rows[j].guild_id.as_str(), rows[i].guild_id.as_str()) {
            assert(rows@[j as int].guild_id@ == rows@[i as int].guild_id@);
            return false;
        }
        j = j + 1;
    }
    true
}

/// The guilds with their opt-outs, in the order of the rows.
pub fn group_optouts(rows: &Vec<UserGuild>, optouts: &Vec<OptoutRow>) -> (res: Vec<
    GuildPreference,
>)
    ensures
        all_shown(res@, rows@, optouts@),
{
    let mut out: Vec<GuildPreference> = Vec::new();
    let mut i: usize = 0;
    while i < rows.len()
        invariant
            i <= rows@.len(),
            out@.len() == i,
            forall|j: int| 0 <= j < i ==> shows(#[trigger] out@[j], rows@, j, optouts@),
        decreases rows@.len() - i,
    {
        let row: &UserGuild = &rows[i];
        let (master_optout, plugin_optouts) = if is_first_of_guild(rows, i) {
            optouts_in(optouts, row.guild_id.as_str())
        } else {
            let none: Vec<String> = Vec::new();
            assert(texts(none@) == Seq::<Seq<char>>::empty());
            (false, none)
        };
        let entry = GuildPreference {
            guild_id: row.guild_id.clone(),
            guild_name: row.guild_name.clone(),
            icon_hash: row.icon_hash.clone(),
            master_optout,
            plugin_optouts,
        };
        assert(shows(entry, rows@, i as int, optouts@));
        out.push(entry);
        i = i + 1;
    }
    out
}

/// Where a reading of the preferences stands.
pub enum PreferencesPhase {
    /// Looking whether the guild the page is about is known.
    CheckGuild { guild_id: String },
    /// Refreshing the guild list. If that fails, the known one has to do.
    Refresh(GuildRefresh),
    /// Reading the guilds.
    Guilds,
    /// Reading the opt-outs.
    Optouts { rows: Vec<UserGuild> },
    /// Reading whether new guilds are enabled by themselves.
    Setting { guilds: Vec<GuildPreference>, other_optouts: Vec<OptoutRow> },
    Finished(Preferences),
    Failed(AppError),
}

/// The reading of a caller's preferences.
pub struct GetPreferences {
    pub discord_id: String,
    pub phase: PreferencesPhase,
}

/// Whether the refresh is one of this user's guild list, under the cooldown,
/// about to claim the token.
pub open spec fn refresh_of(refresh: GuildRefresh, id: Seq<char>, cooldown_secs: u64) -> bool {
    refresh.discord_id@ == id && refresh.phase == (RefreshPhase::Claim { cooldown_secs })
}

/// What a refresh means for the reading it is part of: whatever it comes to,
/// the guilds are read next.
pub open spec fn after_refresh(refresh: GuildRefresh) -> PreferencesPhase {
    match refresh.phase {
        RefreshPhase::Finished(_) => PreferencesPhase::Guilds,
        RefreshPhase::Failed(_) => PreferencesPhase::Guilds,
        _ => PreferencesPhase::Refresh(refresh),
    }
}

impl GetPreferences {
    /// Whether this is how a reading begins for the user.
    pub open spec fn begins(self, id: Seq<char>, query: PreferencesQuery) -> bool {
        &&& self.discord_id@ == id
        &&& match (query.refresh, query.ensure_guild) {
            (Some(_), _) => self.phase matches PreferencesPhase::Refresh(refresh) && refresh_of(
                refresh,
                id,
                MY_SERVERS_REFRESH_COOLDOWN_SECS,
            ),
            (None, Some(guild_id)) => self.phase == (if snowflake(guild_id@) {
                PreferencesPhase::CheckGuild { guild_id }
            } else {
                PreferencesPhase::Guilds
            }),
            (None, None) => self.phase is Guilds,
        }
    }

    /// Begins for the user.
    pub fn begin(discord_id: String, query: PreferencesQuery) -> (res: GetPreferences)
        ensures
            res.begins(discord_id@, query),
    {
        let phase: PreferencesPhase = match (query.refresh, query.ensure_guild) {
            (Some(_), _) => PreferencesPhase::Refresh(
                refresh_on_demand(discord_id.clone(), MY_SERVERS_REFRESH_COOLDOWN_SECS),
            ),
            (None, Some(guild_id)) => {
                if is_snowflake(guild_id.as_str()) {
                    PreferencesPhase::CheckGuild { guild_id }
                } else {
                    PreferencesPhase::Guilds
                }
            },
            (None, None) => PreferencesPhase::Guilds,
        };
        GetPreferences { discord_id, phase }
    }

    /// The operation the reading waits for.
    pub open spec fn waits_for<'a>(&'a self) -> Option<Op<'a>> {
        match &self.phase {
            PreferencesPhase::CheckGuild { guild_id } => Some(
                Op::SelectMembership { discord_id: &self.discord_id, guild_id },
            ),
            PreferencesPhase::Refresh(refresh) => refresh.waits_for(),
            PreferencesPhase::Guilds => Some(
                Op::SelectUserGuilds { discord_id: &self.discord_id },
            ),
            PreferencesPhase::Optouts { .. } => Some(
                Op::SelectOptouts { discord_id: &self.discord_id },
            ),
            PreferencesPhase::Setting { .. } => Some(
                Op::SelectAutoEnable { discord_id: &self.discord_id },
            ),
            PreferencesPhase::Finished(_) => None,
            PreferencesPhase::Failed(_) => None,
        }
    }

    /// Whether `answer` takes this reading to `after`.
    pub open spec fn stepped(self, answer: Answer, after: GetPreferences) -> bool {
        &&& after.discord_id == self.discord_id
        &&& match (self.phase, answer) {
            (PreferencesPhase::Finished(_), _) => after.phase == self.phase,
            (PreferencesPhase::Failed(_), _) => after.phase == self.phase,
            (PreferencesPhase::Refresh(refresh), _) => exists|next: GuildRefresh| #[trigger]
                refresh.stepped(answer, next) && after.phase == after_refresh(next),
            (_, Answer::Failed(e)) => after.phase == PreferencesPhase::Failed(e),
            (PreferencesPhase::CheckGuild { .. }, Answer::Found(known)) => if known {
                after.phase is Guilds
            } else {
                after.phase matches PreferencesPhase::Refresh(refresh) && refresh_of(
                    refresh,
                    self.discord_id@,
                    ENSURE_GUILD_COOLDOWN_SECS,
                )
            },
            (PreferencesPhase::Guilds, Answer::UserGuilds(rows)) => after.phase == (
            PreferencesPhase::Optouts { rows }),
            (PreferencesPhase::Optouts { rows }, Answer::Optouts(optouts)) => {
                after.phase matches PreferencesPhase::Setting { guilds, other_optouts }
                    && all_shown(guilds@, rows@, optouts@) && other_optouts@ == optouts_elsewhere(
                    rows@,
                    optouts@,
                )
            },
            (PreferencesPhase::Setting { guilds, other_optouts }, Answer::Flag(setting)) => {
                after.phase matches PreferencesPhase::Finished(preferences)
                    && preferences.discord_id == self.discord_id && preferences.guilds == guilds
                    && preferences.other_optouts == other_optouts && lists_registry(
                    preferences.plugins@,
                ) && preferences.auto_enable_new_guilds == auto_enable(setting)
            },
            _ => after.phase == self.phase,
        }
    }

    /// What to carry out next; nothing when the flow is over.
    pub fn next_op<'a>(&'a self) -> (res: Option<Op<'a>>)
        ensures
            res == self.waits_for(),
    {
        match &self.phase {
            PreferencesPhase::CheckGuild { guild_id } => Some(
                Op::SelectMembership { discord_id: &self.discord_id, guild_id },
            ),
            PreferencesPhase::Refresh(refresh) => refresh.next_op(),
            PreferencesPhase::Guilds => Some(
                Op::SelectUserGuilds { discord_id: &self.discord_id },
            ),
            PreferencesPhase::Optouts { .. } => Some(
                Op::SelectOptouts { discord_id: &self.discord_id },
            ),
            PreferencesPhase::Setting { .. } => Some(
                Op::SelectAutoEnable { discord_id: &self.discord_id },
            ),
            PreferencesPhase::Finished(_) => None,
            PreferencesPhase::Failed(_) => None,
        }
    }

    /// Takes the answer.
    pub fn step(self, answer: Answer) -> (res: GetPreferences)
        ensures
            self.stepped(answer, res),
    {
        let GetPreferences { discord_id, phase } = self;
        let next: PreferencesPhase = match (phase, answer) {
            (PreferencesPhase::Finished(preferences), _) => PreferencesPhase::Finished(preferences),
            (PreferencesPhase::Failed(e), _) => PreferencesPhase::Failed(e),
            (PreferencesPhase::Refresh(refresh), answer) => {
                let GuildRefresh { discord_id, phase } = refresh.step(answer);
                match phase {
                    RefreshPhase::Finished(_) => PreferencesPhase::Guilds,
                    RefreshPhase::Failed(_) => PreferencesPhase::Guilds,
                    phase => PreferencesPhase::Refresh(GuildRefresh { discord_id, phase }),
                }
            },
            (_, Answer::Failed(e)) => PreferencesPhase::Failed(e),
            (PreferencesPhase::CheckGuild { .. }, Answer::Found(known)) => {
                if known {
                    PreferencesPhase::Guilds
                } else {
                    PreferencesPhase::Refresh(
                        refresh_on_demand(discord_id.clone(), ENSURE_GUILD_COOLDOWN_SECS),
                    )
                }
            },
            (PreferencesPhase::Guilds, Answer::UserGuilds(rows)) => PreferencesPhase::Optouts {
                rows,
            },
            (PreferencesPhase::Optouts { rows }, Answer::Optouts(optouts)) => {
                PreferencesPhase::Setting {
                    guilds: group_optouts(&rows, &optouts),
                    other_optouts: remaining_optouts(&rows, &optouts),
                }
            },
            (PreferencesPhase::Setting { guilds, other_optouts }, Answer::Flag(setting)) => {
                PreferencesPhase::Finished(
                    Preferences {
                        discord_id: discord_id.clone(),
                        guilds,
                        other_optouts,
                        plugins: plugins(),
                        auto_enable_new_guilds: auto_enable_new_guilds(setting),
                    },
                )
            },
            (phase, _) => phase,
        };
        GetPreferences { discord_id, phase: next }
    }
}

/// GET /auth/preferences: the caller's guilds, the plugin registry and the
/// opt-outs.
pub fn get_preferences(cookie: Option<&str>, secret: &str, query: PreferencesQuery) -> (res: Result<
    GetPreferences,
    AppError,
>)
    ensures
        exists|now: i64| #[trigger]
            clock_reading(now) && (match caller_at(cookie, secret@, now as int) {
                Some(id) => res matches Ok(reading) && reading.begins(id, query),
                None => res == Err::<GetPreferences, AppError>(AppError::Unauthorized),
            }),
{
    match caller_discord_id(cookie, secret) {
        Err(e) => Err(e),
        Ok(discord_id) => Ok(GetPreferences::begin(discord_id, query)),
    }
}

// ---------------------------------------------------------------------
// One toggle
// ---------------------------------------------------------------------

pub struct UpdatePreferenceBody {
    pub guild_id: String,
    /// None for the guild-wide toggle, which overrides every plugin in that
    /// guild; else a registered plugin.
    pub plugin: Option<String>,
    /// True to opt in, false to opt out.
    pub enabled: bool,
}

/// Where the update of a toggle stands.
pub enum UpdatePhase {
    /// Checking that the caller is in the guild.
    CheckMember,
    /// Adding or removing the opt-out.
    Write,
    Finished,
    Failed(AppError),
}

/// The update of one toggle of a caller.
pub struct UpdatePreference {
    pub discord_id: String,
    pub guild_id: String,
    /// Empty for the guild-wide toggle.
    pub plugin: String,
    pub enabled: bool,
    pub phase: UpdatePhase,
}

/// The plugin column of the opt-out that a toggle stands for.
pub open spec fn toggle_plugin(plugin: Option<String>) -> Seq<char> {
    match plugin {
        Some(slug) => slug@,
        None => Seq::<char>::empty(),
    }
}

/// Whether `res` is how an update begins for the user: one of an unknown
/// plugin does not.
pub open spec fn update_begins(
    id: Seq<char>,
    body: UpdatePreferenceBody,
    res: Result<UpdatePreference, AppError>,
) -> bool {
    match body.plugin {
        Some(slug) if !known_plugin(slug@) => res matches Err(AppError::BadRequest(message))
            && message@ == "Unknown plugin: "@ + slug@,
        _ => res matches Ok(update) && update.discord_id@ == id && update.guild_id == body.guild_id
            && update.plugin@ == toggle_plugin(body.plugin) && update.enabled == body.enabled
            && update.phase is CheckMember,
    }
}

impl UpdatePreference {
    /// Begins for the user.
    pub fn begin(discord_id: String, body: UpdatePreferenceBody) -> (res: Result<
        UpdatePreference,
        AppError,
    >)
        ensures
            update_begins(discord_id@, body, res),
            match body.plugin {
                None => res matches Ok(update) && update.plugin@.len() == 0,
                Some(slug) => if known_plugin(slug@) {
                    res matches Ok(update) && update.plugin@ == slug@
                } else {
                    res matches Err(AppError::BadRequest(message)) && message@
                        == "Unknown plugin: "@ + slug@
                },
            },
            res matches Ok(update) ==> update.discord_id@ == discord_id@ && update.guild_id@
                == body.guild_id@ && update.enabled == body.enabled && update.phase is CheckMember,
    {
        let plugin: String = match body.plugin {
            Some(slug) => {
                if !is_known_plugin(slug.as_str()) {
                    let mut message: String = "Unknown plugin: ".to_string();
                    message.append(slug.as_str());
                    return Err(AppError::BadRequest(message));
                }
                slug
            },
            None => {
                let none: String = "".to_string();
                proof {
                    reveal_strlit("");
                    assert(none@ == Seq::<char>::empty());
                }
                none
            },
        };
        Ok(
            UpdatePreference {
                discord_id,
                guild_id: body.guild_id,
                plugin,
                enabled: body.enabled,
                phase: UpdatePhase::CheckMember,
            },
        )
    }

    /// The operation the update waits for.
    pub open spec fn waits_for<'a>(&'a self) -> Option<Op<'a>> {
        match self.phase {
            UpdatePhase::CheckMember => Some(
                Op::SelectMembership { discord_id: &self.discord_id, guild_id: &self.guild_id },
            ),
            UpdatePhase::Write => Some(
                if self.enabled {
                    Op::DeleteOptout {
                        discord_id: &self.discord_id,
                        guild_id: &self.guild_id,
                        plugin: &self.plugin,
                    }
                } else {
                    Op::UpsertOptout {
                        discord_id: &self.discord_id,
                        guild_id: &self.guild_id,
                        plugin: &self.plugin,
                    }
                },
            ),
            UpdatePhase::Finished => None,
            UpdatePhase::Failed(_) => None,
        }
    }

    /// Whether `answer` takes this update to `after`.
    pub open spec fn stepped(self, answer: Answer, after: UpdatePreference) -> bool {
        &&& after == (UpdatePreference { phase: after.phase, ..self })
        &&& match (self.phase, answer) {
            (UpdatePhase::Finished, _) => after.phase == self.phase,
            (UpdatePhase::Failed(_), _) => after.phase == self.phase,
            (_, Answer::Failed(e)) => after.phase == UpdatePhase::Failed(e),
            (UpdatePhase::CheckMember, Answer::Found(found)) => if found {
                after.phase is Write
            } else {
                after.phase matches UpdatePhase::Failed(AppError::BadRequest(message)) && message@
                    == "You are not a member of that server"@
            },
            (UpdatePhase::Write, Answer::Done) => after.phase is Finished,
            _ => after.phase == self.phase,
        }
    }

    /// What to carry out next; nothing when the flow is over.
    pub fn next_op<'a>(&'a self) -> (res: Option<Op<'a>>)
        ensures
            res == self.waits_for(),
    {
        match self.phase {
            UpdatePhase::CheckMember => Some(
                Op::SelectMembership { discord_id: &self.discord_id, guild_id: &self.guild_id },
            ),
            UpdatePhase::Write => {
                if self.enabled {
                    Some(
                        Op::DeleteOptout {
                            discord_id: &self.discord_id,
                            guild_id: &self.guild_id,
                            plugin: &self.plugin,
                        },
                    )
                } else {
                    Some(
                        Op::UpsertOptout {
                            discord_id: &self.discord_id,
                            guild_id: &self.guild_id,
                            plugin: &self.plugin,
                        },
                    )
                }
            },
            UpdatePhase::Finished => None,
            UpdatePhase::Failed(_) => None,
        }
    }

    /// Takes the answer.
    pub fn step(self, answer: Answer) -> (res: UpdatePreference)
        ensures
            self.stepped(answer, res),
    {
        let UpdatePreference { discord_id, guild_id, plugin, enabled, phase } = self;
        let next: UpdatePhase = match (phase, answer) {
            (UpdatePhase::Finished, _) => UpdatePhase::Finished,
            (UpdatePhase::Failed(e), _) => UpdatePhase::Failed(e),
            (_, Answer::Failed(e)) => UpdatePhase::Failed(e),
            (UpdatePhase::CheckMember, Answer::Found(found)) => {
                if found {
                    UpdatePhase::Write
                } else {
                    UpdatePhase::Failed(
                        AppError::BadRequest("You are not a member of that server".to_string()),
                    )
                }
            },
            (UpdatePhase::Write, Answer::Done) => UpdatePhase::Finished,
            (phase, _) => phase,
        };
        UpdatePreference { discord_id, guild_id, plugin, enabled, phase: next }
    }
}

/// POST /auth/preferences: flips one toggle. The caller must be in the guild,
/// and the plugin, if one is named, must be registered.
pub fn update_preference(cookie: Option<&str>, secret: &str, body: UpdatePreferenceBody) -> (res:
    Result<UpdatePreference, AppError>)
    ensures
        exists|now: i64| #[trigger]
            clock_reading(now) && (match caller_at(cookie, secret@, now as int) {
                Some(id) => update_begins(id, body, res),
                None => res == Err::<UpdatePreference, AppError>(AppError::Unauthorized),
            }),
        res matches Ok(update) ==> update.guild_id@ == body.guild_id@ && update.enabled
            == body.enabled && update.phase is CheckMember && (match body.plugin {
            None => update.plugin@.len() == 0,
            Some(slug) => update.plugin@ == slug@ && known_plugin(slug@),
        }),
{
    match caller_discord_id(cookie, secret) {
        Err(e) => Err(e),
        Ok(discord_id) => UpdatePreference::begin(discord_id, body),
    }
}

// ---------------------------------------------------------------------
// All guild-wide toggles at once, and the setting for new guilds
// ---------------------------------------------------------------------

pub struct BulkUpdateBody {
    /// True to remove all guild-wide opt-outs of the caller, false to add one
    /// for each guild the caller is in. Opt-outs of single plugins stay.
    pub enabled: bool,
}

/// The update of all guild-wide toggles of a caller: one statement.
pub struct BulkUpdate {
    pub discord_id: String,
    pub enabled: bool,
}

impl BulkUpdate {
    /// The statement.
    pub open spec fn writes<'a>(&'a self) -> Op<'a> {
        if self.enabled {
            Op::DeleteMasterOptouts { discord_id: &self.discord_id }
        } else {
            Op::UpsertMasterOptouts { discord_id: &self.discord_id }
        }
    }

    /// What to carry out.
    pub fn op<'a>(&'a self) -> (res: Op<'a>)
        ensures
            res == self.writes(),
            self.enabled ==> (res matches Op::DeleteMasterOptouts { discord_id } && discord_id@
                == self.discord_id@),
            !self.enabled ==> (res matches Op::UpsertMasterOptouts { discord_id } && discord_id@
                == self.discord_id@),
    {
        if self.enabled {
            Op::DeleteMasterOptouts { discord_id: &self.discord_id }
        } else {
            Op::UpsertMasterOptouts { discord_id: &self.discord_id }
        }
    }
}

/// POST /auth/preferences/bulk: turns all guilds on or off.
pub fn bulk_update_preference(cookie: Option<&str>, secret: &str, body: BulkUpdateBody) -> (res:
    Result<BulkUpdate, AppError>)
    ensures
        exists|now: i64| #[trigger]
            clock_reading(now) && (match caller_at(cookie, secret@, now as int) {
                Some(id) => res matches Ok(update) && update.discord_id@ == id && update.enabled
                    == body.enabled,
                None => res == Err::<BulkUpdate, AppError>(AppError::Unauthorized),
            }),
{
    match caller_discord_id(cookie, secret) {
        Err(e) => Err(e),
        Ok(discord_id) => Ok(BulkUpdate { discord_id, enabled: body.enabled }),
    }
}

/// The number of rows affected, as it is replied.
pub fn bulk_update_reply(affected: u64) -> (res: i64)
    ensures
        res == affected as i64,
        affected <= i64::MAX ==> res == affected,
{
    affected as i64
}

pub struct AutoEnableBody {
    pub enabled: bool,
}

/// The update of a caller's "auto-enable new servers" setting.
pub struct AutoEnableUpdate {
    pub discord_id: String,
    pub enabled: bool,
}

impl AutoEnableUpdate {
    /// The statement.
    pub open spec fn writes<'a>(&'a self) -> Op<'a> {
        Op::UpsertAutoEnable { discord_id: &self.discord_id, enabled: self.enabled }
    }

    /// What to carry out.
    pub fn op<'a>(&'a self) -> (res: Op<'a>)
        ensures
            res == self.writes(),
            res matches Op::UpsertAutoEnable { discord_id, enabled } && discord_id@
                == self.discord_id@ && enabled == self.enabled,
    {
        set_auto_enable_new_guilds(&self.discord_id, self.enabled)
    }
}

/// POST /auth/preferences/auto_enable: sets whether guilds the caller joins
/// from now on are enabled by themselves.
pub fn update_auto_enable(cookie: Option<&str>, secret: &str, body: AutoEnableBody) -> (res: Result<
    AutoEnableUpdate,
    AppError,
>)
    ensures
        exists|now: i64| #[trigger]
            clock_reading(now) && (match caller_at(cookie, secret@, now as int) {
                Some(id) => res matches Ok(update) && update.discord_id@ == id && update.enabled
                    == body.enabled,
                None => res == Err::<AutoEnableUpdate, AppError>(AppError::Unauthorized),
            }),
{
    match caller_discord_id(cookie, secret) {
        Err(e) => Err(e),
        Ok(discord_id) => Ok(AutoEnableUpdate { discord_id, enabled: body.enabled }),
    }
}

// ---------------------------------------------------------------------
// The management page
// ---------------------------------------------------------------------

pub struct MyServersQuery {
    /// Where the user came from, for the "Back" link.
    pub from: Option<String>,
}

/// What a visit to the page comes to.
pub enum MyServers {
    /// A redirect, to sign in and come back.
    SignIn { url: String },
    Page { html: String },
}

/// Where to come back to after signing in: this page, with the same query.
pub open spec fn come_back(query: MyServersQuery) -> Seq<char> {
    match query.from {
        Some(from) if from@.len() > 0 => "/auth/my_servers?from="@ + percent_encoded(from@),
        _ => "/auth/my_servers"@,
    }
}

/// Whether `res` is what the visit comes to.
pub open spec fn visited(signed_in: bool, query: MyServersQuery, res: MyServers) -> bool {
    if signed_in {
        res matches MyServers::Page { html } && html@ == page(on_site(query.from))
    } else {
        res matches MyServers::SignIn { url } && url@ == "/auth/login?return_to="@
            + percent_encoded(come_back(query))
    }
}

/// The page for a visitor who is signed in, or the way to sign in.
pub fn my_servers_page_for(signed_in: bool, query: MyServersQuery) -> (res: MyServers)
    ensures
        visited(signed_in, query, res),
        signed_in ==> (res matches MyServers::Page { html } && html@ == before_link() + (
        match query.from {
            Some(from) => if from@.len() > 0 && from@[0] == '/' && (from@.len() == 1 || from@[1]
                != '/') {
                from@
            } else {
                "/"@
            },
            None => "/"@,
        }) + after_link()),
        !signed_in ==> (res matches MyServers::SignIn { url } && url@ == "/auth/login?return_to="@
            + percent_encoded(
            match query.from {
                Some(from) => if from@.len() > 0 {
                    "/auth/my_servers?from="@ + percent_encoded(from@)
                } else {
                    "/auth/my_servers"@
                },
                None => "/auth/my_servers"@,
            },
        )),
{
    if !signed_in {
        let mut return_to: String = "/auth/my_servers".to_string();
        match query.from {
            Some(from) => {
                if from.as_str().unicode_len() > 0 {
                    let encoded: String = url_encode(from.as_str());
                    return_to = "/auth/my_servers?from=".to_string();
                    return_to.append(encoded.as_str());
                }
            },
            None => {},
        }
        let encoded: String = url_encode(return_to.as_str());
        let mut url: String = "/auth/login?return_to=".to_string();
        url.append(encoded.as_str());
        return MyServers::SignIn { url };
    }
    let html: String = match query.from {
        Some(from) => {
            if is_relative_path(from.as_str()) {
                render_my_servers_html(from.as_str())
            } else {
                render_my_servers_html("/")
            }
        },
        None => render_my_servers_html("/"),
    };
    MyServers::Page { html }
}

/// GET /auth/my_servers: the page every plugin links to.
pub fn my_servers_page(cookie: Option<&str>, secret: &str, query: MyServersQuery) -> (res:
    MyServers)
    ensures
        exists|now: i64| #[trigger]
            clock_reading(now) && visited(
                caller_at(cookie, secret@, now as int) is Some,
                query,
                res,
            ),
{
    let signed_in: bool = match caller_discord_id(cookie, secret) {
        Ok(_) => true,
        Err(_) => false,
    };
    my_servers_page_for(signed_in, query)
}

// ---------------------------------------------------------------------
// What reading the preferences guarantees
// ---------------------------------------------------------------------

/// What the entries are listed by.
pub open spec fn entry_keys(entries: Seq<GuildPreference>) -> Seq<GuildKey> {
    entries.map_values(
        |e: GuildPreference| GuildKey { name: text_of(e.guild_name), id: e.guild_id@ },
    )
}

/// Whether the entries show the opt-out: the guild-wide one by its flag, that
/// of a plugin in the list.
pub open spec fn entry_shows(
    entries: Seq<GuildPreference>,
    guild: Seq<char>,
    plugin: Seq<char>,
) -> bool {
    exists|i: int|
        0 <= i < entries.len() && (#[trigger] entries[i]).guild_id@ == guild && (if plugin
            == master() {
            entries[i].master_optout
        } else {
            texts(entries[i].plugin_optouts@).contains(plugin)
        })
}

/// Whether the rows hold the opt-out.
pub open spec fn holds_optout(
    rows: Seq<OptoutRow>,
    guild: Seq<char>,
    plugin: Seq<char>,
) -> bool {
    exists|i: int|
        0 <= i < rows.len() && (#[trigger] rows[i]).guild_id@ == guild && rows[i].plugin@ == plugin
}

/// Whether the entries show the user's guilds, each once, in order and with
/// its opt-outs, as they are stored, and `others` are the opt-outs in guilds
/// the user is not in: together every opt-out of the user.
pub open spec fn shown_as_stored(
    store: Store,
    id: Seq<char>,
    entries: Seq<GuildPreference>,
    others: Seq<OptoutRow>,
) -> bool {
    &&& sorted_by(entry_keys(entries), listed_before(store.collation))
    &&& forall|g: Seq<char>| #[trigger]
        store.is_member(id, g) ==> exists|i: int|
            0 <= i < entries.len() && (#[trigger] entries[i]).guild_id@ == g
    &&& forall|i: int, j: int|
        0 <= i < entries.len() && 0 <= j < entries.len() && (#[trigger] entries[i]).guild_id@ == (
        #[trigger] entries[j]).guild_id@ ==> i == j
    &&& forall|i: int|
        0 <= i < entries.len() ==> entry_as_stored(store, id, #[trigger] entries[i])
    &&& forall|i: int|
        0 <= i < others.len() ==> !store.is_member(id, (#[trigger] others[i]).guild_id@)
    &&& forall|g: Seq<char>, p: Seq<char>| #[trigger]
        store.optouts.contains_key((id, g, p)) <==> entry_shows(entries, g, p) || holds_optout(
            others,
            g,
            p,
        )
}

/// Whether the entry shows a guild of the user as it is stored. No plugin is
/// named twice, and the guild-wide opt-out is not among them.
pub open spec fn entry_as_stored(store: Store, id: Seq<char>, entry: GuildPreference) -> bool {
    let g = entry.guild_id@;
    &&& store.is_member(id, g)
    &&& store.user_guilds[(id, g)].guild_name == text_of(entry.guild_name)
    &&& store.user_guilds[(id, g)].icon_hash == text_of(entry.icon_hash)
    &&& entry.master_optout == store.optouts.contains_key((id, g, master()))
    &&& forall|p: Seq<char>|
        p != master() ==> (texts(entry.plugin_optouts@).contains(p)
            <==> #[trigger] store.optouts.contains_key((id, g, p)))
    &&& texts(entry.plugin_optouts@).no_duplicates()
    &&& !texts(entry.plugin_optouts@).contains(master())
}

/// Whether the preferences are the user's, as they are stored.
pub open spec fn as_stored(store: Store, id: Seq<char>, preferences: Preferences) -> bool {
    &&& preferences.discord_id@ == id
    &&& shown_as_stored(store, id, preferences.guilds@, preferences.other_optouts@)
    &&& lists_registry(preferences.plugins@)
    &&& preferences.auto_enable_new_guilds == store.auto_enable(id)
}

/// Which answer of a reading that begins so is that to the trading of the
/// refresh token, if it comes to that: the claim goes before it, and before
/// that the look whether the guild is known, if there is one.
pub open spec fn trade_place(start: GetPreferences) -> int {
    if start.phase is CheckGuild {
        2
    } else {
        1
    }
}

/// Whether the user's guild list has been replaced by the one Discord gave, or
/// is as it was, and nobody else's refresh token has changed.
pub open spec fn refreshed_or_kept(
    k: int,
    answers: Seq<Answer>,
    before: Store,
    after: Store,
    id: Seq<char>,
) -> bool {
    &&& other_tokens_kept(before, after, id)
    &&& same_but_tokens(before, after) || refreshed_from(k, answers, before, after, id)
}

impl GetPreferences {
    /// Whether the operation, on this database, can come to this answer and
    /// take the flow to `after` and the database to `next`.
    pub open spec fn moves(self, db: Db, answer: Answer, after: GetPreferences, next: Db) -> bool {
        &&& self.waits_for() is Some
        &&& db.performs(self.waits_for()->0, answer, next)
        &&& self.stepped(answer, after)
    }

    /// How the database stands in the midst of a reading that began as `start`,
    /// at the time `from` on the tables `before`, and has been given the
    /// answers.
    pub open spec fn underway(
        self,
        start: GetPreferences,
        before: Store,
        from: int,
        answers: Seq<Answer>,
        db: Db,
    ) -> bool {
        let id = self.discord_id@;
        let k = trade_place(start);
        match self.phase {
            PreferencesPhase::Refresh(refresh) => refresh.discord_id@ == id && refresh.underway(
                k,
                before,
                from,
                answers,
                db,
            ),
            phase => from <= db.now && db.pending is None && refreshed_or_kept(
                k,
                answers,
                before,
                db.committed,
                id,
            ) && (match phase {
                PreferencesPhase::CheckGuild { .. } => answers.len() == 0 && k == 2 && db.committed
                    == before,
                PreferencesPhase::Optouts { rows } => db.committed.lists_guilds(id, rows@),
                PreferencesPhase::Setting { guilds, other_optouts } => shown_as_stored(
                    db.committed,
                    id,
                    guilds@,
                    other_optouts@,
                ),
                PreferencesPhase::Finished(preferences) => as_stored(
                    db.committed,
                    id,
                    preferences,
                ),
                _ => true,
            }),
        }
    }
}

/// The plugins opted out of in a guild are those the rows name.
proof fn lemma_plugin_optouts(rows: Seq<OptoutRow>, g: Seq<char>, p: Seq<char>)
    ensures
        plugin_optouts(rows, g).contains(p) <==> p.len() > 0 && exists|i: int|
            0 <= i < rows.len() && (#[trigger] rows[i]).guild_id@ == g && rows[i].plugin@ == p,
    decreases rows.len(),
{
    reveal(Seq::filter);
    let pred = |r: OptoutRow| r.guild_id@ == g && r.plugin@.len() > 0;
    let plugin = |r: OptoutRow| r.plugin@;
    if rows.len() > 0 {
        let rest = rows.drop_last();
        let last = rows.last();
        lemma_plugin_optouts(rest, g, p);
        let kept = plugin_optouts(rest, g);
        let all = plugin_optouts(rows, g);
        if pred(last) {
            assert(rows.filter(pred) == rest.filter(pred).push(last));
            assert(all == kept.push(last.plugin@));
            assert(all[kept.len() as int] == last.plugin@);
        } else {
            assert(rows.filter(pred) == rest.filter(pred));
            assert(all == kept);
        }
        if kept.contains(p) {
            let i = choose|i: int| 0 <= i < kept.len() && kept[i] == p;
            assert(all[i] == p);
            let j = choose|j: int|
                0 <= j < rest.len() && (#[trigger] rest[j]).guild_id@ == g && rest[j].plugin@ == p;
            assert(rows[j] == rest[j]);
        }
        if all.contains(p) && !kept.contains(p) {
            let i = choose|i: int| 0 <= i < all.len() && all[i] == p;
            assert(i < kept.len() ==> kept[i] == p);
            assert(rows[rows.len() - 1] == last);
        }
        if p.len() > 0 && exists|i: int|
            0 <= i < rows.len() && (#[trigger] rows[i]).guild_id@ == g && rows[i].plugin@ == p {
            let i = choose|i: int|
                0 <= i < rows.len() && (#[trigger] rows[i]).guild_id@ == g && rows[i].plugin@ == p;
            if i < rows.len() - 1 {
                assert(rest[i] == rows[i]);
            }
        }
    }
}

/// No plugin is named twice, if no opt-out comes twice.
proof fn lemma_plugin_optouts_distinct(rows: Seq<OptoutRow>, g: Seq<char>)
    requires
        forall|i: int, j: int|
            0 <= i < rows.len() && 0 <= j < rows.len() && (#[trigger] rows[i]).guild_id@ == (
            #[trigger] rows[j]).guild_id@ && rows[i].plugin@ == rows[j].plugin@ ==> i == j,
    ensures
        plugin_optouts(rows, g).no_duplicates(),
    decreases rows.len(),
{
    reveal(Seq::filter);
    let pred = |r: OptoutRow| r.guild_id@ == g && r.plugin@.len() > 0;
    if rows.len() > 0 {
        let rest = rows.drop_last();
        let last = rows.last();
        assert forall|i: int, j: int|
            0 <= i < rest.len() && 0 <= j < rest.len() && (#[trigger] rest[i]).guild_id@ == (
            #[trigger] rest[j]).guild_id@ && rest[i].plugin@ == rest[j].plugin@ implies i == j by {
            assert(rows[i] == rest[i] && rows[j] == rest[j]);
        }
        lemma_plugin_optouts_distinct(rest, g);
        let kept = plugin_optouts(rest, g);
        if pred(last) {
            assert(rows.filter(pred) == rest.filter(pred).push(last));
            assert(plugin_optouts(rows, g) == kept.push(last.plugin@));
            lemma_plugin_optouts(rest, g, last.plugin@);
            if kept.contains(last.plugin@) {
                let j = choose|j: int|
                    0 <= j < rest.len() && (#[trigger] rest[j]).guild_id@ == g && rest[j].plugin@
                        == last.plugin@;
                assert(rows[j] == rest[j]);
                assert(rows[rows.len() - 1] == last);
            }
            assert(!kept.contains(last.plugin@));
        } else {
            assert(rows.filter(pred) == rest.filter(pred));
            assert(plugin_optouts(rows, g) == kept);
        }
    }
}

/// The opt-outs elsewhere are those in guilds that are not listed.
proof fn lemma_optouts_elsewhere(
    rows: Seq<UserGuild>,
    optouts: Seq<OptoutRow>,
    g: Seq<char>,
    p: Seq<char>,
)
    ensures
        holds_optout(optouts_elsewhere(rows, optouts), g, p) <==> holds_optout(optouts, g, p)
            && !lists_guild(rows, g),
        forall|i: int|
            0 <= i < optouts_elsewhere(rows, optouts).len() ==> !lists_guild(
                rows,
                (#[trigger] optouts_elsewhere(rows, optouts)[i]).guild_id@,
            ),
    decreases optouts.len(),
{
    reveal(Seq::filter);
    let pred = |r: OptoutRow| !lists_guild(rows, r.guild_id@);
    if optouts.len() > 0 {
        let rest = optouts.drop_last();
        let last = optouts.last();
        lemma_optouts_elsewhere(rows, rest, g, p);
        let kept = optouts_elsewhere(rows, rest);
        let all = optouts_elsewhere(rows, optouts);
        if pred(last) {
            assert(all == kept.push(last));
            assert(all[kept.len() as int] == last);
        } else {
            assert(all == kept);
        }
        if holds_optout(kept, g, p) {
            let i = choose|i: int|
                0 <= i < kept.len() && (#[trigger] kept[i]).guild_id@ == g && kept[i].plugin@ == p;
            assert(all[i] == kept[i]);
        }
        if holds_optout(rest, g, p) {
            let i = choose|i: int|
                0 <= i < rest.len() && (#[trigger] rest[i]).guild_id@ == g && rest[i].plugin@ == p;
            assert(optouts[i] == rest[i]);
        }
        if holds_optout(all, g, p) && !holds_optout(kept, g, p) {
            let i = choose|i: int|
                0 <= i < all.len() && (#[trigger] all[i]).guild_id@ == g && all[i].plugin@ == p;
            assert(i < kept.len() ==> kept[i] == all[i]);
            assert(optouts[optouts.len() - 1] == last);
        }
        if holds_optout(optouts, g, p) && !holds_optout(rest, g, p) {
            let i = choose|i: int|
                0 <= i < optouts.len() && (#[trigger] optouts[i]).guild_id@ == g
                    && optouts[i].plugin@ == p;
            assert(i < rest.len() ==> rest[i] == optouts[i]);
        }
        assert forall|i: int| 0 <= i < all.len() implies !lists_guild(
            rows,
            (#[trigger] all[i]).guild_id@,
        ) by {
            if i < kept.len() {
                assert(kept[i] == all[i]);
            }
        }
    }
}

/// An entry made of a row and of the opt-outs shows the guild as it is stored.
proof fn lemma_entry_as_stored(
    store: Store,
    id: Seq<char>,
    rows: Seq<UserGuild>,
    optouts: Seq<OptoutRow>,
    entries: Seq<GuildPreference>,
    i: int,
)
    requires
        store.lists_guilds(id, rows),
        store.lists_optouts(id, optouts),
        all_shown(entries, rows, optouts),
        0 <= i < entries.len(),
    ensures
        entry_as_stored(store, id, entries[i]),
{
    let g = rows[i].guild_id@;
    assert(shows(entries[i], rows, i, optouts));
    assert(first_of_guild(rows, i));
    if master_optout(optouts, g) {
        let j = choose|j: int|
            0 <= j < optouts.len() && (#[trigger] optouts[j]).guild_id@ == g
                && optouts[j].plugin@.len() == 0;
        assert(optouts[j].plugin@ =~= master());
        assert(store.optouts.contains_key((id, g, optouts[j].plugin@)));
    }
    assert forall|p: Seq<char>| p != master() implies (texts(entries[i].plugin_optouts@).contains(
        p,
    ) <==> #[trigger] store.optouts.contains_key((id, g, p))) by {
        assert(p.len() > 0 || p =~= master());
        lemma_plugin_optouts(optouts, g, p);
    }
    lemma_plugin_optouts_distinct(optouts, g);
    lemma_plugin_optouts(optouts, g, master());
}

proof fn lemma_shown_as_stored(
    store: Store,
    id: Seq<char>,
    rows: Seq<UserGuild>,
    optouts: Seq<OptoutRow>,
    entries: Seq<GuildPreference>,
)
    requires
        store.lists_guilds(id, rows),
        store.lists_optouts(id, optouts),
        all_shown(entries, rows, optouts),
    ensures
        shown_as_stored(store, id, entries, optouts_elsewhere(rows, optouts)),
{
    let others = optouts_elsewhere(rows, optouts);
    assert(entry_keys(entries) == guild_keys(rows)) by {
        assert forall|i: int| 0 <= i < rows.len() implies #[trigger] entry_keys(entries)[i]
            == guild_keys(rows)[i] by {
            assert(shows(entries[i], rows, i, optouts));
        }
    }
    assert forall|g: Seq<char>| #[trigger] store.is_member(id, g) implies exists|i: int|
        0 <= i < entries.len() && (#[trigger] entries[i]).guild_id@ == g by {
        let i = choose|i: int| 0 <= i < rows.len() && (#[trigger] rows[i]).guild_id@ == g;
        assert(entries[i].guild_id@ == g);
    }
    assert forall|i: int, j: int|
        0 <= i < entries.len() && 0 <= j < entries.len() && (#[trigger] entries[i]).guild_id@ == (
        #[trigger] entries[j]).guild_id@ implies i == j by {
        assert(rows[i].guild_id@ == rows[j].guild_id@);
    }
    assert forall|i: int| 0 <= i < entries.len() implies entry_as_stored(
        store,
        id,
        #[trigger] entries[i],
    ) by {
        lemma_entry_as_stored(store, id, rows, optouts, entries, i);
    }
    assert forall|g: Seq<char>| lists_guild(rows, g) <==> #[trigger] store.is_member(id, g) by {}
    assert forall|i: int| 0 <= i < others.len() implies !store.is_member(
        id,
        (#[trigger] others[i]).guild_id@,
    ) by {
        lemma_optouts_elsewhere(rows, optouts, others[i].guild_id@, others[i].plugin@);
    }
    assert forall|g: Seq<char>, p: Seq<char>| #[trigger]
        store.optouts.contains_key((id, g, p)) <==> entry_shows(entries, g, p) || holds_optout(
        others,
        g,
        p,
    ) by {
        lemma_optouts_elsewhere(rows, optouts, g, p);
        assert(store.optouts.contains_key((id, g, p)) <==> holds_optout(optouts, g, p));
        if store.is_member(id, g) {
            let i = choose|i: int| 0 <= i < entries.len() && (#[trigger] entries[i]).guild_id@ == g;
            assert(entry_as_stored(store, id, entries[i]));
        }
        if entry_shows(entries, g, p) {
            let i = choose|i: int|
                0 <= i < entries.len() && (#[trigger] entries[i]).guild_id@ == g && (if p
                    == master() {
                    entries[i].master_optout
                } else {
                    texts(entries[i].plugin_optouts@).contains(p)
                });
            assert(entry_as_stored(store, id, entries[i]));
        }
    }
}

proof fn lemma_reading_step_underway(
    reading: GetPreferences,
    start: GetPreferences,
    before: Store,
    from: int,
    answers: Seq<Answer>,
    db: Db,
    answer: Answer,
    after: GetPreferences,
    next: Db,
)
    requires
        reading.underway(start, before, from, answers, db),
        reading.moves(db, answer, after, next),
    ensures
        after.underway(start, before, from, answers.push(answer), next),
{
    let k = trade_place(start);
    match reading.phase {
        PreferencesPhase::Refresh(refresh) => {
            let moved = choose|moved: GuildRefresh| #[trigger]
                refresh.stepped(answer, moved) && after.phase == after_refresh(moved);
            assert(refresh.moves(db, answer, moved, next));
            lemma_refresh_step_underway(refresh, k, before, from, answers, db, answer, moved, next);
        },
        PreferencesPhase::CheckGuild { .. } => {
            assert(same_but_tokens(before, before));
            assert(other_tokens_kept(before, before, reading.discord_id@));
        },
        PreferencesPhase::Optouts { rows } => {
            if let Answer::Optouts(optouts) = answer {
                if let PreferencesPhase::Setting { guilds, .. } = after.phase {
                    lemma_shown_as_stored(
                        db.committed,
                        reading.discord_id@,
                        rows@,
                        optouts@,
                        guilds@,
                    );
                }
            }
        },
        _ => {},
    }
}

/// A reading, from one state to the next: the states, the database at each,
/// and the answers between them.
pub open spec fn reading_run(
    readings: Seq<GetPreferences>,
    dbs: Seq<Db>,
    answers: Seq<Answer>,
) -> bool {
    &&& readings.len() == answers.len() + 1
    &&& dbs.len() == answers.len() + 1
    &&& forall|i: int|
        #![trigger answers[i]]
        0 <= i < answers.len() ==> readings[i].moves(
            dbs[i],
            answers[i],
            readings[i + 1],
            dbs[i + 1],
        )
}

/// What the caller is shown is what is stored, after the refresh if one ran:
/// each guild once, in order and with the opt-outs there; the opt-outs in
/// other guilds; and the setting for new guilds, off unless the caller turned
/// it on. Reading changes nothing but what a
/// refresh does, and refreshes nothing unless asked to.
pub proof fn preferences_are_as_stored(
    readings: Seq<GetPreferences>,
    dbs: Seq<Db>,
    answers: Seq<Answer>,
    id: Seq<char>,
    query: PreferencesQuery,
)
    requires
        reading_run(readings, dbs, answers),
        readings[0].begins(id, query),
        dbs[0].pending is None,
    ensures
        readings.last().discord_id == readings[0].discord_id,
        readings.last().underway(
            readings[0],
            dbs[0].committed,
            dbs[0].now,
            answers,
            dbs.last(),
        ),
        readings.last().phase matches PreferencesPhase::Finished(preferences) ==> as_stored(
            dbs.last().committed,
            id,
            preferences,
        ),
        query.refresh is None && query.ensure_guild is None ==> dbs.last().committed
            == dbs[0].committed && !(readings.last().phase is Refresh) && !(
        readings.last().phase is CheckGuild),
    decreases answers.len(),
{
    if answers.len() == 0 {
        assert(same_but_tokens(dbs[0].committed, dbs[0].committed));
        assert(other_tokens_kept(dbs[0].committed, dbs[0].committed, id));
    } else {
        let n = answers.len() - 1;
        let earlier = answers.drop_last();
        assert forall|i: int| #![trigger earlier[i]] 0 <= i < earlier.len() implies
            readings.drop_last()[i].moves(
            dbs.drop_last()[i],
            earlier[i],
            readings.drop_last()[i + 1],
            dbs.drop_last()[i + 1],
        ) by {
            assert(answers[i] == earlier[i]);
        }
        preferences_are_as_stored(readings.drop_last(), dbs.drop_last(), earlier, id, query);
        assert(answers[n] == answers.last());
        assert(answers == earlier.push(answers[n]));
        lemma_reading_step_underway(
            readings[n],
            readings[0],
            dbs[0].committed,
            dbs[0].now,
            earlier,
            dbs[n],
            answers[n],
            readings[n + 1],
            dbs[n + 1],
        );
    }
}

// ---------------------------------------------------------------------
// What the toggles guarantee
// ---------------------------------------------------------------------

impl UpdatePreference {
    /// Whether the operation, on this database, can come to this answer and
    /// take the flow to `after` and the database to `next`.
    pub open spec fn moves(
        self,
        db: Db,
        answer: Answer,
        after: UpdatePreference,
        next: Db,
    ) -> bool {
        &&& self.waits_for() is Some
        &&& db.performs(self.waits_for()->0, answer, next)
        &&& self.stepped(answer, after)
    }

    /// The row the toggle stands for.
    pub open spec fn row(self) -> (Seq<char>, Seq<char>, Seq<char>) {
        (self.discord_id@, self.guild_id@, self.plugin@)
    }

    /// The tables after the toggle is set at the time `at`.
    pub open spec fn toggled(self, before: Store, at: int) -> Store {
        Store {
            optouts: if self.enabled {
                before.optouts.remove(self.row())
            } else {
                before.optouts.insert(self.row(), at)
            },
            ..before
        }
    }

    /// Whether the toggle has been set, at a time between `from` and `to`.
    pub open spec fn was_set(self, before: Store, after: Store, from: int, to: int) -> bool {
        exists|at: int| from <= at <= to && after == #[trigger] self.toggled(before, at)
    }

    /// How the database stands in the midst of an update that began at the
    /// time `from` on the tables `before`.
    pub open spec fn underway(self, before: Store, from: int, db: Db) -> bool {
        let member = before.is_member(self.discord_id@, self.guild_id@);
        &&& from <= db.now
        &&& db.pending is None
        &&& match self.phase {
            UpdatePhase::CheckMember => db.committed == before,
            UpdatePhase::Write => member && db.committed == before,
            UpdatePhase::Finished => member && self.was_set(before, db.committed, from, db.now),
            UpdatePhase::Failed(_) => db.committed == before || (member && self.was_set(
                before,
                db.committed,
                from,
                db.now,
            )),
        }
    }
}

/// An update, from one state to the next: the states, the database at each,
/// and the answers between them.
pub open spec fn update_run(
    updates: Seq<UpdatePreference>,
    dbs: Seq<Db>,
    answers: Seq<Answer>,
) -> bool {
    &&& updates.len() == answers.len() + 1
    &&& dbs.len() == answers.len() + 1
    &&& forall|i: int|
        #![trigger answers[i]]
        0 <= i < answers.len() ==> updates[i].moves(
            dbs[i],
            answers[i],
            updates[i + 1],
            dbs[i + 1],
        )
}

/// A toggle changes the one row it stands for, the caller's own, and only in
/// a guild the caller is in: afterwards the row is there if the caller opted
/// out, and is not if the caller opted in. Nothing else changes.
pub proof fn toggle_changes_its_row_alone(
    updates: Seq<UpdatePreference>,
    dbs: Seq<Db>,
    answers: Seq<Answer>,
    id: Seq<char>,
    body: UpdatePreferenceBody,
)
    requires
        update_run(updates, dbs, answers),
        update_begins(id, body, Ok(updates[0])),
        dbs[0].pending is None,
    ensures
        updates.last().underway(dbs[0].committed, dbs[0].now, dbs.last()),
        updates.last() == (UpdatePreference { phase: updates.last().phase, ..updates[0] }),
        updates[0].row() == (id, body.guild_id@, toggle_plugin(body.plugin)),
        updates.last().phase is Finished ==> {
            &&& dbs[0].committed.is_member(id, body.guild_id@)
            &&& updates[0].was_set(
                dbs[0].committed,
                dbs.last().committed,
                dbs[0].now,
                dbs.last().now,
            )
            &&& dbs.last().committed.optouts.contains_key(updates[0].row()) == !body.enabled
        },
        !dbs[0].committed.is_member(id, body.guild_id@) ==> dbs.last().committed
            == dbs[0].committed && !(updates.last().phase is Finished),
    decreases answers.len(),
{
    if answers.len() > 0 {
        let n = answers.len() - 1;
        let earlier = answers.drop_last();
        assert forall|i: int| #![trigger earlier[i]] 0 <= i < earlier.len() implies
            updates.drop_last()[i].moves(
            dbs.drop_last()[i],
            earlier[i],
            updates.drop_last()[i + 1],
            dbs.drop_last()[i + 1],
        ) by {
            assert(answers[i] == earlier[i]);
        }
        toggle_changes_its_row_alone(updates.drop_last(), dbs.drop_last(), earlier, id, body);
        assert(answers[n] == answers.last());
        assert(updates[n].moves(dbs[n], answers[n], updates[n + 1], dbs[n + 1]));
        if updates[n].phase is Write {
            let op = updates[n].waits_for()->0;
            let before = dbs[0].committed;
            assert(before.after_op(op, dbs[n].now) == updates[0].toggled(before, dbs[n].now));
            assert(updates[n + 1].toggled(before, dbs[n].now) == updates[0].toggled(
                before,
                dbs[n].now,
            ));
        }
    }
}

/// Whether `after` shows the same guild as `before`, with the same opt-outs
/// but for what the update sets.
pub open spec fn entry_updated(
    update: UpdatePreference,
    before: GuildPreference,
    after: GuildPreference,
) -> bool {
    let here = before.guild_id@ == update.guild_id@;
    &&& after.guild_id@ == before.guild_id@
    &&& text_of(after.guild_name) == text_of(before.guild_name)
    &&& text_of(after.icon_hash) == text_of(before.icon_hash)
    &&& after.master_optout == (if here && update.plugin@ == master() {
        !update.enabled
    } else {
        before.master_optout
    })
    &&& forall|p: Seq<char>|
        p != master() ==> (#[trigger] texts(after.plugin_optouts@).contains(p) <==> if here && p
            == update.plugin@ {
            !update.enabled
        } else {
            texts(before.plugin_optouts@).contains(p)
        })
}

/// Whether `after` shows the same as `before`, in the same order, but for what
/// the update sets.
pub open spec fn preferences_updated(
    update: UpdatePreference,
    before: Preferences,
    after: Preferences,
) -> bool {
    &&& after.discord_id@ == before.discord_id@
    &&& after.guilds@.len() == before.guilds@.len()
    &&& forall|i: int|
        0 <= i < before.guilds@.len() ==> entry_updated(
            update,
            #[trigger] before.guilds@[i],
            after.guilds@[i],
        )
    &&& forall|g: Seq<char>, p: Seq<char>| #[trigger]
        holds_optout(after.other_optouts@, g, p) <==> holds_optout(before.other_optouts@, g, p)
    &&& after.plugins@.len() == before.plugins@.len()
    &&& forall|i: int|
        0 <= i < before.plugins@.len() ==> (#[trigger] after.plugins@[i]).slug@
            == before.plugins@[i].slug@ && after.plugins@[i].display_name@
            == before.plugins@[i].display_name@
    &&& after.auto_enable_new_guilds == before.auto_enable_new_guilds
}

/// Guilds are listed alike as long as the memberships are the same.
proof fn lemma_same_keys(
    store: Store,
    other: Store,
    id: Seq<char>,
    a: Preferences,
    b: Preferences,
)
    requires
        strict_total_ordering(store.collation),
        other.collation == store.collation,
        other.user_guilds == store.user_guilds,
        as_stored(store, id, a),
        as_stored(other, id, b),
    ensures
        entry_keys(a.guilds@) == entry_keys(b.guilds@),
{
    let (ka, kb) = (entry_keys(a.guilds@), entry_keys(b.guilds@));
    assert forall|x: GuildKey| #[trigger] ka.contains(x) <==> kb.contains(x) by {
        lemma_keys_of_members(store, id, a, x);
        lemma_keys_of_members(other, id, b, x);
    }
    lemma_listing_order(store.collation);
    lemma_same_listing(ka, kb, listed_before(store.collation));
}

/// The entries are listed by the names and IDs of the user's guilds.
proof fn lemma_keys_of_members(store: Store, id: Seq<char>, p: Preferences, x: GuildKey)
    requires
        as_stored(store, id, p),
    ensures
        entry_keys(p.guilds@).contains(x) <==> store.is_member(id, x.id) && store.key_of(id, x.id)
            == x,
{
    let entries = p.guilds@;
    let keys = entry_keys(entries);
    if keys.contains(x) {
        let i = choose|i: int| 0 <= i < keys.len() && keys[i] == x;
        assert(entry_as_stored(store, id, entries[i]));
    }
    if store.is_member(id, x.id) && store.key_of(id, x.id) == x {
        let i = choose|i: int| 0 <= i < entries.len() && (#[trigger] entries[i]).guild_id@ == x.id;
        assert(entry_as_stored(store, id, entries[i]));
        assert(keys[i] == x);
    }
}

proof fn lemma_reading_after_toggle(
    store: Store,
    update: UpdatePreference,
    at: int,
    first: Preferences,
    second: Preferences,
)
    requires
        strict_total_ordering(store.collation),
        store.is_member(update.discord_id@, update.guild_id@),
        as_stored(store, update.discord_id@, first),
        as_stored(update.toggled(store, at), update.discord_id@, second),
    ensures
        preferences_updated(update, first, second),
{
    let id = update.discord_id@;
    let after = update.toggled(store, at);
    lemma_same_keys(store, after, id, first, second);
    let (ka, kb) = (entry_keys(first.guilds@), entry_keys(second.guilds@));
    assert(ka.len() == first.guilds@.len() && kb.len() == second.guilds@.len());
    assert forall|i: int| 0 <= i < first.guilds@.len() implies entry_updated(
        update,
        #[trigger] first.guilds@[i],
        second.guilds@[i],
    ) by {
        let (x, y) = (first.guilds@[i], second.guilds@[i]);
        let g = x.guild_id@;
        assert(ka[i] == kb[i]);
        assert(entry_as_stored(store, id, x));
        assert(entry_as_stored(after, id, y));
        let row = (id, g, master());
        assert(after.optouts.contains_key(row) == (if row == update.row() {
            !update.enabled
        } else {
            store.optouts.contains_key(row)
        }));
        assert forall|p: Seq<char>| p != master() implies (#[trigger] texts(
            y.plugin_optouts@,
        ).contains(p) <==> if g == update.guild_id@ && p == update.plugin@ {
            !update.enabled
        } else {
            texts(x.plugin_optouts@).contains(p)
        }) by {
            assert(after.optouts.contains_key((id, g, p)) == (if (id, g, p) == update.row() {
                !update.enabled
            } else {
                store.optouts.contains_key((id, g, p))
            }));
        }
    }
    assert forall|g: Seq<char>, p: Seq<char>| #[trigger]
        holds_optout(second.other_optouts@, g, p) <==> holds_optout(
        first.other_optouts@,
        g,
        p,
    ) by {
        lemma_others_as_stored(store, id, first, g, p);
        lemma_others_as_stored(after, id, second, g, p);
        assert(store.is_member(id, g) == after.is_member(id, g));
    }
}

/// The other opt-outs are those in guilds the user is not in.
proof fn lemma_others_as_stored(
    store: Store,
    id: Seq<char>,
    p: Preferences,
    guild: Seq<char>,
    plugin: Seq<char>,
)
    requires
        as_stored(store, id, p),
    ensures
        holds_optout(p.other_optouts@, guild, plugin) <==> store.optouts.contains_key(
            (id, guild, plugin),
        ) && !store.is_member(id, guild),
{
    let _ = store.optouts.contains_key((id, guild, plugin));
    if holds_optout(p.other_optouts@, guild, plugin) {
        let i = choose|i: int|
            0 <= i < p.other_optouts@.len() && (#[trigger] p.other_optouts@[i]).guild_id@ == guild
                && p.other_optouts@[i].plugin@ == plugin;
        assert(!store.is_member(id, p.other_optouts@[i].guild_id@));
    }
    if entry_shows(p.guilds@, guild, plugin) {
        let i = choose|i: int|
            0 <= i < p.guilds@.len() && (#[trigger] p.guilds@[i]).guild_id@ == guild && (if plugin
                == master() {
                p.guilds@[i].master_optout
            } else {
                texts(p.guilds@[i].plugin_optouts@).contains(plugin)
            });
        assert(entry_as_stored(store, id, p.guilds@[i]));
    }
}

/// A toggle shows in the next reading, and nothing else does: reading,
/// setting a toggle and reading again, with nobody else writing in between,
/// shows the same guilds in the same order, the same opt-outs but for the one
/// that was set, the same plugins and the same setting for new guilds. (Where
/// the guild-wide toggle was set, the flag of that guild says so, and the
/// plugins listed there are as before.)
pub proof fn toggle_shows_in_the_next_reading(
    first: Seq<GetPreferences>,
    first_dbs: Seq<Db>,
    first_answers: Seq<Answer>,
    updates: Seq<UpdatePreference>,
    update_dbs: Seq<Db>,
    update_answers: Seq<Answer>,
    second: Seq<GetPreferences>,
    second_dbs: Seq<Db>,
    second_answers: Seq<Answer>,
    id: Seq<char>,
    query: PreferencesQuery,
    body: UpdatePreferenceBody,
    shown: Preferences,
    shown_again: Preferences,
)
    requires
        query.refresh is None,
        query.ensure_guild is None,
        reading_run(first, first_dbs, first_answers),
        first[0].begins(id, query),
        first_dbs[0].pending is None,
        first.last().phase == PreferencesPhase::Finished(shown),
        update_run(updates, update_dbs, update_answers),
        update_begins(id, body, Ok(updates[0])),
        updates.last().phase is Finished,
        update_dbs[0] == first_dbs.last(),
        reading_run(second, second_dbs, second_answers),
        second[0].begins(id, query),
        second_dbs[0] == update_dbs.last(),
        second.last().phase == PreferencesPhase::Finished(shown_again),
        strict_total_ordering(first_dbs[0].committed.collation),
    ensures
        preferences_updated(updates[0], shown, shown_again),
        updates[0].row() == (id, body.guild_id@, toggle_plugin(body.plugin)),
        updates[0].enabled == body.enabled,
{
    preferences_are_as_stored(first, first_dbs, first_answers, id, query);
    toggle_changes_its_row_alone(updates, update_dbs, update_answers, id, body);
    preferences_are_as_stored(second, second_dbs, second_answers, id, query);
    let store = first_dbs[0].committed;
    let at = choose|at: int|
        update_dbs[0].now <= at <= update_dbs.last().now && update_dbs.last().committed
            == #[trigger] updates[0].toggled(store, at);
    lemma_reading_after_toggle(store, updates[0], at, shown, shown_again);
}

/// An update stores no opt-out but guild-wide ones and those of registered
/// plugins.
pub proof fn toggle_stores_registered_plugins(
    id: Seq<char>,
    body: UpdatePreferenceBody,
    start: UpdatePreference,
    update: UpdatePreference,
)
    requires
        update_begins(id, body, Ok(start)),
        update == (UpdatePreference { phase: update.phase, ..start }),
        update.waits_for() is Some,
    ensures
        sound_op(update.waits_for()->0),
{
}

/// Toggling something off and back on leaves the tables as they were, if it
/// was on.
pub proof fn toggle_off_and_on(
    off: UpdatePreference,
    on: UpdatePreference,
    store: Store,
    at: int,
    later: int,
)
    requires
        off.row() == on.row(),
        !off.enabled,
        on.enabled,
        !store.optouts.contains_key(off.row()),
    ensures
        on.toggled(off.toggled(store, at), later) == store,
{
    assert(on.toggled(off.toggled(store, at), later).optouts =~= store.optouts);
}

/// The guild-wide toggle overrides every plugin in the guild: while it is
/// off no plugin is opted in, and once it is back on each plugin is as its
/// own toggle says. No row at all means opted in.
pub proof fn guild_toggle_overrides_plugins(
    update: UpdatePreference,
    store: Store,
    at: int,
    plugin: Seq<char>,
)
    requires
        update.plugin@ == master(),
        plugin != master(),
    ensures
        ({
            let after = update.toggled(store, at);
            let (id, guild) = (update.discord_id@, update.guild_id@);
            let row = (id, guild, plugin);
            &&& after.opted_in(id, guild, plugin) <==> update.enabled
                && !store.optouts.contains_key(row)
            &&& after.optouts.contains_key(row) == store.optouts.contains_key(row)
        }),
{
}

/// Turning all guilds on or off sets the guild-wide toggles of the caller, in
/// every guild the caller is in, and nothing else: the toggles of single
/// plugins stay, and so does everybody else.
pub proof fn bulk_sets_guild_toggles_alone(
    update: BulkUpdate,
    store: Store,
    now: int,
    user: Seq<char>,
    guild: Seq<char>,
    plugin: Seq<char>,
)
    ensures
        ({
            let after = store.after_op(update.writes(), now);
            let row = (user, guild, plugin);
            &&& after == (Store { optouts: after.optouts, ..store })
            &&& user != update.discord_id@ || plugin != master() ==> after.optouts.contains_key(row)
                == store.optouts.contains_key(row) && (store.optouts.contains_key(row)
                ==> after.optouts[row] == store.optouts[row])
            &&& user == update.discord_id@ && plugin == master() && store.is_member(user, guild)
                ==> after.optouts.contains_key(row) == !update.enabled
            &&& user == update.discord_id@ && plugin != master() && store.is_member(user, guild)
                ==> (after.opted_in(user, guild, plugin) <==> update.enabled
                && !store.optouts.contains_key(row))
        }),
{
    let row = (user, guild, plugin);
    let _ = store.master_optouts(update.discord_id@).contains(row);
}

/// The count a bulk update replies with: of the guild-wide opt-outs of the
/// caller, which are removed, or of the guilds the caller is in, each of which
/// has one then, set at that time.
pub proof fn bulk_counts_what_it_sets(
    update: BulkUpdate,
    store: Store,
    now: int,
    count: u64,
)
    requires
        store.can_answer(update.writes(), now, Answer::Affected(count)),
    ensures
        ({
            let id = update.discord_id@;
            let after = store.after_op(update.writes(), now);
            if update.enabled {
                &&& count == store.master_optouts(id).len()
                &&& after.optouts.dom() == store.optouts.dom().difference(store.master_optouts(id))
                &&& store.optouts.dom().finite() ==> count == store.optouts.dom().len()
                    - after.optouts.dom().len()
            } else {
                &&& count == store.guilds_of(id).len()
                &&& forall|g: Seq<char>| #[trigger]
                    store.guilds_of(id).contains(g) ==> after.optouts.contains_key(
                        (id, g, master()),
                    ) && after.optouts[(id, g, master())] == now
            }
        }),
{
    let id = update.discord_id@;
    let after = store.after_op(update.writes(), now);
    let removed = store.master_optouts(id);
    if update.enabled {
        let all = store.optouts.dom();
        assert(after.optouts.dom() =~= all.difference(removed));
        if all.finite() {
            assert(all.intersect(removed) =~= removed);
            vstd::set_lib::lemma_set_disjoint_lens(all.difference(removed), removed);
            assert(all.difference(removed) + removed =~= all);
        }
    }
}

/// Turning all guilds on, or off, twice is the same as once, but for the time
/// that the opt-outs were last set.
pub proof fn bulk_twice_is_once(update: BulkUpdate, store: Store, now: int, later: int)
    ensures
        ({
            let once = store.after_op(update.writes(), now);
            let twice = once.after_op(update.writes(), later);
            &&& twice == (Store { optouts: twice.optouts, ..once })
            &&& twice.optouts.dom() == once.optouts.dom()
            &&& update.enabled ==> twice == once
        }),
{
    let once = store.after_op(update.writes(), now);
    let twice = once.after_op(update.writes(), later);
    assert(once.guilds_of(update.discord_id@) =~= store.guilds_of(update.discord_id@));
    assert(twice.optouts.dom() =~= once.optouts.dom());
    if update.enabled {
        assert(twice.optouts =~= once.optouts);
    }
}

/// The setting for new guilds is read as it was written; writing it touches
/// no membership and no opt-out.
pub proof fn setting_reads_back(update: AutoEnableUpdate, store: Store, now: int, user: Seq<char>)
    ensures
        ({
            let after = store.after_op(update.writes(), now);
            &&& after.auto_enable(user) == (if user == update.discord_id@ {
                update.enabled
            } else {
                store.auto_enable(user)
            })
            &&& after == (Store { settings: after.settings, ..store })
        }),
{
}

/// A visitor who is sent to sign in comes back: a login takes the target that
/// the redirect hands it, which is the page itself.
pub proof fn sign_in_returns_to_the_page(query: MyServersQuery)
    ensures
        percent_decoded(percent_encoded(come_back(query))) == Some(come_back(query)),
        relative_path(come_back(query)),
        match query.from {
            Some(from) => come_back(query) == (if from@.len() > 0 {
                "/auth/my_servers?from="@ + percent_encoded(from@)
            } else {
                "/auth/my_servers"@
            }) && percent_decoded(percent_encoded(from@)) == Some(from@),
            None => come_back(query) == "/auth/my_servers"@,
        },
{
    percent_encoding_reads_back(come_back(query));
    if let Some(from) = query.from {
        percent_encoding_reads_back(from@);
    }
    reveal_strlit("/auth/my_servers");
    reveal_strlit("/auth/my_servers?from=");
}

// ---------------------------------------------------------------------
// Both end
// ---------------------------------------------------------------------

impl GetPreferences {
    /// A bound on the answers a reading still needs.
    pub open spec fn remaining(self) -> nat {
        match self.phase {
            PreferencesPhase::CheckGuild { .. } => 17,
            PreferencesPhase::Refresh(refresh) => 3 + refresh.remaining(),
            PreferencesPhase::Guilds => 3,
            PreferencesPhase::Optouts { .. } => 2,
            PreferencesPhase::Setting { .. } => 1,
            PreferencesPhase::Finished(_) => 0,
            PreferencesPhase::Failed(_) => 0,
        }
    }
}

impl UpdatePreference {
    /// A bound on the answers an update still needs.
    pub open spec fn remaining(self) -> nat {
        match self.phase {
            UpdatePhase::CheckMember => 2,
            UpdatePhase::Write => 1,
            UpdatePhase::Finished => 0,
            UpdatePhase::Failed(_) => 0,
        }
    }
}

/// A reading ends: it waits for something just as long as it is not over, and
/// every answer its operation can give brings it nearer the end.
pub proof fn reading_ends(
    reading: GetPreferences,
    db: Db,
    answer: Answer,
    after: GetPreferences,
    next: Db,
)
    requires
        reading.moves(db, answer, after, next),
    ensures
        after.remaining() < reading.remaining(),
        after.waits_for() is None <==> after.remaining() == 0,
{
    if let PreferencesPhase::Refresh(refresh) = reading.phase {
        let moved = choose|moved: GuildRefresh| #[trigger]
            refresh.stepped(answer, moved) && after.phase == after_refresh(moved);
        refresh_ends(refresh, db, answer, moved, next);
    }
}

/// An update ends, in the same way.
pub proof fn update_ends(
    update: UpdatePreference,
    db: Db,
    answer: Answer,
    after: UpdatePreference,
    next: Db,
)
    requires
        update.moves(db, answer, after, next),
    ensures
        after.remaining() < update.remaining(),
        after.waits_for() is None <==> after.remaining() == 0,
{
}

// ---------------------------------------------------------------------
// When a reading refreshes the guild list
// ---------------------------------------------------------------------

/// What a reading asks for first, and how soon after the last refresh it
/// trades the user's token again. The claim is the statement at `place`: that
/// at the time of it, with a token on file and more than `secs` seconds since
/// the last refresh, the token is traded and the user counts as refreshed from
/// then; and that in every other case the guilds are read as they are, and
/// nothing has changed.
pub open spec fn trades_after(
    readings: Seq<GetPreferences>,
    dbs: Seq<Db>,
    place: int,
    id: Seq<char>,
    secs: int,
) -> bool {
    let before = dbs[0].committed;
    let at = dbs[place].now;
    let after = dbs[place + 1].committed;
    if before.tokens.contains_key(id) && before.tokens[id].refreshed_at < at - secs * 1_000_000 {
        &&& readings[place + 1].waits_for() matches Some(Op::RefreshAccessToken { refresh_token })
            && refresh_token@ == before.tokens[id].refresh_token
        &&& after.tokens.contains_key(id)
        &&& after.tokens[id].refreshed_at == at
        &&& after.tokens[id].refresh_token == before.tokens[id].refresh_token
        &&& after == (Store { tokens: before.tokens.insert(id, after.tokens[id]), ..before })
    } else {
        &&& readings[place + 1].waits_for() matches Some(Op::SelectUserGuilds { discord_id })
            && discord_id@ == id
        &&& after == before
    }
}

/// A user who follows a link to a guild that is not on record, as somebody
/// who has just joined it does, gets a fresh list: the token is traded if the
/// last refresh is more than five seconds ago, and not sooner. A user who is
/// on record as a member gets the list as it is.
pub proof fn link_to_an_unknown_guild_refreshes(
    readings: Seq<GetPreferences>,
    dbs: Seq<Db>,
    answers: Seq<Answer>,
    id: Seq<char>,
    query: PreferencesQuery,
    guild: String,
)
    requires
        reading_run(readings, dbs, answers),
        readings[0].begins(id, query),
        query.refresh is None,
        query.ensure_guild == Some(guild),
        5 <= guild@.len() <= 25,
        forall|i: int| 0 <= i < guild@.len() ==> '0' <= #[trigger] guild@[i] <= '9',
        dbs[0].pending is None,
        answers.len() >= 2,
        !(answers[0] is Failed),
        !(answers[1] is Failed),
    ensures
        !dbs[0].committed.user_guilds.contains_key((id, guild@)) ==> trades_after(
            readings,
            dbs,
            1,
            id,
            5,
        ),
        dbs[0].committed.user_guilds.contains_key((id, guild@)) ==> (
        readings[1].waits_for() matches Some(Op::SelectUserGuilds { discord_id }) && discord_id@
            == id) && dbs[1].committed == dbs[0].committed,
{
    assert(answers[0] == answers[0] && answers[1] == answers[1]);
    let (before, after) = (dbs[0].committed, dbs[2].committed);
    assert(readings[0].moves(dbs[0], answers[0], readings[1], dbs[1]));
    assert(readings[1].moves(dbs[1], answers[1], readings[2], dbs[2]));
    assert(all_digits(guild@));
    assert(before.is_member(id, guild@) == before.user_guilds.contains_key((id, guild@)));
    if !before.is_member(id, guild@) {
        lemma_claimed(readings[1], dbs[1], answers[1], readings[2], dbs[2], id, 5);
    }
}

/// A claim of the user's token, and what the reading does with the answer.
proof fn lemma_claimed(
    reading: GetPreferences,
    db: Db,
    answer: Answer,
    after: GetPreferences,
    next: Db,
    id: Seq<char>,
    secs: u64,
)
    requires
        reading.discord_id@ == id,
        reading.phase matches PreferencesPhase::Refresh(refresh) && refresh.discord_id@ == id
            && refresh.phase == (RefreshPhase::Claim { cooldown_secs: secs }),
        reading.moves(db, answer, after, next),
        db.pending is None,
        !(answer is Failed),
    ensures
        ({
            let before = db.committed;
            if before.tokens.contains_key(id) && before.tokens[id].refreshed_at < db.now - secs
                * 1_000_000 {
                &&& after.waits_for() matches Some(Op::RefreshAccessToken { refresh_token })
                    && refresh_token@ == before.tokens[id].refresh_token
                &&& next.committed == before.with_refreshed_at(id, db.now)
            } else {
                &&& after.waits_for() matches Some(Op::SelectUserGuilds { discord_id })
                    && discord_id@ == id
                &&& next.committed == before
            }
        }),
{
    if let PreferencesPhase::Refresh(refresh) = reading.phase {
        let moved = choose|moved: GuildRefresh| #[trigger]
            refresh.stepped(answer, moved) && after.phase == after_refresh(moved);
        assert(db.committed.claimable(id, secs, db.now) <==> db.committed.tokens.contains_key(id)
            && db.committed.tokens[id].refreshed_at < db.now - secs * 1_000_000);
    }
}

/// The page asks for a fresh list on every load: the token is traded if the
/// last refresh is more than fifteen seconds ago, and not sooner, whatever
/// guild the request names besides.
pub proof fn page_load_refreshes(
    readings: Seq<GetPreferences>,
    dbs: Seq<Db>,
    answers: Seq<Answer>,
    id: Seq<char>,
    query: PreferencesQuery,
)
    requires
        reading_run(readings, dbs, answers),
        readings[0].begins(id, query),
        query.refresh is Some,
        dbs[0].pending is None,
        answers.len() >= 1,
        !(answers[0] is Failed),
    ensures
        trades_after(readings, dbs, 0, id, 15),
{
    assert(answers[0] == answers[0]);
    assert(readings[0].moves(dbs[0], answers[0], readings[1], dbs[1]));
    lemma_claimed(readings[0], dbs[0], answers[0], readings[1], dbs[1], id, 15);
}

/// Without a reason to refresh the guilds are read at once, as they are: where
/// neither a refresh nor a guild is asked for, or what is given for a guild
/// cannot be one.
pub proof fn plain_reading_refreshes_nothing(
    reading: GetPreferences,
    id: Seq<char>,
    query: PreferencesQuery,
)
    requires
        reading.begins(id, query),
        query.refresh is None,
        query.ensure_guild matches Some(guild) ==> !(5 <= guild@.len() <= 25 && forall|i: int|
            0 <= i < guild@.len() ==> '0' <= #[trigger] guild@[i] <= '9'),
    ensures
        reading.waits_for() matches Some(Op::SelectUserGuilds { discord_id }) && discord_id@ == id,
        reading.discord_id@ == id,
{
    if let Some(guild) = query.ensure_guild {
        if all_digits(guild@) {
            assert forall|i: int| 0 <= i < guild@.len() implies '0' <= #[trigger] guild@[i]
                <= '9' by {}
        }
    }
}

/// A reading fails with an answer that failed, and with that error; in no
/// other case. That a refresh fails is no reason: the guilds are then read as
/// they are.
pub proof fn reading_fails_with_its_answer(
    reading: GetPreferences,
    answer: Answer,
    after: GetPreferences,
)
    requires
        reading.waits_for() is Some,
        reading.stepped(answer, after),
    ensures
        after.phase matches PreferencesPhase::Failed(error) ==> answer == Answer::Failed(error)
            && !(reading.phase is Refresh),
        answer is Failed && !(reading.phase is Refresh) ==> after.phase is Failed,
        after.discord_id@ == reading.discord_id@,
{
}

/// Whether Discord's list, if one has come as the answer at `k + 2`, has been
/// recorded.
spec fn list_recorded(
    reading: GetPreferences,
    k: int,
    before: Store,
    answers: Seq<Answer>,
    db: Db,
) -> bool {
    reading.phase is Refresh || reading.phase is Failed || !(answers.len() > k + 2 && answers[k
        + 2] is DiscordGuilds) || refreshed_from(
        k,
        answers,
        before,
        db.committed,
        reading.discord_id@,
    )
}

proof fn lemma_list_recorded_step(
    reading: GetPreferences,
    start: GetPreferences,
    before: Store,
    from: int,
    answers: Seq<Answer>,
    db: Db,
    answer: Answer,
    after: GetPreferences,
    next: Db,
)
    requires
        reading.underway(start, before, from, answers, db),
        list_recorded(reading, trade_place(start), before, answers, db),
        reading.moves(db, answer, after, next),
        !(answer is Failed),
    ensures
        list_recorded(after, trade_place(start), before, answers.push(answer), next),
{
    let k = trade_place(start);
    let given = answers.push(answer);
    assert(forall|i: int| 0 <= i < answers.len() ==> given[i] == #[trigger] answers[i]);
    assert(given[answers.len() as int] == answer);
    if let PreferencesPhase::Refresh(refresh) = reading.phase {
        let moved = choose|moved: GuildRefresh| #[trigger]
            refresh.stepped(answer, moved) && after.phase == after_refresh(moved);
        assert(refresh.moves(db, answer, moved, next));
        lemma_refresh_step_underway(refresh, k, before, from, answers, db, answer, moved, next);
        refresh_fails_with_its_answer(refresh, answer, moved);
    }
}

proof fn lemma_list_recorded(
    readings: Seq<GetPreferences>,
    dbs: Seq<Db>,
    answers: Seq<Answer>,
    id: Seq<char>,
    query: PreferencesQuery,
)
    requires
        reading_run(readings, dbs, answers),
        readings[0].begins(id, query),
        dbs[0].pending is None,
        forall|i: int| 0 <= i < answers.len() ==> !((#[trigger] answers[i]) is Failed),
    ensures
        list_recorded(
            readings.last(),
            trade_place(readings[0]),
            dbs[0].committed,
            answers,
            dbs.last(),
        ),
    decreases answers.len(),
{
    if answers.len() > 0 {
        let n = answers.len() - 1;
        let earlier = answers.drop_last();
        let (rs, ds) = (readings.drop_last(), dbs.drop_last());
        assert forall|i: int| #![trigger earlier[i]] 0 <= i < earlier.len() implies rs[i].moves(
            ds[i],
            earlier[i],
            rs[i + 1],
            ds[i + 1],
        ) && !(earlier[i] is Failed) by {
            assert(answers[i] == earlier[i]);
        }
        lemma_list_recorded(rs, ds, earlier, id, query);
        preferences_are_as_stored(rs, ds, earlier, id, query);
        assert(answers[n] == answers.last());
        assert(answers == earlier.push(answers[n]));
        lemma_list_recorded_step(
            readings[n],
            readings[0],
            dbs[0].committed,
            dbs[0].now,
            earlier,
            dbs[n],
            answers[n],
            readings[n + 1],
            dbs[n + 1],
        );
    }
}

/// A reading that refreshes shows what Discord says: if Discord gave a list,
/// and nothing failed, the guilds shown are those listed and no others, under
/// the names that Discord gave. (The list is the third answer after the claim:
/// a trade of the token and the storing of the new one go before it.)
pub proof fn reading_shows_discords_list(
    readings: Seq<GetPreferences>,
    dbs: Seq<Db>,
    answers: Seq<Answer>,
    id: Seq<char>,
    query: PreferencesQuery,
    shown: Preferences,
    k: int,
    fetched: Vec<DiscordGuild>,
    guild: Seq<char>,
)
    requires
        reading_run(readings, dbs, answers),
        readings[0].begins(id, query),
        dbs[0].pending is None,
        readings.last().phase == PreferencesPhase::Finished(shown),
        k == (if query.refresh is Some {
            1int
        } else {
            2int
        }),
        k + 2 < answers.len(),
        answers[k + 2] == Answer::DiscordGuilds(fetched),
        forall|i: int| 0 <= i < answers.len() ==> !((#[trigger] answers[i]) is Failed),
    ensures
        (exists|i: int| 0 <= i < shown.guilds@.len() && (#[trigger] shown.guilds@[i]).guild_id@
            == guild) <==> (exists|i: int| 0 <= i < fetched@.len() && (#[trigger] fetched@[i]).id@
            == guild),
        forall|i: int, j: int|
            0 <= i < shown.guilds@.len() && 0 <= j < fetched@.len() && (
            #[trigger] shown.guilds@[i]).guild_id@ == (#[trigger] fetched@[j]).id@
                ==> shown.guilds@[i].guild_name is Some && shown.guilds@[i].guild_name->0@
                == fetched@[j].name@,
{
    preferences_are_as_stored(readings, dbs, answers, id, query);
    lemma_list_recorded(readings, dbs, answers, id, query);
    let (before, after) = (dbs[0].committed, dbs.last().committed);
    if trade_place(readings[0]) != k {
        lemma_no_list_without_a_refresh(readings, dbs, answers, id, query);
    }
    let guilds = fetched_guilds(k, answers)->0;
    assert forall|i: int| 0 <= i < fetched@.len() implies (#[trigger] guilds[i]) == (GuildRecord {
        icon_hash: fetched@[i].icon,
        ..record_of(fetched@[i])
    }) by {
        record_says_who_may_manage(fetched@[i], 0);
    }
    lemma_recorded_list(before, after, id, fetched_name(k, answers), guilds, fetched@, true);
    let _ = after.is_member(id, guild);
    assert forall|i: int| 0 <= i < shown.guilds@.len() implies entry_as_stored(
        after,
        id,
        #[trigger] shown.guilds@[i],
    ) by {}
}

/// A reading that begins with the guilds gets no list from Discord.
proof fn lemma_no_list_without_a_refresh(
    readings: Seq<GetPreferences>,
    dbs: Seq<Db>,
    answers: Seq<Answer>,
    id: Seq<char>,
    query: PreferencesQuery,
)
    requires
        reading_run(readings, dbs, answers),
        readings[0].begins(id, query),
        readings[0].phase is Guilds,
    ensures
        readings.last().phase is Guilds || readings.last().phase is Optouts
            || readings.last().phase is Setting || readings.last().phase is Finished
            || readings.last().phase is Failed,
        forall|i: int| 0 <= i < answers.len() ==> !((#[trigger] answers[i]) is DiscordGuilds),
    decreases answers.len(),
{
    if answers.len() > 0 {
        let n = answers.len() - 1;
        let earlier = answers.drop_last();
        let (rs, ds) = (readings.drop_last(), dbs.drop_last());
        assert forall|i: int| #![trigger earlier[i]] 0 <= i < earlier.len() implies rs[i].moves(
            ds[i],
            earlier[i],
            rs[i + 1],
            ds[i + 1],
        ) by {
            assert(answers[i] == earlier[i]);
        }
        lemma_no_list_without_a_refresh(rs, ds, earlier, id, query);
        assert(answers[n] == answers.last());
        assert(readings[n].moves(dbs[n], answers[n], readings[n + 1], dbs[n + 1]));
        assert forall|i: int| 0 <= i < answers.len() implies !((
        #[trigger] answers[i]) is DiscordGuilds) by {
            if i < n {
                assert(earlier[i] == answers[i]);
            }
        }
    }
}

/// What a reading shows, in the words of the tables. A guild is shown, once,
/// exactly if the caller is on record in it, under the name and icon on
/// record; its flag says whether there is a guild-wide opt-out, and its list
/// names the plugins that are opted out of, each once. Every other opt-out of
/// the caller is among those elsewhere, and these are in guilds that are not
/// shown. The setting for new guilds is on only if it is on record as on.
pub proof fn preferences_spelt_out(
    readings: Seq<GetPreferences>,
    dbs: Seq<Db>,
    answers: Seq<Answer>,
    id: Seq<char>,
    query: PreferencesQuery,
    shown: Preferences,
    guild: Seq<char>,
    plugin: Seq<char>,
    i: int,
)
    requires
        reading_run(readings, dbs, answers),
        readings[0].begins(id, query),
        dbs[0].pending is None,
        readings.last().phase == PreferencesPhase::Finished(shown),
    ensures
        ({
            let store = dbs.last().committed;
            &&& shown.discord_id@ == id
            &&& (exists|j: int|
                0 <= j < shown.guilds@.len() && (#[trigger] shown.guilds@[j]).guild_id@ == guild)
                <==> store.user_guilds.contains_key((id, guild))
            &&& forall|j: int|
                0 <= j < shown.guilds@.len() && (#[trigger] shown.guilds@[j]).guild_id@
                    == shown.guilds@[i].guild_id@ && 0 <= i < shown.guilds@.len() ==> j == i
            &&& 0 <= i < shown.guilds@.len() ==> {
                let entry = shown.guilds@[i];
                let row = store.user_guilds[(id, entry.guild_id@)];
                &&& row.guild_name == text_of(entry.guild_name)
                &&& row.icon_hash == text_of(entry.icon_hash)
                &&& entry.master_optout <==> store.optouts.contains_key(
                    (id, entry.guild_id@, Seq::<char>::empty()),
                )
                &&& texts(entry.plugin_optouts@).contains(plugin) <==> plugin.len() > 0
                    && store.optouts.contains_key((id, entry.guild_id@, plugin))
                &&& texts(entry.plugin_optouts@).no_duplicates()
            }
            &&& (exists|j: int|
                0 <= j < shown.other_optouts@.len() && (
                #[trigger] shown.other_optouts@[j]).guild_id@ == guild
                    && shown.other_optouts@[j].plugin@ == plugin) <==> store.optouts.contains_key(
                (id, guild, plugin),
            ) && !store.user_guilds.contains_key((id, guild))
            &&& shown.auto_enable_new_guilds <==> store.settings.contains_key(id)
                && store.settings[id]
            &&& shown.plugins@.len() == 16
        }),
{
    preferences_are_as_stored(readings, dbs, answers, id, query);
    let store = dbs.last().committed;
    lemma_others_as_stored(store, id, shown, guild, plugin);
    registry_as_it_is_shown(shown.plugins@);
    let _ = store.is_member(id, guild);
    assert forall|j: int| 0 <= j < shown.guilds@.len() implies entry_as_stored(
        store,
        id,
        #[trigger] shown.guilds@[j],
    ) by {}
    if 0 <= i < shown.guilds@.len() {
        let entry = shown.guilds@[i];
        assert(entry_as_stored(store, id, entry));
        let _ = store.optouts.contains_key((id, entry.guild_id@, plugin));
        if plugin.len() == 0 {
            assert(plugin =~= master());
        }
    }
}

// ---------------------------------------------------------------------
// What one toggle comes to
// ---------------------------------------------------------------------

/// A toggle sets the one row that the request names, in the words of the
/// request: the caller, the guild, and the plugin's slug as it was given, or
/// the empty one for the whole guild. Once it is finished the row is there
/// exactly if the request opts out. Every other row is as it was, in
/// particular the guild-wide one if a plugin was named, and so is every other
/// table.
pub proof fn toggle_sets_the_named_row(
    updates: Seq<UpdatePreference>,
    dbs: Seq<Db>,
    answers: Seq<Answer>,
    id: Seq<char>,
    body: UpdatePreferenceBody,
    plugin: Seq<char>,
)
    requires
        update_run(updates, dbs, answers),
        update_begins(id, body, Ok(updates[0])),
        dbs[0].pending is None,
        match body.plugin {
            Some(slug) => plugin == slug@,
            None => plugin.len() == 0,
        },
    ensures
        ({
            let (before, after) = (dbs[0].committed, dbs.last().committed);
            let row = (id, body.guild_id@, plugin);
            &&& updates.last().phase is Finished ==> (after.optouts.contains_key(row)
                <==> !body.enabled)
            &&& updates.last().phase is Finished ==> before.user_guilds.contains_key(
                (id, body.guild_id@),
            )
            &&& forall|k: (Seq<char>, Seq<char>, Seq<char>)|
                k != row ==> (#[trigger] after.optouts.contains_key(k)
                    <==> before.optouts.contains_key(k))
            &&& forall|k: (Seq<char>, Seq<char>, Seq<char>)|
                k != row && #[trigger] before.optouts.contains_key(k) ==> after.optouts[k]
                    == before.optouts[k]
            &&& body.plugin is Some ==> after.optouts.contains_key(
                (id, body.guild_id@, Seq::<char>::empty()),
            ) == before.optouts.contains_key((id, body.guild_id@, Seq::<char>::empty()))
            &&& after.user_guilds == before.user_guilds
            &&& after.settings == before.settings
            &&& after.tokens == before.tokens
            &&& after.oauth_states == before.oauth_states
            &&& !before.user_guilds.contains_key((id, body.guild_id@)) ==> after.optouts
                == before.optouts
        }),
{
    toggle_changes_its_row_alone(updates, dbs, answers, id, body);
    let (before, after) = (dbs[0].committed, dbs.last().committed);
    let row = (id, body.guild_id@, plugin);
    assert(plugin == toggle_plugin(body.plugin)) by {
        if body.plugin is None {
            assert(plugin =~= Seq::<char>::empty());
        }
    }
    assert(updates[0].row() == row);
    assert(before.is_member(id, body.guild_id@) == before.user_guilds.contains_key(
        (id, body.guild_id@),
    ));
    if let Some(slug) = body.plugin {
        known_plugin_is_named(slug@);
    }
    if after != before {
        let last = updates.last();
        assert(last.row() == row && last.enabled == body.enabled);
        let at = choose|at: int|
            dbs[0].now <= at <= dbs.last().now && after == #[trigger] last.toggled(before, at);
        assert(after == last.toggled(before, at));
    }
}

/// A toggle of a registered plugin, or of a whole guild, is taken on; one of
/// anything else is not, and the answer names it.
pub proof fn toggle_is_taken_on(
    id: Seq<char>,
    body: UpdatePreferenceBody,
    res: Result<UpdatePreference, AppError>,
)
    requires
        update_begins(id, body, res),
    ensures
        res is Ok <==> (body.plugin matches Some(slug) ==> known_plugin(slug@)),
        res matches Ok(update) ==> (update.waits_for() matches Some(
            Op::SelectMembership { discord_id, guild_id },
        ) && discord_id@ == id && guild_id@ == body.guild_id@),
        res matches Err(error) ==> (body.plugin matches Some(slug) && (
        error matches AppError::BadRequest(message) && message@ == "Unknown plugin: "@ + slug@)),
{
}

/// A toggle fails with an answer that failed, and with that error, or because
/// the caller is not in the guild; in no other case.
pub proof fn toggle_fails_with_its_answer(
    update: UpdatePreference,
    answer: Answer,
    after: UpdatePreference,
)
    requires
        update.waits_for() is Some,
        update.stepped(answer, after),
    ensures
        after.phase matches UpdatePhase::Failed(error) ==> answer == Answer::Failed(error) || (
        update.phase is CheckMember && answer == Answer::Found(false) && (
        error matches AppError::BadRequest(message) && message@
            == "You are not a member of that server"@)),
        answer is Failed ==> after.phase is Failed,
        update.phase is CheckMember && answer == Answer::Found(false) ==> after.phase is Failed,
{
}

/// A member's toggle goes through: if neither statement fails, it is finished
/// after the two of them.
pub proof fn members_toggle_goes_through(
    updates: Seq<UpdatePreference>,
    dbs: Seq<Db>,
    answers: Seq<Answer>,
    id: Seq<char>,
    body: UpdatePreferenceBody,
)
    requires
        update_run(updates, dbs, answers),
        update_begins(id, body, Ok(updates[0])),
        dbs[0].pending is None,
        answers.len() == 2,
        !(answers[0] is Failed),
        !(answers[1] is Failed),
    ensures
        dbs[0].committed.user_guilds.contains_key((id, body.guild_id@)),
        updates.last().phase is Finished,
{
    assert(answers[0] == answers[0] && answers[1] == answers[1]);
    assert(updates[0].moves(dbs[0], answers[0], updates[1], dbs[1]));
    assert(updates[1].moves(dbs[1], answers[1], updates[2], dbs[2]));
}

/// Turning all guilds on or off, in the words of the tables: afterwards the
/// caller has no guild-wide opt-out, or one for every guild on record, those
/// there were for other guilds besides. Every other row is as it was.
pub proof fn bulk_update_spelt_out(
    update: BulkUpdate,
    store: Store,
    now: int,
    guild: Seq<char>,
)
    ensures
        ({
            let after = store.after_op(update.writes(), now);
            let row = (update.discord_id@, guild, Seq::<char>::empty());
            &&& update.enabled ==> !after.optouts.contains_key(row)
            &&& !update.enabled ==> (after.optouts.contains_key(row)
                <==> store.optouts.contains_key(row) || store.user_guilds.contains_key((update.discord_id@, guild)))
            &&& forall|k: (Seq<char>, Seq<char>, Seq<char>)|
                k.0 != update.discord_id@ || k.2.len() > 0 ==> (
                #[trigger] after.optouts.contains_key(k) <==> store.optouts.contains_key(k))
            &&& after == (Store { optouts: after.optouts, ..store })
        }),
{
    let row = (update.discord_id@, guild, Seq::<char>::empty());
    let _ = store.is_member(update.discord_id@, guild);
    let _ = store.master_optouts(update.discord_id@).contains(row);
    let after = store.after_op(update.writes(), now);
    assert forall|k: (Seq<char>, Seq<char>, Seq<char>)|
        k.0 != update.discord_id@ || k.2.len() > 0 implies (#[trigger] after.optouts.contains_key(k)
        <==> store.optouts.contains_key(k)) by {
        let _ = store.master_optouts(update.discord_id@).contains(k);
    }
}

} // verus!

//! The vocabulary between the decisions and the world: what a request asks
//! of the database, of Discord and of the clock, and what comes back.
//!
//! Every flow of the library is a state machine. Its state names the
//! operation it waits for, and a step takes the answer to the next state. A
//! step on an answer that does not fit the operation leaves the state alone.

use crate::error::AppError;
use crate::services::discord_oauth::{DiscordGuild, DiscordUser, GuildRecord, TokenResponse};
use vstd::prelude::*;

verus! {

/// One operation: a single SQL statement, a call to Discord, or a pause.
pub enum Op<'a> {
    /// Adds a CSRF state, good until `expires_at` (microseconds since 1970).
    InsertOauthState { state: &'a String, return_to: &'a String, expires_at: i64 },
    /// Deletes a CSRF state that has not expired, and returns its target.
    TakeOauthState { state: &'a String },
    /// Adds or replaces a user's refresh token. One that is first added
    /// counts as refreshed now.
    UpsertRefreshToken { discord_id: &'a String, refresh_token: &'a String },
    /// Replaces a user's refresh token, if there is one.
    UpdateRefreshToken { discord_id: &'a String, refresh_token: &'a String },
    /// Removes a user's refresh token.
    DeleteRefreshToken { discord_id: &'a String },
    /// Marks a user as refreshed now and returns the refresh token, if the
    /// last refresh is more than the cooldown ago. One statement, so of two
    /// requests at most one gets the token.
    ClaimRefresh { discord_id: &'a String, cooldown_secs: u64 },
    /// Marks a user as refreshed now.
    TouchRefreshed { discord_id: &'a String },
    /// Finds the user whose last refresh is the longest ago, and more than
    /// the given number of hours, but for those already tried.
    SelectStaleUser { stale_hours: i32, tried: &'a Vec<String> },
    /// Reads whether a member may manage a guild.
    SelectManageGuild { discord_id: &'a String, guild_id: &'a String },
    /// Reads whether a user is a member of a guild.
    SelectMembership { discord_id: &'a String, guild_id: &'a String },
    /// Lists the members of a guild.
    SelectGuildMembers { guild_id: &'a String },
    /// Finds a name recorded for a guild.
    SelectGuildName { guild_id: &'a String },
    /// Lists a user's guilds by name, the unnamed last.
    SelectUserGuilds { discord_id: &'a String },
    /// Lists the IDs of a user's guilds.
    SelectGuildIds { discord_id: &'a String },
    /// Removes all guild memberships of a user.
    DeleteUserGuilds { discord_id: &'a String },
    /// Adds guild memberships of a user. Fails if one is there already.
    InsertUserGuilds {
        discord_id: &'a String,
        username: &'a Option<String>,
        guilds: &'a Vec<GuildRecord>,
    },
    /// Lists a user's opt-outs.
    SelectOptouts { discord_id: &'a String },
    /// Removes one opt-out; the empty plugin is the guild-wide one.
    DeleteOptout { discord_id: &'a String, guild_id: &'a String, plugin: &'a String },
    /// Adds one opt-out, if it is not there.
    UpsertOptout { discord_id: &'a String, guild_id: &'a String, plugin: &'a String },
    /// Removes a user's guild-wide opt-outs.
    DeleteMasterOptouts { discord_id: &'a String },
    /// Adds a guild-wide opt-out for each guild the user is in.
    UpsertMasterOptouts { discord_id: &'a String },
    /// Adds a guild-wide opt-out for each of the given guilds.
    InsertMasterOptouts { discord_id: &'a String, guild_ids: &'a Vec<String> },
    /// Reads a user's "auto-enable new servers" setting.
    SelectAutoEnable { discord_id: &'a String },
    /// Writes that setting.
    UpsertAutoEnable { discord_id: &'a String, enabled: bool },
    /// Opens a transaction: the statements up to `Commit` belong to it.
    Begin,
    /// Commits the transaction.
    Commit,
    /// Trades an authorization code for tokens.
    ExchangeCode { code: &'a String },
    /// Trades a refresh token for new tokens.
    RefreshAccessToken { refresh_token: &'a String },
    /// Fetches the user an access token belongs to.
    GetUser { access_token: &'a String },
    /// Fetches that user's guilds.
    GetUserGuilds { access_token: &'a String },
    /// Waits.
    Sleep { secs: u64 },
}

/// A guild of a user, as it is read from the database.
pub struct UserGuild {
    pub guild_id: String,
    pub guild_name: Option<String>,
    pub manage_guild: bool,
    pub icon_hash: Option<String>,
}

/// An opt-out of a user, as it is read from the database.
pub struct OptoutRow {
    pub guild_id: String,
    /// The plugin's slug; empty for the guild-wide opt-out.
    pub plugin: String,
}

/// A user whose guild list is due for a refresh.
pub struct StaleUser {
    pub discord_id: String,
    pub refresh_token: String,
}

/// What an operation came to.
pub enum Answer {
    Done,
    /// `TakeOauthState`, `ClaimRefresh`, `SelectGuildName`.
    Text(Option<String>),
    /// `SelectManageGuild`, `SelectAutoEnable`.
    Flag(Option<bool>),
    /// `SelectMembership`.
    Found(bool),
    /// `SelectGuildMembers`, `SelectGuildIds`.
    Ids(Vec<String>),
    /// `SelectUserGuilds`.
    UserGuilds(Vec<UserGuild>),
    /// `SelectOptouts`.
    Optouts(Vec<OptoutRow>),
    /// `DeleteMasterOptouts`, `UpsertMasterOptouts`: the rows affected.
    Affected(u64),
    /// `SelectStaleUser`.
    Stale(Option<StaleUser>),
    /// `ExchangeCode`, `RefreshAccessToken`.
    Tokens(TokenResponse),
    /// `GetUser`.
    User(DiscordUser),
    /// `GetUserGuilds`.
    DiscordGuilds(Vec<DiscordGuild>),
    /// The operation failed. A transaction that is open is rolled back.
    Failed(AppError),
}

/// Texts, by what they say.
pub open spec fn texts(v: Seq<String>) -> Seq<Seq<char>> {
    v.map_values(|s: String| s@)
}

} // verus!

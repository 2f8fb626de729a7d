//! Sign-in, sign-out, and what a signed-in caller may read.

use crate::config::AppConfig;
use crate::encoding::{hex_lower, percent_encoded};
use crate::error::AppError;
use crate::ops::{Answer, Op, UserGuild};
use crate::routes::caller::{caller_at, caller_discord_id, SESSION_COOKIE};
use crate::routes::members::{GuildMembers, MembersPhase};
use crate::services::discord_oauth::{
    display_name_of, record_of, DiscordGuild, DiscordOAuth, DiscordUser, GuildRecord,
    TokenResponse,
};
use crate::services::guild_sync::{
    guilds_replaced, holds_discords_list, lemma_recorded_list, lemma_replaced_but_tokens,
    lemma_step_underway, other_tokens_kept, replacement_ends, replacement_fails_with_its_answer,
    same_but_tokens, GuildSwap, SwapPhase,
};
use crate::services::session::{
    session_user, session_value, sign_session_at, signed_session_verifies, SESSION_TTL_SECS,
};
use crate::store::{
    guild_keys, listed_before, sound_op, text_of, Db, GuildKey, Store,
};
use crate::text::{decimal, is_relative_path, relative_path};
use crate::trusted::{
    ascii_alphanumeric, clock_reading, clock_reading_micros, hmac_sha256_of, random_alphanumeric,
    unix_time, unix_time_micros,
};
use vstd::prelude::*;
use vstd::relations::*;
use vstd::string::*;
use vstd::utf8::*;

verus! {

/// How long a CSRF state is good, in microseconds: ten minutes.
pub const STATE_TTL_MICROS: i64 = 600_000_000;

/// How long the browser keeps a new session cookie: the lifetime of the
/// session it stands for ([`SESSION_TTL_SECS`]), 30 days.
pub const SESSION_COOKIE_MAX_AGE_SECS: u64 = 30 * 24 * 3600;

pub struct LoginQuery {
    pub return_to: Option<String>,
}

pub struct CallbackQuery {
    pub code: Option<String>,
    pub state: String,
    pub error: Option<String>,
}

pub struct GuildPermissionQuery {
    pub guild_id: String,
}

pub struct LogoutQuery {
    pub return_to: Option<String>,
}

/// A cookie to set, for the whole domain. It is `HttpOnly` and
/// `SameSite=Lax`.
pub struct SetCookie {
    pub name: &'static str,
    pub value: String,
    pub path: &'static str,
    pub http_only: bool,
    pub same_site_lax: bool,
    pub max_age_secs: u64,
}

/// A redirect, with the cookie that is set along with it, if one is.
pub struct Redirection {
    pub cookie: Option<SetCookie>,
    pub target: String,
}

impl SetCookie {
    /// Whether this sets the session cookie to `value`.
    pub open spec fn sets_session(self, value: Seq<char>, max_age_secs: u64) -> bool {
        &&& self.name@ == SESSION_COOKIE@
        &&& self.value@ == value
        &&& self.path@ == "/"@
        &&& self.http_only
        &&& self.same_site_lax
        &&& self.max_age_secs == max_age_secs
    }
}

fn session_cookie(value: String, max_age_secs: u64) -> (res: SetCookie)
    ensures
        res.sets_session(value@, max_age_secs),
{
    SetCookie {
        name: SESSION_COOKIE,
        value,
        path: "/",
        http_only: true,
        same_site_lax: true,
        max_age_secs,
    }
}

// ---------------------------------------------------------------------
// Login
// ---------------------------------------------------------------------

/// A sign-in that can start: a CSRF state to store, and the page of Discord
/// to send the user to once it is.
pub struct LoginStart {
    pub state: String,
    pub return_to: String,
    /// Microseconds since 1970.
    pub expires_at: i64,
    pub url: String,
}

/// Where a user asks to be sent after signing in; the root by default.
pub open spec fn login_target(query: LoginQuery) -> Seq<char> {
    match query.return_to {
        Some(target) => target@,
        None => "/"@,
    }
}

/// The page of Discord to send the user to.
pub open spec fn consent_page(config: AppConfig, state: Seq<char>) -> Seq<char> {
    "https://discord.com/oauth2/authorize?client_id="@ + config.discord_client_id@
        + "&redirect_uri="@ + percent_encoded(config.redirect_uri())
        + "&response_type=code&scope=identify%20guilds&state="@ + state
}

/// Whether `res` is what a login with this state comes to at the time `now`,
/// in microseconds.
pub open spec fn login_starts(
    config: AppConfig,
    query: LoginQuery,
    state: Seq<char>,
    now: int,
    res: Result<LoginStart, AppError>,
) -> bool {
    if relative_path(login_target(query)) {
        res matches Ok(start) && start.state@ == state && start.return_to@ == login_target(query)
            && start.expires_at == now + STATE_TTL_MICROS && start.url@ == consent_page(
            config,
            state,
        )
    } else {
        res matches Err(AppError::BadRequest(message)) && message@
            == "return_to must be a relative path"@
    }
}

/// A CSRF state, as it is drawn: 32 letters and digits.
pub open spec fn csrf_state(state: Seq<char>) -> bool {
    state.len() == 32 && forall|i: int|
        0 <= i < state.len() ==> ascii_alphanumeric(#[trigger] state[i])
}

impl LoginStart {
    /// The operation that stores the CSRF state.
    pub open spec fn stores<'a>(&'a self) -> Op<'a> {
        Op::InsertOauthState {
            state: &self.state,
            return_to: &self.return_to,
            expires_at: self.expires_at,
        }
    }

    /// What to carry out.
    pub fn op<'a>(&'a self) -> (res: Op<'a>)
        ensures
            res == self.stores(),
            res matches Op::InsertOauthState { state, return_to, expires_at } && state@
                == self.state@ && return_to@ == self.return_to@ && expires_at == self.expires_at,
    {
        Op::InsertOauthState {
            state: &self.state,
            return_to: &self.return_to,
            expires_at: self.expires_at,
        }
    }
}

/// Starts a sign-in with the given CSRF state at the time `now_micros`. Only
/// relative paths are allowed as targets, so that nobody is redirected off
/// the site.
pub fn login_with(config: &AppConfig, query: LoginQuery, state: String, now_micros: i64) -> (res:
    Result<LoginStart, AppError>)
    requires
        now_micros + STATE_TTL_MICROS <= i64::MAX,
    ensures
        login_starts(*config, query, state@, now_micros as int, res),
        query.return_to matches Some(target) ==> if target@.len() > 0 && target@[0] == '/' && (
        target@.len() == 1 || target@[1] != '/') {
            res matches Ok(start) && start.return_to@ == target@
        } else {
            res matches Err(AppError::BadRequest(message)) && message@
                == "return_to must be a relative path"@
        },
        query.return_to is None ==> (res matches Ok(start) && start.return_to@ == "/"@),
        res matches Ok(start) ==> start.state@ == state@ && start.expires_at == now_micros
            + 600_000_000 && start.url@ == "https://discord.com/oauth2/authorize?client_id="@
            + config.discord_client_id@ + "&redirect_uri="@ + percent_encoded(
            config.base_url@ + "/auth/callback"@,
        ) + "&response_type=code&scope=identify%20guilds&state="@ + state@,
{
    proof {
        reveal_strlit("/");
    }
    let return_to: String = match query.return_to {
        Some(target) => target,
        None => "/".to_string(),
    };
    if !is_relative_path(return_to.as_str()) {
        return Err(AppError::BadRequest("return_to must be a relative path".to_string()));
    }
    let url: String = DiscordOAuth::authorize_url(config, state.as_str());
    Ok(LoginStart { state, return_to, expires_at: now_micros + STATE_TTL_MICROS, url })
}

/// GET /auth/login: starts a sign-in.
pub fn login(config: &AppConfig, query: LoginQuery) -> (res: Result<LoginStart, AppError>)
    ensures
        exists|state: Seq<char>, now: i64|
            #![trigger csrf_state(state), clock_reading_micros(now)]
            csrf_state(state) && clock_reading_micros(now) && login_starts(
                *config,
                query,
                state,
                now as int,
                res,
            ),
        query.return_to matches Some(target) ==> if target@.len() > 0 && target@[0] == '/' && (
        target@.len() == 1 || target@[1] != '/') {
            res matches Ok(start) && start.return_to@ == target@
        } else {
            res matches Err(AppError::BadRequest(message)) && message@
                == "return_to must be a relative path"@
        },
        query.return_to is None ==> (res matches Ok(start) && start.return_to@ == "/"@),
        res matches Ok(start) ==> start.state@.len() == 32 && start.url@
            == "https://discord.com/oauth2/authorize?client_id="@ + config.discord_client_id@
            + "&redirect_uri="@ + percent_encoded(config.base_url@ + "/auth/callback"@)
            + "&response_type=code&scope=identify%20guilds&state="@ + start.state@,
{
    let state: String = random_alphanumeric(32);
    let now: i64 = unix_time_micros();
    assert(csrf_state(state@));
    login_with(config, query, state, now)
}

// ---------------------------------------------------------------------
// Callback
// ---------------------------------------------------------------------

/// Where a callback stands.
pub enum CallbackPhase {
    /// The user declined: back to the root, without a session.
    Denied,
    /// Taking the CSRF state.
    TakeState { state: String, code: String },
    /// Trading the code for tokens.
    ExchangeCode { return_to: String, code: String },
    /// Finding out who signed in.
    GetUser { return_to: String, access_token: String, granted: Option<String> },
    /// Storing the refresh token, for the refresh worker.
    StoreToken {
        return_to: String,
        access_token: String,
        refresh_token: String,
        discord_id: String,
        display_name: String,
    },
    /// Fetching the guild list.
    GetGuilds {
        return_to: String,
        access_token: String,
        discord_id: String,
        display_name: String,
    },
    /// Replacing the recorded list.
    Swap { return_to: String, display_name: String, swap: GuildSwap },
    SignedIn { return_to: String, discord_id: String, display_name: String },
    Failed(AppError),
}

/// The callback Discord sends a user to.
pub struct Callback {
    pub phase: CallbackPhase,
}

/// The record a sign-in keeps of a guild: all but its icon.
pub open spec fn signed_in_record(g: DiscordGuild) -> GuildRecord {
    GuildRecord { icon_hash: None, ..record_of(g) }
}

/// What a replacement means for the callback it is part of.
pub open spec fn after_callback_swap(
    return_to: String,
    display_name: String,
    swap: GuildSwap,
) -> CallbackPhase {
    match swap.phase {
        SwapPhase::Finished => CallbackPhase::SignedIn {
            return_to,
            discord_id: swap.discord_id,
            display_name,
        },
        SwapPhase::Failed(e) => CallbackPhase::Failed(e),
        _ => CallbackPhase::Swap { return_to, display_name, swap },
    }
}

fn without_icons(records: Vec<GuildRecord>) -> (res: Vec<GuildRecord>)
    ensures
        res@ == records@.map_values(|g: GuildRecord| GuildRecord { icon_hash: None, ..g }),
{
    let mut out: Vec<GuildRecord> = Vec::new();
    let mut i: usize = 0;
    while i < records.len()
        invariant
            i <= records@.len(),
            out@ == records@.take(i as int).map_values(
                |g: GuildRecord| GuildRecord { icon_hash: None, ..g },
            ),
        decreases records@.len() - i,
    {
        let record = GuildRecord {
            guild_id: records[i].guild_id.clone(),
            guild_name: records[i].guild_name.clone(),
            manage_guild: records[i].manage_guild,
            icon_hash: None,
        };
        out.push(record);
        i = i + 1;
    }
    assert(records@.take(i as int) == records@);
    out
}

/// GET /auth/callback: where Discord sends the user back to. Without a code,
/// or with an error, the user declined.
pub fn callback(query: CallbackQuery) -> (res: Callback)
    ensures
        res.phase == (match (query.error, query.code) {
            (None, Some(code)) => CallbackPhase::TakeState { state: query.state, code },
            _ => CallbackPhase::Denied,
        }),
        query.error is Some || query.code is None ==> res.phase is Denied && res.waits_for()
            is None,
        query.error is None && query.code is Some ==> (res.phase matches CallbackPhase::TakeState {
            state,
            code,
        } && state@ == query.state@ && code@ == query.code->0@),
{
    match (query.error, query.code) {
        (None, Some(code)) => Callback {
            phase: CallbackPhase::TakeState { state: query.state, code },
        },
        _ => Callback { phase: CallbackPhase::Denied },
    }
}

impl Callback {
    /// The operation the callback waits for.
    pub open spec fn waits_for<'a>(&'a self) -> Option<Op<'a>> {
        match &self.phase {
            CallbackPhase::Denied => None,
            CallbackPhase::TakeState { state, .. } => Some(Op::TakeOauthState { state }),
            CallbackPhase::ExchangeCode { code, .. } => Some(Op::ExchangeCode { code }),
            CallbackPhase::GetUser { access_token, .. } => Some(Op::GetUser { access_token }),
            CallbackPhase::StoreToken { discord_id, refresh_token, .. } => Some(
                Op::UpsertRefreshToken { discord_id, refresh_token },
            ),
            CallbackPhase::GetGuilds { access_token, .. } => Some(
                Op::GetUserGuilds { access_token },
            ),
            CallbackPhase::Swap { swap, .. } => swap.waits_for(),
            CallbackPhase::SignedIn { .. } => None,
            CallbackPhase::Failed(_) => None,
        }
    }

    /// Whether `answer` takes this callback to `after`. A guild list that
    /// cannot be fetched does not keep the user from signing in.
    pub open spec fn stepped(self, answer: Answer, after: Callback) -> bool {
        match (self.phase, answer) {
            (CallbackPhase::Denied, _) => after.phase == self.phase,
            (CallbackPhase::SignedIn { .. }, _) => after.phase == self.phase,
            (CallbackPhase::Failed(_), _) => after.phase == self.phase,
            (CallbackPhase::Swap { return_to, display_name, swap }, _) => exists|next: GuildSwap|
             #[trigger]
                swap.stepped(answer, next) && after.phase == after_callback_swap(
                    return_to,
                    display_name,
                    next,
                ),
            (
                CallbackPhase::GetGuilds { return_to, discord_id, display_name, .. },
                Answer::Failed(_),
            ) => after.phase == (CallbackPhase::SignedIn { return_to, discord_id, display_name }),
            (_, Answer::Failed(e)) => after.phase == CallbackPhase::Failed(e),
            (CallbackPhase::TakeState { code, .. }, Answer::Text(target)) => match target {
                Some(return_to) => after.phase == (CallbackPhase::ExchangeCode { return_to, code }),
                None => after.phase matches CallbackPhase::Failed(AppError::BadRequest(message))
                    && message@ == "Invalid or expired OAuth state"@,
            },
            (CallbackPhase::ExchangeCode { return_to, .. }, Answer::Tokens(tokens)) => after.phase
                == (CallbackPhase::GetUser {
                return_to,
                access_token: tokens.access_token,
                granted: tokens.refresh_token,
            }),
            (
                CallbackPhase::GetUser { return_to, access_token, granted },
                Answer::User(user),
            ) => after.phase == (match granted {
                Some(refresh_token) => CallbackPhase::StoreToken {
                    return_to,
                    access_token,
                    refresh_token,
                    discord_id: user.id,
                    display_name: display_name_of(user),
                },
                None => CallbackPhase::GetGuilds {
                    return_to,
                    access_token,
                    discord_id: user.id,
                    display_name: display_name_of(user),
                },
            }),
            (
                CallbackPhase::StoreToken {
                    return_to,
                    access_token,
                    discord_id,
                    display_name,
                    ..
                },
                Answer::Done,
            ) => after.phase == (CallbackPhase::GetGuilds {
                return_to,
                access_token,
                discord_id,
                display_name,
            }),
            (
                CallbackPhase::GetGuilds { return_to, discord_id, display_name, .. },
                Answer::DiscordGuilds(fetched),
            ) => if fetched@.len() == 0 {
                after.phase == (CallbackPhase::SignedIn { return_to, discord_id, display_name })
            } else {
                after.phase matches CallbackPhase::Swap {
                    return_to: target,
                    display_name: name,
                    swap,
                } && target == return_to && name == display_name && swap.discord_id == discord_id
                    && swap.username is None && swap.guilds@ == fetched@.map_values(
                    |g: DiscordGuild| signed_in_record(g),
                ) && !swap.touch && swap.phase is Begin
            },
            _ => after.phase == self.phase,
        }
    }

    /// What to carry out next; nothing when the flow is over.
    pub fn next_op<'a>(&'a self) -> (res: Option<Op<'a>>)
        ensures
            res == self.waits_for(),
    {
        match &self.phase {
            CallbackPhase::Denied => None,
            CallbackPhase::TakeState { state, .. } => Some(Op::TakeOauthState { state }),
            CallbackPhase::ExchangeCode { code, .. } => Some(Op::ExchangeCode { code }),
            CallbackPhase::GetUser { access_token, .. } => Some(Op::GetUser { access_token }),
            CallbackPhase::StoreToken { discord_id, refresh_token, .. } => Some(
                Op::UpsertRefreshToken { discord_id, refresh_token },
            ),
            CallbackPhase::GetGuilds { access_token, .. } => Some(
                Op::GetUserGuilds { access_token },
            ),
            CallbackPhase::Swap { swap, .. } => swap.next_op(),
            CallbackPhase::SignedIn { .. } => None,
            CallbackPhase::Failed(_) => None,
        }
    }

    /// Takes the answer.
    pub fn step(self, answer: Answer) -> (res: Callback)
        ensures
            self.stepped(answer, res),
    {
        let phase: CallbackPhase = match (self.phase, answer) {
            (CallbackPhase::Denied, _) => CallbackPhase::Denied,
            (CallbackPhase::SignedIn { return_to, discord_id, display_name }, _) => {
                CallbackPhase::SignedIn { return_to, discord_id, display_name }
            },
            (CallbackPhase::Failed(e), _) => CallbackPhase::Failed(e),
            (CallbackPhase::Swap { return_to, display_name, swap }, answer) => {
                let GuildSwap { discord_id, username, guilds, touch, phase } = swap.step(answer);
                match phase {
                    SwapPhase::Finished => CallbackPhase::SignedIn {
                        return_to,
                        discord_id,
                        display_name,
                    },
                    SwapPhase::Failed(e) => CallbackPhase::Failed(e),
                    phase => CallbackPhase::Swap {
                        return_to,
                        display_name,
                        swap: GuildSwap { discord_id, username, guilds, touch, phase },
                    },
                }
            },
            (
                CallbackPhase::GetGuilds { return_to, discord_id, display_name, .. },
                Answer::Failed(_),
            ) => CallbackPhase::SignedIn { return_to, discord_id, display_name },
            (_, Answer::Failed(e)) => CallbackPhase::Failed(e),
            (CallbackPhase::TakeState { code, .. }, Answer::Text(target)) => match target {
                Some(return_to) => CallbackPhase::ExchangeCode { return_to, code },
                None => CallbackPhase::Failed(
                    AppError::BadRequest("Invalid or expired OAuth state".to_string()),
                ),
            },
            (CallbackPhase::ExchangeCode { return_to, .. }, Answer::Tokens(tokens)) => {
                CallbackPhase::GetUser {
                    return_to,
                    access_token: tokens.access_token,
                    granted: tokens.refresh_token,
                }
            },
            (
                CallbackPhase::GetUser { return_to, access_token, granted },
                Answer::User(user),
            ) => {
                let (discord_id, display_name) = DiscordOAuth::get_user_reply(user);
                match granted {
                    Some(refresh_token) => CallbackPhase::StoreToken {
                        return_to,
                        access_token,
                        refresh_token,
                        discord_id,
                        display_name,
                    },
                    None => CallbackPhase::GetGuilds {
                        return_to,
                        access_token,
                        discord_id,
                        display_name,
                    },
                }
            },
            (
                CallbackPhase::StoreToken {
                    return_to,
                    access_token,
                    discord_id,
                    display_name,
                    ..
                },
                Answer::Done,
            ) => CallbackPhase::GetGuilds { return_to, access_token, discord_id, display_name },
            (
                CallbackPhase::GetGuilds { return_to, discord_id, display_name, .. },
                Answer::DiscordGuilds(fetched),
            ) => {
                if fetched.len() == 0 {
                    CallbackPhase::SignedIn { return_to, discord_id, display_name }
                } else {
                    let ghost given = fetched@;
                    let records: Vec<GuildRecord> = DiscordOAuth::get_user_guilds_reply(fetched);
                    let guilds: Vec<GuildRecord> = without_icons(records);
                    assert(guilds@ == given.map_values(|g: DiscordGuild| signed_in_record(g)));
                    CallbackPhase::Swap {
                        return_to,
                        display_name,
                        swap: GuildSwap {
                            discord_id,
                            username: None,
                            guilds,
                            touch: false,
                            phase: SwapPhase::Begin,
                        },
                    }
                }
            },
            (phase, _) => phase,
        };
        Callback { phase }
    }

    /// Whether `res` is what this callback replies at the time `now`: a
    /// session cookie for the user who signed in, and the way back to where
    /// the user came from; nothing while it is under way.
    pub open spec fn replies(
        self,
        secret: Seq<char>,
        now: int,
        res: Option<Result<Redirection, AppError>>,
    ) -> bool {
        match self.phase {
            CallbackPhase::Denied => res matches Some(Ok(reply)) && reply.cookie is None
                && reply.target@ == "/"@,
            CallbackPhase::SignedIn { return_to, discord_id, display_name } => res matches Some(
                Ok(reply),
            ) && reply.target@ == return_to@ && reply.cookie is Some
                && reply.cookie->0.sets_session(
                session_value(discord_id@, display_name@, secret, now + SESSION_TTL_SECS),
                SESSION_COOKIE_MAX_AGE_SECS,
            ),
            CallbackPhase::Failed(e) => res == Some(Err::<Redirection, AppError>(e)),
            _ => res is None,
        }
    }

    /// The reply at the time `now`.
    pub fn reply_at(self, secret: &str, now: i64) -> (res: Option<Result<Redirection, AppError>>)
        requires
            now + SESSION_TTL_SECS <= i64::MAX,
        ensures
            self.replies(secret@, now as int, res),
            self.phase matches CallbackPhase::SignedIn { return_to, discord_id, display_name } ==> (
            res matches Some(Ok(reply)) && reply.target@ == return_to@ && (
            reply.cookie matches Some(cookie) && cookie.name@ == "rl_session"@ && cookie.path@
                == "/"@ && cookie.http_only && cookie.same_site_lax && cookie.max_age_secs
                == 2_592_000 && cookie.value@ == ({
                let signed = discord_id@ + seq![':'] + percent_encoded(display_name@) + seq![':']
                    + decimal(now + 2_592_000);
                signed + seq![':'] + hex_lower(
                    hmac_sha256_of(encode_utf8(secret@), encode_utf8(signed)),
                )
            }))),
            self.phase is Denied ==> (res matches Some(Ok(reply)) && reply.cookie is None
                && reply.target@ == "/"@),
            self.phase matches CallbackPhase::Failed(error) ==> res == Some(
                Err::<Redirection, AppError>(error),
            ),
            res is None <==> !(self.phase is Denied || self.phase is SignedIn
                || self.phase is Failed),
    {
        match self.phase {
            CallbackPhase::Denied => {
                Some(Ok(Redirection { cookie: None, target: "/".to_string() }))
            },
            CallbackPhase::SignedIn { return_to, discord_id, display_name } => {
                let value: String = sign_session_at(
                    discord_id.as_str(),
                    display_name.as_str(),
                    secret,
                    now,
                );
                let cookie: SetCookie = session_cookie(value, SESSION_COOKIE_MAX_AGE_SECS);
                Some(Ok(Redirection { cookie: Some(cookie), target: return_to }))
            },
            CallbackPhase::Failed(e) => Some(Err(e)),
            _ => None,
        }
    }

    /// The reply.
    pub fn reply(self, secret: &str) -> (res: Option<Result<Redirection, AppError>>)
        ensures
            exists|now: i64| #[trigger]
                clock_reading(now) && self.replies(secret@, now as int, res),
            self.phase matches CallbackPhase::SignedIn { return_to, .. } ==> (res matches Some(
                Ok(reply),
            ) && reply.target@ == return_to@ && (reply.cookie matches Some(cookie) && cookie.name@
                == "rl_session"@ && cookie.path@ == "/"@ && cookie.http_only
                && cookie.same_site_lax && cookie.max_age_secs == 2_592_000)),
            self.phase is Denied ==> (res matches Some(Ok(reply)) && reply.cookie is None
                && reply.target@ == "/"@),
            self.phase matches CallbackPhase::Failed(error) ==> res == Some(
                Err::<Redirection, AppError>(error),
            ),
            res is None <==> !(self.phase is Denied || self.phase is SignedIn
                || self.phase is Failed),
    {
        let now: i64 = unix_time();
        self.reply_at(secret, now)
    }
}

// ---------------------------------------------------------------------
// What a signed-in caller may read
// ---------------------------------------------------------------------

/// A lookup of the caller's standing in a guild.
pub struct PermissionLookup {
    pub discord_id: String,
    pub guild_id: String,
}

/// A caller's standing in a guild.
pub struct GuildPermission {
    pub is_member: bool,
    pub is_manager: bool,
}

impl PermissionLookup {
    /// The statement.
    pub open spec fn reads<'a>(&'a self) -> Op<'a> {
        Op::SelectManageGuild { discord_id: &self.discord_id, guild_id: &self.guild_id }
    }

    /// What to carry out.
    pub fn op<'a>(&'a self) -> (res: Op<'a>)
        ensures
            res == self.reads(),
            res matches Op::SelectManageGuild { discord_id, guild_id } && discord_id@
                == self.discord_id@ && guild_id@ == self.guild_id@,
    {
        Op::SelectManageGuild { discord_id: &self.discord_id, guild_id: &self.guild_id }
    }
}

/// What a membership row, if there is one, says of the caller.
pub open spec fn standing(row: Option<bool>) -> GuildPermission {
    GuildPermission { is_member: row is Some, is_manager: row == Some(true) }
}

/// GET /auth/guild_permission: whether the caller is a member of the guild,
/// and whether with the MANAGE_GUILD permission.
pub fn guild_permission(
    cookie: Option<&str>,
    secret: &str,
    query: GuildPermissionQuery,
) -> (res: Result<PermissionLookup, AppError>)
    ensures
        exists|now: i64| #[trigger]
            clock_reading(now) && (match caller_at(cookie, secret@, now as int) {
                Some(id) => res matches Ok(lookup) && lookup.discord_id@ == id && lookup.guild_id
                    == query.guild_id,
                None => res == Err::<PermissionLookup, AppError>(AppError::Unauthorized),
            }),
{
    match caller_discord_id(cookie, secret) {
        Err(e) => Err(e),
        Ok(discord_id) => Ok(PermissionLookup { discord_id, guild_id: query.guild_id }),
    }
}

/// The reply, from the caller's membership row.
pub fn guild_permission_reply(row: Option<bool>) -> (res: GuildPermission)
    ensures
        res == standing(row),
        res.is_member <==> row is Some,
        res.is_manager <==> row == Some(true),
{
    match row {
        Some(manage) => GuildPermission { is_member: true, is_manager: manage },
        None => GuildPermission { is_member: false, is_manager: false },
    }
}

/// GET /auth/guild_members: the members of a guild, and its name. The caller
/// must be one of them, so that nobody can enumerate any guild.
pub fn guild_members(cookie: Option<&str>, secret: &str, query: GuildPermissionQuery) -> (res:
    Result<GuildMembers, AppError>)
    ensures
        exists|now: i64| #[trigger]
            clock_reading(now) && (match caller_at(cookie, secret@, now as int) {
                Some(id) => res matches Ok(members) && members.guild_id == query.guild_id && (
                members.phase matches MembersPhase::CheckMember { discord_id } && discord_id@
                    == id),
                None => res == Err::<GuildMembers, AppError>(AppError::Unauthorized),
            }),
{
    match caller_discord_id(cookie, secret) {
        Err(e) => Err(e),
        Ok(discord_id) => Ok(GuildMembers::for_caller(discord_id, query.guild_id)),
    }
}

/// A lookup of the caller's guilds.
pub struct GuildsLookup {
    pub discord_id: String,
}

/// A guild of the caller.
pub struct MyGuild {
    pub guild_id: String,
    pub guild_name: Option<String>,
    pub manage_guild: bool,
}

impl GuildsLookup {
    /// The statement.
    pub open spec fn reads<'a>(&'a self) -> Op<'a> {
        Op::SelectUserGuilds { discord_id: &self.discord_id }
    }

    /// What to carry out.
    pub fn op<'a>(&'a self) -> (res: Op<'a>)
        ensures
            res == self.reads(),
            res matches Op::SelectUserGuilds { discord_id } && discord_id@ == self.discord_id@,
    {
        Op::SelectUserGuilds { discord_id: &self.discord_id }
    }
}

/// A membership row, as it is shown.
pub open spec fn my_guild(row: UserGuild) -> MyGuild {
    MyGuild {
        guild_id: row.guild_id,
        guild_name: row.guild_name,
        manage_guild: row.manage_guild,
    }
}

/// GET /auth/my_guilds: the guilds the caller is in.
pub fn my_guilds(cookie: Option<&str>, secret: &str) -> (res: Result<GuildsLookup, AppError>)
    ensures
        exists|now: i64| #[trigger]
            clock_reading(now) && (match caller_at(cookie, secret@, now as int) {
                Some(id) => res matches Ok(lookup) && lookup.discord_id@ == id,
                None => res == Err::<GuildsLookup, AppError>(AppError::Unauthorized),
            }),
{
    match caller_discord_id(cookie, secret) {
        Err(e) => Err(e),
        Ok(discord_id) => Ok(GuildsLookup { discord_id }),
    }
}

/// The reply, from the caller's membership rows, in their order.
pub fn my_guilds_reply(rows: Vec<UserGuild>) -> (res: Vec<MyGuild>)
    ensures
        res@ == rows@.map_values(|row: UserGuild| my_guild(row)),
        res@.len() == rows@.len(),
        forall|i: int|
            0 <= i < rows@.len() ==> (#[trigger] res@[i]).guild_id@ == rows@[i].guild_id@
                && res@[i].guild_name == rows@[i].guild_name && res@[i].manage_guild
                == rows@[i].manage_guild,
{
    let mut out: Vec<MyGuild> = Vec::new();
    let mut i: usize = 0;
    while i < rows.len()
        invariant
            i <= rows@.len(),
            out@ == rows@.take(i as int).map_values(|row: UserGuild| my_guild(row)),
        decreases rows@.len() - i,
    {
        let guild = MyGuild {
            guild_id: rows[i].guild_id.clone(),
            guild_name: rows[i].guild_name.clone(),
            manage_guild: rows[i].manage_guild,
        };
        out.push(guild);
        i = i + 1;
    }
    assert(rows@.take(i as int) == rows@);
    out
}

// ---------------------------------------------------------------------
// Logout
// ---------------------------------------------------------------------

/// A path of this site: the given one if it is relative, else the root.
pub open spec fn on_site(target: Option<String>) -> Seq<char> {
    match target {
        Some(path) if relative_path(path@) => path@,
        _ => "/"@,
    }
}

/// POST /auth/logout: clears the session cookie, and sends the user to the
/// given path if it is relative, else to the root.
pub fn logout(query: LogoutQuery) -> (res: Redirection)
    ensures
        res.cookie is Some,
        res.cookie->0.sets_session(""@, 0),
        res.target@ == on_site(query.return_to),
        res.cookie matches Some(cookie) && cookie.name@ == "rl_session"@ && cookie.value@ == ""@
            && cookie.path@ == "/"@ && cookie.http_only && cookie.same_site_lax
            && cookie.max_age_secs == 0,
        query.return_to matches Some(path) ==> res.target@ == (if path@.len() > 0 && path@[0] == '/'
            && (path@.len() == 1 || path@[1] != '/') {
            path@
        } else {
            "/"@
        }),
        query.return_to is None ==> res.target@ == "/"@,
{
    let target: String = match query.return_to {
        Some(path) => {
            if is_relative_path(path.as_str()) {
                path
            } else {
                "/".to_string()
            }
        },
        None => "/".to_string(),
    };
    Redirection { cookie: Some(session_cookie("".to_string(), 0)), target }
}

// ---------------------------------------------------------------------
// What signing in guarantees
// ---------------------------------------------------------------------

/// A login stores nothing but a way back to this site.
pub proof fn login_stores_a_way_back(
    config: AppConfig,
    query: LoginQuery,
    state: Seq<char>,
    now: int,
    start: LoginStart,
)
    requires
        login_starts(config, query, state, now, Ok(start)),
    ensures
        sound_op(start.stores()),
{
}

/// What a login stores, a callback takes: until the ten minutes are over the
/// state leads to the target the user asked for, and not any longer.
pub proof fn login_leads_back(
    config: AppConfig,
    query: LoginQuery,
    state: Seq<char>,
    now: int,
    start: LoginStart,
    store: Store,
    later: int,
)
    requires
        login_starts(config, query, state, now, Ok(start)),
    ensures
        ({
            let stored = store.after_op(start.stores(), now);
            &&& stored.state_good(state, later) <==> later < now + STATE_TTL_MICROS
            &&& stored.oauth_states[state].return_to == login_target(query)
        }),
        ({
            let stored = store.after_op(start.stores(), now);
            &&& stored.oauth_states.contains_key(state)
            &&& stored.oauth_states[state].expires_at == now + 600_000_000
            &&& stored.oauth_states[state].return_to == (match query.return_to {
                Some(target) => target@,
                None => "/"@,
            })
            &&& stored == (Store {
                oauth_states: store.oauth_states.insert(state, stored.oauth_states[state]),
                ..store
            })
        }),
{
}

/// A login with a path of this site starts, whatever else the path holds, and
/// one with anything else does not.
pub proof fn login_takes_every_path_of_this_site(
    config: AppConfig,
    query: LoginQuery,
    state: Seq<char>,
    now: int,
    res: Result<LoginStart, AppError>,
    target: String,
)
    requires
        login_starts(config, query, state, now, res),
        query.return_to == Some(target),
    ensures
        res is Ok <==> target@.len() > 0 && target@[0] == '/' && (target@.len() == 1 || target@[1]
            != '/'),
        res matches Ok(start) ==> start.return_to@ == target@ && start.state@ == state
            && start.expires_at == now + 600_000_000,
{
}

/// The tables after a CSRF state is taken.
pub open spec fn state_taken(before: Store, state: Seq<char>) -> Store {
    Store { oauth_states: before.oauth_states.remove(state), ..before }
}

/// Whether the state could be taken at the time `now`, and led to `target`.
pub open spec fn led_to(before: Store, state: Seq<char>, now: int, target: Seq<char>) -> bool {
    before.state_good(state, now) && before.oauth_states[state].return_to == target
}

/// The refresh token a sign-in is granted, if it is.
pub open spec fn sign_in_token(answers: Seq<Answer>) -> Option<String> {
    if 1 < answers.len() {
        match answers[1] {
            Answer::Tokens(tokens) => tokens.refresh_token,
            _ => None,
        }
    } else {
        None
    }
}

/// Whether Discord named this user, by this display name.
pub open spec fn named_user(
    answers: Seq<Answer>,
    discord_id: String,
    display_name: String,
) -> bool {
    2 < answers.len() && (answers[2] matches Answer::User(user) && user.id == discord_id
        && display_name_of(user) == display_name)
}

/// Which answer holds the guild list: one more goes before it if there is a
/// token to store.
pub open spec fn list_place(answers: Seq<Answer>) -> int {
    if sign_in_token(answers) is Some {
        4
    } else {
        3
    }
}

/// The guild list Discord gave, as a sign-in records it, if it gave one and it
/// is not empty.
pub open spec fn sign_in_list(answers: Seq<Answer>) -> Option<Seq<GuildRecord>> {
    if list_place(answers) < answers.len() {
        match answers[list_place(answers)] {
            Answer::DiscordGuilds(fetched) => if fetched@.len() > 0 {
                Some(fetched@.map_values(|g: DiscordGuild| signed_in_record(g)))
            } else {
                None
            },
            _ => None,
        }
    } else {
        None
    }
}

/// Whether the user has the refresh token that was granted, and counts as
/// refreshed when the user did before, if there was a token; if none was
/// granted, no token has changed.
pub open spec fn token_stored(
    before: Store,
    after: Store,
    id: Seq<char>,
    granted: Option<String>,
) -> bool {
    match granted {
        Some(token) => after.tokens.contains_key(id) && after.tokens[id].refresh_token == token@
            && (before.tokens.contains_key(id) ==> after.tokens[id].refreshed_at
            == before.tokens[id].refreshed_at),
        None => after.tokens == before.tokens,
    }
}

/// Whether `after` is `before` with the user signed in: the granted refresh
/// token is stored; the user's guild list is the one Discord gave, or as it
/// was where Discord gave none; and nobody else's rows have changed.
pub open spec fn signed_in_as(
    before: Store,
    after: Store,
    id: Seq<char>,
    answers: Seq<Answer>,
) -> bool {
    &&& other_tokens_kept(before, after, id)
    &&& token_stored(before, after, id, sign_in_token(answers))
    &&& match sign_in_list(answers) {
        Some(guilds) => guilds_replaced(before, after, id, None, guilds),
        None => same_but_tokens(before, after),
    }
}

/// How a callback that failed leaves the tables: if its state was refused, as
/// they were; once the state is taken it stays so, whatever fails; and the
/// guild list of the user is replaced in full or as it was.
pub open spec fn sign_in_failed(
    state: Seq<char>,
    before: Store,
    from: int,
    after: Store,
    answers: Seq<Answer>,
) -> bool {
    let taken = state_taken(before, state);
    &&& answers.len() >= 1
    &&& answers.len() == 1 ==> (answers[0] is Failed && after == taken) || (after == before && (
    answers[0] is Failed || !before.state_good(state, from)))
    &&& answers.len() >= 2 ==> before.state_good(state, from) && after.oauth_states
        == taken.oauth_states
    &&& 2 <= answers.len() <= 3 ==> after == taken
    &&& answers.len() >= 4 ==> (answers[2] matches Answer::User(user) && {
        &&& other_tokens_kept(taken, after, user.id@)
        &&& same_but_tokens(taken, after) || (sign_in_list(answers) matches Some(guilds)
            && guilds_replaced(taken, after, user.id@, None, guilds))
        &&& answers.len() >= 5 ==> token_stored(taken, after, user.id@, sign_in_token(answers))
    })
}

impl Callback {
    /// Whether the operation, on this database, can come to this answer and
    /// take the flow to `after` and the database to `next`.
    pub open spec fn moves(self, db: Db, answer: Answer, after: Callback, next: Db) -> bool {
        &&& self.waits_for() is Some
        &&& db.performs(self.waits_for()->0, answer, next)
        &&& self.stepped(answer, after)
    }

    /// How the database stands in the midst of a callback that began by
    /// taking `state`, at the time `from` on the tables `before`, and has been
    /// given the answers.
    pub open spec fn underway(
        self,
        state: Seq<char>,
        before: Store,
        from: int,
        answers: Seq<Answer>,
        db: Db,
    ) -> bool {
        let taken = state_taken(before, state);
        let n = answers.len();
        let granted = sign_in_token(answers);
        match self.phase {
            CallbackPhase::Denied => false,
            CallbackPhase::TakeState { state: given, .. } => n == 0 && given@ == state && db.now
                == from && db.pending is None && db.committed == before,
            CallbackPhase::ExchangeCode { return_to, .. } => n == 1 && led_to(
                before,
                state,
                from,
                return_to@,
            ) && db.pending is None && db.committed == taken,
            CallbackPhase::GetUser { return_to, access_token, granted: token } => n == 2 && token
                == granted && (answers[1] matches Answer::Tokens(tokens) && access_token
                == tokens.access_token) && led_to(before, state, from, return_to@)
                && db.pending is None && db.committed == taken,
            CallbackPhase::StoreToken {
                return_to,
                refresh_token,
                discord_id,
                display_name,
                ..
            } => n == 3 && granted == Some(refresh_token) && named_user(
                answers,
                discord_id,
                display_name,
            ) && led_to(before, state, from, return_to@) && db.pending is None && db.committed
                == taken,
            CallbackPhase::GetGuilds { return_to, discord_id, display_name, .. } => {
                &&& n == list_place(answers)
                &&& named_user(answers, discord_id, display_name)
                &&& led_to(before, state, from, return_to@)
                &&& db.pending is None
                &&& same_but_tokens(taken, db.committed)
                &&& other_tokens_kept(taken, db.committed, discord_id@)
                &&& token_stored(taken, db.committed, discord_id@, granted)
            },
            CallbackPhase::Swap { return_to, display_name, swap } => {
                &&& n > list_place(answers)
                &&& named_user(answers, swap.discord_id, display_name)
                &&& led_to(before, state, from, return_to@)
                &&& sign_in_list(answers) == Some(swap.guilds@)
                &&& swap.username is None
                &&& !swap.touch
                &&& exists|mid: Store, began: int|
                    same_but_tokens(taken, mid) && other_tokens_kept(taken, mid, swap.discord_id@)
                        && token_stored(taken, mid, swap.discord_id@, granted)
                        && #[trigger] swap.underway(mid, began, db)
            },
            CallbackPhase::SignedIn { return_to, discord_id, display_name } => {
                &&& n > list_place(answers)
                &&& named_user(answers, discord_id, display_name)
                &&& led_to(before, state, from, return_to@)
                &&& db.pending is None
                &&& signed_in_as(taken, db.committed, discord_id@, answers)
            },
            CallbackPhase::Failed(_) => db.pending is None && sign_in_failed(
                state,
                before,
                from,
                db.committed,
                answers,
            ),
        }
    }
}

/// What a sign-in's replacement of the guild list leaves behind.
proof fn lemma_sign_in_committed(
    swap: GuildSwap,
    taken: Store,
    mid: Store,
    began: int,
    granted: Option<String>,
    db: Db,
)
    requires
        swap.username is None,
        !swap.touch,
        same_but_tokens(taken, mid),
        other_tokens_kept(taken, mid, swap.discord_id@),
        token_stored(taken, mid, swap.discord_id@, granted),
        swap.replaced(mid, db.committed, began, db.now),
    ensures
        other_tokens_kept(taken, db.committed, swap.discord_id@),
        token_stored(taken, db.committed, swap.discord_id@, granted),
        guilds_replaced(taken, db.committed, swap.discord_id@, None, swap.guilds@),
{
    lemma_replaced_but_tokens(
        taken,
        mid,
        db.committed,
        swap.discord_id@,
        swap.username,
        swap.guilds@,
    );
}

proof fn lemma_callback_step_underway(
    callback: Callback,
    state: Seq<char>,
    before: Store,
    from: int,
    answers: Seq<Answer>,
    db: Db,
    answer: Answer,
    after: Callback,
    next: Db,
)
    requires
        callback.underway(state, before, from, answers, db),
        callback.moves(db, answer, after, next),
    ensures
        after.underway(state, before, from, answers.push(answer), next),
{
    let taken = state_taken(before, state);
    let op = callback.waits_for()->0;
    let granted = sign_in_token(answers);
    let given = answers.push(answer);
    assert(forall|i: int| 0 <= i < answers.len() ==> given[i] == #[trigger] answers[i]);
    assert(given[answers.len() as int] == answer);
    match callback.phase {
        CallbackPhase::StoreToken { discord_id, .. } => {
            let done = taken.after_op(op, db.now);
            assert(done.tokens.remove(discord_id@) =~= taken.tokens.remove(discord_id@));
        },
        CallbackPhase::GetGuilds { discord_id, .. } => {
            if let CallbackPhase::Swap { swap, .. } = after.phase {
                assert(swap.underway(next.committed, next.now, next));
            }
        },
        CallbackPhase::Swap { return_to, display_name, swap } => {
            let (mid, began) = choose|mid: Store, began: int|
                same_but_tokens(taken, mid) && other_tokens_kept(taken, mid, swap.discord_id@)
                    && token_stored(taken, mid, swap.discord_id@, granted)
                    && #[trigger] swap.underway(mid, began, db);
            let moved = choose|moved: GuildSwap| #[trigger]
                swap.stepped(answer, moved) && after.phase == after_callback_swap(
                    return_to,
                    display_name,
                    moved,
                );
            assert(swap.moves(db, answer, moved, next));
            lemma_step_underway(swap, mid, began, db, answer, moved, next);
            assert(moved.underway(mid, began, next));
            if moved.replaced(mid, next.committed, began, next.now) {
                lemma_sign_in_committed(moved, taken, mid, began, granted, next);
            }
        },
        _ => {},
    }
}

/// A callback, from one state to the next: the states, the database at each,
/// and the answers between them.
pub open spec fn callback_run(
    callbacks: Seq<Callback>,
    dbs: Seq<Db>,
    answers: Seq<Answer>,
) -> bool {
    &&& callbacks.len() == answers.len() + 1
    &&& dbs.len() == answers.len() + 1
    &&& forall|i: int|
        #![trigger answers[i]]
        0 <= i < answers.len() ==> callbacks[i].moves(
            dbs[i],
            answers[i],
            callbacks[i + 1],
            dbs[i + 1],
        )
}

proof fn lemma_callback_run_underway(
    callbacks: Seq<Callback>,
    dbs: Seq<Db>,
    answers: Seq<Answer>,
    state: String,
    code: String,
)
    requires
        callback_run(callbacks, dbs, answers),
        callbacks[0].phase == (CallbackPhase::TakeState { state, code }),
        dbs[0].pending is None,
    ensures
        callbacks.last().underway(state@, dbs[0].committed, dbs[0].now, answers, dbs.last()),
    decreases answers.len(),
{
    if answers.len() > 0 {
        let n = answers.len() - 1;
        let earlier = answers.drop_last();
        assert forall|i: int| #![trigger earlier[i]] 0 <= i < earlier.len() implies
            callbacks.drop_last()[i].moves(
            dbs.drop_last()[i],
            earlier[i],
            callbacks.drop_last()[i + 1],
            dbs.drop_last()[i + 1],
        ) by {
            assert(answers[i] == earlier[i]);
        }
        lemma_callback_run_underway(
            callbacks.drop_last(),
            dbs.drop_last(),
            earlier,
            state,
            code,
        );
        assert(answers[n] == answers.last());
        assert(answers == earlier.push(answers[n]));
        lemma_callback_step_underway(
            callbacks[n],
            state@,
            dbs[0].committed,
            dbs[0].now,
            earlier,
            dbs[n],
            answers[n],
            callbacks[n + 1],
            dbs[n + 1],
        );
    }
}

/// Signing in takes a good CSRF state: a callback signs nobody in, and asks
/// Discord nothing, unless its state was stored, had not expired, and is now
/// gone. The way back is the one stored with the state. The user who is signed
/// in is the one Discord named for the code. What has changed are the rows of
/// that user alone: the granted token is stored, and the guild list is the one
/// Discord gave. A callback that fails puts no state back that it has taken,
/// and changes the guild list in full or not at all.
pub proof fn sign_in_takes_a_good_state(
    callbacks: Seq<Callback>,
    dbs: Seq<Db>,
    answers: Seq<Answer>,
    state: String,
    code: String,
)
    requires
        callback_run(callbacks, dbs, answers),
        callbacks[0].phase == (CallbackPhase::TakeState { state, code }),
        dbs[0].pending is None,
    ensures
        callbacks.last().underway(state@, dbs[0].committed, dbs[0].now, answers, dbs.last()),
        callbacks.last().phase matches CallbackPhase::SignedIn {
            return_to,
            discord_id,
            display_name,
        } ==> {
            let before = dbs[0].committed;
            let after = dbs.last().committed;
            &&& before.state_good(state@, dbs[0].now)
            &&& before.oauth_states[state@].return_to == return_to@
            &&& after.oauth_states == before.oauth_states.remove(state@)
            &&& named_user(answers, discord_id, display_name)
            &&& signed_in_as(state_taken(before, state@), after, discord_id@, answers)
        },
        callbacks.last().phase is Failed ==> sign_in_failed(
            state@,
            dbs[0].committed,
            dbs[0].now,
            dbs.last().committed,
            answers,
        ),
        !dbs[0].committed.state_good(state@, dbs[0].now) ==> callbacks.last().phase is TakeState
            || callbacks.last().phase is Failed,
{
    lemma_callback_run_underway(callbacks, dbs, answers, state, code);
}

/// A callback that fails once the token is stored, at anything but the commit,
/// has taken the state and stored the token, and changed nothing else: no
/// membership, no opt-out.
pub proof fn failed_sign_in_keeps_the_guilds(
    callbacks: Seq<Callback>,
    dbs: Seq<Db>,
    answers: Seq<Answer>,
    state: String,
    code: String,
    user: DiscordUser,
)
    requires
        callback_run(callbacks, dbs, answers),
        callbacks[0].phase == (CallbackPhase::TakeState { state, code }),
        dbs[0].pending is None,
        answers.len() >= 5,
        answers[2] == Answer::User(user),
        answers.last() is Failed,
        callbacks.last().phase is Failed,
        !(callbacks[answers.len() - 1].waits_for()->0 is Commit),
    ensures
        ({
            let taken = state_taken(dbs[0].committed, state@);
            let after = dbs.last().committed;
            &&& same_but_tokens(taken, after)
            &&& other_tokens_kept(taken, after, user.id@)
            &&& token_stored(taken, after, user.id@, sign_in_token(answers))
        }),
{
    let n = answers.len() - 1;
    let taken = state_taken(dbs[0].committed, state@);
    let earlier = answers.drop_last();
    let (cs, ds) = (callbacks.drop_last(), dbs.drop_last());
    assert forall|i: int| #![trigger earlier[i]] 0 <= i < earlier.len() implies cs[i].moves(
        ds[i],
        earlier[i],
        cs[i + 1],
        ds[i + 1],
    ) by {
        assert(answers[i] == earlier[i]);
    }
    lemma_callback_run_underway(cs, ds, earlier, state, code);
    lemma_callback_run_underway(callbacks, dbs, answers, state, code);
    assert(answers[n] == answers.last());
    let (last, db) = (callbacks[n], dbs[n]);
    assert(last.moves(db, answers[n], callbacks[n + 1], dbs[n + 1]));
    assert(earlier[1] == answers[1] && earlier[2] == answers[2]);
    if let CallbackPhase::Swap { swap, .. } = last.phase {
        let (mid, began) = choose|mid: Store, began: int|
            same_but_tokens(taken, mid) && other_tokens_kept(taken, mid, swap.discord_id@)
                && token_stored(taken, mid, swap.discord_id@, sign_in_token(earlier))
                && #[trigger] swap.underway(mid, began, db);
        assert(dbs[n + 1].committed == mid);
    }
}

/// A sign-in leads back to this site, if every login did what
/// [`login_stores_a_way_back`] says.
pub proof fn sign_in_leads_to_this_site(
    callbacks: Seq<Callback>,
    dbs: Seq<Db>,
    answers: Seq<Answer>,
    state: String,
    code: String,
)
    requires
        callback_run(callbacks, dbs, answers),
        callbacks[0].phase == (CallbackPhase::TakeState { state, code }),
        dbs[0].pending is None,
        dbs[0].committed.sound(),
    ensures
        callbacks.last().phase matches CallbackPhase::SignedIn { return_to, .. } ==> relative_path(
            return_to@,
        ),
{
    lemma_callback_run_underway(callbacks, dbs, answers, state, code);
}

/// A CSRF state is good once: after it is taken, a callback with it is
/// refused at any time.
pub proof fn state_is_good_once(
    store: Store,
    state: String,
    code: String,
    now: int,
    db: Db,
    answer: Answer,
    after: Callback,
    next: Db,
)
    requires
        db.pending is None,
        db.committed == store.after_op(Op::TakeOauthState { state: &state }, now),
        store.state_good(state@, now),
        (Callback { phase: CallbackPhase::TakeState { state, code } }).moves(
            db,
            answer,
            after,
            next,
        ),
    ensures
        after.phase is Failed,
        !(answer is Failed) ==> (after.phase matches CallbackPhase::Failed(
            AppError::BadRequest(message),
        ) && message@ == "Invalid or expired OAuth state"@),
{
}

/// The refresh token a sign-in is granted is stored for the user who signed
/// in, before the guilds are fetched.
pub proof fn granted_token_is_stored(
    callback: Callback,
    return_to: String,
    access_token: String,
    refresh_token: String,
    user: DiscordUser,
    storing: Callback,
    db: Db,
    answer: Answer,
    after: Callback,
    next: Db,
)
    requires
        callback.phase == (CallbackPhase::GetUser {
            return_to,
            access_token,
            granted: Some(refresh_token),
        }),
        callback.stepped(Answer::User(user), storing),
        db.pending is None,
        storing.moves(db, answer, after, next),
        answer is Done,
    ensures
        next.committed.tokens.contains_key(user.id@),
        next.committed.tokens[user.id@].refresh_token == refresh_token@,
        after.phase is GetGuilds,
{
}

/// The cookie a sign-in sets stands for the user Discord named, from that
/// moment to the end of its lifetime, and the browser keeps it as long. (A
/// Discord ID holds digits alone, so no colon.)
pub proof fn sign_in_cookie_names_the_user(
    callback: Callback,
    return_to: String,
    discord_id: String,
    display_name: String,
    secret: Seq<char>,
    now: int,
    reply: Redirection,
    at: int,
)
    requires
        0 <= now <= i64::MAX - SESSION_TTL_SECS,
        callback.replies(secret, now, Some(Ok(reply))),
        callback.phase == (CallbackPhase::SignedIn { return_to, discord_id, display_name }),
        !discord_id@.contains(':'),
        at <= now + SESSION_TTL_SECS,
    ensures
        reply.cookie is Some,
        reply.cookie->0.max_age_secs == SESSION_TTL_SECS,
        session_user(reply.cookie->0.value@, secret, at) == Some((discord_id@, display_name@)),
{
    let expires = (now + SESSION_TTL_SECS) as i64;
    signed_session_verifies(discord_id@, display_name@, secret, expires, at);
}

/// A callback only signs in: where the user declined there is no session.
pub proof fn no_session_without_sign_in(
    callback: Callback,
    secret: Seq<char>,
    now: int,
    reply: Redirection,
)
    requires
        callback.replies(secret, now, Some(Ok(reply))),
        reply.cookie is Some,
    ensures
        callback.phase is SignedIn,
{
}

/// Managers are members, and the standing of a caller is what the tables
/// say.
pub proof fn standing_is_what_the_tables_say(
    store: Store,
    lookup: PermissionLookup,
    now: int,
    row: Option<bool>,
)
    requires
        store.can_answer(lookup.reads(), now, Answer::Flag(row)),
    ensures
        standing(row).is_member == store.is_member(lookup.discord_id@, lookup.guild_id@),
        standing(row).is_manager <==> store.is_member(lookup.discord_id@, lookup.guild_id@)
            && store.user_guilds[(lookup.discord_id@, lookup.guild_id@)].manage_guild,
        standing(row).is_manager ==> standing(row).is_member,
{
}

/// Whether the guilds shown are those the user is in, each once, by name with
/// the unnamed last, as they are stored.
pub open spec fn guilds_as_stored(store: Store, id: Seq<char>, shown: Seq<MyGuild>) -> bool {
    &&& sorted_by(
        shown.map_values(
            |g: MyGuild| GuildKey { name: text_of(g.guild_name), id: g.guild_id@ },
        ),
        listed_before(store.collation),
    )
    &&& forall|g: Seq<char>| #[trigger]
        store.is_member(id, g) <==> exists|i: int|
            0 <= i < shown.len() && (#[trigger] shown[i]).guild_id@ == g
    &&& forall|i: int, j: int|
        0 <= i < shown.len() && 0 <= j < shown.len() && (#[trigger] shown[i]).guild_id@ == (
        #[trigger] shown[j]).guild_id@ ==> i == j
    &&& forall|i: int|
        0 <= i < shown.len() ==> store.user_guilds[(id, (#[trigger] shown[i]).guild_id@)].guild_name
            == text_of(shown[i].guild_name) && store.user_guilds[(
            id,
            shown[i].guild_id@,
        )].manage_guild == shown[i].manage_guild
}

/// The guilds a caller is shown are the guilds the caller is in, in order, and
/// they agree with what the caller is told of a single guild: the caller is a
/// member of just the guilds shown, and a manager where the entry says so.
pub proof fn my_guilds_are_mine(
    store: Store,
    lookup: GuildsLookup,
    now: int,
    rows: Vec<UserGuild>,
    permission: PermissionLookup,
    later: int,
    row: Option<bool>,
)
    requires
        store.can_answer(lookup.reads(), now, Answer::UserGuilds(rows)),
        permission.discord_id@ == lookup.discord_id@,
        store.can_answer(permission.reads(), later, Answer::Flag(row)),
    ensures
        ({
            let shown = rows@.map_values(|r: UserGuild| my_guild(r));
            let guild = permission.guild_id@;
            &&& guilds_as_stored(store, lookup.discord_id@, shown)
            &&& standing(row).is_member <==> exists|i: int|
                0 <= i < shown.len() && (#[trigger] shown[i]).guild_id@ == guild
            &&& forall|i: int|
                0 <= i < shown.len() && (#[trigger] shown[i]).guild_id@ == guild ==> standing(
                    row,
                ).is_manager == shown[i].manage_guild
        }),
{
    let shown = rows@.map_values(|r: UserGuild| my_guild(r));
    let id = lookup.discord_id@;
    let keys = shown.map_values(
        |g: MyGuild| GuildKey { name: text_of(g.guild_name), id: g.guild_id@ },
    );
    assert(keys == guild_keys(rows@));
    assert forall|g: Seq<char>| #[trigger] store.is_member(id, g) <==> exists|i: int|
        0 <= i < shown.len() && (#[trigger] shown[i]).guild_id@ == g by {
        if store.is_member(id, g) {
            let i = choose|i: int| 0 <= i < rows@.len() && (#[trigger] rows@[i]).guild_id@ == g;
            assert(shown[i].guild_id@ == g);
        }
        if exists|i: int| 0 <= i < shown.len() && (#[trigger] shown[i]).guild_id@ == g {
            let i = choose|i: int| 0 <= i < shown.len() && (#[trigger] shown[i]).guild_id@ == g;
            assert(rows@[i].guild_id@ == g);
        }
    }
    assert forall|i: int, j: int|
        0 <= i < shown.len() && 0 <= j < shown.len() && (#[trigger] shown[i]).guild_id@ == (
        #[trigger] shown[j]).guild_id@ implies i == j by {
        assert(rows@[i].guild_id@ == rows@[j].guild_id@);
    }
    assert forall|i: int| 0 <= i < shown.len() implies store.user_guilds[(
        id,
        (#[trigger] shown[i]).guild_id@,
    )].guild_name == text_of(shown[i].guild_name) && store.user_guilds[(
        id,
        shown[i].guild_id@,
    )].manage_guild == shown[i].manage_guild by {
        assert(rows@[i].guild_id@ == shown[i].guild_id@);
    }
}

/// A logout ends on this site, and the "Back" link leads to it.
pub proof fn fallback_stays_on_site(target: Option<String>)
    ensures
        relative_path(on_site(target)),
{
    reveal_strlit("/");
}

impl Callback {
    /// A bound on the answers a callback still needs.
    pub open spec fn remaining(self) -> nat {
        match self.phase {
            CallbackPhase::Denied => 0,
            CallbackPhase::TakeState { .. } => 13,
            CallbackPhase::ExchangeCode { .. } => 12,
            CallbackPhase::GetUser { .. } => 11,
            CallbackPhase::StoreToken { .. } => 10,
            CallbackPhase::GetGuilds { .. } => 9,
            CallbackPhase::Swap { swap, .. } => swap.remaining(),
            CallbackPhase::SignedIn { .. } => 0,
            CallbackPhase::Failed(_) => 0,
        }
    }
}

/// A callback ends: it waits for something just as long as it has no reply,
/// and every answer its operation can give brings it nearer the end.
pub proof fn callback_ends(callback: Callback, db: Db, answer: Answer, after: Callback, next: Db)
    requires
        callback.moves(db, answer, after, next),
    ensures
        after.remaining() < callback.remaining(),
        after.waits_for() is None <==> after.remaining() == 0,
{
    if let CallbackPhase::Swap { return_to, display_name, swap } = callback.phase {
        let moved = choose|moved: GuildSwap| #[trigger]
            swap.stepped(answer, moved) && after.phase == after_callback_swap(
                return_to,
                display_name,
                moved,
            );
        replacement_ends(swap, db, answer, moved, next);
    }
}

// ---------------------------------------------------------------------
// From what Discord says to the tables
// ---------------------------------------------------------------------

/// What a sign-in does, from one end to the other. The user who is signed in
/// is the one Discord named, under the global name, or the user name where
/// there is none. The token that was granted is stored for that user. The
/// user's guilds are those Discord listed, if it listed any, and else as they
/// were. The way back is the one stored with the state, which is gone. Nothing
/// else has changed.
pub proof fn sign_in_records_discords_list(
    callbacks: Seq<Callback>,
    dbs: Seq<Db>,
    answers: Seq<Answer>,
    state: String,
    code: String,
    return_to: String,
    discord_id: String,
    display_name: String,
)
    requires
        callback_run(callbacks, dbs, answers),
        callbacks[0].phase == (CallbackPhase::TakeState { state, code }),
        dbs[0].pending is None,
        callbacks.last().phase == (CallbackPhase::SignedIn { return_to, discord_id, display_name }),
    ensures
        ({
            let (before, after) = (dbs[0].committed, dbs.last().committed);
            let id = discord_id@;
            &&& before.oauth_states.contains_key(state@)
            &&& dbs[0].now < before.oauth_states[state@].expires_at
            &&& return_to@ == before.oauth_states[state@].return_to
            &&& after.oauth_states == before.oauth_states.remove(state@)
            &&& answers.len() > 3
            &&& answers[2] matches Answer::User(user) && id == user.id@ && display_name@ == (
            match user.global_name {
                Some(name) => name@,
                None => user.username@,
            })
            &&& answers[1] matches Answer::Tokens(tokens) && {
                let place: int = if tokens.refresh_token is Some {
                    4
                } else {
                    3
                };
                let taken = Store {
                    oauth_states: before.oauth_states.remove(state@),
                    ..before
                };
                &&& answers.len() > place
                &&& tokens.refresh_token matches Some(token) ==> after.tokens.contains_key(id)
                    && after.tokens[id].refresh_token == token@ && (before.tokens.contains_key(id)
                    ==> after.tokens[id].refreshed_at == before.tokens[id].refreshed_at)
                &&& tokens.refresh_token is None ==> after.tokens == before.tokens
                &&& forall|u: Seq<char>|
                    u != id ==> (#[trigger] after.tokens.contains_key(u)
                        <==> before.tokens.contains_key(u)) && (before.tokens.contains_key(u)
                        ==> after.tokens[u] == before.tokens[u])
                &&& (answers[place] matches Answer::DiscordGuilds(fetched) && fetched@.len() > 0)
                    ==> (answers[place] matches Answer::DiscordGuilds(fetched)
                    && holds_discords_list(taken, after, id, fetched@, None, false))
                &&& !(answers[place] matches Answer::DiscordGuilds(fetched) && fetched@.len() > 0)
                    ==> after.user_guilds == before.user_guilds && after.optouts == before.optouts
                    && after.settings == before.settings
            }
        }),
{
    sign_in_takes_a_good_state(callbacks, dbs, answers, state, code);
    let (before, after) = (dbs[0].committed, dbs.last().committed);
    let id = discord_id@;
    let taken = state_taken(before, state@);
    lemma_sign_in_was_granted(callbacks, dbs, answers, state, code);
    let place = list_place(answers);
    if let Answer::DiscordGuilds(fetched) = answers[place] {
        if fetched@.len() > 0 {
            let guilds = sign_in_list(answers)->0;
            lemma_recorded_list(taken, after, id, None, guilds, fetched@, false);
        }
    }
    assert forall|u: Seq<char>| u != id implies (#[trigger] after.tokens.contains_key(u)
        <==> before.tokens.contains_key(u)) && (before.tokens.contains_key(u) ==> after.tokens[u]
        == before.tokens[u]) by {
        assert(after.tokens.remove(id).contains_key(u) == taken.tokens.remove(id).contains_key(u));
        assert(before.tokens.contains_key(u) ==> after.tokens.remove(id)[u] == taken.tokens.remove(
            id,
        )[u]);
    }
}

/// A callback past the exchange of the code has got tokens for it.
proof fn lemma_sign_in_was_granted(
    callbacks: Seq<Callback>,
    dbs: Seq<Db>,
    answers: Seq<Answer>,
    state: String,
    code: String,
)
    requires
        callback_run(callbacks, dbs, answers),
        callbacks[0].phase == (CallbackPhase::TakeState { state, code }),
        dbs[0].pending is None,
        answers.len() >= 3,
        !(callbacks.last().phase is Failed),
    ensures
        answers[1] is Tokens,
{
    assert(answers[0] == answers[0] && answers[1] == answers[1] && answers[2] == answers[2]);
    assert(callbacks[0].moves(dbs[0], answers[0], callbacks[1], dbs[1]));
    assert(callbacks[1].moves(dbs[1], answers[1], callbacks[2], dbs[2]));
    assert(callbacks[2].moves(dbs[2], answers[2], callbacks[3], dbs[3]));
}

/// The order of a sign-in, and what each call is made with: the state that the
/// request holds is taken; the code that the request holds is traded; the user
/// and the guilds are fetched with the access token that came for it; and the
/// token that came with it is stored for the user that was named.
pub proof fn sign_in_asks_for_what_it_needs(
    query: CallbackQuery,
    code: String,
    taking: Callback,
    return_to: String,
    trading: Callback,
    access_token: String,
    granted: Option<String>,
    naming: Callback,
    user: DiscordUser,
    storing: Callback,
    listing: Callback,
)
    requires
        taking.phase == (CallbackPhase::TakeState { state: query.state, code }),
        taking.stepped(Answer::Text(Some(return_to)), trading),
        trading.stepped(
            Answer::Tokens(TokenResponse { access_token, refresh_token: granted }),
            naming,
        ),
        naming.stepped(Answer::User(user), storing),
        granted is Some ==> storing.stepped(Answer::Done, listing),
        granted is None ==> listing == storing,
    ensures
        taking.waits_for() == Some(Op::TakeOauthState { state: &query.state }),
        trading.waits_for() == Some(Op::ExchangeCode { code: &code }),
        naming.waits_for() == Some(Op::GetUser { access_token: &access_token }),
        granted is Some ==> storing.waits_for() == Some(
            Op::UpsertRefreshToken { discord_id: &user.id, refresh_token: &granted->0 },
        ),
        listing.waits_for() == Some(Op::GetUserGuilds { access_token: &access_token }),
{
}

/// A callback fails with an answer that failed, and with that error, or
/// because the state is not good; in no other case. That the guilds cannot be
/// fetched is no reason.
pub proof fn sign_in_fails_with_its_answer(callback: Callback, answer: Answer, after: Callback)
    requires
        callback.waits_for() is Some,
        callback.stepped(answer, after),
    ensures
        after.phase matches CallbackPhase::Failed(error) ==> !(callback.phase is GetGuilds) && (
        answer == Answer::Failed(error) || (callback.phase is TakeState && answer == Answer::Text(
            None,
        ) && (error matches AppError::BadRequest(message) && message@
            == "Invalid or expired OAuth state"@))),
        answer is Failed ==> after.phase is Failed || (callback.phase is GetGuilds
            && after.phase is SignedIn),
        callback.phase is TakeState && answer == Answer::Text(None) ==> after.phase is Failed,
{
    if let CallbackPhase::Swap { return_to, display_name, swap } = callback.phase {
        let moved = choose|moved: GuildSwap| #[trigger]
            swap.stepped(answer, moved) && after.phase == after_callback_swap(
                return_to,
                display_name,
                moved,
            );
        if let SwapPhase::Failed(e) = moved.phase {
            replacement_fails_with_its_answer(swap, answer, moved, e);
        }
        if let Answer::Failed(e) = answer {
            replacement_fails_with_its_answer(swap, answer, moved, e);
        }
    }
}

/// From the login to the way back: who signs in with the state of a login,
/// while it is there, is sent to the very target that the login was given,
/// character for character, or to the root if it was given none.
pub proof fn user_comes_back_to_the_target(
    config: AppConfig,
    query: LoginQuery,
    drawn: Seq<char>,
    then: int,
    start: LoginStart,
    store: Store,
    callbacks: Seq<Callback>,
    dbs: Seq<Db>,
    answers: Seq<Answer>,
    code: String,
    secret: Seq<char>,
    now: int,
    reply: Redirection,
)
    requires
        login_starts(config, query, drawn, then, Ok(start)),
        callback_run(callbacks, dbs, answers),
        callbacks[0].phase == (CallbackPhase::TakeState { state: start.state, code }),
        dbs[0].pending is None,
        dbs[0].committed.oauth_states.contains_key(drawn),
        dbs[0].committed.oauth_states[drawn] == store.after_op(
            start.stores(),
            then,
        ).oauth_states[drawn],
        callbacks.last().phase is SignedIn,
        callbacks.last().replies(secret, now, Some(Ok(reply))),
    ensures
        query.return_to matches Some(target) ==> reply.target@ == target@,
        query.return_to is None ==> reply.target@ == "/"@,
{
    sign_in_takes_a_good_state(callbacks, dbs, answers, start.state, code);
}

/// What a caller is told of a guild, from what Discord says: after a sign-in
/// or a refresh that recorded Discord's list, the caller is a member just of
/// the guilds listed, and a manager as the owner, or exactly if bit 5 of the
/// permissions is set.
pub proof fn standing_is_what_discord_says(
    before: Store,
    store: Store,
    fetched: Seq<DiscordGuild>,
    name: Option<Seq<char>>,
    icons: bool,
    lookup: PermissionLookup,
    now: int,
    row: Option<bool>,
    i: int,
    v: u64,
)
    requires
        holds_discords_list(before, store, lookup.discord_id@, fetched, name, icons),
        store.can_answer(lookup.reads(), now, Answer::Flag(row)),
    ensures
        standing(row).is_member <==> exists|j: int|
            0 <= j < fetched.len() && (#[trigger] fetched[j]).id@ == lookup.guild_id@,
        0 <= i < fetched.len() && fetched[i].id@ == lookup.guild_id@ && fetched[i].owner
            ==> standing(row).is_manager,
        0 <= i < fetched.len() && fetched[i].id@ == lookup.guild_id@ && !fetched[i].owner
            && fetched[i].permissions@ == decimal(v as int) ==> (standing(row).is_manager <==> (v
            / 32) % 2 == 1),
        !standing(row).is_member ==> !standing(row).is_manager,
{
    let id = lookup.discord_id@;
    assert(store.is_member(id, lookup.guild_id@) == store.user_guilds.contains_key(
        (id, lookup.guild_id@),
    ));
    if 0 <= i < fetched.len() {
        let _ = fetched[i];
        assert(store.user_guilds.contains_key((id, fetched[i].id@)));
    }
}

/// A path is kept on this site: one that stays here is kept as it is, and the
/// root stands in for any other, or for none.
pub proof fn on_site_keeps_paths(target: String)
    ensures
        target@.len() > 0 && target@[0] == '/' && (target@.len() == 1 || target@[1] != '/')
            ==> on_site(Some(target)) == target@,
        !(target@.len() > 0 && target@[0] == '/' && (target@.len() == 1 || target@[1] != '/'))
            ==> on_site(Some(target)) == "/"@,
        on_site(None) == "/"@,
{
}

/// The guilds a caller is shown, in the words of the tables: those on record
/// for the caller, each once, with the name and the right to manage it as they
/// are on record, and no others.
pub proof fn my_guilds_spelt_out(
    store: Store,
    lookup: GuildsLookup,
    now: int,
    rows: Vec<UserGuild>,
    guild: Seq<char>,
)
    requires
        store.can_answer(lookup.reads(), now, Answer::UserGuilds(rows)),
    ensures
        ({
            let shown = rows@.map_values(|r: UserGuild| my_guild(r));
            let id = lookup.discord_id@;
            &&& (exists|i: int| 0 <= i < shown.len() && (#[trigger] shown[i]).guild_id@ == guild)
                <==> store.user_guilds.contains_key((id, guild))
            &&& forall|i: int, j: int|
                0 <= i < shown.len() && 0 <= j < shown.len() && (#[trigger] shown[i]).guild_id@ == (
                #[trigger] shown[j]).guild_id@ ==> i == j
            &&& forall|i: int|
                0 <= i < shown.len() && (#[trigger] shown[i]).guild_id@ == guild
                    ==> shown[i].manage_guild == store.user_guilds[(id, guild)].manage_guild
                    && text_of(shown[i].guild_name) == store.user_guilds[(id, guild)].guild_name
        }),
{
    let shown = rows@.map_values(|r: UserGuild| my_guild(r));
    let id = lookup.discord_id@;
    let _ = store.is_member(id, guild);
    if store.user_guilds.contains_key((id, guild)) {
        let i = choose|i: int| 0 <= i < rows@.len() && (#[trigger] rows@[i]).guild_id@ == guild;
        assert(shown[i].guild_id@ == guild);
    }
    assert forall|i: int| 0 <= i < shown.len() implies (#[trigger] shown[i]).guild_id@
        == rows@[i].guild_id@ && shown[i].guild_name == rows@[i].guild_name
        && shown[i].manage_guild == rows@[i].manage_guild by {}
}

} // verus!

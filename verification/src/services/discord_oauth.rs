//! The calls to Discord's OAuth API: what is sent, and what is made of the
//! replies.

use crate::config::AppConfig;
use crate::encoding::percent_encoded;
use crate::error::AppError;
use crate::text::{decimal, parse_u64, parsed_u64, unsigned_decimal_reads_back};
use crate::trusted::url_encode;
use vstd::prelude::*;
use vstd::string::*;

verus! {

/// Discord's reply to a token request.
pub struct TokenResponse {
    pub access_token: String,
    pub refresh_token: Option<String>,
}

/// The user an access token belongs to.
pub struct DiscordUser {
    pub id: String,
    pub username: String,
    pub global_name: Option<String>,
}

/// One guild of that user. Discord gives the permissions as the decimal
/// notation of a bit field; an absent one is the empty text.
pub struct DiscordGuild {
    pub id: String,
    pub name: String,
    pub permissions: String,
    pub owner: bool,
    pub icon: Option<String>,
}

/// A guild membership, as it is recorded.
pub struct GuildRecord {
    pub guild_id: String,
    pub guild_name: String,
    pub manage_guild: bool,
    pub icon_hash: Option<String>,
}

pub enum HttpMethod {
    Get,
    Post,
}

/// A request to send to Discord.
pub struct HttpCall {
    pub method: HttpMethod,
    pub url: &'static str,
    /// The value of the `Authorization` header, where one is sent.
    pub authorization: Option<String>,
    /// The fields of the form in the body.
    pub form: Vec<(&'static str, String)>,
}

/// The four calls the gateway makes.
pub enum DiscordCall {
    ExchangeCode,
    RefreshAccessToken,
    GetUser,
    GetUserGuilds,
}

/// What of a call failed: sending it, or reading the reply.
pub enum CallStage {
    Send,
    Parse,
}

pub const TOKEN_URL: &'static str = "https://discord.com/api/v10/oauth2/token";

pub const USER_URL: &'static str = "https://discord.com/api/v10/users/@me";

pub const GUILDS_URL: &'static str = "https://discord.com/api/v10/users/@me/guilds";

/// The MANAGE_GUILD bit (bit 5) of Discord's permissions.
pub const MANAGE_GUILD: u64 = 0x20;

/// The fields of a form, by their text.
pub open spec fn form_text(form: Seq<(&'static str, String)>) -> Seq<(Seq<char>, Seq<char>)> {
    form.map_values(|f: (&'static str, String)| (f.0@, f.1@))
}

/// Whether a member may manage a guild: its owner, or a holder of the
/// MANAGE_GUILD permission. Unreadable permissions count as none.
pub open spec fn may_manage(owner: bool, permissions: Seq<char>) -> bool {
    owner || (match parsed_u64(permissions) {
        Some(bits) => bits & MANAGE_GUILD != 0,
        None => false,
    })
}

/// The record of a guild, as Discord gives it.
pub open spec fn record_of(g: DiscordGuild) -> GuildRecord {
    GuildRecord {
        guild_id: g.id,
        guild_name: g.name,
        manage_guild: may_manage(g.owner, g.permissions@),
        icon_hash: g.icon,
    }
}

/// The name a user goes by: the global name, else the user name.
pub open spec fn display_name_of(user: DiscordUser) -> String {
    match user.global_name {
        Some(name) => name,
        None => user.username,
    }
}

/// What the message of a failed call starts with.
pub open spec fn failure_prefix(call: DiscordCall, stage: CallStage) -> Seq<char> {
    match (call, stage) {
        (DiscordCall::ExchangeCode, CallStage::Send) => "Discord token exchange failed: "@,
        (DiscordCall::ExchangeCode, CallStage::Parse) => "Discord token parse failed: "@,
        (DiscordCall::RefreshAccessToken, CallStage::Send) => "Discord token refresh failed: "@,
        (DiscordCall::RefreshAccessToken, CallStage::Parse) =>
            "Discord token refresh parse failed: "@,
        (DiscordCall::GetUser, CallStage::Send) => "Discord user fetch failed: "@,
        (DiscordCall::GetUser, CallStage::Parse) => "Discord user parse failed: "@,
        (DiscordCall::GetUserGuilds, CallStage::Send) => "Discord guilds fetch failed: "@,
        (DiscordCall::GetUserGuilds, CallStage::Parse) => "Discord guilds parse failed: "@,
    }
}

/// The error a failed call ends in.
pub fn call_error(call: DiscordCall, stage: CallStage, reason: &str) -> (res: AppError)
    ensures
        res matches AppError::Internal(message) && message@ == failure_prefix(call, stage)
            + reason@,
        res matches AppError::Internal(message) && message@ == (match (call, stage) {
            (DiscordCall::ExchangeCode, CallStage::Send) => "Discord token exchange failed: "@,
            (DiscordCall::ExchangeCode, CallStage::Parse) => "Discord token parse failed: "@,
            (DiscordCall::RefreshAccessToken, CallStage::Send) => "Discord token refresh failed: "@,
            (DiscordCall::RefreshAccessToken, CallStage::Parse) =>
                "Discord token refresh parse failed: "@,
            (DiscordCall::GetUser, CallStage::Send) => "Discord user fetch failed: "@,
            (DiscordCall::GetUser, CallStage::Parse) => "Discord user parse failed: "@,
            (DiscordCall::GetUserGuilds, CallStage::Send) => "Discord guilds fetch failed: "@,
            (DiscordCall::GetUserGuilds, CallStage::Parse) => "Discord guilds parse failed: "@,
        }) + reason@,
{
    let prefix: &'static str = match (call, stage) {
        (DiscordCall::ExchangeCode, CallStage::Send) => "Discord token exchange failed: ",
        (DiscordCall::ExchangeCode, CallStage::Parse) => "Discord token parse failed: ",
        (DiscordCall::RefreshAccessToken, CallStage::Send) => "Discord token refresh failed: ",
        (DiscordCall::RefreshAccessToken, CallStage::Parse) =>
            "Discord token refresh parse failed: ",
        (DiscordCall::GetUser, CallStage::Send) => "Discord user fetch failed: ",
        (DiscordCall::GetUser, CallStage::Parse) => "Discord user parse failed: ",
        (DiscordCall::GetUserGuilds, CallStage::Send) => "Discord guilds fetch failed: ",
        (DiscordCall::GetUserGuilds, CallStage::Parse) => "Discord guilds parse failed: ",
    };
    let mut message: String = prefix.to_string();
    message.append(reason);
    AppError::Internal(message)
}

fn bearer(access_token: &str) -> (res: String)
    ensures
        res@ == "Bearer "@ + access_token@,
{
    let mut out: String = "Bearer ".to_string();
    out.append(access_token);
    out
}

/// The gateway's side of Discord's OAuth API.
pub struct DiscordOAuth {}

impl DiscordOAuth {
    /// Where a user is sent to sign in: Discord's consent page, for the
    /// identity and the guild list, with the given CSRF state.
    pub fn authorize_url(config: &AppConfig, state: &str) -> (res: String)
        ensures
            res@ == "https://discord.com/oauth2/authorize?client_id="@ + config.discord_client_id@
                + "&redirect_uri="@ + percent_encoded(config.redirect_uri())
                + "&response_type=code&scope=identify%20guilds&state="@ + state@,
            res@ == "https://discord.com/oauth2/authorize?client_id="@ + config.discord_client_id@
                + "&redirect_uri="@ + percent_encoded(config.base_url@ + "/auth/callback"@)
                + "&response_type=code&scope=identify%20guilds&state="@ + state@,
    {
        let redirect_uri: String = config.oauth_redirect_uri();
        let encoded: String = url_encode(redirect_uri.as_str());
        let mut out: String = "https://discord.com/oauth2/authorize?client_id=".to_string();
        out.append(config.discord_client_id.as_str());
        out.append("&redirect_uri=");
        out.append(encoded.as_str());
        out.append("&response_type=code&scope=identify%20guilds&state=");
        out.append(state);
        out
    }

    /// The request that trades an authorization code for tokens.
    pub fn exchange_code(config: &AppConfig, code: &str) -> (res: HttpCall)
        ensures
            res.method is Post,
            res.url@ == TOKEN_URL@,
            res.authorization is None,
            form_text(res.form@) == seq![
                ("grant_type"@, "authorization_code"@),
                ("code"@, code@),
                ("redirect_uri"@, config.redirect_uri()),
                ("client_id"@, config.discord_client_id@),
                ("client_secret"@, config.discord_client_secret@),
            ],
            res.url@ == "https://discord.com/api/v10/oauth2/token"@,
            res.form@.len() == 5,
            res.form@[0].0@ == "grant_type"@ && res.form@[0].1@ == "authorization_code"@,
            res.form@[1].0@ == "code"@ && res.form@[1].1@ == code@,
            res.form@[2].0@ == "redirect_uri"@ && res.form@[2].1@ == config.base_url@
                + "/auth/callback"@,
            res.form@[3].0@ == "client_id"@ && res.form@[3].1@ == config.discord_client_id@,
            res.form@[4].0@ == "client_secret"@ && res.form@[4].1@ == config.discord_client_secret@,
    {
        let form: Vec<(&'static str, String)> = vec![
            ("grant_type", "authorization_code".to_string()),
            ("code", code.to_string()),
            ("redirect_uri", config.oauth_redirect_uri()),
            ("client_id", config.discord_client_id.clone()),
            ("client_secret", config.discord_client_secret.clone()),
        ];
        HttpCall { method: HttpMethod::Post, url: TOKEN_URL, authorization: None, form }
    }

    /// The request that trades a refresh token for new tokens.
    pub fn refresh_access_token(config: &AppConfig, refresh_token: &str) -> (res: HttpCall)
        ensures
            res.method is Post,
            res.url@ == TOKEN_URL@,
            res.authorization is None,
            form_text(res.form@) == seq![
                ("grant_type"@, "refresh_token"@),
                ("refresh_token"@, refresh_token@),
                ("client_id"@, config.discord_client_id@),
                ("client_secret"@, config.discord_client_secret@),
            ],
            res.url@ == "https://discord.com/api/v10/oauth2/token"@,
            res.form@.len() == 4,
            res.form@[0].0@ == "grant_type"@ && res.form@[0].1@ == "refresh_token"@,
            res.form@[1].0@ == "refresh_token"@ && res.form@[1].1@ == refresh_token@,
            res.form@[2].0@ == "client_id"@ && res.form@[2].1@ == config.discord_client_id@,
            res.form@[3].0@ == "client_secret"@ && res.form@[3].1@ == config.discord_client_secret@,
    {
        let form: Vec<(&'static str, String)> = vec![
            ("grant_type", "refresh_token".to_string()),
            ("refresh_token", refresh_token.to_string()),
            ("client_id", config.discord_client_id.clone()),
            ("client_secret", config.discord_client_secret.clone()),
        ];
        HttpCall { method: HttpMethod::Post, url: TOKEN_URL, authorization: None, form }
    }

    /// The new access and refresh token. Discord invalidates the old refresh
    /// token with every use, so a reply without a new one is an error.
    pub fn refresh_access_token_reply(reply: TokenResponse) -> (res: Result<
        (String, String),
        AppError,
    >)
        ensures
            match reply.refresh_token {
                Some(refresh_token) => res == Ok::<(String, String), AppError>(
                    (reply.access_token, refresh_token),
                ),
                None => res matches Err(AppError::Internal(message)) && message@
                    == "Discord token refresh returned no refresh_token"@,
            },
    {
        match reply.refresh_token {
            Some(refresh_token) => Ok((reply.access_token, refresh_token)),
            None => Err(
                AppError::Internal("Discord token refresh returned no refresh_token".to_string()),
            ),
        }
    }

    /// The request for the user an access token belongs to.
    pub fn get_user(access_token: &str) -> (res: HttpCall)
        ensures
            res.method is Get,
            res.url@ == USER_URL@,
            res.url@ == "https://discord.com/api/v10/users/@me"@,
            res.authorization is Some && res.authorization->0@ == "Bearer "@ + access_token@,
            res.form@.len() == 0,
    {
        HttpCall {
            method: HttpMethod::Get,
            url: USER_URL,
            authorization: Some(bearer(access_token)),
            form: Vec::new(),
        }
    }

    /// The user's Discord ID and display name.
    pub fn get_user_reply(user: DiscordUser) -> (res: (String, String))
        ensures
            res == (user.id, display_name_of(user)),
            res.0@ == user.id@,
            match user.global_name {
                Some(name) => res.1@ == name@,
                None => res.1@ == user.username@,
            },
    {
        let name: String = match user.global_name {
            Some(name) => name,
            None => user.username,
        };
        (user.id, name)
    }

    /// The request for the user's guilds.
    pub fn get_user_guilds(access_token: &str) -> (res: HttpCall)
        ensures
            res.method is Get,
            res.url@ == GUILDS_URL@,
            res.url@ == "https://discord.com/api/v10/users/@me/guilds"@,
            res.authorization is Some && res.authorization->0@ == "Bearer "@ + access_token@,
            res.form@.len() == 0,
    {
        HttpCall {
            method: HttpMethod::Get,
            url: GUILDS_URL,
            authorization: Some(bearer(access_token)),
            form: Vec::new(),
        }
    }

    /// The record of each guild the user belongs to, in Discord's order.
    pub fn get_user_guilds_reply(guilds: Vec<DiscordGuild>) -> (res: Vec<GuildRecord>)
        ensures
            res@ == guilds@.map_values(|g: DiscordGuild| record_of(g)),
            res@.len() == guilds@.len(),
            forall|i: int|
                0 <= i < guilds@.len() ==> (#[trigger] res@[i]).guild_id@ == guilds@[i].id@
                    && res@[i].guild_name@ == guilds@[i].name@ && res@[i].icon_hash
                    == guilds@[i].icon,
            forall|i: int|
                0 <= i < guilds@.len() && guilds@[i].owner ==> (#[trigger] res@[i]).manage_guild,
            forall|i: int, v: u64|
                #![trigger res@[i], decimal(v as int)]
                0 <= i < guilds@.len() && !guilds@[i].owner && guilds@[i].permissions@ == decimal(
                    v as int,
                ) ==> (res@[i].manage_guild <==> (v / 32) % 2 == 1),
            forall|i: int|
                0 <= i < guilds@.len() && !guilds@[i].owner ==> ((
                #[trigger] res@[i]).manage_guild <==> (parsed_u64(
                    guilds@[i].permissions@,
                ) matches Some(v) && (v / 32) % 2 == 1)),
    {
        let mut records: Vec<GuildRecord> = Vec::new();
        let mut i: usize = 0;
        while i < guilds.len()
            invariant
                i <= guilds@.len(),
                records@ == guilds@.take(i as int).map_values(|g: DiscordGuild| record_of(g)),
            decreases guilds@.len() - i,
        {
            let g: &DiscordGuild = &guilds[i];
            let bits: u64 = match parse_u64(g.permissions.as_str()) {
                Some(bits) => bits,
                None => 0,
            };
            assert(0u64 & MANAGE_GUILD == 0) by (bit_vector);
            let record = GuildRecord {
                guild_id: g.id.clone(),
                guild_name: g.name.clone(),
                manage_guild: g.owner || (bits & MANAGE_GUILD) != 0,
                icon_hash: g.icon.clone(),
            };
            assert(record == record_of(guilds@[i as int]));
            records.push(record);
            i = i + 1;
        }
        assert(guilds@.take(i as int) == guilds@);
        proof {
            assert forall|i: int| 0 <= i < guilds@.len() implies (#[trigger] records@[i])
                == record_of(guilds@[i]) by {}
            assert forall|i: int| 0 <= i < guilds@.len() && !guilds@[i].owner implies ((
            #[trigger] records@[i]).manage_guild <==> (parsed_u64(
                guilds@[i].permissions@,
            ) matches Some(v) && (v / 32) % 2 == 1)) by {
                record_says_who_may_manage(guilds@[i], 0);
            }
            assert forall|i: int, v: u64|
                #![trigger records@[i], decimal(v as int)]
                0 <= i < guilds@.len() && !guilds@[i].owner && guilds@[i].permissions@ == decimal(
                    v as int,
                ) implies (records@[i].manage_guild <==> (v / 32) % 2 == 1) by {
                record_says_who_may_manage(guilds@[i], v);
            }
        }
        records
    }
}

/// Who may manage a guild, by what Discord says of it: the owner; and anybody
/// else exactly if bit 5 of the permissions is set, whatever the other bits
/// say, for the whole range of 64 bits. Permissions that are no number give
/// no right. The record is otherwise what Discord says.
pub proof fn record_says_who_may_manage(g: DiscordGuild, v: u64)
    ensures
        record_of(g).guild_id@ == g.id@,
        record_of(g).guild_name@ == g.name@,
        record_of(g).icon_hash == g.icon,
        g.owner ==> record_of(g).manage_guild,
        !g.owner && g.permissions@ == decimal(v as int) ==> (record_of(g).manage_guild <==> (v
            / 32) % 2 == 1),
        !g.owner && parsed_u64(g.permissions@) == Some(v) ==> (record_of(g).manage_guild <==> (v
            / 32) % 2 == 1),
        !g.owner && parsed_u64(g.permissions@) is None ==> !record_of(g).manage_guild,
        !g.owner ==> (record_of(g).manage_guild <==> (parsed_u64(g.permissions@) matches Some(bits)
            && (bits / 32) % 2 == 1)),
{
    unsigned_decimal_reads_back(v);
    assert(v & 0x20 != 0 <==> (v / 32) % 2 == 1) by (bit_vector);
    if let Some(bits) = parsed_u64(g.permissions@) {
        assert(bits & 0x20 != 0 <==> (bits / 32) % 2 == 1) by (bit_vector);
    }
}

/// The right to manage a guild hangs on that one bit: two members who are not
/// the owner, and whose permissions differ in other bits alone, have it or
/// lack it together.
pub proof fn other_permissions_do_not_matter(g: DiscordGuild, h: DiscordGuild, v: u64, w: u64)
    requires
        !g.owner,
        !h.owner,
        g.permissions@ == decimal(v as int),
        h.permissions@ == decimal(w as int),
        (v / 32) % 2 == (w / 32) % 2,
    ensures
        record_of(g).manage_guild == record_of(h).manage_guild,
{
    record_says_who_may_manage(g, v);
    record_says_who_may_manage(h, w);
}

/// A user goes by the global name, and by the user name where there is none.
pub proof fn display_name_is_the_global_name(user: DiscordUser)
    ensures
        match user.global_name {
            Some(name) => display_name_of(user)@ == name@,
            None => display_name_of(user)@ == user.username@,
        },
{
}

} // verus!

//! The calls to Discord.

use auth_gateway::config::AppConfig;
use auth_gateway::error::AppError;
use auth_gateway::services::discord_oauth::{
    call_error, CallStage, DiscordCall, DiscordGuild, DiscordOAuth, DiscordUser, HttpMethod,
    TokenResponse,
};

fn config() -> AppConfig {
    AppConfig {
        database_url: "postgres://db".to_string(),
        discord_client_id: "1234".to_string(),
        discord_client_secret: "hush".to_string(),
        session_secret: "s".to_string(),
        internal_api_key: "k".to_string(),
        base_url: "https://your-domain.com".to_string(),
        listen_addr: "0.0.0.0:8090".to_string(),
    }
}

fn guild(id: &str, permissions: &str, owner: bool) -> DiscordGuild {
    DiscordGuild {
        id: id.to_string(),
        name: format!("Guild {id}"),
        permissions: permissions.to_string(),
        owner,
        icon: Some(format!("icon{id}")),
    }
}

#[test]
fn consent_page_asks_for_identity_and_guilds() {
    assert_eq!(
        DiscordOAuth::authorize_url(&config(), "AbC123"),
        "https://discord.com/oauth2/authorize?client_id=1234\
         &redirect_uri=https%3A%2F%2Fyour-domain.com%2Fauth%2Fcallback\
         &response_type=code&scope=identify%20guilds&state=AbC123"
    );
}

#[test]
fn code_is_traded_by_form() {
    let call = DiscordOAuth::exchange_code(&config(), "the-code");
    assert!(matches!(call.method, HttpMethod::Post));
    assert_eq!(call.url, "https://discord.com/api/v10/oauth2/token");
    assert_eq!(call.authorization, None);
    assert_eq!(
        call.form,
        vec![
            ("grant_type", "authorization_code".to_string()),
            ("code", "the-code".to_string()),
            ("redirect_uri", "https://your-domain.com/auth/callback".to_string()),
            ("client_id", "1234".to_string()),
            ("client_secret", "hush".to_string()),
        ]
    );
}

#[test]
fn refresh_token_is_traded_by_form() {
    let call = DiscordOAuth::refresh_access_token(&config(), "the-token");
    assert!(matches!(call.method, HttpMethod::Post));
    assert_eq!(call.url, "https://discord.com/api/v10/oauth2/token");
    assert_eq!(
        call.form,
        vec![
            ("grant_type", "refresh_token".to_string()),
            ("refresh_token", "the-token".to_string()),
            ("client_id", "1234".to_string()),
            ("client_secret", "hush".to_string()),
        ]
    );
}

#[test]
fn reads_go_by_bearer_token() {
    let call = DiscordOAuth::get_user("tok");
    assert!(matches!(call.method, HttpMethod::Get));
    assert_eq!(call.url, "https://discord.com/api/v10/users/@me");
    assert_eq!(call.authorization, Some("Bearer tok".to_string()));
    assert!(call.form.is_empty());
    let call = DiscordOAuth::get_user_guilds("tok");
    assert!(matches!(call.method, HttpMethod::Get));
    assert_eq!(call.url, "https://discord.com/api/v10/users/@me/guilds");
    assert_eq!(call.authorization, Some("Bearer tok".to_string()));
}

#[test]
fn refresh_must_return_a_new_token() {
    let reply = TokenResponse {
        access_token: "a".to_string(),
        refresh_token: Some("r".to_string()),
    };
    assert!(matches!(
        DiscordOAuth::refresh_access_token_reply(reply),
        Ok((access, refresh)) if access == "a" && refresh == "r"
    ));
    let reply = TokenResponse { access_token: "a".to_string(), refresh_token: None };
    assert!(matches!(
        DiscordOAuth::refresh_access_token_reply(reply),
        Err(AppError::Internal(m)) if m == "Discord token refresh returned no refresh_token"
    ));
}

#[test]
fn display_name_is_the_global_name_if_there_is_one() {
    let user = |global: Option<&str>| DiscordUser {
        id: "42".to_string(),
        username: "ann".to_string(),
        global_name: global.map(|n| n.to_string()),
    };
    assert_eq!(
        DiscordOAuth::get_user_reply(user(Some("Ann"))),
        ("42".to_string(), "Ann".to_string())
    );
    assert_eq!(
        DiscordOAuth::get_user_reply(user(None)),
        ("42".to_string(), "ann".to_string())
    );
}

#[test]
fn managers_hold_the_permission_or_own_the_guild() {
    let records = DiscordOAuth::get_user_guilds_reply(vec![
        guild("1", "32", false),
        guild("2", "2147483647", false),
        guild("3", "2147483615", false),
        guild("4", "0", true),
        guild("5", "", false),
        guild("6", "not a number", false),
        guild("7", "8", false),
    ]);
    let flags: Vec<bool> = records.iter().map(|r| r.manage_guild).collect();
    assert_eq!(flags, vec![true, true, false, true, false, false, false]);
    let ids: Vec<&str> = records.iter().map(|r| r.guild_id.as_str()).collect();
    assert_eq!(ids, vec!["1", "2", "3", "4", "5", "6", "7"]);
    assert_eq!(records[1].guild_name, "Guild 2");
    assert_eq!(records[1].icon_hash, Some("icon2".to_string()));
    assert!(DiscordOAuth::get_user_guilds_reply(vec![]).is_empty());
}

#[test]
fn failures_say_which_call_failed() {
    let message = |call, stage| match call_error(call, stage, "timeout") {
        AppError::Internal(m) => m,
        _ => panic!("wrong error"),
    };
    assert_eq!(
        message(DiscordCall::ExchangeCode, CallStage::Send),
        "Discord token exchange failed: timeout"
    );
    assert_eq!(
        message(DiscordCall::ExchangeCode, CallStage::Parse),
        "Discord token parse failed: timeout"
    );
    assert_eq!(
        message(DiscordCall::RefreshAccessToken, CallStage::Send),
        "Discord token refresh failed: timeout"
    );
    assert_eq!(
        message(DiscordCall::RefreshAccessToken, CallStage::Parse),
        "Discord token refresh parse failed: timeout"
    );
    assert_eq!(
        message(DiscordCall::GetUser, CallStage::Send),
        "Discord user fetch failed: timeout"
    );
    assert_eq!(
        message(DiscordCall::GetUser, CallStage::Parse),
        "Discord user parse failed: timeout"
    );
    assert_eq!(
        message(DiscordCall::GetUserGuilds, CallStage::Send),
        "Discord guilds fetch failed: timeout"
    );
    assert_eq!(
        message(DiscordCall::GetUserGuilds, CallStage::Parse),
        "Discord guilds parse failed: timeout"
    );
}

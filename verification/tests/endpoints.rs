//! What the endpoints make of a request, before any database.

use auth_gateway::config::AppConfig;
use auth_gateway::error::AppError;
use auth_gateway::ops::{Op, UserGuild};
use auth_gateway::routes::caller::{caller_discord_id, caller_discord_id_at, SESSION_COOKIE};
use auth_gateway::routes::internal::{
    guild_member_ids, user_guild_ids, verify_internal_key, GuildMemberIdsQuery, UserGuildIdsQuery,
    INTERNAL_KEY_HEADER,
};
use auth_gateway::routes::members::MembersPhase;
use auth_gateway::routes::my_servers_html::render_my_servers_html;
use auth_gateway::routes::oauth::{
    callback, guild_members, guild_permission, guild_permission_reply, login, login_with, logout,
    my_guilds, my_guilds_reply, CallbackPhase, CallbackQuery, GuildPermissionQuery, LoginQuery,
    LogoutQuery,
};
use auth_gateway::routes::preferences::{
    bulk_update_preference, get_preferences, is_snowflake, my_servers_page, my_servers_page_for,
    update_auto_enable, update_preference, AutoEnableBody, BulkUpdateBody, MyServers,
    MyServersQuery, PreferencesPhase, PreferencesQuery, UpdatePreferenceBody,
};
use auth_gateway::services::session::{sign_session, sign_session_at};

const SECRET: &str = "test-secret";

fn config() -> AppConfig {
    AppConfig {
        database_url: "postgres://db".to_string(),
        discord_client_id: "1234".to_string(),
        discord_client_secret: "hush".to_string(),
        session_secret: SECRET.to_string(),
        internal_api_key: "key".to_string(),
        base_url: "https://your-domain.com".to_string(),
        listen_addr: "0.0.0.0:8090".to_string(),
    }
}

fn some(s: &str) -> Option<String> {
    Some(s.to_string())
}

#[test]
fn login_stores_a_state_and_sends_to_discord() {
    let query = LoginQuery { return_to: some("/genshin-player-role/verify") };
    let start = login_with(&config(), query, "AbC123".to_string(), 1_000).ok().unwrap();
    assert_eq!(start.return_to, "/genshin-player-role/verify");
    assert_eq!(start.expires_at, 600_001_000);
    assert!(start.url.ends_with("&state=AbC123"));
    assert!(matches!(
        start.op(),
        Op::InsertOauthState { state, return_to, expires_at: 600_001_000 }
            if state == "AbC123" && return_to == "/genshin-player-role/verify"
    ));
}

#[test]
fn login_defaults_to_the_root() {
    let start = login_with(&config(), LoginQuery { return_to: None }, "x".to_string(), 0);
    assert_eq!(start.ok().unwrap().return_to, "/");
}

#[test]
fn login_refuses_to_leave_the_site() {
    for target in ["//evil.example", "https://evil.example", "", "verify"] {
        let query = LoginQuery { return_to: some(target) };
        assert!(matches!(
            login(&config(), query),
            Err(AppError::BadRequest(m)) if m == "return_to must be a relative path"
        ));
    }
}

#[test]
fn login_draws_a_fresh_state() {
    let draw = || login(&config(), LoginQuery { return_to: some("/a") }).ok().unwrap();
    let (one, two) = (draw(), draw());
    for start in [&one, &two] {
        assert_eq!(start.state.len(), 32);
        assert!(start.state.bytes().all(|b| b.is_ascii_alphanumeric()));
        assert!(start.url.ends_with(&start.state));
        // Ten minutes after some moment since September 2020.
        assert!(start.expires_at > 1_600_000_000_000_000);
    }
    assert_ne!(one.state, two.state);
}

#[test]
fn login_state_lasts_ten_minutes_from_now() {
    let start = login(&config(), LoginQuery { return_to: None }).ok().unwrap();
    let signed = sign_session("1", "x", SECRET);
    let now: i64 = signed.split(':').nth(2).unwrap().parse::<i64>().unwrap() - 30 * 24 * 3600;
    let left = start.expires_at / 1_000_000 - now;
    assert!((590..=601).contains(&left));
}

#[test]
fn declined_sign_in_returns_to_the_root_without_a_session() {
    for (code, error) in [(None, None), (None, some("access_denied")), (some("c"), some("e"))] {
        let flow = callback(CallbackQuery { code, state: "s".to_string(), error });
        assert!(flow.next_op().is_none());
        assert!(matches!(flow.phase, CallbackPhase::Denied));
        let reply = flow.reply(SECRET).unwrap().ok().unwrap();
        assert_eq!(reply.target, "/");
        assert!(reply.cookie.is_none());
    }
}

#[test]
fn sign_in_without_error_starts_with_the_state() {
    let query = CallbackQuery { code: some("c"), state: "s".to_string(), error: None };
    let flow = callback(query);
    assert!(matches!(flow.next_op(), Some(Op::TakeOauthState { state }) if state == "s"));
    assert!(flow.reply(SECRET).is_none());
}

#[test]
fn logout_clears_the_cookie() {
    let reply = logout(LogoutQuery { return_to: some("/some/path") });
    assert_eq!(reply.target, "/some/path");
    let cookie = reply.cookie.unwrap();
    assert_eq!(cookie.name, "rl_session");
    assert_eq!(SESSION_COOKIE, "rl_session");
    assert_eq!(cookie.value, "");
    assert_eq!(cookie.path, "/");
    assert_eq!(cookie.max_age_secs, 0);
    assert!(cookie.http_only && cookie.same_site_lax);
}

#[test]
fn logout_stays_on_the_site() {
    for target in [None, some("//evil.example"), some("https://evil.example"), some("")] {
        assert_eq!(logout(LogoutQuery { return_to: target }).target, "/");
    }
}

#[test]
fn caller_is_whom_the_cookie_names() {
    let cookie = sign_session_at("42", "Ann", SECRET, 1_000);
    assert!(matches!(
        caller_discord_id_at(Some(&cookie), SECRET, 2_000),
        Ok(id) if id == "42"
    ));
    assert!(matches!(
        caller_discord_id_at(Some(&cookie), SECRET, 1_001 + 30 * 24 * 3600),
        Err(AppError::Unauthorized)
    ));
    assert!(matches!(
        caller_discord_id_at(Some(&cookie), "other", 2_000),
        Err(AppError::Unauthorized)
    ));
    assert!(matches!(caller_discord_id_at(None, SECRET, 2_000), Err(AppError::Unauthorized)));
    assert!(matches!(caller_discord_id(Some(&cookie), SECRET), Err(AppError::Unauthorized)));
    let cookie = sign_session("42", "Ann", SECRET);
    assert!(matches!(caller_discord_id(Some(&cookie), SECRET), Ok(id) if id == "42"));
}

#[test]
fn endpoints_want_a_session() {
    for cookie in [None, Some("junk"), Some("1:2:3:4")] {
        let guild_id = || "9".to_string();
        assert!(matches!(
            guild_permission(cookie, SECRET, GuildPermissionQuery { guild_id: guild_id() }),
            Err(AppError::Unauthorized)
        ));
        assert!(matches!(
            guild_members(cookie, SECRET, GuildPermissionQuery { guild_id: guild_id() }),
            Err(AppError::Unauthorized)
        ));
        assert!(matches!(my_guilds(cookie, SECRET), Err(AppError::Unauthorized)));
        let query = PreferencesQuery { ensure_guild: None, refresh: some("1") };
        assert!(matches!(get_preferences(cookie, SECRET, query), Err(AppError::Unauthorized)));
        let body =
            UpdatePreferenceBody { guild_id: guild_id(), plugin: some("nope"), enabled: true };
        assert!(matches!(update_preference(cookie, SECRET, body), Err(AppError::Unauthorized)));
        let body = BulkUpdateBody { enabled: true };
        assert!(matches!(
            bulk_update_preference(cookie, SECRET, body),
            Err(AppError::Unauthorized)
        ));
        let body = AutoEnableBody { enabled: true };
        assert!(matches!(update_auto_enable(cookie, SECRET, body), Err(AppError::Unauthorized)));
    }
}

#[test]
fn lookups_ask_for_the_caller() {
    let cookie = sign_session("42", "Ann", SECRET);
    let query = GuildPermissionQuery { guild_id: "9".to_string() };
    let lookup = guild_permission(Some(&cookie), SECRET, query).ok().unwrap();
    assert!(matches!(
        lookup.op(),
        Op::SelectManageGuild { discord_id, guild_id } if discord_id == "42" && guild_id == "9"
    ));
    let lookup = my_guilds(Some(&cookie), SECRET).ok().unwrap();
    assert!(matches!(lookup.op(), Op::SelectUserGuilds { discord_id } if discord_id == "42"));
    let query = GuildPermissionQuery { guild_id: "9".to_string() };
    let flow = guild_members(Some(&cookie), SECRET, query).ok().unwrap();
    assert!(matches!(
        flow.next_op(),
        Some(Op::SelectMembership { discord_id, guild_id }) if discord_id == "42" && guild_id == "9"
    ));
}

#[test]
fn standing_follows_the_membership_row() {
    let standing = |row| {
        let reply = guild_permission_reply(row);
        (reply.is_member, reply.is_manager)
    };
    assert_eq!(standing(Some(true)), (true, true));
    assert_eq!(standing(Some(false)), (true, false));
    assert_eq!(standing(None), (false, false));
}

#[test]
fn guilds_are_listed_in_the_order_of_the_rows() {
    let row = |id: &str, name: Option<String>, manage_guild| UserGuild {
        guild_id: id.to_string(),
        guild_name: name,
        manage_guild,
        icon_hash: some("icon"),
    };
    let guilds = my_guilds_reply(vec![row("2", some("A"), true), row("1", None, false)]);
    assert_eq!(guilds.len(), 2);
    assert_eq!(guilds[0].guild_id, "2");
    assert_eq!(guilds[0].guild_name, some("A"));
    assert!(guilds[0].manage_guild);
    assert_eq!(guilds[1].guild_id, "1");
    assert_eq!(guilds[1].guild_name, None);
    assert!(!guilds[1].manage_guild);
}

#[test]
fn internal_key_is_compared_byte_for_byte() {
    assert_eq!(INTERNAL_KEY_HEADER, "x-internal-key");
    let key = "s3cret-Key_\t 42";
    assert!(verify_internal_key(Some(key.as_bytes()), key).is_ok());
    let wrong: [Option<&[u8]>; 6] = [
        None,
        Some(b""),
        Some(b"s3cret-Key_\t 43"),
        Some(b"s3cret-Key_\t 4"),
        Some(b"s3cret-Key_\t 421"),
        Some(b"S3cret-Key_\t 42"),
    ];
    for provided in wrong {
        assert!(matches!(verify_internal_key(provided, key), Err(AppError::Unauthorized)));
    }
    assert!(verify_internal_key(Some(b""), "").is_ok());
}

#[test]
fn internal_key_must_be_readable_text() {
    // The bytes are the same, but no header value can be read as such text.
    for key in ["caf\u{e9}", "a\nb", "a\u{7f}", "\0"] {
        assert!(matches!(
            verify_internal_key(Some(key.as_bytes()), key),
            Err(AppError::Unauthorized)
        ));
    }
}

#[test]
fn internal_endpoints_want_the_key() {
    let ids = |key: Option<&[u8]>| {
        user_guild_ids(key, "key", UserGuildIdsQuery { discord_id: "42".to_string() })
    };
    let members = |key: Option<&[u8]>| {
        guild_member_ids(key, "key", GuildMemberIdsQuery { guild_id: "9".to_string() })
    };
    assert!(matches!(ids(None), Err(AppError::Unauthorized)));
    assert!(matches!(ids(Some(b"kez")), Err(AppError::Unauthorized)));
    assert!(matches!(members(None), Err(AppError::Unauthorized)));
    assert!(matches!(members(Some(b"keyy")), Err(AppError::Unauthorized)));
    let lookup = ids(Some(b"key")).ok().unwrap();
    assert!(matches!(lookup.op(), Op::SelectGuildIds { discord_id } if discord_id == "42"));
    let flow = members(Some(b"key")).ok().unwrap();
    assert!(matches!(flow.phase, MembersPhase::List));
    assert_eq!(flow.guild_id, "9");
}

#[test]
fn snowflakes_are_5_to_25_digits() {
    for s in ["12345", "123456789012345678", "1234567890123456789012345"] {
        assert!(is_snowflake(s));
    }
    let long = "12345678901234567890123456";
    for s in ["", "1234", long, "12345a", "-12345", "1234 5", "\u{661}\u{662}\u{663}\u{664}\u{665}"]
    {
        assert!(!is_snowflake(s));
    }
}

#[test]
fn preferences_refresh_when_asked() {
    let cookie = sign_session("42", "Ann", SECRET);
    let begin = |ensure: Option<&str>, refresh: Option<&str>| {
        let query = PreferencesQuery {
            ensure_guild: ensure.map(|s| s.to_string()),
            refresh: refresh.map(|s| s.to_string()),
        };
        get_preferences(Some(&cookie), SECRET, query).ok().unwrap()
    };
    for refresh in ["1", "0", ""] {
        let flow = begin(Some("123456"), Some(refresh));
        assert!(matches!(
            flow.next_op(),
            Some(Op::ClaimRefresh { discord_id, cooldown_secs: 15 }) if discord_id == "42"
        ));
    }
    let flow = begin(Some("123456"), None);
    assert!(matches!(
        flow.next_op(),
        Some(Op::SelectMembership { discord_id, guild_id })
            if discord_id == "42" && guild_id == "123456"
    ));
    assert!(matches!(begin(Some("junk"), None).phase, PreferencesPhase::Guilds));
    assert!(matches!(begin(None, None).phase, PreferencesPhase::Guilds));
}

#[test]
fn unknown_plugin_is_refused() {
    let cookie = sign_session("42", "Ann", SECRET);
    for slug in ["nope", "", "Birthday Role"] {
        let body =
            UpdatePreferenceBody { guild_id: "9".to_string(), plugin: some(slug), enabled: false };
        assert!(matches!(
            update_preference(Some(&cookie), SECRET, body),
            Err(AppError::BadRequest(m)) if m == format!("Unknown plugin: {slug}")
        ));
    }
}

#[test]
fn bulk_and_setting_are_one_statement_each() {
    let cookie = sign_session("42", "Ann", SECRET);
    let bulk = |enabled| {
        bulk_update_preference(Some(&cookie), SECRET, BulkUpdateBody { enabled }).ok().unwrap()
    };
    assert!(matches!(
        bulk(true).op(),
        Op::DeleteMasterOptouts { discord_id } if discord_id == "42"
    ));
    assert!(matches!(
        bulk(false).op(),
        Op::UpsertMasterOptouts { discord_id } if discord_id == "42"
    ));
    let body = AutoEnableBody { enabled: true };
    let update = update_auto_enable(Some(&cookie), SECRET, body).ok().unwrap();
    assert!(matches!(
        update.op(),
        Op::UpsertAutoEnable { discord_id, enabled: true } if discord_id == "42"
    ));
}

#[test]
fn page_sends_strangers_to_sign_in_and_back() {
    let url = |from: Option<&str>| {
        let query = MyServersQuery { from: from.map(|s| s.to_string()) };
        match my_servers_page(None, SECRET, query) {
            MyServers::SignIn { url } => url,
            MyServers::Page { .. } => panic!("nobody is signed in"),
        }
    };
    assert_eq!(url(None), "/auth/login?return_to=%2Fauth%2Fmy_servers");
    assert_eq!(url(Some("")), "/auth/login?return_to=%2Fauth%2Fmy_servers");
    assert_eq!(
        url(Some("/a b")),
        "/auth/login?return_to=%2Fauth%2Fmy_servers%3Ffrom%3D%252Fa%2520b"
    );
    // What the login is handed, decoded once, is a path it takes.
    let target = "/auth/my_servers?from=%2Fa%20b";
    assert!(login(&config(), LoginQuery { return_to: some(target) }).is_ok());
}

#[test]
fn page_links_back_to_this_site() {
    let html = |from: Option<&str>| {
        let query = MyServersQuery { from: from.map(|s| s.to_string()) };
        match my_servers_page_for(true, query) {
            MyServers::Page { html } => html,
            MyServers::SignIn { .. } => panic!("signed in"),
        }
    };
    assert_eq!(html(Some("/osu-player-role")), render_my_servers_html("/osu-player-role"));
    for from in [None, Some("//evil.example"), Some("https://evil.example"), Some("")] {
        assert_eq!(html(from), render_my_servers_html("/"));
    }
    let cookie = sign_session("42", "Ann", SECRET);
    let visit = my_servers_page(Some(&cookie), SECRET, MyServersQuery { from: some("/x") });
    assert!(matches!(visit, MyServers::Page { html } if html == render_my_servers_html("/x")));
}

#[test]
fn page_is_whole() {
    let html = render_my_servers_html("/osu-player-role");
    assert!(html.starts_with("<!DOCTYPE html>\n<html lang=\"en\">\n<head>"));
    assert!(html.contains("<a class=\"back\" href=\"/osu-player-role\">"));
    assert!(html.contains("async function onMasterToggle(e) {"));
    assert!(html.ends_with("    </script>\n</body>\n</html>"));
    assert_eq!(html.matches("/osu-player-role").count(), 1);
    assert_eq!(html.matches('{').count(), html.matches('}').count());
}

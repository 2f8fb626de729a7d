//! Paths, numbers, plugins and the settings.

use auth_gateway::config::{AppConfig, DEFAULT_LISTEN_ADDR};
use auth_gateway::plugins::{is_known_plugin, plugins};
use auth_gateway::tasks::guild_refresh_worker::{max_users_per_hour, sleep_secs};
use auth_gateway::text::{decimal_text, is_relative_path, parse_i64, parse_u64};

#[test]
fn relative_paths_stay_on_this_site() {
    for path in ["/", "/genshin-player-role/verify", "/a//b", "/?x=//y", "/\u{e9}"] {
        assert!(is_relative_path(path));
    }
    for path in ["", "//", "//evil.example", "https://evil.example", "a/b", " /", "\\/x"] {
        assert!(!is_relative_path(path));
    }
}

#[test]
fn decimals_read_back() {
    for n in [0, 7, 10, -1, -10, 1_702_592_000, i64::MAX, i64::MIN] {
        let text = decimal_text(n);
        assert_eq!(text, n.to_string());
        assert_eq!(parse_i64(&text), Some(n));
    }
}

#[test]
fn numbers_are_read_as_std_reads_them() {
    let texts = [
        "", "+", "-", "0", "-0", "+5", "007", "12a", " 1", "1 ", "9223372036854775807",
        "9223372036854775808", "-9223372036854775808", "-9223372036854775809",
        "18446744073709551615", "18446744073709551616", "99999999999999999999999999", "--1", "+-1",
    ];
    for text in texts {
        assert_eq!(parse_i64(text), text.parse::<i64>().ok());
        assert_eq!(parse_u64(text), text.parse::<u64>().ok());
    }
}

#[test]
fn registry_lists_the_plugins() {
    let entries = plugins();
    assert_eq!(entries.len(), 16);
    assert_eq!(entries[0].slug, "birthday-role");
    assert_eq!(entries[8].display_name, "osu! Player Role");
    for entry in &entries {
        assert!(is_known_plugin(entry.slug));
        assert!(!is_known_plugin(entry.display_name));
        assert!(!entry.slug.is_empty());
    }
    assert!(!is_known_plugin(""));
    assert!(!is_known_plugin("birthday-rol"));
    assert!(!is_known_plugin("birthday-role "));
}

#[test]
fn refresh_rate_is_configurable() {
    assert_eq!(max_users_per_hour(None), 600);
    assert_eq!(max_users_per_hour(Some("1200")), 1200);
    assert_eq!(max_users_per_hour(Some("0")), 0);
    assert_eq!(max_users_per_hour(Some("-1")), 600);
    assert_eq!(max_users_per_hour(Some("many")), 600);
}

#[test]
fn pause_makes_for_the_rate() {
    assert_eq!(sleep_secs(600), 6);
    assert_eq!(sleep_secs(1), 3600);
    assert_eq!(sleep_secs(7), 514);
    assert_eq!(sleep_secs(3601), 0);
    assert_eq!(sleep_secs(0), 60);
}

#[test]
fn redirect_uri_is_the_callback() {
    let config = AppConfig {
        database_url: String::new(),
        discord_client_id: String::new(),
        discord_client_secret: String::new(),
        session_secret: String::new(),
        internal_api_key: String::new(),
        base_url: "https://your-domain.com".to_string(),
        listen_addr: DEFAULT_LISTEN_ADDR.to_string(),
    };
    assert_eq!(config.oauth_redirect_uri(), "https://your-domain.com/auth/callback");
    assert_eq!(config.listen_addr, "0.0.0.0:8090");
}

//! Whole flows, on tables in memory.

use std::collections::BTreeMap;

use auth_gateway::error::AppError;
use auth_gateway::ops::{Answer, Op, OptoutRow, StaleUser, UserGuild};
use auth_gateway::routes::members::{GuildMembers, MembersPhase};
use auth_gateway::routes::oauth::{callback, Callback, CallbackPhase, CallbackQuery, Redirection};
use auth_gateway::routes::preferences::{
    bulk_update_reply, group_optouts, BulkUpdate, GetPreferences, Preferences, PreferencesPhase, PreferencesQuery,
    UpdatePhase, UpdatePreference, UpdatePreferenceBody,
};
use auth_gateway::services::discord_oauth::{DiscordGuild, DiscordUser, TokenResponse};
use auth_gateway::services::guild_sync::{
    refresh_on_demand, replace_user_guilds, GuildRefresh, OnDemand, RefreshPhase,
};
use auth_gateway::services::optout::{apply_optouts_for_new_guilds, truly_new};
use auth_gateway::services::session::verify_session_at;
use auth_gateway::tasks::guild_refresh_worker::{Worker, WorkerPhase};

const SEC: i64 = 1_000_000;
const DAY: i64 = 24 * 3600 * SEC;

#[derive(Clone, PartialEq, Debug)]
struct Row {
    name: Option<String>,
    manage: bool,
    icon: Option<String>,
    username: Option<String>,
}

#[derive(Clone, PartialEq, Debug, Default)]
struct Tables {
    states: BTreeMap<String, (String, i64)>,
    tokens: BTreeMap<String, (String, i64)>,
    guilds: BTreeMap<(String, String), Row>,
    /// When they were last set.
    optouts: BTreeMap<(String, String, String), i64>,
    settings: BTreeMap<String, bool>,
}

/// Tables in memory, and a Discord that knows one user.
struct World {
    tables: Tables,
    open: Option<Tables>,
    now: i64,
    /// The guilds Discord lists, by ID.
    discord: Vec<&'static str>,
    /// The operation, counted from zero, that fails.
    fails_at: Option<usize>,
    asked: usize,
    /// The refresh token whose user's guilds cannot be fetched.
    unreachable: Option<&'static str>,
    /// The kinds of operation asked for.
    log: Vec<&'static str>,
}

fn s(text: &str) -> String {
    text.to_string()
}

fn world() -> World {
    World {
        tables: Tables::default(),
        open: None,
        now: 100 * DAY,
        discord: vec!["11111", "22222"],
        fails_at: None,
        asked: 0,
        unreachable: None,
        log: Vec::new(),
    }
}

impl World {
    fn perform(&mut self, op: Op<'_>) -> Answer {
        let n = self.asked;
        self.asked += 1;
        if self.fails_at == Some(n) {
            self.open = None;
            return Answer::Failed(AppError::Database(s("down")));
        }
        let now = self.now;
        let discord = self.discord.clone();
        match op {
            Op::Begin => {
                self.log.push("begin");
                self.open = Some(self.tables.clone());
                return Answer::Done;
            }
            Op::Commit => {
                self.log.push("commit");
                self.tables = self.open.take().unwrap();
                return Answer::Done;
            }
            _ => {}
        }
        let t = match &mut self.open {
            Some(t) => t,
            None => &mut self.tables,
        };
        match op {
            Op::Begin | Op::Commit => unreachable!(),
            Op::InsertOauthState { state, return_to, expires_at } => {
                t.states.insert(state.clone(), (return_to.clone(), expires_at));
                Answer::Done
            }
            Op::TakeOauthState { state } => {
                let good = matches!(t.states.get(state), Some((_, expires)) if *expires > now);
                Answer::Text(if good { t.states.remove(state).map(|r| r.0) } else { None })
            }
            Op::UpsertRefreshToken { discord_id, refresh_token } => {
                let at = t.tokens.get(discord_id).map_or(now, |r| r.1);
                t.tokens.insert(discord_id.clone(), (refresh_token.clone(), at));
                Answer::Done
            }
            Op::UpdateRefreshToken { discord_id, refresh_token } => {
                if let Some(row) = t.tokens.get_mut(discord_id) {
                    row.0 = refresh_token.clone();
                }
                Answer::Done
            }
            Op::DeleteRefreshToken { discord_id } => {
                self.log.push("drop token");
                t.tokens.remove(discord_id);
                Answer::Done
            }
            Op::ClaimRefresh { discord_id, cooldown_secs } => match t.tokens.get_mut(discord_id) {
                Some(row) if row.1 < now - cooldown_secs as i64 * SEC => {
                    row.1 = now;
                    Answer::Text(Some(row.0.clone()))
                }
                _ => Answer::Text(None),
            },
            Op::TouchRefreshed { discord_id } => {
                if let Some(row) = t.tokens.get_mut(discord_id) {
                    row.1 = now;
                }
                Answer::Done
            }
            Op::SelectStaleUser { stale_hours, tried } => {
                let limit = now - stale_hours as i64 * 3600 * SEC;
                let stale = t.tokens.iter().filter(|(id, r)| r.1 < limit && !tried.contains(id));
                Answer::Stale(stale.min_by_key(|(_, r)| r.1).map(|(id, r)| StaleUser {
                    discord_id: id.clone(),
                    refresh_token: r.0.clone(),
                }))
            }
            Op::SelectManageGuild { discord_id, guild_id } => {
                let row = t.guilds.get(&(discord_id.clone(), guild_id.clone()));
                Answer::Flag(row.map(|r| r.manage))
            }
            Op::SelectMembership { discord_id, guild_id } => {
                Answer::Found(t.guilds.contains_key(&(discord_id.clone(), guild_id.clone())))
            }
            Op::SelectGuildMembers { guild_id } => Answer::Ids(
                t.guilds.keys().filter(|k| &k.1 == guild_id).map(|k| k.0.clone()).collect(),
            ),
            Op::SelectGuildName { guild_id } => Answer::Text(
                t.guilds.iter().filter(|(k, _)| &k.1 == guild_id).find_map(|(_, r)| r.name.clone()),
            ),
            Op::SelectUserGuilds { discord_id } => {
                let mut rows: Vec<UserGuild> = t
                    .guilds
                    .iter()
                    .filter(|(k, _)| &k.0 == discord_id)
                    .map(|(k, r)| UserGuild {
                        guild_id: k.1.clone(),
                        guild_name: r.name.clone(),
                        manage_guild: r.manage,
                        icon_hash: r.icon.clone(),
                    })
                    .collect();
                rows.sort_by_key(|r| (r.guild_name.is_none(), r.guild_name.clone()));
                Answer::UserGuilds(rows)
            }
            Op::SelectGuildIds { discord_id } => Answer::Ids(
                t.guilds.keys().filter(|k| &k.0 == discord_id).map(|k| k.1.clone()).collect(),
            ),
            Op::DeleteUserGuilds { discord_id } => {
                t.guilds.retain(|k, _| &k.0 != discord_id);
                Answer::Done
            }
            Op::InsertUserGuilds { discord_id, username, guilds } => {
                for g in guilds {
                    let row = Row {
                        name: Some(g.guild_name.clone()),
                        manage: g.manage_guild,
                        icon: g.icon_hash.clone(),
                        username: username.clone(),
                    };
                    t.guilds.insert((discord_id.clone(), g.guild_id.clone()), row);
                }
                Answer::Done
            }
            Op::SelectOptouts { discord_id } => Answer::Optouts(
                t.optouts
                    .keys()
                    .filter(|k| &k.0 == discord_id)
                    .map(|k| OptoutRow { guild_id: k.1.clone(), plugin: k.2.clone() })
                    .collect(),
            ),
            Op::DeleteOptout { discord_id, guild_id, plugin } => {
                t.optouts.remove(&(discord_id.clone(), guild_id.clone(), plugin.clone()));
                Answer::Done
            }
            Op::UpsertOptout { discord_id, guild_id, plugin } => {
                t.optouts.insert((discord_id.clone(), guild_id.clone(), plugin.clone()), now);
                Answer::Done
            }
            Op::DeleteMasterOptouts { discord_id } => {
                let before = t.optouts.len();
                t.optouts.retain(|k, _| !(&k.0 == discord_id && k.2.is_empty()));
                Answer::Affected((before - t.optouts.len()) as u64)
            }
            Op::UpsertMasterOptouts { discord_id } => {
                let keys: Vec<String> =
                    t.guilds.keys().filter(|k| &k.0 == discord_id).map(|k| k.1.clone()).collect();
                for g in &keys {
                    t.optouts.insert((discord_id.clone(), g.clone(), String::new()), now);
                }
                Answer::Affected(keys.len() as u64)
            }
            Op::InsertMasterOptouts { discord_id, guild_ids } => {
                for g in guild_ids {
                    t.optouts.entry((discord_id.clone(), g.clone(), String::new())).or_insert(now);
                }
                Answer::Done
            }
            Op::SelectAutoEnable { discord_id } => {
                Answer::Flag(t.settings.get(discord_id).copied())
            }
            Op::UpsertAutoEnable { discord_id, enabled } => {
                t.settings.insert(discord_id.clone(), enabled);
                Answer::Done
            }
            Op::ExchangeCode { code } => {
                self.log.push("exchange code");
                assert_eq!(code, "code");
                Answer::Tokens(TokenResponse {
                    access_token: s("access"),
                    refresh_token: Some(s("token-1")),
                })
            }
            Op::RefreshAccessToken { refresh_token } => {
                self.log.push("refresh token");
                let new_token = format!("{refresh_token}'");
                let works = self.unreachable != Some(new_token.as_str());
                Answer::Tokens(TokenResponse {
                    access_token: s(if works { "access" } else { "no access" }),
                    refresh_token: Some(new_token),
                })
            }
            Op::GetUser { access_token } => {
                assert_eq!(access_token, "access");
                Answer::User(DiscordUser {
                    id: s("42"),
                    username: s("ann"),
                    global_name: Some(s("Ann: A")),
                })
            }
            Op::GetUserGuilds { access_token } => {
                self.log.push("get guilds");
                if access_token != "access" {
                    return Answer::Failed(AppError::Internal(s("no guilds")));
                }
                Answer::DiscordGuilds(
                    discord
                        .iter()
                        .map(|id| DiscordGuild {
                            id: s(id),
                            name: format!("Guild {id}"),
                            permissions: s(if *id == "11111" { "32" } else { "0" }),
                            owner: false,
                            icon: Some(format!("icon {id}")),
                        })
                        .collect(),
                )
            }
            Op::Sleep { secs } => {
                self.log.push("sleep");
                self.now += secs as i64 * SEC;
                Answer::Done
            }
        }
    }

    fn join(&mut self, id: &str, guild: &str) {
        let row = Row { name: Some(s(guild)), manage: false, icon: None, username: None };
        self.tables.guilds.insert((s(id), s(guild)), row);
    }

    fn opt_out(&mut self, id: &str, guild: &str, plugin: &str) {
        self.tables.optouts.insert((s(id), s(guild), s(plugin)), 0);
    }

    fn guilds(&self, id: &str) -> Vec<&str> {
        self.tables.guilds.keys().filter(|k| k.0 == id).map(|k| k.1.as_str()).collect()
    }

    fn masters(&self, id: &str) -> Vec<&str> {
        let of_user = |k: &&(String, String, String)| k.0 == id && k.2.is_empty();
        self.tables.optouts.keys().filter(of_user).map(|k| k.1.as_str()).collect()
    }

    fn sign_in(&mut self, state: &str) -> Callback {
        let query = CallbackQuery { code: Some(s("code")), state: s(state), error: None };
        let mut flow = callback(query);
        while let Some(op) = flow.next_op() {
            let answer = self.perform(op);
            flow = flow.step(answer);
        }
        flow
    }

    fn refresh(&mut self, mut flow: GuildRefresh) -> Result<OnDemand, AppError> {
        while let Some(op) = flow.next_op() {
            let answer = self.perform(op);
            flow = flow.step(answer);
        }
        match flow.phase {
            RefreshPhase::Finished(outcome) => Ok(outcome),
            RefreshPhase::Failed(e) => Err(e),
            _ => panic!("not over"),
        }
    }

    fn read(&mut self, ensure: Option<&str>, refresh: bool) -> Result<Preferences, AppError> {
        let query = PreferencesQuery {
            ensure_guild: ensure.map(s),
            refresh: if refresh { Some(s("1")) } else { None },
        };
        let mut flow = GetPreferences::begin(s("42"), query);
        while let Some(op) = flow.next_op() {
            let answer = self.perform(op);
            flow = flow.step(answer);
        }
        match flow.phase {
            PreferencesPhase::Finished(preferences) => Ok(preferences),
            PreferencesPhase::Failed(e) => Err(e),
            _ => panic!("not over"),
        }
    }

    fn toggle(&mut self, guild: &str, plugin: Option<&str>, enabled: bool) -> Result<(), AppError> {
        let body = UpdatePreferenceBody { guild_id: s(guild), plugin: plugin.map(s), enabled };
        let mut flow = UpdatePreference::begin(s("42"), body)?;
        while let Some(op) = flow.next_op() {
            let answer = self.perform(op);
            flow = flow.step(answer);
        }
        match flow.phase {
            UpdatePhase::Finished => Ok(()),
            UpdatePhase::Failed(e) => Err(e),
            _ => panic!("not over"),
        }
    }
}

fn signed_in(flow: Callback) -> Redirection {
    flow.reply_at("secret", 1_700_000_000).unwrap().ok().unwrap()
}

#[test]
fn sign_in_sets_a_cookie_and_leads_back() {
    let mut w = world();
    w.tables.states.insert(s("st"), (s("/plugin/verify"), w.now + 1));
    let reply = signed_in(w.sign_in("st"));
    assert_eq!(reply.target, "/plugin/verify");
    let cookie = reply.cookie.unwrap();
    assert_eq!(cookie.name, "rl_session");
    assert_eq!(cookie.path, "/");
    assert_eq!(cookie.max_age_secs, 2_592_000);
    assert!(cookie.http_only && cookie.same_site_lax);
    assert_eq!(
        verify_session_at(&cookie.value, "secret", 1_700_000_000),
        Some((s("42"), s("Ann: A")))
    );
    assert!(w.tables.states.is_empty());
    assert_eq!(w.tables.tokens.get("42"), Some(&(s("token-1"), w.now)));
    assert_eq!(w.guilds("42"), vec!["11111", "22222"]);
    let row = &w.tables.guilds[&(s("42"), s("11111"))];
    assert_eq!(row.name, Some(s("Guild 11111")));
    assert!(row.manage);
    assert_eq!(row.icon, None);
    assert_eq!(row.username, None);
}

#[test]
fn sign_in_opts_out_of_new_guilds() {
    let mut w = world();
    w.join("42", "11111");
    w.tables.states.insert(s("st"), (s("/"), w.now + 1));
    assert!(matches!(w.sign_in("st").phase, CallbackPhase::SignedIn { .. }));
    assert_eq!(w.masters("42"), vec!["22222"]);
}

#[test]
fn state_works_once() {
    let mut w = world();
    w.tables.states.insert(s("st"), (s("/"), w.now + 1));
    assert!(matches!(w.sign_in("st").phase, CallbackPhase::SignedIn { .. }));
    w.log.clear();
    let again = w.sign_in("st");
    assert!(matches!(
        again.reply("secret"),
        Some(Err(AppError::BadRequest(m))) if m == "Invalid or expired OAuth state"
    ));
    assert!(w.log.is_empty());
}

#[test]
fn expired_or_unknown_state_signs_nobody_in() {
    let mut w = world();
    w.tables.states.insert(s("st"), (s("/"), w.now));
    let before = w.tables.clone();
    for state in ["st", "other"] {
        assert!(matches!(
            w.sign_in(state).phase,
            CallbackPhase::Failed(AppError::BadRequest(m)) if m == "Invalid or expired OAuth state"
        ));
    }
    assert_eq!(w.tables, before);
    assert!(w.log.is_empty());
}

#[test]
fn sign_in_goes_on_without_the_guild_list() {
    let mut w = world();
    w.join("42", "33333");
    w.tables.states.insert(s("st"), (s("/"), w.now + 1));
    // The fifth operation fetches the guilds.
    w.fails_at = Some(4);
    assert!(matches!(w.sign_in("st").phase, CallbackPhase::SignedIn { .. }));
    assert_eq!(w.guilds("42"), vec!["33333"]);
    // Nor does an empty list wipe what is recorded.
    w.fails_at = None;
    w.discord.clear();
    w.tables.states.insert(s("st"), (s("/"), w.now + 1));
    assert!(matches!(w.sign_in("st").phase, CallbackPhase::SignedIn { .. }));
    assert_eq!(w.guilds("42"), vec!["33333"]);
}

#[test]
fn failed_sign_in_sets_no_cookie_and_keeps_the_guilds() {
    let mut failed = 0;
    for n in 0..14 {
        let mut w = world();
        w.join("42", "33333");
        w.join("7", "33333");
        w.tables.states.insert(s("st"), (s("/"), w.now + 1));
        w.fails_at = Some(n);
        let flow = w.sign_in("st");
        if let Some(Err(e)) = flow.reply("secret") {
            assert!(matches!(e, AppError::Database(_)));
            assert_eq!(w.guilds("42"), vec!["33333"]);
            assert!(w.tables.optouts.is_empty());
            failed += 1;
        } else {
            assert!(n == 4 || n >= 12);
        }
        assert_eq!(w.guilds("7"), vec!["33333"]);
    }
    assert_eq!(failed, 11);
}

#[test]
fn refresh_replaces_the_whole_list() {
    let mut w = world();
    w.tables.tokens.insert(s("42"), (s("t"), 0));
    w.join("42", "22222");
    w.join("42", "33333");
    w.join("7", "33333");
    w.opt_out("42", "33333", "osu-player-role");
    let outcome = w.refresh(refresh_on_demand(s("42"), 15));
    assert!(matches!(outcome, Ok(OnDemand::Refreshed(2))));
    assert_eq!(w.guilds("42"), vec!["11111", "22222"]);
    assert_eq!(w.guilds("7"), vec!["33333"]);
    // The joined guild is opted out of; what was opted out of stays so.
    assert_eq!(w.masters("42"), vec!["11111"]);
    assert!(w.tables.optouts.contains_key(&(s("42"), s("33333"), s("osu-player-role"))));
    assert_eq!(w.tables.tokens["42"], (s("t'"), w.now));
    let row = &w.tables.guilds[&(s("42"), s("22222"))];
    assert_eq!(row.icon, Some(s("icon 22222")));
    assert_eq!(row.username, Some(s("Ann: A")));
    assert!(!row.manage);
}

#[test]
fn new_guilds_are_enabled_if_the_user_wants_that() {
    for (setting, masters) in [(None, 2), (Some(false), 2), (Some(true), 0)] {
        let mut w = world();
        w.tables.tokens.insert(s("42"), (s("t"), 0));
        if let Some(enabled) = setting {
            w.tables.settings.insert(s("42"), enabled);
        }
        assert!(w.refresh(replace_user_guilds(s("42"), s("t"))).is_ok());
        assert_eq!(w.masters("42").len(), masters);
    }
}

#[test]
fn refresh_can_empty_the_list() {
    let mut w = world();
    w.tables.tokens.insert(s("42"), (s("t"), 0));
    w.join("42", "33333");
    w.discord.clear();
    assert!(matches!(
        w.refresh(replace_user_guilds(s("42"), s("t"))),
        Ok(OnDemand::Refreshed(0))
    ));
    assert!(w.guilds("42").is_empty());
    assert!(w.tables.optouts.is_empty());
    assert_eq!(w.tables.tokens["42"].1, w.now);
}

#[test]
fn cooldown_holds_refreshes_back() {
    let mut w = world();
    w.tables.tokens.insert(s("42"), (s("t"), 0));
    assert!(matches!(w.refresh(refresh_on_demand(s("42"), 15)), Ok(OnDemand::Refreshed(_))));
    let after = w.tables.clone();
    for wait in [0, 5, 10] {
        w.now += wait * SEC;
        assert!(matches!(w.refresh(refresh_on_demand(s("42"), 15)), Ok(OnDemand::Skipped)));
        assert_eq!(w.tables, after);
    }
    w.now += 1;
    assert!(matches!(w.refresh(refresh_on_demand(s("42"), 15)), Ok(OnDemand::Refreshed(_))));
}

#[test]
fn refresh_without_a_token_is_skipped() {
    let mut w = world();
    assert!(matches!(w.refresh(refresh_on_demand(s("42"), 15)), Ok(OnDemand::Skipped)));
    assert_eq!(w.tables, Tables::default());
    assert!(w.log.is_empty());
}

#[test]
fn token_that_cannot_be_refreshed_is_dropped() {
    let mut w = world();
    w.tables.tokens.insert(s("42"), (s("t"), 0));
    w.tables.tokens.insert(s("7"), (s("u"), 0));
    w.fails_at = Some(1);
    assert!(matches!(
        w.refresh(refresh_on_demand(s("42"), 15)),
        Err(AppError::Database(m)) if m == "down"
    ));
    assert_eq!(w.log, vec!["drop token"]);
    assert!(!w.tables.tokens.contains_key("42"));
    assert!(w.tables.tokens.contains_key("7"));
}

#[test]
fn refresh_without_a_new_token_is_an_error() {
    let flow = replace_user_guilds(s("42"), s("t"));
    let reply = TokenResponse { access_token: s("a"), refresh_token: None };
    let flow = flow.step(Answer::Tokens(reply));
    assert!(matches!(
        flow.next_op(),
        Some(Op::DeleteRefreshToken { discord_id }) if discord_id == "42"
    ));
    let flow = flow.step(Answer::Done);
    assert!(matches!(
        flow.phase,
        RefreshPhase::Failed(AppError::Internal(m))
            if m == "Discord token refresh returned no refresh_token"
    ));
}

#[test]
fn failed_refresh_keeps_the_guilds() {
    let mut failed = 0;
    for n in 0..15 {
        let mut w = world();
        w.tables.tokens.insert(s("42"), (s("t"), 0));
        w.join("42", "33333");
        w.opt_out("42", "33333", "");
        w.fails_at = Some(n);
        let outcome = w.refresh(refresh_on_demand(s("42"), 15));
        if outcome.is_err() {
            assert_eq!(w.guilds("42"), vec!["33333"]);
            assert_eq!(w.masters("42"), vec!["33333"]);
            failed += 1;
        } else {
            assert_eq!(w.guilds("42"), vec!["11111", "22222"]);
        }
    }
    assert_eq!(failed, 13);
}

#[test]
fn answers_that_do_not_fit_are_passed_over() {
    let flow = refresh_on_demand(s("42"), 15).step(Answer::Done).step(Answer::Found(true));
    assert!(matches!(flow.phase, RefreshPhase::Claim { cooldown_secs: 15 }));
    let flow = GuildMembers::for_server(s("9")).step(Answer::Flag(None));
    assert!(matches!(flow.phase, MembersPhase::List));
}

#[test]
fn brand_new_guilds_are_those_not_seen_before() {
    let ids = |list: &[&str]| list.iter().map(|g| s(g)).collect::<Vec<String>>();
    assert_eq!(truly_new(&ids(&["1", "2"]), &ids(&["3", "2", "4"])), ids(&["3", "4"]));
    assert!(truly_new(&ids(&["1", "2"]), &ids(&["2"])).is_empty());
    assert_eq!(apply_optouts_for_new_guilds(ids(&["3"]), None), Some(ids(&["3"])));
    assert_eq!(apply_optouts_for_new_guilds(ids(&["3"]), Some(false)), Some(ids(&["3"])));
    assert_eq!(apply_optouts_for_new_guilds(ids(&["3"]), Some(true)), None);
}

#[test]
fn members_are_listed_to_a_member() {
    let mut w = world();
    w.join("42", "11111");
    w.join("7", "11111");
    w.join("8", "22222");
    let mut flow = GuildMembers::for_caller(s("42"), s("11111"));
    while let Some(op) = flow.next_op() {
        let answer = w.perform(op);
        flow = flow.step(answer);
    }
    assert!(matches!(
        flow.phase,
        MembersPhase::Finished { discord_ids, guild_name }
            if discord_ids == vec![s("42"), s("7")] && guild_name == Some(s("11111"))
    ));
}

#[test]
fn members_are_not_listed_to_a_stranger() {
    let mut w = world();
    w.join("7", "11111");
    let flow = GuildMembers::for_caller(s("42"), s("11111"));
    let answer = w.perform(flow.next_op().unwrap());
    let flow = flow.step(answer);
    assert!(matches!(flow.phase, MembersPhase::Failed(AppError::Unauthorized)));
    assert!(flow.next_op().is_none());
}

#[test]
fn members_are_listed_to_a_server() {
    let mut w = world();
    w.join("7", "11111");
    let mut flow = GuildMembers::for_server(s("22222"));
    while let Some(op) = flow.next_op() {
        let answer = w.perform(op);
        flow = flow.step(answer);
    }
    assert!(matches!(
        flow.phase,
        MembersPhase::Finished { discord_ids, guild_name }
            if discord_ids.is_empty() && guild_name.is_none()
    ));
}

#[test]
fn preferences_show_what_is_stored() {
    let mut w = world();
    w.join("42", "bbb");
    w.join("42", "aaa");
    w.join("7", "ccc");
    w.opt_out("42", "aaa", "");
    w.opt_out("42", "aaa", "osu-player-role");
    w.opt_out("42", "aaa", "birthday-role");
    w.opt_out("42", "ddd", "");
    w.opt_out("7", "bbb", "");
    let before = w.tables.clone();
    let p = w.read(None, false).ok().unwrap();
    assert_eq!(p.discord_id, "42");
    assert_eq!(p.plugins.len(), 16);
    assert!(!p.auto_enable_new_guilds);
    let shown: Vec<(&str, bool, Vec<String>)> = p
        .guilds
        .iter()
        .map(|g| (g.guild_id.as_str(), g.master_optout, g.plugin_optouts.clone()))
        .collect();
    assert_eq!(
        shown,
        vec![
            ("aaa", true, vec![s("birthday-role"), s("osu-player-role")]),
            ("bbb", false, vec![]),
        ]
    );
    // The opt-out of a guild the user is not in is there too.
    assert_eq!(p.other_optouts.len(), 1);
    assert_eq!(p.other_optouts[0].guild_id, "ddd");
    assert_eq!(p.other_optouts[0].plugin, "");
    assert_eq!(w.tables, before);
    w.tables.settings.insert(s("42"), true);
    assert!(w.read(None, false).ok().unwrap().auto_enable_new_guilds);
}

#[test]
fn every_optout_is_shown_without_any_guild() {
    let mut w = world();
    w.opt_out("42", "aaa", "");
    w.opt_out("42", "aaa", "osu-player-role");
    w.opt_out("7", "aaa", "birthday-role");
    let p = w.read(None, false).ok().unwrap();
    assert!(p.guilds.is_empty());
    let rows: Vec<(&str, &str)> =
        p.other_optouts.iter().map(|r| (r.guild_id.as_str(), r.plugin.as_str())).collect();
    assert_eq!(rows, vec![("aaa", ""), ("aaa", "osu-player-role")]);
}

#[test]
fn toggle_shows_in_the_next_reading() {
    let mut w = world();
    for guild in ["ccc", "aaa", "bbb"] {
        w.join("42", guild);
    }
    w.tables.guilds.get_mut(&(s("42"), s("aaa"))).unwrap().name = None;
    w.opt_out("42", "bbb", "birthday-role");
    w.opt_out("42", "zzz", "");
    let shown = |p: &Preferences| {
        p.guilds
            .iter()
            .map(|g| (g.guild_id.clone(), g.master_optout, g.plugin_optouts.clone()))
            .collect::<Vec<_>>()
    };
    let first = shown(&w.read(None, false).ok().unwrap());
    // By name, the unnamed last.
    let ids: Vec<&str> = first.iter().map(|g| g.0.as_str()).collect();
    assert_eq!(ids, vec!["bbb", "ccc", "aaa"]);
    assert!(w.toggle("bbb", None, false).is_ok());
    let second = w.read(None, false).ok().unwrap();
    let mut expected = first.clone();
    expected[0].1 = true;
    assert_eq!(shown(&second), expected);
    assert_eq!(second.other_optouts.len(), 1);
    assert!(w.toggle("bbb", None, true).is_ok());
    assert_eq!(shown(&w.read(None, false).ok().unwrap()), first);
}

#[test]
fn page_load_refreshes_first() {
    let mut w = world();
    w.tables.tokens.insert(s("42"), (s("t"), 0));
    w.join("42", "33333");
    let p = w.read(None, true).ok().unwrap();
    let ids: Vec<&str> = p.guilds.iter().map(|g| g.guild_id.as_str()).collect();
    assert_eq!(ids, vec!["11111", "22222"]);
    assert!(p.guilds.iter().all(|g| g.master_optout));
    assert_eq!(p.guilds[0].icon_hash, Some(s("icon 11111")));
    // Within the cooldown it answers from what is known.
    w.log.clear();
    w.discord = vec!["44444"];
    assert_eq!(w.read(None, true).ok().unwrap().guilds.len(), 2);
    assert!(w.log.is_empty());
}

#[test]
fn unknown_guild_is_looked_up() {
    let mut w = world();
    w.tables.tokens.insert(s("42"), (s("t"), 0));
    w.join("42", "22222");
    // Known: no refresh.
    assert_eq!(w.read(Some("22222"), false).ok().unwrap().guilds.len(), 1);
    assert!(w.log.is_empty());
    // Not a guild ID: no refresh.
    assert_eq!(w.read(Some("1111"), false).ok().unwrap().guilds.len(), 1);
    assert!(w.log.is_empty());
    // Unknown: one refresh.
    assert_eq!(w.read(Some("11111"), false).ok().unwrap().guilds.len(), 2);
    assert_eq!(w.log, vec!["refresh token", "get guilds", "begin", "commit"]);
}

#[test]
fn preferences_do_without_a_refresh_that_fails() {
    let mut w = world();
    w.tables.tokens.insert(s("42"), (s("t"), 0));
    w.join("42", "33333");
    w.fails_at = Some(1);
    let p = w.read(None, true).ok().unwrap();
    assert_eq!(p.guilds.len(), 1);
    assert_eq!(p.guilds[0].guild_id, "33333");
    // The tables themselves have to answer.
    let mut w = world();
    w.fails_at = Some(0);
    assert!(matches!(w.read(Some("11111"), false), Err(AppError::Database(_))));
    let mut w = world();
    w.fails_at = Some(2);
    assert!(matches!(w.read(None, false), Err(AppError::Database(_))));
}

#[test]
fn repeated_guild_shows_its_optouts_once() {
    let row = |id: &str| UserGuild {
        guild_id: s(id),
        guild_name: None,
        manage_guild: false,
        icon_hash: None,
    };
    let optout = |id: &str, plugin: &str| OptoutRow { guild_id: s(id), plugin: s(plugin) };
    let shown = group_optouts(
        &vec![row("1"), row("2"), row("1")],
        &vec![optout("1", "a"), optout("2", ""), optout("1", ""), optout("1", "b")],
    );
    assert!(shown[0].master_optout);
    assert_eq!(shown[0].plugin_optouts, vec![s("a"), s("b")]);
    assert!(shown[1].master_optout);
    assert!(shown[1].plugin_optouts.is_empty());
    assert!(!shown[2].master_optout);
    assert!(shown[2].plugin_optouts.is_empty());
}

#[test]
fn toggle_adds_and_removes_one_row() {
    let mut w = world();
    w.join("42", "11111");
    w.opt_out("42", "11111", "birthday-role");
    w.opt_out("7", "11111", "osu-player-role");
    let before = w.tables.clone();
    assert!(w.toggle("11111", Some("osu-player-role"), false).is_ok());
    assert_eq!(w.tables.optouts.len(), 3);
    assert!(w.tables.optouts.contains_key(&(s("42"), s("11111"), s("osu-player-role"))));
    assert!(w.toggle("11111", Some("osu-player-role"), false).is_ok());
    assert_eq!(w.tables.optouts.len(), 3);
    assert!(w.toggle("11111", Some("osu-player-role"), true).is_ok());
    assert_eq!(w.tables, before);
    assert!(w.toggle("11111", Some("osu-player-role"), true).is_ok());
    assert_eq!(w.tables, before);
}

#[test]
fn guild_toggle_leaves_the_plugin_toggles() {
    let mut w = world();
    w.join("42", "11111");
    w.opt_out("42", "11111", "birthday-role");
    let before = w.tables.clone();
    assert!(w.toggle("11111", None, false).is_ok());
    assert_eq!(w.masters("42"), vec!["11111"]);
    assert_eq!(w.tables.optouts.len(), 2);
    assert!(w.toggle("11111", None, true).is_ok());
    assert_eq!(w.tables, before);
}

#[test]
fn toggle_is_for_members() {
    let mut w = world();
    w.join("7", "11111");
    let before = w.tables.clone();
    for enabled in [true, false] {
        assert!(matches!(
            w.toggle("11111", None, enabled),
            Err(AppError::BadRequest(m)) if m == "You are not a member of that server"
        ));
    }
    assert_eq!(w.tables, before);
}

#[test]
fn bulk_sets_all_guild_toggles() {
    let mut w = world();
    w.join("42", "11111");
    w.join("42", "22222");
    w.join("7", "11111");
    w.opt_out("42", "11111", "birthday-role");
    w.opt_out("7", "11111", "");
    let off = BulkUpdate { discord_id: s("42"), enabled: false };
    assert!(matches!(w.perform(off.op()), Answer::Affected(2)));
    let once = w.tables.clone();
    assert_eq!(w.masters("42"), vec!["11111", "22222"]);
    assert!(matches!(w.perform(off.op()), Answer::Affected(2)));
    assert_eq!(w.tables, once);
    let on = BulkUpdate { discord_id: s("42"), enabled: true };
    assert!(matches!(w.perform(on.op()), Answer::Affected(2)));
    assert!(w.masters("42").is_empty());
    assert_eq!(w.masters("7"), vec!["11111"]);
    assert!(w.tables.optouts.contains_key(&(s("42"), s("11111"), s("birthday-role"))));
}

#[test]
fn worker_sweeps_stale_users() {
    let mut w = world();
    let now = w.now;
    w.tables.tokens.insert(s("42"), (s("t"), now - 8 * DAY));
    w.tables.tokens.insert(s("7"), (s("u"), now - 9 * DAY));
    w.tables.tokens.insert(s("8"), (s("v"), now - 6 * DAY));
    let mut worker = Worker::start(Some("1200"));
    assert_eq!(worker.sleep_secs, 3);
    assert!(matches!(worker.phase, WorkerPhase::Sleep { secs: 10 }));
    let mut picked = Vec::new();
    for _ in 0..40 {
        let answer = w.perform(worker.next_op().unwrap());
        if let Answer::Stale(found) = &answer {
            picked.push(found.as_ref().map(|u| u.discord_id.clone()));
        }
        worker = worker.step(answer);
    }
    assert_eq!(picked[..3], [Some(s("7")), Some(s("42")), None]);
    assert_eq!(w.tables.tokens["8"], (s("v"), now - 6 * DAY));
    assert_eq!(w.tables.tokens["42"].0, "t'");
}

#[test]
fn failing_user_does_not_hold_up_the_others() {
    let mut w = world();
    let now = w.now;
    w.tables.tokens.insert(s("7"), (s("u"), now - 9 * DAY));
    w.tables.tokens.insert(s("42"), (s("t"), now - 8 * DAY));
    w.join("7", "33333");
    w.unreachable = Some("u'");
    let mut worker = Worker::start(None);
    let mut picked = Vec::new();
    while picked.len() < 4 {
        let answer = w.perform(worker.next_op().unwrap());
        if let Answer::Stale(found) = &answer {
            picked.push(found.as_ref().map(|u| u.discord_id.clone()));
        }
        worker = worker.step(answer);
    }
    // When there is nobody else, the one comes up again.
    assert_eq!(picked, [Some(s("7")), Some(s("42")), None, Some(s("7"))]);
    assert_eq!(w.guilds("42"), vec!["11111", "22222"]);
    // The guilds are as they were so far, and the time of the last refresh.
    assert_eq!(w.guilds("7"), vec!["33333"]);
    assert_eq!(w.tables.tokens["7"], (s("u'"), now - 9 * DAY));
    // This time the fetch goes through.
    while matches!(worker.phase, WorkerPhase::Refresh(_)) {
        let answer = w.perform(worker.next_op().unwrap());
        worker = worker.step(answer);
    }
    assert!(worker.tried.is_empty());
    assert_eq!(w.guilds("7"), vec!["11111", "22222"]);
    assert_eq!(w.tables.tokens["7"], (s("u''"), w.now));
}

#[test]
fn worker_pauses() {
    let sleeping = |worker: &Worker| match worker.next_op() {
        Some(Op::Sleep { secs }) => secs,
        _ => panic!("awake"),
    };
    let worker = Worker::start(None);
    assert_eq!(sleeping(&worker), 10);
    let worker = worker.step(Answer::Done);
    assert!(matches!(
        worker.next_op(),
        Some(Op::SelectStaleUser { stale_hours: 168, tried }) if tried.is_empty()
    ));
    let worker = worker.step(Answer::Stale(None));
    assert_eq!(sleeping(&worker), 60);
    let worker = worker.step(Answer::Done).step(Answer::Failed(AppError::Database(s("x"))));
    assert_eq!(sleeping(&worker), 5);
    let user = StaleUser { discord_id: s("42"), refresh_token: s("t") };
    let worker = worker.step(Answer::Done).step(Answer::Stale(Some(user)));
    assert!(matches!(
        worker.next_op(),
        Some(Op::RefreshAccessToken { refresh_token }) if refresh_token == "t"
    ));
    // A failed refresh: the user makes way for the others, until there is
    // nobody else.
    let worker = worker.step(Answer::Failed(AppError::Internal(s("no")))).step(Answer::Done);
    assert_eq!(sleeping(&worker), 6);
    let worker = worker.step(Answer::Done);
    assert!(matches!(
        worker.next_op(),
        Some(Op::SelectStaleUser { tried, .. }) if tried == &[s("42")]
    ));
    let worker = worker.step(Answer::Failed(AppError::Database(s("x"))));
    assert_eq!(sleeping(&worker), 5);
    let worker = worker.step(Answer::Done).step(Answer::Stale(None));
    assert!(matches!(
        worker.next_op(),
        Some(Op::SelectStaleUser { tried, .. }) if tried.is_empty()
    ));
    let worker = worker.step(Answer::Stale(None));
    assert_eq!(sleeping(&worker), 60);
}

#[test]
fn failed_refresh_changes_the_token_alone() {
    // Everything after the token is stored but the commit.
    for n in 2..10 {
        let mut w = world();
        w.tables.tokens.insert(s("42"), (s("t"), 5));
        w.join("42", "33333");
        w.opt_out("42", "22222", "");
        let mut expected = w.tables.clone();
        expected.tokens.insert(s("42"), (s("t'"), 5));
        w.fails_at = Some(n);
        assert!(w.refresh(replace_user_guilds(s("42"), s("t"))).is_err());
        assert_eq!(w.tables, expected);
    }
}

#[test]
fn opt_outs_that_are_there_are_not_set_anew() {
    let mut w = world();
    w.tables.tokens.insert(s("42"), (s("t"), 0));
    w.opt_out("42", "22222", "");
    assert!(w.refresh(replace_user_guilds(s("42"), s("t"))).is_ok());
    assert_eq!(w.masters("42"), vec!["11111", "22222"]);
    assert_eq!(w.tables.optouts[&(s("42"), s("22222"), s(""))], 0);
    assert_eq!(w.tables.optouts[&(s("42"), s("11111"), s(""))], w.now);
    // A bulk update does set them anew.
    w.now += SEC;
    let off = BulkUpdate { discord_id: s("42"), enabled: false };
    assert!(matches!(w.perform(off.op()), Answer::Affected(2)));
    assert_eq!(w.tables.optouts[&(s("42"), s("22222"), s(""))], w.now);
    assert_eq!(bulk_update_reply(2), 2);
}

#[test]
fn one_refresh_in_a_cooldown() {
    let mut w = world();
    w.tables.tokens.insert(s("42"), (s("t"), 0));
    assert!(matches!(w.refresh(refresh_on_demand(s("42"), 15)), Ok(OnDemand::Refreshed(2))));
    w.now += 15 * SEC;
    assert!(matches!(w.refresh(refresh_on_demand(s("42"), 15)), Ok(OnDemand::Skipped)));
    w.now += 1;
    assert!(matches!(w.refresh(refresh_on_demand(s("42"), 15)), Ok(OnDemand::Refreshed(2))));
}

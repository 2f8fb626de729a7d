# Auth Gateway

A Discord OAuth gateway that several plugins on one domain share: one sign-in,
one session cookie, one record of who is in which Discord server, and one page
on which users choose where plugins may give them roles.

The library (`src/`) holds what the gateway decides of users, sessions, guilds
and opt-outs, proved with Verus. The server (`app/`) carries that out: HTTP,
PostgreSQL, Discord. It also gives each error its HTTP status, and clears away
expired OAuth states once an hour.

## How the library is laid out

Each endpoint that needs the outside world is a state machine. It names the
operation it waits for (`next_op`), and a step takes the answer to the next
state. `ops.rs` lists the operations and answers; `store.rs` says what each
operation does to the tables, and the laws are stated over that model.

| Module                       | What it holds                                        |
| ---------------------------- | ---------------------------------------------------- |
| `services/session.rs`        | the signed session cookie                            |
| `services/discord_oauth.rs`  | the calls to Discord                                 |
| `services/guild_sync.rs`     | replacing a user's guild list, and refreshing it     |
| `services/optout.rs`         | opt-outs for newly joined guilds                     |
| `routes/oauth.rs`            | login, callback, logout, lookups of the caller       |
| `routes/members.rs`          | listing a guild's members                            |
| `routes/internal.rs`         | server-to-server endpoints                           |
| `routes/preferences.rs`      | the toggles and the My Servers page                  |
| `tasks/guild_refresh_worker.rs` | the sweep over stale guild lists                  |
| `store.rs`, `soundness.rs`   | the model of the tables, and what always holds there |
| `text.rs`, `encoding.rs`     | paths, numbers, hex and percent-encoding             |
| `trusted.rs`                 | the calls into other crates, with what is taken of them on trust |

## Environment

`DATABASE_URL`, `DISCORD_CLIENT_ID`, `DISCORD_CLIENT_SECRET`, `SESSION_SECRET`,
`INTERNAL_API_KEY` and `BASE_URL` are required. `LISTEN_ADDR` (default
`0.0.0.0:8090`) and `DISCORD_GUILD_REFRESH_PER_HOUR` (default 600) are optional.

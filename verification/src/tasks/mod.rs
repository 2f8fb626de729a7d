//! The background tasks.

pub mod guild_refresh_worker;

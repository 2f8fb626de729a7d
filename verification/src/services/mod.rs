pub mod discord_oauth;
pub mod guild_sync;
pub mod optout;
pub mod session;

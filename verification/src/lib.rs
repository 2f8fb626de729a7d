//! The decision logic of a Discord OAuth gateway.

pub mod config;
pub mod encoding;
pub mod error;
pub mod ops;
pub mod plugins;
pub mod routes;
pub mod services;
pub mod soundness;
pub mod store;
pub mod tasks;
pub mod text;
pub mod trusted;

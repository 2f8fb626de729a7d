//! The endpoints: what each one decides.

pub mod caller;
pub mod internal;
pub mod members;
pub mod my_servers_html;
pub mod oauth;
pub mod preferences;

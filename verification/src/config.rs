//! The gateway's settings.

use vstd::prelude::*;
use vstd::string::*;

verus! {

pub struct AppConfig {
    pub database_url: String,
    pub discord_client_id: String,
    pub discord_client_secret: String,
    /// HMAC key of the session cookie, the same for every plugin.
    pub session_secret: String,
    /// Shared key of the server-to-server endpoints.
    pub internal_api_key: String,
    /// Domain root, without a trailing slash.
    pub base_url: String,
    pub listen_addr: String,
}

impl AppConfig {
    /// The one redirect URI registered with Discord, for all plugins.
    pub open spec fn redirect_uri(self) -> Seq<char> {
        self.base_url@ + "/auth/callback"@
    }

    /// That redirect URI.
    pub fn oauth_redirect_uri(&self) -> (res: String)
        ensures
            res@ == self.redirect_uri(),
            res@ == self.base_url@ + "/auth/callback"@,
    {
        let mut out: String = self.base_url.clone();
        out.append("/auth/callback");
        out
    }
}

/// The address to listen on where none is configured.
pub const DEFAULT_LISTEN_ADDR: &'static str = "0.0.0.0:8090";

} // verus!

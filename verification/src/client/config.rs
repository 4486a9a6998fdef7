//! The client's settings file.

use vstd::prelude::*;

verus! {

/// The client's settings, kept as TOML in the user's configuration
/// directory.
pub struct ArcanConfig {
    /// Where the server is reached.
    pub api_url: String,
    /// How long a sync may take, in seconds.
    pub sync_timeout_secs: u64,
}

impl Default for ArcanConfig {
    /// The settings written on first use: a local development server and a
    /// thirty-second sync timeout.
    fn default() -> (c: Self)
        ensures
            c.api_url@ == "http://127.0.0.1:3000"@,
            c.sync_timeout_secs == 30,
    {
        ArcanConfig { api_url: String::from_str("http://127.0.0.1:3000"), sync_timeout_secs: 30 }
    }
}

} // verus!

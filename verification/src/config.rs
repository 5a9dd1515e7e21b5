//! Connection settings of the agent.

use vstd::prelude::*;
use crate::text::string_of;

verus! {

/// Where the planner server is and how to authenticate to it.
#[derive(Debug, Clone)]
pub struct ServerConfig {
    pub url: String,
    pub token: String,
}

impl Default for ServerConfig {
    fn default() -> (r: Self)
        ensures
            r.url@ == "http://127.0.0.1:3000"@,
            r.token@.len() == 0,
    {
        ServerConfig { url: default_server_url(), token: String::new() }
    }
}

/// The local planner server.
pub fn default_server_url() -> (r: String)
    ensures
        r@ == "http://127.0.0.1:3000"@,
{
    string_of("http://127.0.0.1:3000")
}

/// A default that is on.
pub fn default_true() -> (r: bool)
    ensures
        r,
{
    true
}

} // verus!

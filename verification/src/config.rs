//! The service's configuration shapes, as plain values, with the
//! defaults that an absent field falls back to. Reading and decoding
//! the configuration file happens outside the crate.

use vstd::prelude::*;
use vstd::string::StringExecFns;

verus! {

#[derive(Clone)]
pub struct Config {
    pub server: ServerConfig,
    pub database: DatabaseConfig,
    pub github: GithubConfig,
}

#[derive(Clone)]
pub struct ServerConfig {
    pub port: u16,
}

#[derive(Clone, Debug)]
pub struct GithubConfig {
    pub client_id: String,
    pub client_secret: String,
}

#[derive(Clone)]
pub struct DatabaseConfig {
    pub host: String,
    pub port: Option<u16>,
    pub username: String,
    pub password: Option<String>,
    pub database: String,
}

/// The port the server binds when the configuration names none.
pub fn default_port() -> (r: u16)
    ensures
        r == 8081,
{
    8081
}

/// The database host when the configuration names none.
pub fn default_host() -> (r: String)
    ensures
        r@ == "localhost"@,
{
    String::from_str("localhost")
}

/// The database role when the configuration names none.
pub fn default_username() -> (r: String)
    ensures
        r@ == "postgres"@,
{
    String::from_str("postgres")
}

/// The database name when the configuration names none.
pub fn default_db() -> (r: String)
    ensures
        r@ == "turbine"@,
{
    String::from_str("turbine")
}

} // verus!

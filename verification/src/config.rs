//! The application's configuration, as plain data. Loading it from a file is
//! the caller's work; the asset subsystem itself takes its roots and limits
//! as arguments.

use vstd::prelude::*;

verus! {

/// Where the server binds and where its database and environment live.
#[derive(Debug)]
pub struct ServerConfig {
    pub bind_addr: String,
    pub db_path: String,
    pub env_vars: Vec<[String; 2]>,
}

/// The web layer's settings.
#[derive(Debug)]
pub struct WebConfig {
    pub root_url: String,
    pub secret_key: String,
    pub gmaps_api_key: String,
    pub max_request_size: u32,
    pub rows_per_page: u32,
}

/// The whole configuration.
#[derive(Debug)]
pub struct Config {
    pub server: ServerConfig,
    pub web: WebConfig,
}

} // verus!

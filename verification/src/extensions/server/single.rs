//! A server with one optional health path, from its own configuration.
use vstd::prelude::*;

verus! {

/// A server that answers `GET` of `path` by calling `method`.
#[derive(Debug, Clone)]
pub struct HealthConfig {
    pub path: String,
    pub method: String,
}

/// The configuration of the server.
#[derive(Debug, Clone)]
pub struct ServerConfig {
    pub port: u16,
    pub listen_address: String,
    pub max_connections: u32,
    pub health: Option<HealthConfig>,
}

/// The server extension.
#[derive(Debug, Clone)]
pub struct Server {
    pub config: ServerConfig,
}

impl Server {
    pub fn new(config: ServerConfig) -> (s: Self)
        ensures
            s.config == config,
    {
        Server { config }
    }
}

} // verus!

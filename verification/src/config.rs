//! Configuration data: the ordered fleet of servers to scrape.

use vstd::prelude::*;

verus! {

/// One managed server: its display name (used as a metric label), the
/// directory that holds its per-player statistic records, and the
/// endpoint of its remote administration interface.
#[derive(Debug)]
pub struct Server {
    pub stats_root: String,
    pub server_name: String,
    pub server_ip: String,
    pub rcon_port: u16,
    pub rcon_password: String,
}

/// Process configuration: the port the exporter listens on and the
/// ordered list of servers scraped on every request.
#[derive(Debug)]
pub struct Config {
    pub port: u16,
    pub servers: Vec<Server>,
}

impl Config {
    /// The configuration written when none exists yet: the default
    /// listen port and an empty fleet.
    pub fn new_default() -> (c: Self)
        ensures
            c.port == 9001,
            c.servers@.len() == 0,
    {
        Config { port: 9001, servers: Vec::new() }
    }
}

} // verus!

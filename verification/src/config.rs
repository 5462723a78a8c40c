//! Process-wide settings and stored pool templates.
//!
//! The persistent store itself is an external collaborator; this module holds
//! the values it serves and their defaults.

use vstd::prelude::*;

verus! {

/// Process-wide device-client settings: applied once per process, uniformly
/// to every device session. Times are in seconds.
#[allow(non_snake_case)]
pub struct Config {
    pub refreshRate: u64,
    pub maxConnections: usize,
    pub connectionTimeout: u64,
    pub readTimeout: u64,
}

impl Config {
    /// The defaults used when no configuration has been stored yet.
    pub fn new() -> (c: Config)
        ensures
            c.refreshRate == 30,
            c.maxConnections == 500,
            c.connectionTimeout == 10,
            c.readTimeout == 15,
    {
        Config {
            refreshRate: 30,
            maxConnections: 500,
            connectionTimeout: 10,
            readTimeout: 15,
        }
    }
}

/// A stored pool template: up to three endpoint URLs sharing one worker-name
/// template and one password. Text is carried as bytes.
pub struct Pool {
    pub name: Vec<u8>,
    pub url1: Vec<u8>,
    pub url2: Vec<u8>,
    pub url3: Vec<u8>,
    pub username: Vec<u8>,
    pub password: Option<Vec<u8>>,
}

/// The stored collection of pool templates.
pub struct Pools {
    pub pools: Vec<Pool>,
}

impl Pools {
    /// An empty collection: what a fresh store serves.
    pub fn new() -> (p: Pools)
        ensures
            p.pools@.len() == 0,
    {
        Pools { pools: Vec::new() }
    }
}

} // verus!

//! The settings of the connection pool, from their configuration.

use vstd::prelude::*;
use crate::text::{parse_unsigned, unsigned};

verus! {

/// The settings with which the pool of PostgreSQL connections is opened.
#[derive(Debug, PartialEq, Eq)]
pub struct PoolSettings {
    pub database_url: String,
    pub max_connections: u32,
}

/// The size of the pool: the configured number where it is an unsigned
/// decimal numeral of at most 32 bits, and 10 in every other case.
pub open spec fn pool_size(configured: Option<Seq<char>>) -> u32 {
    match configured {
        Some(text) => match unsigned(text) {
            Some(n) => n,
            None => 10,
        },
        None => 10,
    }
}

/// The settings of the pool for the database at `database_url` and the
/// configured number of connections.
pub fn init_postgres(database_url: String, max_connections: Option<&str>) -> (settings:
    PoolSettings)
    ensures
        settings.database_url@ == database_url@,
        settings.max_connections == pool_size(
            match max_connections {
                Some(text) => Some(text@),
                None => None,
            },
        ),
{
    let size = match max_connections {
        Some(text) => match parse_unsigned(text) {
            Some(n) => n,
            None => 10,
        },
        None => 10,
    };
    PoolSettings { database_url, max_connections: size }
}

} // verus!

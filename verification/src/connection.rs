//! Options for the single-connection pool an embedding application opens
//! around the backing store.

use vstd::prelude::*;

verus! {

/// How each freshly acquired backing-store connection is configured. All
/// store access is serialized through a pool of exactly one connection; the
/// busy timeout bounds how long an operation waits for the store's lock
/// before it fails as a connection error.
#[derive(Clone, Copy, Debug, PartialEq, Eq, Structural)]
pub struct ConnectionOptions {
    pub enable_wal: bool,
    pub enable_foreign_keys: bool,
    /// Wait this many milliseconds for the store's lock, if set.
    pub busy_timeout: Option<u64>,
}

impl ConnectionOptions {
    /// The options the bot runs with: write-ahead logging, enforced foreign
    /// keys, and a thirty-second busy timeout.
    pub fn standard() -> (r: Self)
        ensures
            r.enable_wal,
            r.enable_foreign_keys,
            r.busy_timeout == Some(30000u64),
    {
        ConnectionOptions { enable_wal: true, enable_foreign_keys: true, busy_timeout: Some(30000) }
    }
}

} // verus!

//! A spare connection of a client's pool.
use vstd::prelude::*;

verus! {

/// A pooled connection and when it joined the pool.
pub struct TCPPool<T> {
    /// The connection.
    pub tcp: T,
    /// When the connection joined the pool, in seconds since the epoch.
    pub create_time: u64,
}

} // verus!

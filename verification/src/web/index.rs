//! The status of the server as shown on the first page.
use vstd::prelude::*;

verus! {

/// The running state of the server.
pub struct NPSStatus {
    /// Tunnels listening.
    pub channel_count: usize,
    /// Clients online.
    pub online_client_count: usize,
    /// Bridged connections.
    pub tcp_bridge_count: usize,
    /// Pooled connections.
    pub tcp_pool_count: usize,
    /// Inbound bytes.
    pub in_bytes: String,
    /// Outbound bytes.
    pub out_bytes: String,
}

} // verus!

//! The pools of spare connections that each client opens to the server.
pub mod tcp_pool;
pub mod tcp_pool_manager;

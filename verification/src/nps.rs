//! The server: tunnel keys, framing, pools, sessions and traffic counting.
pub mod security_util;
pub mod nps_timer;
pub mod nps_pool;
pub mod nps_bridge;
pub mod nps_client;

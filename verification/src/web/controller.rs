//! The pages and actions of the management interface.
pub mod validate;
pub mod login;
pub mod chart;
pub mod channel;
pub mod client;
pub mod common;
pub mod forward;
pub mod index;

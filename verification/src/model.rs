//! Traffic counters.
pub mod data_io_len;
pub mod data_total;

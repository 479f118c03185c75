//! Clock readings.
pub mod time_util;

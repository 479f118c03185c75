//! Number formatting for pages: dates and durations.
pub mod number;

//! Shared totals of inbound and outbound bytes.
use std::sync::atomic::{AtomicU64, Ordering};
use std::sync::Arc;
use vstd::prelude::*;

pub use crate::model::data_io_len::ToU64;

verus! {

/// Byte totals in and out, shared between tasks: every clone refers to the
/// same two atomic counters, so other tasks may change what a load observes.
#[derive(Clone, Debug)]
pub struct DataTotal {
    pub in_bytes: Arc<AtomicU64>,
    pub out_bytes: Arc<AtomicU64>,
}

impl DataTotal {
    /// Fresh totals starting at zero.
    pub fn new() -> (r: Self) {
        DataTotal { in_bytes: Arc::new(AtomicU64::new(0)), out_bytes: Arc::new(AtomicU64::new(0)) }
    }

    /// Fresh totals starting at the given counts (converted as `as u64`).
    pub fn from<T: ToU64>(in_bytes: T, out_bytes: T) -> (r: Self) {
        let i = in_bytes.to_u64();
        let o = out_bytes.to_u64();
        DataTotal { in_bytes: Arc::new(AtomicU64::new(i)), out_bytes: Arc::new(AtomicU64::new(o)) }
    }

    /// Adds `v` (converted as `as u64`, wrapping) to the inbound total.
    pub fn add_in<T: ToU64>(&self, v: T) {
        let n = v.to_u64();
        self.in_bytes.fetch_add(n, Ordering::Relaxed);
    }

    /// Adds `v` (converted as `as u64`, wrapping) to the outbound total.
    pub fn add_out<T: ToU64>(&self, v: T) {
        let n = v.to_u64();
        self.out_bytes.fetch_add(n, Ordering::Relaxed);
    }

    /// The inbound total at the moment of reading.
    pub fn load_in(&self) -> (r: u64) {
        self.in_bytes.load(Ordering::Relaxed)
    }

    /// The outbound total at the moment of reading.
    pub fn load_out(&self) -> (r: u64) {
        self.out_bytes.load(Ordering::Relaxed)
    }
}

} // verus!

//! Inbound/outbound byte counts: a plain pair and a shared atomic pair.
use std::sync::atomic::{AtomicU64, Ordering};
use std::sync::Arc;
use vstd::prelude::*;

verus! {

/// Conversion of an integer to `u64` with the semantics of `as u64`
/// (two's-complement wrap for negative numbers).
pub trait ToU64: Sized {
    /// The value `self as u64`.
    spec fn u64_value(self) -> u64;

    fn to_u64(self) -> (r: u64)
        ensures
            r == self.u64_value(),
    ;
}

impl ToU64 for u8 {
    open spec fn u64_value(self) -> u64 {
        self as u64
    }

    fn to_u64(self) -> (r: u64) {
        self as u64
    }
}

impl ToU64 for u16 {
    open spec fn u64_value(self) -> u64 {
        self as u64
    }

    fn to_u64(self) -> (r: u64) {
        self as u64
    }
}

impl ToU64 for u32 {
    open spec fn u64_value(self) -> u64 {
        self as u64
    }

    fn to_u64(self) -> (r: u64) {
        self as u64
    }
}

impl ToU64 for u64 {
    open spec fn u64_value(self) -> u64 {
        self
    }

    fn to_u64(self) -> (r: u64) {
        self
    }
}

impl ToU64 for usize {
    open spec fn u64_value(self) -> u64 {
        self as u64
    }

    fn to_u64(self) -> (r: u64) {
        self as u64
    }
}

impl ToU64 for i8 {
    open spec fn u64_value(self) -> u64 {
        self as u64
    }

    fn to_u64(self) -> (r: u64) {
        self as u64
    }
}

impl ToU64 for i16 {
    open spec fn u64_value(self) -> u64 {
        self as u64
    }

    fn to_u64(self) -> (r: u64) {
        self as u64
    }
}

impl ToU64 for i32 {
    open spec fn u64_value(self) -> u64 {
        self as u64
    }

    fn to_u64(self) -> (r: u64) {
        self as u64
    }
}

impl ToU64 for i64 {
    open spec fn u64_value(self) -> u64 {
        self as u64
    }

    fn to_u64(self) -> (r: u64) {
        self as u64
    }
}

impl ToU64 for isize {
    open spec fn u64_value(self) -> u64 {
        self as u64
    }

    fn to_u64(self) -> (r: u64) {
        self as u64
    }
}

/// Byte counts in and out of a tunnel, shared between tasks: every clone
/// refers to the same two atomic counters, so other tasks may change what a
/// load observes at any time.
#[derive(Clone, Debug)]
pub struct AtomicDataIOLen {
    pub in_len: Arc<AtomicU64>,
    pub out_len: Arc<AtomicU64>,
}

impl AtomicDataIOLen {
    /// Fresh counters starting at zero.
    pub fn new() -> (r: Self) {
        AtomicDataIOLen { in_len: Arc::new(AtomicU64::new(0)), out_len: Arc::new(AtomicU64::new(0)) }
    }

    /// Fresh counters starting at the given counts (converted as `as u64`).
    pub fn from<T: ToU64>(in_len: T, out_len: T) -> (r: Self) {
        let i = in_len.to_u64();
        let o = out_len.to_u64();
        AtomicDataIOLen { in_len: Arc::new(AtomicU64::new(i)), out_len: Arc::new(AtomicU64::new(o)) }
    }

    /// Adds `v` (converted as `as u64`, wrapping) to the inbound count.
    pub fn add_in<T: ToU64>(&self, v: T) {
        let n = v.to_u64();
        self.in_len.fetch_add(n, Ordering::Relaxed);
    }

    /// Adds `v` (converted as `as u64`, wrapping) to the outbound count.
    pub fn add_out<T: ToU64>(&self, v: T) {
        let n = v.to_u64();
        self.out_len.fetch_add(n, Ordering::Relaxed);
    }

    /// The inbound count at the moment of reading.
    pub fn load_in(&self) -> (r: u64) {
        self.in_len.load(Ordering::Relaxed)
    }

    /// The outbound count at the moment of reading.
    pub fn load_out(&self) -> (r: u64) {
        self.out_len.load(Ordering::Relaxed)
    }

    /// Both counts, each read once.
    pub fn load(&self) -> (r: DataIOLen) {
        let i = self.in_len.load(Ordering::Relaxed);
        let o = self.out_len.load(Ordering::Relaxed);
        DataIOLen { in_len: i, out_len: o }
    }
}

/// A pair of byte counts.
#[derive(Clone, Copy, Debug, PartialEq, Eq, Structural)]
pub struct DataIOLen {
    pub in_len: u64,
    pub out_len: u64,
}

impl Default for DataIOLen {
    fn default() -> (r: Self)
        ensures
            r.in_len == 0 && r.out_len == 0,
    {
        DataIOLen { in_len: 0, out_len: 0 }
    }
}

impl DataIOLen {
    /// The pair of the two counts, each converted as `as u64`.
    pub fn from<T: ToU64>(in_len: T, out_len: T) -> (r: Self)
        ensures
            r.in_len == in_len.u64_value(),
            r.out_len == out_len.u64_value(),
    {
        DataIOLen { in_len: in_len.to_u64(), out_len: out_len.to_u64() }
    }
}

impl core::ops::Add for DataIOLen {
    type Output = DataIOLen;

    fn add(self, other: DataIOLen) -> (r: DataIOLen) {
        DataIOLen { in_len: self.in_len + other.in_len, out_len: self.out_len + other.out_len }
    }
}

impl vstd::std_specs::ops::AddSpecImpl for DataIOLen {
    open spec fn obeys_add_spec() -> bool {
        true
    }

    open spec fn add_req(self, rhs: DataIOLen) -> bool {
        self.in_len + rhs.in_len <= u64::MAX && self.out_len + rhs.out_len <= u64::MAX
    }

    open spec fn add_spec(self, rhs: DataIOLen) -> DataIOLen {
        DataIOLen {
            in_len: (self.in_len + rhs.in_len) as u64,
            out_len: (self.out_len + rhs.out_len) as u64,
        }
    }
}

} // verus!

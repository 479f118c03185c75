//! The system clock as time since the Unix epoch.
use vstd::prelude::*;

verus! {

/// `SystemTime::now().duration_since(UNIX_EPOCH)` in milliseconds, `None`
/// when the clock reads before the epoch. It depends on the clock; nothing
/// more is stated.
#[verifier::external_body]
fn millis_since_epoch() -> (r: Option<u128>) {
    match std::time::SystemTime::now().duration_since(std::time::UNIX_EPOCH) {
        Ok(d) => Some(d.as_millis()),
        Err(_) => None,
    }
}

/// `SystemTime::now().duration_since(UNIX_EPOCH)` in whole seconds, `None`
/// when the clock reads before the epoch. It depends on the clock; nothing
/// more is stated.
#[verifier::external_body]
fn secs_since_epoch() -> (r: Option<u64>) {
    match std::time::SystemTime::now().duration_since(std::time::UNIX_EPOCH) {
        Ok(d) => Some(d.as_secs()),
        Err(_) => None,
    }
}

/// A clock reading in milliseconds, 0 for a reading before the epoch.
pub fn millis_u128_of(reading: Option<u128>) -> (r: u128)
    ensures
        r == match reading {
            Some(m) => m,
            None => 0,
        },
{
    match reading {
        Some(m) => m,
        None => 0,
    }
}

/// A clock reading in milliseconds truncated to 64 bits as by `as u64`, 0
/// for a reading before the epoch.
pub fn millis_of(reading: Option<u128>) -> (r: u64)
    ensures
        r == match reading {
            Some(m) => m as u64,
            None => 0,
        },
{
    match reading {
        Some(m) => m as u64,
        None => 0,
    }
}

/// A clock reading in whole seconds, 0 for a reading before the epoch.
pub fn secs_of(reading: Option<u64>) -> (r: u64)
    ensures
        r == match reading {
            Some(s) => s,
            None => 0,
        },
{
    match reading {
        Some(s) => s,
        None => 0,
    }
}

/// The time in milliseconds since the epoch; 0 when the clock reads before
/// the epoch (see [`millis_u128_of`]).
pub fn current_millis_u128() -> (r: u128) {
    millis_u128_of(millis_since_epoch())
}

/// The time in milliseconds since the epoch, truncated to 64 bits as by
/// `as u64`; 0 when the clock reads before the epoch (see [`millis_of`]).
pub fn current_millis() -> (r: u64) {
    millis_of(millis_since_epoch())
}

/// The time in whole seconds since the epoch; 0 when the clock reads before
/// the epoch (see [`secs_of`]).
pub fn current_secs() -> (r: u64) {
    secs_of(secs_since_epoch())
}

} // verus!

//! Numbers shown as local dates (from milliseconds) and as clock durations
//! (from milliseconds); a number that does not fit in `u64` counts as 0.
use crate::text::{append_chars, dec2, dec2_exec, string_of};
use vstd::prelude::*;

verus! {

/// Whether chrono can represent the instant `ms` milliseconds after the
/// epoch: from January 1, 262144 BCE, 00:00:00.000 to December 31,
/// 262142 CE, 23:59:59.999 (UTC), the range of its dates.
pub open spec fn millis_in_range(ms: i64) -> bool {
    -8334601228800000 <= ms <= 8210266876799999
}

/// `DateTime::from_timestamp_millis(ms)` in the local time zone, formatted
/// with the pattern passed in (the date pattern `%Y-%m-%d %H:%M:%S`);
/// `None` exactly when the instant lies outside chrono's date range. The
/// text depends on the machine's time zone; only that it is not empty (the
/// pattern always writes its separators) is stated.
#[verifier::external_body]
fn local_date_text(ms: i64, fmt: &str) -> (r: Option<String>)
    requires
        fmt@ == "%Y-%m-%d %H:%M:%S"@,
    ensures
        r is Some == millis_in_range(ms),
        r matches Some(s) ==> s@.len() > 0,
{
    chrono::DateTime::from_timestamp_millis(ms).map(
        |dt| dt.with_timezone(&chrono::Local).format(fmt).to_string(),
    )
}

/// An integer type whose values convert to `u64`, 0 when they do not fit.
pub trait NumberExtensionType: Copy {
    /// The value as `u64`, 0 when it is negative or too large.
    spec fn u64_or_zero(&self) -> u64;

    fn to_u64_or_zero(&self) -> (r: u64)
        ensures
            r == self.u64_or_zero(),
    ;
}

impl NumberExtensionType for i8 {
    open spec fn u64_or_zero(&self) -> u64 {
        if *self >= 0 { *self as u64 } else { 0 }
    }

    fn to_u64_or_zero(&self) -> (r: u64) {
        if *self >= 0 { *self as u64 } else { 0 }
    }
}

impl NumberExtensionType for i16 {
    open spec fn u64_or_zero(&self) -> u64 {
        if *self >= 0 { *self as u64 } else { 0 }
    }

    fn to_u64_or_zero(&self) -> (r: u64) {
        if *self >= 0 { *self as u64 } else { 0 }
    }
}

impl NumberExtensionType for i32 {
    open spec fn u64_or_zero(&self) -> u64 {
        if *self >= 0 { *self as u64 } else { 0 }
    }

    fn to_u64_or_zero(&self) -> (r: u64) {
        if *self >= 0 { *self as u64 } else { 0 }
    }
}

impl NumberExtensionType for i64 {
    open spec fn u64_or_zero(&self) -> u64 {
        if *self >= 0 { *self as u64 } else { 0 }
    }

    fn to_u64_or_zero(&self) -> (r: u64) {
        if *self >= 0 { *self as u64 } else { 0 }
    }
}

impl NumberExtensionType for i128 {
    open spec fn u64_or_zero(&self) -> u64 {
        if 0 <= *self <= u64::MAX { *self as u64 } else { 0 }
    }

    fn to_u64_or_zero(&self) -> (r: u64) {
        if 0 <= *self && *self <= u64::MAX as i128 { *self as u64 } else { 0 }
    }
}

impl NumberExtensionType for u8 {
    open spec fn u64_or_zero(&self) -> u64 {
        *self as u64
    }

    fn to_u64_or_zero(&self) -> (r: u64) {
        *self as u64
    }
}

impl NumberExtensionType for u16 {
    open spec fn u64_or_zero(&self) -> u64 {
        *self as u64
    }

    fn to_u64_or_zero(&self) -> (r: u64) {
        *self as u64
    }
}

impl NumberExtensionType for u32 {
    open spec fn u64_or_zero(&self) -> u64 {
        *self as u64
    }

    fn to_u64_or_zero(&self) -> (r: u64) {
        *self as u64
    }
}

impl NumberExtensionType for u64 {
    open spec fn u64_or_zero(&self) -> u64 {
        *self
    }

    fn to_u64_or_zero(&self) -> (r: u64) {
        *self
    }
}

impl NumberExtensionType for u128 {
    open spec fn u64_or_zero(&self) -> u64 {
        if *self <= u64::MAX { *self as u64 } else { 0 }
    }

    fn to_u64_or_zero(&self) -> (r: u64) {
        if *self <= u64::MAX as u128 { *self as u64 } else { 0 }
    }
}

impl NumberExtensionType for usize {
    open spec fn u64_or_zero(&self) -> u64 {
        *self as u64
    }

    fn to_u64_or_zero(&self) -> (r: u64) {
        *self as u64
    }
}

/// A duration of `ms` milliseconds as `HH:MM:SS`, or `MM:SS` under an hour;
/// each part has at least two digits.
pub open spec fn time_text(ms: u64) -> Seq<char> {
    let v = ms / 1000;
    let hour = v / 3600;
    let minu = v % 3600 / 60;
    let secs = v % 60;
    if hour > 0 {
        dec2(hour as nat) + seq![':'] + dec2(minu as nat) + seq![':'] + dec2(secs as nat)
    } else {
        dec2(minu as nat) + seq![':'] + dec2(secs as nat)
    }
}

/// The instant a number of milliseconds names, as `i64`.
pub open spec fn as_millis(ms: u64) -> i64 {
    ms as i64
}

/// Formatting of numbers for pages.
pub trait NumberExtension: NumberExtensionType {
    /// The local date of a timestamp in milliseconds, `%Y-%m-%d %H:%M:%S`;
    /// empty for 0. The instant must be one that chrono can represent.
    fn date_format(&self) -> (r: String)
        requires
            self.u64_or_zero() == 0 || millis_in_range(as_millis(self.u64_or_zero())),
        ensures
            self.u64_or_zero() == 0 <==> r@.len() == 0,
    ;

    /// A duration in milliseconds as a clock text (see [`time_text`]).
    fn time_format(&self) -> (r: String)
        ensures
            r@ == time_text(self.u64_or_zero()),
    ;
}

impl<T: NumberExtensionType> NumberExtension for T {
    fn date_format(&self) -> (r: String) {
        let ts = self.to_u64_or_zero();
        if ts == 0 {
            return String::new();
        }
        match local_date_text(ts as i64, "%Y-%m-%d %H:%M:%S") {
            Some(s) => s,
            None => String::new(),
        }
    }

    fn time_format(&self) -> (r: String) {
        let value = self.to_u64_or_zero() / 1000;
        let hour = value / 3600;
        let minu = value % 3600 / 60;
        let secs = value % 60;
        let mut v: Vec<char> = Vec::new();
        if hour > 0 {
            append_chars(&mut v, &dec2_exec(hour));
            v.push(':');
        }
        append_chars(&mut v, &dec2_exec(minu));
        v.push(':');
        append_chars(&mut v, &dec2_exec(secs));
        string_of(&v)
    }
}

/// [`NumberExtension::date_format`] when chrono can represent the instant,
/// else `None`.
pub fn try_date_format<T: NumberExtensionType>(v: &T) -> (r: Option<String>)
    ensures
        r is Some == (v.u64_or_zero() == 0 || millis_in_range(as_millis(v.u64_or_zero()))),
        r matches Some(s) ==> (v.u64_or_zero() == 0 <==> s@.len() == 0),
{
    let ts = v.to_u64_or_zero();
    if ts == 0 || local_date_text(ts as i64, "%Y-%m-%d %H:%M:%S").is_some() {
        Some(v.date_format())
    } else {
        None
    }
}

/// The unit of a friendly size of `b` bytes: `Byte` below 1 KB, else the
/// largest of KB, MB, GB and TB that `b` reaches, with its size in bytes.
pub fn size_unit(b: u64) -> (r: (u64, &'static str))
    ensures
        b < 1024 ==> r.0 == 1 && r.1@ == "Byte"@,
        1024 <= b < 1048576 ==> r.0 == 1024 && r.1@ == "KB"@,
        1048576 <= b < 1073741824 ==> r.0 == 1048576 && r.1@ == "MB"@,
        1073741824 <= b < 1099511627776 ==> r.0 == 1073741824 && r.1@ == "GB"@,
        1099511627776 <= b ==> r.0 == 1099511627776 && r.1@ == "TB"@,
{
    if b < 1024 {
        (1, "Byte")
    } else if b < 1024 * 1024 {
        (1024, "KB")
    } else if b < 1024 * 1024 * 1024 {
        (1024 * 1024, "MB")
    } else if b < 1024 * 1024 * 1024 * 1024 {
        (1024 * 1024 * 1024, "GB")
    } else {
        (1024 * 1024 * 1024 * 1024, "TB")
    }
}

} // verus!

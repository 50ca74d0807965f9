//! The clock, as far as the pipeline reads it.

use std::fmt::Write;
use vstd::prelude::*;

verus! {

/// A reading of the clock. Nothing here looks inside it.
#[verifier::external_type_specification]
#[verifier::external_body]
pub struct ExSystemTime(std::time::SystemTime);

/// The clock. Every reading may differ.
pub assume_specification[ std::time::SystemTime::now ]() -> (now: std::time::SystemTime);

/// The first second after the year 9999, counted from the start of 1970.
pub const END_OF_YEARS: u64 = 253_402_300_800;

/// `SystemTime::duration_since` the start of 1970, as whole seconds and the
/// nanoseconds of the second begun; `None` for a reading before 1970.
#[verifier::external_body]
pub(crate) fn since_epoch(t: std::time::SystemTime) -> (r: Option<(u64, u32)>)
    ensures
        r matches Some(d) ==> d.1 < 1_000_000_000,
{
    let d = t.duration_since(std::time::UNIX_EPOCH).ok()?;
    Some((d.as_secs(), d.subsec_nanos()))
}

/// The moment that lies `secs` seconds and `nanos` nanoseconds after the
/// start of 1970, in the machine's time zone, written twice: in chrono's
/// `Display` form, and as chrono's `format` shapes it after `pattern`.
/// `None` where chrono cannot read the pattern. Both texts depend on the
/// zone that the machine is set to; nothing is said of them.
#[verifier::external_body]
pub(crate) fn local_texts(secs: i64, nanos: u32, pattern: &str) -> Option<(String, String)>
    requires
        0 <= secs < END_OF_YEARS,
        nanos < 1_000_000_000,
{
    let local = chrono::DateTime::from_timestamp(secs, nanos)?.with_timezone(&chrono::Local);
    let mut shaped = String::new();
    write!(shaped, "{}", local.format(pattern)).ok()?;
    Some((local.to_string(), shaped))
}

/// The moment `now` in the machine's time zone, written twice: in chrono's
/// `Display` form, and shaped after `pattern`. There is none for a reading
/// outside the years 1970 to 9999, nor for a pattern that chrono cannot
/// read.
pub(crate) fn local_stamps(now: std::time::SystemTime, pattern: &str) -> Option<(String, String)> {
    match since_epoch(now) {
        Some((secs, nanos)) => {
            if secs < END_OF_YEARS {
                local_texts(secs as i64, nanos, pattern)
            } else {
                None
            }
        },
        None => None,
    }
}

} // verus!

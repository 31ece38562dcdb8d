//! Reading the system clock.

use vstd::prelude::*;

verus! {

/// The system clock's time, declared so that values of it can be stored.
#[verifier::external_type_specification]
#[verifier::external_body]
pub struct ExSystemTime(std::time::SystemTime);

/// Whole seconds since the Unix epoch, or the clock's error text when the
/// system clock is set before the epoch.
///
/// Trusted: calls `SystemTime::now` and `duration_since(UNIX_EPOCH)`, which
/// fails exactly for a time before the epoch, then `as_secs`, or `to_string`
/// of the error; nothing is promised of the value, which depends on the clock.
#[verifier::external_body]
pub(crate) fn unix_now_secs_checked() -> (r: Result<u64, String>) {
    match std::time::SystemTime::now().duration_since(std::time::UNIX_EPOCH) {
        Ok(d) => Ok(d.as_secs()),
        Err(e) => Err(e.to_string()),
    }
}

/// Whole seconds since the Unix epoch, a clock set before the epoch reading
/// as zero.
pub(crate) fn unix_now_secs() -> (r: u64) {
    match unix_now_secs_checked() {
        Ok(s) => s,
        Err(_) => 0,
    }
}

/// Nanoseconds since the Unix epoch, or `None` when the system clock is set
/// before the epoch.
///
/// Trusted: calls `SystemTime::now`, `duration_since(UNIX_EPOCH)`, which
/// fails exactly for a time before the epoch, and `as_nanos`; nothing is
/// promised of the value, which depends on the clock.
#[verifier::external_body]
pub(crate) fn unix_now_nanos_checked() -> (r: Option<u128>) {
    std::time::SystemTime::now().duration_since(std::time::UNIX_EPOCH).ok().map(|d| d.as_nanos())
}

/// Nanoseconds since the Unix epoch in 64 bits (wrapping, as `as u64` does,
/// after the year 2554), a clock set before the epoch reading as zero.
pub(crate) fn unix_now_nanos() -> (r: u64) {
    match unix_now_nanos_checked() {
        Some(n) => n as u64,
        None => 0,
    }
}

/// The name for the duration of a whole number of seconds.
pub uninterp spec fn duration_of_secs(secs: u64) -> std::time::Duration;

/// A duration of `secs` seconds.
///
/// Trusted: calls `std::time::Duration::from_secs`, which cannot fail; the
/// result is named.
#[verifier::external_body]
pub(crate) fn duration_from_secs(secs: u64) -> (d: std::time::Duration)
    ensures
        d == duration_of_secs(secs),
{
    std::time::Duration::from_secs(secs)
}

/// The current time of the system clock.
///
/// Trusted: calls `std::time::SystemTime::now`; nothing is promised of the
/// value, which depends on the clock.
#[verifier::external_body]
pub(crate) fn system_time_now() -> (r: std::time::SystemTime) {
    std::time::SystemTime::now()
}

/// The time from `earlier` to `later`, zero if `later` comes first.
///
/// Trusted: calls `SystemTime::duration_since` and `unwrap_or_default`; both
/// times are opaque here, so nothing is stated of the duration.
#[verifier::external_body]
pub(crate) fn elapsed_between(later: std::time::SystemTime, earlier: std::time::SystemTime) -> (r: std::time::Duration) {
    later.duration_since(earlier).unwrap_or_default()
}

/// The whole seconds of a duration.
///
/// Trusted: calls `Duration::as_secs`; the duration is opaque here, so of
/// the number it is stated only that a duration made of whole seconds gives
/// them back.
#[verifier::external_body]
pub(crate) fn whole_secs(d: std::time::Duration) -> (r: u64)
    ensures
        forall|s: u64| d == #[trigger] duration_of_secs(s) ==> r == s,
{
    d.as_secs()
}

} // verus!

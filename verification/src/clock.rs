//! The system clock.

use vstd::prelude::*;

verus! {

#[verifier::external_type_specification]
#[verifier::external_body]
pub struct ExSystemTime(std::time::SystemTime);

/// The current system time (`std::time::SystemTime::now`). Nothing is
/// promised of it: it depends on the machine's clock.
#[verifier::external_body]
fn system_time_now() -> std::time::SystemTime {
    std::time::SystemTime::now()
}

/// How long after the Unix epoch `t` is (`SystemTime::duration_since` with
/// `UNIX_EPOCH`), or `None` when `t` is earlier.
#[verifier::external_body]
fn since_unix_epoch(t: std::time::SystemTime) -> Option<core::time::Duration> {
    t.duration_since(std::time::UNIX_EPOCH).ok()
}

/// The whole milliseconds of `d` (`Duration::as_millis`).
#[verifier::external_body]
fn whole_millis(d: core::time::Duration) -> u128 {
    d.as_millis()
}

/// Milliseconds since the Unix epoch (0 when the clock is set before the
/// epoch), truncated to an `i64` as `as` does.
pub(crate) fn current_timestamp_millis() -> i64 {
    let millis: u128 = match since_unix_epoch(system_time_now()) {
        Some(d) => whole_millis(d),
        None => 0,
    };
    #[verifier::truncate]
    (millis as i64)
}

} // verus!

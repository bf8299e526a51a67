//! The two clocks of the machine. What they read is not known beforehand, so
//! nothing is promised of the values; functions that act on a reading take it
//! as an argument.

use vstd::prelude::*;

verus! {

/// A reading of the wall clock.
#[verifier::external_type_specification]
#[verifier::external_body]
pub struct ExSystemTime(std::time::SystemTime);

/// A reading of the monotonic clock.
#[verifier::external_type_specification]
#[verifier::external_body]
pub struct ExInstant(std::time::Instant);

/// The answer of a wall clock that was set back.
#[verifier::external_type_specification]
#[verifier::external_body]
pub struct ExSystemTimeError(std::time::SystemTimeError);

/// `SystemTime::duration_since` gives the time from `earlier` to `t`, or an
/// error if `earlier` is later. The readings are opaque, so nothing is
/// promised of the result.
pub assume_specification[ std::time::SystemTime::duration_since ](
    t: &std::time::SystemTime,
    earlier: std::time::SystemTime,
) -> std::result::Result<std::time::Duration, std::time::SystemTimeError>
;

/// `SystemTime::now` reads the wall clock. Nothing is promised of the reading.
pub assume_specification[ std::time::SystemTime::now ]() -> std::time::SystemTime
;

/// `Instant::now` reads the monotonic clock. Nothing is promised of the
/// reading.
pub assume_specification[ std::time::Instant::now ]() -> std::time::Instant
;

/// `Instant::duration_since` gives the time from `earlier` to `i`, zero if
/// `earlier` is later. The instants are opaque, so nothing is promised of the
/// result.
pub assume_specification[ std::time::Instant::duration_since ](
    i: &std::time::Instant,
    earlier: std::time::Instant,
) -> std::time::Duration
;

/// `Duration::as_nanos` gives the length of `d` in nanoseconds. A duration is
/// opaque, so nothing is promised of the result.
pub assume_specification[ std::time::Duration::as_nanos ](d: &std::time::Duration) -> u128
;

/// Whether `n` is what `Instant::duration_since` gives from `earlier` to `now`,
/// in nanoseconds.
pub open spec fn counts_between(
    now: std::time::Instant,
    earlier: std::time::Instant,
    n: u128,
) -> bool {
    exists|d: std::time::Duration|
        call_ensures(std::time::Instant::duration_since, (&now, earlier), d) && call_ensures(
            std::time::Duration::as_nanos,
            (&d,),
            n,
        )
}

/// Nanoseconds from `earlier` to `now`, as the monotonic clock counts them.
pub(crate) fn nanos_between(now: std::time::Instant, earlier: std::time::Instant) -> (r: u128)
    ensures
        counts_between(now, earlier, r),
{
    let since = std::time::Instant::duration_since;
    let length = std::time::Duration::as_nanos;
    let d = since(&now, earlier);
    length(&d)
}

/// Whether `n` is what `SystemTime::duration_since` gives from `earlier` to
/// `now`, in nanoseconds; `None` where it gives an error.
pub open spec fn wall_counts(
    now: std::time::SystemTime,
    earlier: std::time::SystemTime,
    n: Option<u128>,
) -> bool {
    exists|d: std::result::Result<std::time::Duration, std::time::SystemTimeError>|
        #[trigger] call_ensures(std::time::SystemTime::duration_since, (&now, earlier), d)
            && match d {
            Ok(t) => n is Some && call_ensures(std::time::Duration::as_nanos, (&t,), n->0),
            Err(_) => n is None,
        }
}

/// Nanoseconds from `earlier` to now, as the wall clock counts them; `None` if
/// the clock is before `earlier`.
pub(crate) fn nanos_since(earlier: std::time::SystemTime) -> (r: Option<u128>)
    ensures
        exists|now: std::time::SystemTime|
            #[trigger] call_ensures(std::time::SystemTime::now, (), now) && wall_counts(
                now,
                earlier,
                r,
            ),
{
    let clock = std::time::SystemTime::now;
    let since = std::time::SystemTime::duration_since;
    let length = std::time::Duration::as_nanos;
    let now = clock();
    match since(&now, earlier) {
        Ok(d) => Some(length(&d)),
        Err(_) => None,
    }
}

} // verus!

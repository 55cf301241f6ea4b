//! Points in time and lengths of time.

use std::time::{Duration, SystemTime};

use vstd::prelude::*;

verus! {

/// A point in time on the system clock.
#[verifier::external_type_specification]
#[verifier::external_body]
pub struct ExSystemTime(std::time::SystemTime);

/// The whole seconds in a length of time.
pub uninterp spec fn duration_secs(d: Duration) -> u64;

/// The nanoseconds in a length of time beyond its whole seconds.
pub uninterp spec fn duration_subsec_nanos(d: Duration) -> u32;

/// The length of time from the Unix epoch to `t`, if `t` is not before it.
pub uninterp spec fn since_epoch(t: SystemTime) -> Option<Duration>;

/// The point in time that is later than `t` by `d`, if the system clock can represent it.
pub uninterp spec fn later_by(t: SystemTime, d: Duration) -> Option<SystemTime>;

/// A length of time in nanoseconds.
pub open spec fn total_nanos(d: Duration) -> int {
    duration_secs(d) * 1_000_000_000 + duration_subsec_nanos(d)
}

/// Whole seconds from the Unix epoch to `t`; zero before the epoch.
pub open spec fn epoch_secs(t: SystemTime) -> u64 {
    match since_epoch(t) {
        Some(d) => duration_secs(d),
        None => 0,
    }
}

/// Whether the part below one second is below one second, as it is in every length of time.
pub open spec fn is_valid_duration(d: Duration) -> bool {
    duration_subsec_nanos(d) < 1_000_000_000
}

/// Whether `a` is not after `b`, by the lengths of time from the Unix epoch to them. Points in time
/// before the epoch are not told apart.
pub open spec fn no_later(a: SystemTime, b: SystemTime) -> bool {
    match (since_epoch(a), since_epoch(b)) {
        (None, _) => true,
        (Some(_), None) => false,
        (Some(x), Some(y)) => duration_secs(x) < duration_secs(y) || (duration_secs(x)
            == duration_secs(y) && duration_subsec_nanos(x) <= duration_subsec_nanos(y)),
    }
}

/// A later point in time is no fewer whole seconds from the Unix epoch.
pub proof fn law_later_is_no_fewer_seconds(a: SystemTime, b: SystemTime)
    requires
        no_later(a, b),
    ensures
        epoch_secs(a) <= epoch_secs(b),
{
}

/// A length of time is its whole seconds, of one billion nanoseconds each, and the rest. So of two
/// lengths of time the one with fewer whole seconds is shorter, or else the one with the smaller
/// rest.
pub proof fn law_lengths_of_time(a: Duration, b: Duration)
    requires
        is_valid_duration(a),
        is_valid_duration(b),
    ensures
        total_nanos(a) - total_nanos(b) == (duration_secs(a) - duration_secs(b)) * 1_000_000_000
            + duration_subsec_nanos(a) - duration_subsec_nanos(b),
        total_nanos(a) / 1_000_000_000 == duration_secs(a),
        total_nanos(a) % 1_000_000_000 == duration_subsec_nanos(a),
        total_nanos(a) < total_nanos(b) <==> duration_secs(a) < duration_secs(b) || (duration_secs(
            a,
        ) == duration_secs(b) && duration_subsec_nanos(a) < duration_subsec_nanos(b)),
{
}

/// Unix seconds are the whole seconds since the epoch, and zero before it.
pub proof fn law_unix_seconds(t: SystemTime)
    ensures
        match since_epoch(t) {
            Some(d) => epoch_secs(t) == duration_secs(d),
            None => epoch_secs(t) == 0,
        },
{
}

/// `Duration::as_secs` returns the whole seconds.
pub assume_specification[ Duration::as_secs ](d: &Duration) -> (secs: u64)
    ensures
        secs == duration_secs(*d),
;

/// `Duration::subsec_nanos` returns the part below one second, which is less than one billion
/// nanoseconds.
pub assume_specification[ Duration::subsec_nanos ](d: &Duration) -> (nanos: u32)
    ensures
        nanos == duration_subsec_nanos(*d),
        nanos < 1_000_000_000,
;

/// `Duration::new` makes a length of time from whole seconds and nanoseconds below one second.
/// With one billion nanoseconds or more it would carry into the seconds, and might panic: that is
/// left out.
pub assume_specification[ Duration::new ](secs: u64, nanos: u32) -> (d: Duration)
    requires
        nanos < 1_000_000_000,
    ensures
        duration_secs(d) == secs,
        duration_subsec_nanos(d) == nanos,
;

/// `SystemTime::now` reads the system clock. Nothing is claimed of the point in time it returns.
pub assume_specification[ SystemTime::now ]() -> (now: SystemTime);

/// `SystemTime::checked_add` returns the later point in time, or nothing where the system clock
/// cannot represent it. Adding whole seconds to a point in time that is not before the Unix epoch
/// moves it by exactly that many seconds.
pub assume_specification[ SystemTime::checked_add ](t: &SystemTime, d: Duration) -> (later: Option<
    SystemTime,
>)
    ensures
        later == later_by(*t, d),
        duration_subsec_nanos(d) == 0 && since_epoch(*t) is Some && later is Some ==> epoch_secs(
            later->0,
        ) == epoch_secs(*t) + duration_secs(d),
;

/// Calls `SystemTime::duration_since` with the Unix epoch. An error, which means that `t` is
/// before the epoch, becomes `None`.
#[verifier::external_body]
fn duration_since_epoch(t: &SystemTime) -> (d: Option<Duration>)
    ensures
        d == since_epoch(*t),
{
    t.duration_since(std::time::UNIX_EPOCH).ok()
}

/// Whole seconds from the Unix epoch to `t`; zero before the epoch.
pub fn unix_secs(t: &SystemTime) -> (secs: u64)
    ensures
        secs == epoch_secs(*t),
{
    match duration_since_epoch(t) {
        Some(d) => d.as_secs(),
        None => 0,
    }
}

/// Whether `a` is a shorter length of time than `b`.
pub fn is_shorter(a: &Duration, b: &Duration) -> (shorter: bool)
    ensures
        shorter == (total_nanos(*a) < total_nanos(*b)),
{
    let (a_secs, b_secs) = (a.as_secs(), b.as_secs());
    let (a_nanos, b_nanos) = (a.subsec_nanos(), b.subsec_nanos());
    a_secs < b_secs || (a_secs == b_secs && a_nanos < b_nanos)
}

/// Half of a length of time, rounded down to whole nanoseconds.
pub fn half(d: &Duration) -> (r: Duration)
    ensures
        total_nanos(r) == total_nanos(*d) / 2,
{
    let secs: u64 = d.as_secs();
    let nanos: u32 = d.subsec_nanos();
    let carried: u32 = if secs % 2 == 1 {
        500_000_000
    } else {
        0
    };
    let rest: u32 = nanos / 2;
    assert(carried + rest < 1_000_000_000);
    Duration::new(secs / 2, carried + rest)
}

} // verus!

//! What is known of the standard library's durations and instants.
use std::time::{Duration, Instant};
use vstd::prelude::*;

verus! {

/// A point on the monotonic clock. Only the distance of two of them can be read.
#[verifier::external_type_specification]
#[verifier::external_body]
pub struct ExInstant(std::time::Instant);

/// The length of a duration in nanoseconds.
pub uninterp spec fn duration_nanos(duration: Duration) -> nat;

/// The place of an instant on the monotonic clock, in nanoseconds from an origin that all
/// instants of the process share.
pub uninterp spec fn instant_nanos(instant: Instant) -> int;

/// `Duration::from_secs` makes the duration of that many whole seconds.
pub assume_specification[ Duration::from_secs ](secs: u64) -> (duration: Duration)
    ensures
        duration_nanos(duration) == secs * 1_000_000_000,
;

/// `Duration::from_millis` makes the duration of that many milliseconds.
pub assume_specification[ Duration::from_millis ](millis: u64) -> (duration: Duration)
    ensures
        duration_nanos(duration) == millis * 1_000_000,
;

/// `Duration::as_nanos` gives the whole length of the duration, in nanoseconds.
pub assume_specification[ Duration::as_nanos ](duration: &Duration) -> (nanos: u128)
    ensures
        nanos == duration_nanos(*duration),
;

/// `Instant::duration_since` gives the time from the earlier instant to this one, and the zero
/// duration where `earlier` is the later of the two.
pub assume_specification[ Instant::duration_since ](
    instant: &Instant,
    earlier: Instant,
) -> (duration: Duration)
    ensures
        duration_nanos(duration) == (if instant_nanos(*instant) < instant_nanos(earlier) {
            0
        } else {
            instant_nanos(*instant) - instant_nanos(earlier)
        }),
;

/// The nanoseconds from `earlier` to `now`, zero if `earlier` is the later of the two.
pub open spec fn elapsed_nanos(now: Instant, earlier: Instant) -> nat {
    let distance = instant_nanos(now) - instant_nanos(earlier);
    if distance < 0 {
        0
    } else {
        distance as nat
    }
}

/// A peer last heard at `last_recv` has been silent for at least `timeout`.
pub open spec fn timed_out(last_recv: Instant, timeout: Duration, now: Instant) -> bool {
    elapsed_nanos(now, last_recv) >= duration_nanos(timeout)
}

/// Whether a peer last heard at `last_recv` has been silent for at least `timeout`.
pub fn is_timed_out(last_recv: Instant, timeout: Duration, now: Instant) -> (silent: bool)
    ensures
        silent == timed_out(last_recv, timeout, now),
{
    !(now.duration_since(last_recv).as_nanos() < timeout.as_nanos())
}

/// Silence only grows: a peer that has timed out stays so at every later instant.
pub proof fn law_silence_grows(last_recv: Instant, timeout: Duration, now: Instant, later: Instant)
    requires
        instant_nanos(now) <= instant_nanos(later),
        timed_out(last_recv, timeout, now),
    ensures
        timed_out(last_recv, timeout, later),
{
}

/// A peer counts as silent from the very nanosecond at which the timeout has passed since it was
/// heard, and not before. A timeout of zero has always passed.
pub proof fn law_silence_is_measured_to_the_nanosecond(
    last_recv: Instant,
    timeout: Duration,
    now: Instant,
)
    ensures
        timed_out(last_recv, timeout, now) <==> duration_nanos(timeout) == 0 || instant_nanos(now)
            - instant_nanos(last_recv) >= duration_nanos(timeout),
        instant_nanos(last_recv) <= instant_nanos(now) ==> elapsed_nanos(now, last_recv)
            == instant_nanos(now) - instant_nanos(last_recv),
        instant_nanos(now) <= instant_nanos(last_recv) ==> elapsed_nanos(now, last_recv) == 0,
{
}

} // verus!

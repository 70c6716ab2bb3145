//! Durations and instants from `std::time`, with the facts the library's
//! contracts rely on.
use vstd::prelude::*;
use std::time::{Duration, Instant, SystemTime};

verus! {

#[verifier::external_type_specification]
#[verifier::external_body]
pub struct ExInstant(Instant);

#[verifier::external_type_specification]
#[verifier::external_body]
pub struct ExSystemTime(SystemTime);

/// What `Duration::as_nanos` returns for `d`: its length in nanoseconds.
pub uninterp spec fn duration_as_nanos(d: Duration) -> nat;

/// `Duration::from_millis`: a duration of `ms` milliseconds.
#[verifier::external_body]
pub(crate) fn duration_from_millis(ms: u64) -> (d: Duration)
    ensures
        duration_as_nanos(d) == ms as nat * 1_000_000,
{
    Duration::from_millis(ms)
}

/// `Duration::from_secs`: a duration of `secs` seconds.
#[verifier::external_body]
pub(crate) fn duration_from_secs(secs: u64) -> (d: Duration)
    ensures
        duration_as_nanos(d) == secs as nat * 1_000_000_000,
{
    Duration::from_secs(secs)
}

/// `Duration::as_millis`: the whole milliseconds in `d`.
#[verifier::external_body]
pub(crate) fn duration_as_millis(d: Duration) -> (ms: u128)
    ensures
        ms as nat == duration_as_nanos(d) / 1_000_000,
{
    d.as_millis()
}

/// `Duration`'s `>=`: whether `a` is at least as long as `b`.
#[verifier::external_body]
pub(crate) fn duration_at_least(a: Duration, b: Duration) -> (r: bool)
    ensures
        r == (duration_as_nanos(a) >= duration_as_nanos(b)),
{
    a >= b
}

/// `Instant::now`: the current instant of the monotonic clock.
#[verifier::external_body]
pub(crate) fn instant_now() -> (i: Instant) {
    Instant::now()
}

/// `Instant::elapsed`: time passed since `i`. It depends on the clock, so
/// nothing is promised about its length.
#[verifier::external_body]
pub(crate) fn instant_elapsed(i: &Instant) -> (d: Duration) {
    i.elapsed()
}

/// `Duration::as_secs`: the whole seconds in `d`.
#[verifier::external_body]
pub(crate) fn duration_as_secs(d: Duration) -> (s: u64)
    ensures
        s as nat == duration_as_nanos(d) / 1_000_000_000,
{
    d.as_secs()
}

/// `Duration::subsec_nanos`: the nanoseconds of `d` past its whole seconds.
#[verifier::external_body]
pub(crate) fn duration_subsec_nanos(d: Duration) -> (n: u32)
    ensures
        n as nat == duration_as_nanos(d) % 1_000_000_000,
{
    d.subsec_nanos()
}

/// `SystemTime::now`: the current reading of the system clock, which may
/// jump. Nothing is promised about it.
#[verifier::external_body]
pub(crate) fn system_now() -> (t: SystemTime) {
    SystemTime::now()
}

/// What `t.duration_since(SystemTime::UNIX_EPOCH).ok()` gives: the span
/// from the Unix epoch to `t`, or `None` when `t` lies before the epoch.
pub uninterp spec fn span_since_epoch(t: SystemTime) -> Option<Duration>;

/// `SystemTime::duration_since` the Unix epoch, with its error (a reading
/// before the epoch) turned into `None`. It never panics.
#[verifier::external_body]
pub(crate) fn since_unix_epoch(t: &SystemTime) -> (d: Option<Duration>)
    ensures
        d == span_since_epoch(*t),
{
    t.duration_since(SystemTime::UNIX_EPOCH).ok()
}

} // verus!

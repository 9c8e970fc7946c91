//! Time: lengths of time, and the wall clock.
use std::time::{Duration, SystemTime, SystemTimeError, UNIX_EPOCH};
use vstd::prelude::*;

verus! {

/// Nanoseconds in a second.
pub const NANOS_PER_SECOND: u64 = 1_000_000_000;

/// A point on the wall clock.
#[verifier::external_type_specification]
#[verifier::external_body]
pub struct ExSystemTime(SystemTime);

/// The error of a clock that stands before the time it is compared with.
#[verifier::external_type_specification]
#[verifier::external_body]
pub struct ExSystemTimeError(SystemTimeError);

/// The nanoseconds in a length of time: what `Duration::as_nanos` returns.
pub uninterp spec fn duration_nanos(d: Duration) -> nat;

/// The nanoseconds from the Unix epoch to a point on the wall clock, negative
/// before it.
pub uninterp spec fn unix_nanos(t: SystemTime) -> int;

/// `Duration::from_secs` makes a length of time of that many whole seconds.
pub assume_specification[ Duration::from_secs ](secs: u64) -> (d: Duration)
    ensures
        duration_nanos(d) == secs * NANOS_PER_SECOND,
;

/// `Duration::as_nanos` gives the nanoseconds of a length of time.
pub assume_specification[ Duration::as_nanos ](d: &Duration) -> (n: u128)
    ensures
        n == duration_nanos(*d),
;

/// `Duration::as_secs` gives the whole seconds of a length of time and drops
/// the fraction.
pub assume_specification[ Duration::as_secs ](d: &Duration) -> (n: u64)
    ensures
        n == duration_nanos(*d) / (NANOS_PER_SECOND as nat),
;

/// `SystemTime::now` reads the wall clock. Nothing is said of what it reads.
pub assume_specification[ SystemTime::now ]() -> (t: SystemTime)
;

/// The time from the Unix epoch to `t`.
///
/// Calls `SystemTime::duration_since` with `UNIX_EPOCH`, which gives the time
/// between the two points, and an error where `t` is the earlier one.
#[verifier::external_body]
fn since_epoch(t: &SystemTime) -> (d: Result<Duration, SystemTimeError>)
    ensures
        match d {
            Ok(d) => unix_nanos(*t) == duration_nanos(d),
            Err(_) => unix_nanos(*t) < 0,
        },
{
    t.duration_since(UNIX_EPOCH)
}

/// The nanoseconds from the Unix epoch to `t`, none where `t` is before it.
pub open spec fn nanos_since_epoch(t: SystemTime) -> nat {
    if unix_nanos(t) < 0 {
        0
    } else {
        unix_nanos(t) as nat
    }
}

/// The time from the Unix epoch to `t`, nothing where `t` is before it.
pub fn time_since_epoch(t: &SystemTime) -> (d: Duration)
    ensures
        duration_nanos(d) == nanos_since_epoch(*t),
{
    match since_epoch(t) {
        Ok(d) => d,
        Err(_) => Duration::from_secs(0),
    }
}

/// The time from the Unix epoch to now.
pub fn unix_now() -> (d: Duration)
    ensures
        exists|t: SystemTime| duration_nanos(d) == #[trigger] nanos_since_epoch(t),
{
    let now = SystemTime::now();
    time_since_epoch(&now)
}

/// The low 64 bits of a number of nanoseconds.
pub open spec fn nonce_of(nanos: nat) -> nat {
    nanos % 0x1_0000_0000_0000_0000
}

/// The low 64 bits of the nanoseconds in a length of time: a value that
/// changes with every tick of the clock.
pub fn nonce(d: &Duration) -> (n: u64)
    ensures
        n == nonce_of(duration_nanos(*d)),
{
    let nanos: u128 = d.as_nanos();
    assert((nanos as u64) as u128 == nanos % 0x1_0000_0000_0000_0000u128) by (bit_vector);
    nanos as u64
}

/// The shorter of two lengths of time.
pub fn shorter(a: Duration, b: Duration) -> (d: Duration)
    ensures
        d == (if duration_nanos(b) < duration_nanos(a) {
            b
        } else {
            a
        }),
{
    if b.as_nanos() < a.as_nanos() {
        b
    } else {
        a
    }
}

/// The time since the Unix epoch is that of the clock, and none before the epoch.
pub proof fn law_time_before_the_epoch_is_none(t: &SystemTime, d: Duration)
    requires
        call_ensures(time_since_epoch, (t,), d),
    ensures
        unix_nanos(*t) >= 0 ==> duration_nanos(d) as int == unix_nanos(*t) && nanos_since_epoch(
            *t,
        ) as int == unix_nanos(*t),
        unix_nanos(*t) < 0 ==> duration_nanos(d) == 0 && nanos_since_epoch(*t) == 0,
{
}

/// A nonce changes with every tick of the clock and comes again only after as
/// many ticks as 64 bits can count.
pub proof fn law_nonces_of_different_ticks_differ(a: &Duration, x: u64, b: &Duration, y: u64)
    requires
        call_ensures(nonce, (a,), x),
        call_ensures(nonce, (b,), y),
    ensures
        duration_nanos(*a) < 0x1_0000_0000_0000_0000 ==> x == duration_nanos(*a),
        x == y <==> (duration_nanos(*a) - duration_nanos(*b)) % 0x1_0000_0000_0000_0000 == 0,
        x == nonce_of(duration_nanos(*a)),
{
}

/// The shorter of two lengths of time is one of them, and not longer than the
/// other.
pub proof fn law_shorter_is_not_longer(a: Duration, b: Duration, d: Duration)
    requires
        call_ensures(shorter, (a, b), d),
    ensures
        d == a || d == b,
        duration_nanos(d) <= duration_nanos(a),
        duration_nanos(d) <= duration_nanos(b),
{
}

} // verus!

//! The time of day.
use std::time::{Duration, SystemTime, SystemTimeError};
use vstd::prelude::*;

verus! {

/// A point in time, as the operating system tells it.
#[verifier::external_type_specification]
#[verifier::external_body]
pub struct ExSystemTime(SystemTime);

/// The error of a time before the one it is measured from.
#[verifier::external_type_specification]
#[verifier::external_body]
pub struct ExSystemTimeError(SystemTimeError);

/// `SystemTime::now` reads the clock; nothing is known of what it says.
pub assume_specification[ SystemTime::now ]() -> (now: SystemTime)
;

/// Calls `SystemTime::duration_since` with the Unix epoch.
#[verifier::external_body]
fn since_epoch(time: &SystemTime) -> (result: Result<Duration, SystemTimeError>) {
    time.duration_since(SystemTime::UNIX_EPOCH)
}

/// `Duration::as_secs` counts the whole seconds.
pub assume_specification[ Duration::as_secs ](duration: &Duration) -> (seconds: u64)
;

/// `result` is what is told of the time since the Unix epoch: its whole seconds, or in words that
/// the clock stands before it.
pub open spec fn tells(
    elapsed: Result<Duration, SystemTimeError>,
    result: Result<u64, String>,
) -> bool {
    match elapsed {
        Ok(duration) => result matches Ok(seconds) && call_ensures(
            Duration::as_secs,
            (&duration,),
            seconds,
        ),
        Err(e) => result matches Err(message) && vstd::string::to_string_from_display_ensures(
            &e,
            message,
        ),
    }
}

/// The whole seconds of the time since the Unix epoch, or in words that the clock stands before
/// it.
pub fn whole_seconds(elapsed: Result<Duration, SystemTimeError>) -> (result: Result<u64, String>)
    ensures
        tells(elapsed, result),
{
    match elapsed {
        Ok(duration) => Ok(duration.as_secs()),
        Err(e) => Err(e.to_string()),
    }
}

/// `elapsed` is the time from the Unix epoch to a time that the system's clock gave.
pub closed spec fn clock_gave(elapsed: Result<Duration, SystemTimeError>) -> bool {
    exists|now: SystemTime|
        call_ensures(SystemTime::now, (), now) && #[trigger] call_ensures(
            since_epoch,
            (&now,),
            elapsed,
        )
}

/// `result` is what is told of a time that the system's clock gave.
pub open spec fn clock_told(result: Result<u64, String>) -> bool {
    exists|elapsed: Result<Duration, SystemTimeError>| #[trigger]
        clock_gave(elapsed) && tells(elapsed, result)
}

/// The seconds since the Unix epoch, or what is wrong with a clock that stands before it.
pub fn unix_time() -> (result: Result<u64, String>)
    ensures
        clock_told(result),
{
    let now = SystemTime::now();
    let elapsed = since_epoch(&now);
    assert(clock_gave(elapsed));
    whole_seconds(elapsed)
}

/// A time after the Unix epoch is told by its whole seconds, and one before it by the words of the
/// error.
pub proof fn time_is_told_in_seconds(
    elapsed: Result<Duration, SystemTimeError>,
    result: Result<u64, String>,
)
    requires
        tells(elapsed, result),
    ensures
        elapsed matches Ok(duration) ==> (result matches Ok(seconds) && call_ensures(
            Duration::as_secs,
            (&duration,),
            seconds,
        )),
        elapsed matches Err(e) ==> (result matches Err(message)
            && vstd::string::to_string_from_display_ensures(&e, message)),
{
}

/// What the clock tells is told of a time that it gave.
pub proof fn told_time_was_given(result: Result<u64, String>) -> (elapsed: Result<
    Duration,
    SystemTimeError,
>)
    requires
        clock_told(result),
    ensures
        clock_gave(elapsed),
        elapsed is Ok <==> result is Ok,
        elapsed matches Ok(duration) ==> call_ensures(
            Duration::as_secs,
            (&duration,),
            result->Ok_0,
        ),
{
    choose|elapsed: Result<Duration, SystemTimeError>| #[trigger]
        clock_gave(elapsed) && tells(elapsed, result)
}

/// A time that the clock gave is measured from a moment that the system told.
proof fn given_time_is_measured(elapsed: Result<Duration, SystemTimeError>) -> (now: SystemTime)
    requires
        clock_gave(elapsed),
    ensures
        call_ensures(SystemTime::now, (), now),
        call_ensures(since_epoch, (&now,), elapsed),
{
    choose|now: SystemTime|
        call_ensures(SystemTime::now, (), now) && #[trigger] call_ensures(
            since_epoch,
            (&now,),
            elapsed,
        )
}

} // verus!

//! The time of day.

use std::time::{Duration, SystemTime, SystemTimeError};
use vstd::prelude::*;

verus! {

/// `std::time::SystemTime`, a point in time.
#[verifier::external_type_specification]
#[verifier::external_body]
pub struct ExSystemTime(SystemTime);

/// `std::time::SystemTimeError`, which says that a point in time lies before another.
#[verifier::external_type_specification]
#[verifier::external_body]
pub struct ExSystemTimeError(SystemTimeError);

/// `SystemTime::now`: reads the system clock. Nothing is claimed of the time it returns.
pub assume_specification[ SystemTime::now ]() -> SystemTime
;

/// `Duration::as_secs`: the whole seconds of a duration. Nothing is claimed of their number,
/// since the durations here are as long as the clock makes them.
pub assume_specification[ Duration::as_secs ](duration: &Duration) -> u64
;

/// `Duration::subsec_nanos`: the nanoseconds of a duration beyond its whole seconds, which are
/// less than a second.
pub assume_specification[ Duration::subsec_nanos ](duration: &Duration) -> (nanos: u32)
    ensures
        nanos < 1_000_000_000,
;

/// `SystemTime::duration_since`, from the Unix epoch: the time elapsed since, or an error if the
/// clock stands before it. Which of the two comes back depends on the clock alone.
#[verifier::external_body]
pub(crate) fn since_unix_epoch(time: SystemTime) -> Result<Duration, SystemTimeError> {
    time.duration_since(std::time::UNIX_EPOCH)
}

/// Whether `secs` are the whole seconds of the time elapsed since the Unix epoch: what
/// `Duration::as_secs` gives of it, or 0 if the clock stands before the epoch.
spec fn secs_of(elapsed: Result<Duration, SystemTimeError>, secs: u64) -> bool {
    match elapsed {
        Ok(duration) => call_ensures(Duration::as_secs, (&duration,), secs),
        Err(_) => secs == 0,
    }
}

/// The whole seconds of the time elapsed since the Unix epoch, 0 if the clock stands before it.
fn elapsed_secs(elapsed: Result<Duration, SystemTimeError>) -> (secs: u64)
    ensures
        secs_of(elapsed, secs),
{
    match elapsed {
        Ok(duration) => duration.as_secs(),
        Err(_) => 0,
    }
}

/// Whether the system clock can show `secs` seconds since the Unix epoch: they are the whole
/// seconds that have elapsed, from the epoch to a time that `SystemTime::now` returns.
pub closed spec fn clock_shows(secs: u64) -> bool {
    exists|time: SystemTime, elapsed: Result<Duration, SystemTimeError>|
        {
            &&& #[trigger] call_ensures(SystemTime::now, (), time)
            &&& #[trigger] call_ensures(since_unix_epoch, (time,), elapsed)
            &&& secs_of(elapsed, secs)
        }
}

/// The seconds that the system clock counts since the Unix epoch.
pub(crate) fn unix_secs() -> (secs: u64)
    ensures
        clock_shows(secs),
        exists|time: SystemTime, elapsed: Result<Duration, SystemTimeError>|
            {
                &&& #[trigger] call_ensures(SystemTime::now, (), time)
                &&& #[trigger] call_ensures(since_unix_epoch, (time,), elapsed)
                &&& elapsed matches Ok(duration) ==> call_ensures(
                    Duration::as_secs,
                    (&duration,),
                    secs,
                )
                &&& elapsed is Err ==> secs == 0
            },
{
    let time = SystemTime::now();
    let elapsed = since_unix_epoch(time);
    elapsed_secs(elapsed)
}

/// The last second that a date can be given to, counted from the Unix epoch: the end of the year
/// 262142.
pub const LAST_SECOND: i64 = 8_210_266_876_799;

/// The timestamp of a time after the Unix epoch, in whole milliseconds; there is none where the
/// time is too late for a date.
pub open spec fn timestamp_of(secs: int, nanos: int) -> Option<i64> {
    if secs <= LAST_SECOND {
        Some((secs * 1000 + nanos / 1_000_000) as i64)
    } else {
        None
    }
}

/// `chrono::DateTime::from_timestamp` and `DateTime::timestamp_millis`: the date and time in UTC
/// that lies so many seconds and nanoseconds after the Unix epoch, and its timestamp in
/// milliseconds. There is one up to the end of the year 262142, the last that `chrono` knows, and
/// none after. Neither call panics.
#[verifier::external_body]
fn utc_millis(secs: i64, nanos: u32) -> (millis: Option<i64>)
    requires
        0 <= secs,
        nanos < 1_000_000_000,
    ensures
        millis == timestamp_of(secs as int, nanos as int),
{
    match chrono::DateTime::from_timestamp(secs, nanos) {
        Some(time) => Some(time.timestamp_millis()),
        None => None,
    }
}

/// The timestamp of a time so many seconds and nanoseconds after the Unix epoch.
pub fn timestamp_millis(secs: u64, nanos: u32) -> (millis: Option<i64>)
    requires
        nanos < 1_000_000_000,
    ensures
        millis == timestamp_of(secs as int, nanos as int),
        millis is Some <==> secs <= 8_210_266_876_799,
        millis matches Some(m) ==> m * 1_000_000 <= secs * 1_000_000_000 + nanos < (m + 1)
            * 1_000_000,
{
    if secs > 0x7fff_ffff_ffff_ffff {
        None
    } else {
        utc_millis(secs as i64, nanos)
    }
}

/// Whether `millis` is the timestamp of the time elapsed since the Unix epoch, by what
/// `Duration::as_secs` and `Duration::subsec_nanos` give of it; there is none if the clock stands
/// before the epoch.
spec fn millis_of(elapsed: Result<Duration, SystemTimeError>, millis: Option<i64>) -> bool {
    match elapsed {
        Ok(duration) => exists|secs: u64, nanos: u32|
            {
                &&& #[trigger] call_ensures(Duration::as_secs, (&duration,), secs)
                &&& #[trigger] call_ensures(Duration::subsec_nanos, (&duration,), nanos)
                &&& millis == timestamp_of(secs as int, nanos as int)
            },
        Err(_) => millis is None,
    }
}

/// Whether the system clock can show the timestamp `millis`, or show a time that has none: it is
/// the timestamp of a time that `SystemTime::now` returns.
pub closed spec fn clock_shows_millis(millis: Option<i64>) -> bool {
    exists|time: SystemTime, elapsed: Result<Duration, SystemTimeError>|
        {
            &&& #[trigger] call_ensures(SystemTime::now, (), time)
            &&& #[trigger] call_ensures(since_unix_epoch, (time,), elapsed)
            &&& millis_of(elapsed, millis)
        }
}

/// The timestamp that the system clock shows. There is none on a clock that stands before the
/// Unix epoch or too late for a date.
pub(crate) fn unix_millis() -> (millis: Option<i64>)
    ensures
        clock_shows_millis(millis),
        exists|time: SystemTime, elapsed: Result<Duration, SystemTimeError>|
            {
                &&& #[trigger] call_ensures(SystemTime::now, (), time)
                &&& #[trigger] call_ensures(since_unix_epoch, (time,), elapsed)
                &&& elapsed is Err ==> millis is None
                &&& elapsed matches Ok(duration) ==> exists|secs: u64, nanos: u32|
                    {
                        &&& #[trigger] call_ensures(Duration::as_secs, (&duration,), secs)
                        &&& #[trigger] call_ensures(Duration::subsec_nanos, (&duration,), nanos)
                        &&& millis is Some <==> secs <= 8_210_266_876_799
                        &&& millis matches Some(m) ==> m * 1_000_000 <= secs * 1_000_000_000
                            + nanos < (m + 1) * 1_000_000
                    }
            },
{
    let time = SystemTime::now();
    let elapsed = since_unix_epoch(time);
    let millis = match elapsed {
        Ok(duration) => {
            let secs: u64 = duration.as_secs();
            let nanos: u32 = duration.subsec_nanos();
            timestamp_millis(secs, nanos)
        },
        Err(_) => None,
    };
    assert(millis_of(elapsed, millis));
    millis
}

/// A timestamp is that of the last whole millisecond, and there is one up to the end of the year
/// 262142.
pub proof fn law_timestamps(secs: u64, nanos: u32)
    requires
        nanos < 1_000_000_000,
    ensures
        timestamp_of(secs as int, nanos as int) is Some <==> secs <= 8_210_266_876_799,
        timestamp_of(secs as int, nanos as int) matches Some(m) ==> m * 1_000_000 <= secs
            * 1_000_000_000 + nanos < (m + 1) * 1_000_000,
{
}

/// What the clock shows was read from it: as the seconds of a time that it gave, 0 before the
/// epoch.
pub(crate) proof fn law_clock_shows(secs: u64)
    requires
        clock_shows(secs),
    ensures
        exists|time: SystemTime, elapsed: Result<Duration, SystemTimeError>|
            {
                &&& #[trigger] call_ensures(SystemTime::now, (), time)
                &&& #[trigger] call_ensures(since_unix_epoch, (time,), elapsed)
                &&& elapsed matches Ok(duration) ==> call_ensures(
                    Duration::as_secs,
                    (&duration,),
                    secs,
                )
                &&& elapsed is Err ==> secs == 0
            },
{
}

/// The timestamp that the clock shows was read from it: that of a time that it gave, and none
/// before the epoch.
pub(crate) proof fn law_clock_shows_millis(millis: Option<i64>)
    requires
        clock_shows_millis(millis),
    ensures
        exists|time: SystemTime, elapsed: Result<Duration, SystemTimeError>|
            {
                &&& #[trigger] call_ensures(SystemTime::now, (), time)
                &&& #[trigger] call_ensures(since_unix_epoch, (time,), elapsed)
                &&& elapsed is Err ==> millis is None
                &&& elapsed matches Ok(duration) ==> exists|secs: u64, nanos: u32|
                    {
                        &&& #[trigger] call_ensures(Duration::as_secs, (&duration,), secs)
                        &&& #[trigger] call_ensures(Duration::subsec_nanos, (&duration,), nanos)
                        &&& millis == timestamp_of(secs as int, nanos as int)
                    }
            },
{
}

} // verus!

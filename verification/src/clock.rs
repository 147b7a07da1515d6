//! Time since the epoch, in the milliseconds that fit into a packet.
use crate::error::PunchError;
use std::time::{Duration, SystemTime, SystemTimeError};
use vstd::prelude::*;

verus! {

#[verifier::external_type_specification]
#[verifier::external_body]
pub struct ExSystemTime(SystemTime);

#[verifier::external_type_specification]
#[verifier::external_body]
pub struct ExSystemTimeError(SystemTimeError);

/// `SystemTime::now`: what the clock shows. Nothing is claimed of it.
#[verifier::external_body]
fn clock_time() -> (time: SystemTime) {
    SystemTime::now()
}

/// The whole milliseconds of a duration.
pub uninterp spec fn millis_of(duration: Duration) -> u128;

/// `Duration::as_millis`: the whole milliseconds of a duration.
#[verifier::external_body]
fn whole_millis(duration: Duration) -> (millis: u128)
    ensures
        millis == millis_of(duration),
{
    duration.as_millis()
}

/// The time from the epoch to another time, unless that lies before the epoch.
pub uninterp spec fn elapsed(time: SystemTime) -> Option<Duration>;

/// `SystemTime::duration_since` on the epoch: the time from the epoch to `time`, or an error where
/// `time` lies before it. Of the error nothing else is claimed.
#[verifier::external_body]
fn since_epoch(time: SystemTime) -> (since: Result<Duration, SystemTimeError>)
    ensures
        match since {
            Ok(duration) => elapsed(time) == Some(duration),
            Err(_) => elapsed(time) is None,
        },
{
    time.duration_since(SystemTime::UNIX_EPOCH)
}

/// The whole milliseconds from the epoch to a time, or nothing where it lies before the epoch.
pub fn millis_since_epoch(time: SystemTime) -> (millis: Option<u128>)
    ensures
        millis == (match elapsed(time) {
            Some(duration) => Some(millis_of(duration)),
            None => None,
        }),
{
    match since_epoch(time) {
        Ok(duration) => Some(whole_millis(duration)),
        Err(_) => None,
    }
}

/// The low 32 bits of a number of milliseconds.
pub fn low_millis(millis: u128) -> (low: u32)
    ensures
        low == millis % 0x1_0000_0000,
{
    let low: u32 = #[verifier::truncate]
    (millis as u32);
    assert(#[verifier::truncate] (millis as u32) == millis % 0x1_0000_0000) by (bit_vector);
    low
}

/// The timestamp for a count of milliseconds since the epoch, which is missing where the clock
/// stands before the epoch.
pub fn timestamp(millis: Option<u128>) -> (time: Result<u32, PunchError>)
    ensures
        time == (match millis {
            Some(millis) => Ok((millis % 0x1_0000_0000) as u32),
            None => Err(PunchError::ClockBehind),
        }),
{
    match millis {
        Some(millis) => Ok(low_millis(millis)),
        None => Err(PunchError::ClockBehind),
    }
}

/// The time of a stream's engine for a count of milliseconds since the epoch: zero where the
/// clock stands before the epoch.
pub fn engine_time(millis: Option<u128>) -> (time: u32)
    ensures
        time == (match millis {
            Some(millis) => (millis % 0x1_0000_0000) as u32,
            None => 0u32,
        }),
{
    match millis {
        Some(millis) => low_millis(millis),
        None => 0,
    }
}

/// The timestamp of a time.
pub open spec fn timestamp_at(time: SystemTime) -> Result<u32, PunchError> {
    match elapsed(time) {
        Some(duration) => Ok((millis_of(duration) % 0x1_0000_0000) as u32),
        None => Err(PunchError::ClockBehind),
    }
}

/// The time of a stream's engine at a time.
pub open spec fn engine_time_at(time: SystemTime) -> u32 {
    match elapsed(time) {
        Some(duration) => (millis_of(duration) % 0x1_0000_0000) as u32,
        None => 0,
    }
}

/// The current timestamp: that of the time that the clock shows.
pub fn now() -> (time: Result<u32, PunchError>)
    ensures
        exists|clock: SystemTime| time == #[trigger] timestamp_at(clock),
        time matches Err(error) ==> error == PunchError::ClockBehind,
{
    let clock = clock_time();
    let time = timestamp(millis_since_epoch(clock));
    assert(time == timestamp_at(clock));
    time
}

/// The current time for a stream's engine: that of the time that the clock shows.
pub fn engine_now() -> (time: u32)
    ensures
        exists|clock: SystemTime| time == #[trigger] engine_time_at(clock),
{
    let clock = clock_time();
    let time: u32 = engine_time(millis_since_epoch(clock));
    assert(time == engine_time_at(clock));
    time
}

} // verus!

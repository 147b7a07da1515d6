//! Laws of timestamps.
use crate::clock::{
    elapsed, engine_now, engine_time, low_millis, millis_of, millis_since_epoch, now, timestamp,
};
use crate::error::PunchError;
use std::time::SystemTime;
use vstd::prelude::*;

verus! {

/// The low bits of milliseconds are the milliseconds themselves until they run over, and go up with
/// them, one for one, modulo what fits.
pub proof fn lemma_low_millis_count_up(millis: u128, later: u128, first: u32, second: u32)
    requires
        millis <= later,
        call_ensures(low_millis, (millis,), first),
        call_ensures(low_millis, (later,), second),
    ensures
        millis < 0x1_0000_0000 ==> first == millis,
        ((second - first) - (later - millis)) % 0x1_0000_0000 == 0,
{
}

/// Timestamps go up with the milliseconds since the epoch, one for one, modulo what fits. There is
/// no timestamp only where there are no milliseconds.
pub proof fn lemma_timestamps_count_up(
    millis: u128,
    later: u128,
    first: Result<u32, PunchError>,
    second: Result<u32, PunchError>,
    none: Result<u32, PunchError>,
)
    requires
        millis <= later,
        call_ensures(timestamp, (Some(millis),), first),
        call_ensures(timestamp, (Some(later),), second),
        call_ensures(timestamp, (None::<u128>,), none),
    ensures
        first is Ok,
        second is Ok,
        millis < 0x1_0000_0000 ==> first->Ok_0 == millis,
        ((second->Ok_0 - first->Ok_0) - (later - millis)) % 0x1_0000_0000 == 0,
        none == Err::<u32, PunchError>(PunchError::ClockBehind),
{
}

/// The time of a stream's engine goes up with the milliseconds since the epoch, one for one, modulo
/// what fits, and is zero where there are none.
pub proof fn lemma_engine_time_counts_up(
    millis: u128,
    later: u128,
    first: u32,
    second: u32,
    none: u32,
)
    requires
        millis <= later,
        call_ensures(engine_time, (Some(millis),), first),
        call_ensures(engine_time, (Some(later),), second),
        call_ensures(engine_time, (None::<u128>,), none),
    ensures
        millis < 0x1_0000_0000 ==> first == millis,
        ((second - first) - (later - millis)) % 0x1_0000_0000 == 0,
        none == 0,
{
}

/// The milliseconds of a time are those of the duration from the epoch to it, and are missing
/// exactly where there is no such duration.
pub proof fn lemma_millis_are_those_since_the_epoch(time: SystemTime, millis: Option<u128>)
    requires
        call_ensures(millis_since_epoch, (time,), millis),
    ensures
        millis is None <==> elapsed(time) is None,
        millis is Some ==> millis->0 == millis_of(elapsed(time)->0),
{
}

/// The current timestamp has the low 32 bits of the milliseconds from the epoch to what a clock
/// showed. It is missing only where a clock stood before the epoch.
pub proof fn lemma_now_is_in_millis(time: Result<u32, PunchError>)
    requires
        call_ensures(now, (), time),
    ensures
        time matches Ok(time) ==> exists|clock: SystemTime|
            (#[trigger] elapsed(clock)) is Some && (millis_of(elapsed(clock)->0) - time)
                % 0x1_0000_0000 == 0,
        time matches Err(error) ==> error == PunchError::ClockBehind && exists|clock: SystemTime|
            (#[trigger] elapsed(clock)) is None,
{
}

/// The current time of a stream's engine has the low 32 bits of the milliseconds from the epoch to
/// what a clock showed, or is zero where that stood before the epoch.
pub proof fn lemma_engine_now_is_in_millis(time: u32)
    requires
        call_ensures(engine_now, (), time),
    ensures
        exists|clock: SystemTime|
            match #[trigger] elapsed(clock) {
                Some(duration) => (millis_of(duration) - time) % 0x1_0000_0000 == 0,
                None => time == 0,
            },
{
    let clock = choose|clock: SystemTime| time == crate::clock::engine_time_at(clock);
    assert(match elapsed(clock) {
        Some(duration) => (millis_of(duration) - time) % 0x1_0000_0000 == 0,
        None => time == 0,
    });
}

} // verus!

use punch::clock::{
    engine_now, engine_time, low_millis, millis_since_epoch, now, timestamp,
};
use punch::error::{ErrorKind, PunchError};
use std::time::{Duration, SystemTime};

#[test]
fn milliseconds_keep_their_low_bits() {
    assert_eq!(low_millis(0), 0);
    assert_eq!(low_millis(u32::MAX as u128), u32::MAX);
    assert_eq!(low_millis(0x5_0000_0007), 7);
}

#[test]
fn timestamp_needs_a_clock_after_the_epoch() {
    assert_eq!(timestamp(Some(0x1_0000_0003)), Ok(3));
    assert_eq!(timestamp(None), Err(PunchError::ClockBehind));
    assert_eq!(PunchError::ClockBehind.kind(), ErrorKind::Other);
    assert_eq!(PunchError::ClockBehind.message().unwrap(), "system time error");
}

#[test]
fn engine_time_is_zero_before_the_epoch() {
    assert_eq!(engine_time(Some(0x2_0000_0009)), 9);
    assert_eq!(engine_time(None), 0);
}

#[test]
fn milliseconds_count_from_the_epoch() {
    let time = SystemTime::UNIX_EPOCH + Duration::from_micros(1_234_567);
    assert_eq!(millis_since_epoch(time), Some(1234));
    let early = SystemTime::UNIX_EPOCH - Duration::from_millis(1);
    assert_eq!(millis_since_epoch(early), None);
}

#[test]
fn the_clock_is_read() {
    let before = low_millis(millis_since_epoch(SystemTime::now()).unwrap());
    let stamp = now().unwrap();
    let engine = engine_now();
    assert!(stamp.wrapping_sub(before) < 10_000);
    assert!(engine.wrapping_sub(stamp) < 10_000);
}

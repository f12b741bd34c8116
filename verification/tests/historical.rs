use std::time::Duration;
use time::OffsetDateTime;
use wavelet::clock::historical::{HistoricalClock, Interval};

fn nanos(t: OffsetDateTime) -> i128 {
    t.unix_timestamp_nanos()
}

fn d(x: Duration) -> u128 {
    x.as_nanos()
}

#[test]
fn test_interval_creation() {
    let start = nanos(OffsetDateTime::UNIX_EPOCH);
    let end = nanos(OffsetDateTime::UNIX_EPOCH + Duration::from_secs(3600));
    let interval = Interval::new(start, end);

    assert_eq!(interval.start, start);
    assert_eq!(interval.end, end);
    assert_eq!(interval.duration(), d(Duration::from_secs(3600)));
}

#[test]
fn test_interval_contains() {
    let start = nanos(OffsetDateTime::UNIX_EPOCH);
    let end = nanos(OffsetDateTime::UNIX_EPOCH + Duration::from_secs(100));
    let interval = Interval::new(start, end);

    assert!(interval.contains(start));
    assert!(interval.contains(start + d(Duration::from_secs(50)) as i128));
    assert!(!interval.contains(end));
    assert!(!interval.contains(end + d(Duration::from_secs(1)) as i128));
}

#[test]
fn test_historical_clock_creation() {
    let start = nanos(OffsetDateTime::UNIX_EPOCH);
    let end = nanos(OffsetDateTime::UNIX_EPOCH + Duration::from_secs(100));
    let interval = Interval::new(start, end);

    let clock = HistoricalClock::new(interval.clone());

    assert_eq!(clock.interval(), &interval);
    assert_eq!(clock.time_step(), d(Duration::from_micros(100)));
    assert_eq!(clock.current_time(), start);
    assert!(!clock.is_exhausted());
}

#[test]
fn test_historical_clock_advance() {
    let start = nanos(OffsetDateTime::UNIX_EPOCH);
    let end = nanos(OffsetDateTime::UNIX_EPOCH + Duration::from_millis(1));
    let interval = Interval::new(start, end);

    let mut clock = HistoricalClock::with_time_step(interval, d(Duration::from_micros(100)));

    let time1 = clock.trigger_time();
    assert_eq!(time1.system_time, start);
    assert!(!clock.is_exhausted());

    let time2 = clock.trigger_time();
    assert_eq!(time2.system_time, start + d(Duration::from_micros(100)) as i128);

    let mut call_count = 2;
    while !clock.is_exhausted() && call_count < 100 {
        clock.trigger_time();
        call_count += 1;
    }

    assert!(clock.is_exhausted());
    assert!(call_count < 100);
}

#[test]
fn test_historical_clock_instant_consistency() {
    let start = nanos(OffsetDateTime::UNIX_EPOCH);
    let end = nanos(OffsetDateTime::UNIX_EPOCH + Duration::from_secs(1));
    let interval = Interval::new(start, end);
    let step = d(Duration::from_millis(100));

    let mut clock = HistoricalClock::with_time_step(interval, step);

    let time1 = clock.trigger_time();
    let time2 = clock.trigger_time();

    assert_eq!(time2.instant - time1.instant, step);
    assert_eq!((time2.system_time - time1.system_time) as u128, step);
}

#[test]
fn test_historical_clock_reset() {
    let start = nanos(OffsetDateTime::UNIX_EPOCH);
    let end = nanos(OffsetDateTime::UNIX_EPOCH + Duration::from_secs(1));
    let interval = Interval::new(start, end);

    let mut clock = HistoricalClock::new(interval);

    clock.trigger_time();
    clock.trigger_time();
    clock.trigger_time();

    assert_ne!(clock.current_time(), start);

    clock.reset();
    assert_eq!(clock.current_time(), start);
    assert!(!clock.is_exhausted());
}

#[test]
fn test_historical_clock_exhaustion() {
    let start = nanos(OffsetDateTime::UNIX_EPOCH);
    let end = nanos(OffsetDateTime::UNIX_EPOCH + Duration::from_micros(250));
    let interval = Interval::new(start, end);
    let step = d(Duration::from_micros(100));

    let mut clock = HistoricalClock::with_time_step(interval, step);

    let time1 = clock.trigger_time();
    assert!(!clock.is_exhausted());
    assert_eq!(time1.system_time, start);

    let time2 = clock.trigger_time();
    assert!(!clock.is_exhausted());
    assert_eq!(time2.system_time, start + d(Duration::from_micros(100)) as i128);

    let time3 = clock.trigger_time();
    assert!(clock.is_exhausted());
    assert_eq!(time3.system_time, start + d(Duration::from_micros(200)) as i128);
}

#[test]
fn test_exhausted_clock_no_further_advance() {
    let start = nanos(OffsetDateTime::UNIX_EPOCH);
    let end = nanos(OffsetDateTime::UNIX_EPOCH + Duration::from_micros(100));
    let interval = Interval::new(start, end);
    let step = d(Duration::from_micros(200));

    let mut clock = HistoricalClock::with_time_step(interval, step);

    let time1 = clock.trigger_time();
    assert!(clock.is_exhausted());

    let time2 = clock.trigger_time();
    assert_eq!(time1.system_time, time2.system_time);
    assert_eq!(time1.instant, time2.instant);
}

#[test]
fn historical_readings_stay_inside_interval() {
    let interval = Interval::new(-1_000, 1_000);
    let mut clock = HistoricalClock::with_time_step(interval, 300);
    let mut readings = Vec::new();
    while !clock.is_exhausted() {
        let t = clock.trigger_time();
        assert!(interval.contains(t.system_time));
        readings.push(t.system_time);
    }
    assert_eq!(readings, vec![-1_000, -700, -400, -100, 200, 500, 800]);
    // the first reading is at the interval's start, instant zero
    clock.reset();
    let first = clock.trigger_time();
    assert_eq!(first.instant, 0);
    assert_eq!(first.system_time, -1_000);
}

#[test]
fn interval_duration_spans_negative_start() {
    let interval = Interval::new(-5, 7);
    assert_eq!(interval.duration(), 12);
    let reversed = Interval { start: 7, end: -5 };
    assert_eq!(reversed.duration(), 0);
    assert!(!reversed.contains(0));
}

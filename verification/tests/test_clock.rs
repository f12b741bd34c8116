use std::time::Duration;
use time::OffsetDateTime;
use wavelet::clock::test_clock::TestClock;

fn d(x: Duration) -> u128 {
    x.as_nanos()
}

fn epoch_plus(x: Duration) -> i128 {
    (OffsetDateTime::UNIX_EPOCH + x).unix_timestamp_nanos()
}

#[test]
fn test_clock_starts_at_epoch() {
    let mut clock = TestClock::new();
    let time = clock.trigger_time();

    assert_eq!(time.system_time, OffsetDateTime::UNIX_EPOCH.unix_timestamp_nanos());
    assert_eq!(clock.elapsed(), d(Duration::ZERO));
}

#[test]
fn test_clock_advance() {
    let mut clock = TestClock::new();

    clock.advance(d(Duration::from_secs(3600)));
    let time = clock.trigger_time();

    assert_eq!(time.system_time, epoch_plus(Duration::from_secs(3600)));
    assert_eq!(clock.elapsed(), d(Duration::from_secs(3600)));
}

#[test]
fn test_predictable_instants() {
    let mut clock = TestClock::new();
    let time1 = clock.trigger_time();

    clock.advance(d(Duration::from_millis(500)));
    let time2 = clock.trigger_time();

    assert_eq!(time2.instant - time1.instant, d(Duration::from_millis(500)));
}

#[test]
fn test_starting_at_custom_time() {
    let start_time = OffsetDateTime::from_unix_timestamp(1000000000).unwrap();
    let mut clock = TestClock::starting_at(start_time.unix_timestamp_nanos());

    let time = clock.trigger_time();
    assert_eq!(time.system_time, start_time.unix_timestamp_nanos());
    assert_eq!(clock.elapsed(), 0);

    clock.advance(d(Duration::from_secs(60)));
    let time2 = clock.trigger_time();
    assert_eq!(
        time2.system_time,
        (start_time + Duration::from_secs(60)).unix_timestamp_nanos()
    );
}

#[test]
fn test_set_elapsed() {
    let mut clock = TestClock::new();

    clock.set_elapsed(d(Duration::from_secs(300)));
    let time = clock.trigger_time();

    assert_eq!(time.system_time, epoch_plus(Duration::from_secs(300)));
    assert_eq!(clock.elapsed(), d(Duration::from_secs(300)));
}

#[test]
fn test_reset() {
    let mut clock = TestClock::new();

    clock.advance(d(Duration::from_secs(1000)));
    assert_eq!(clock.elapsed(), d(Duration::from_secs(1000)));

    clock.reset();
    let time = clock.trigger_time();

    assert_eq!(time.system_time, OffsetDateTime::UNIX_EPOCH.unix_timestamp_nanos());
    assert_eq!(clock.elapsed(), 0);
}

#[test]
fn test_readable_test_assertions() {
    let mut clock = TestClock::new();

    clock.set_elapsed(d(Duration::from_secs(3600)));
    let time = clock.trigger_time();
    assert_eq!(time.system_time / 1_000_000_000, 3600);

    clock.advance(d(Duration::from_secs(1800)));
    let time2 = clock.trigger_time();
    assert_eq!(time2.system_time / 1_000_000_000, 5400);
}

#[test]
fn test_clone_behavior() {
    let clock1 = TestClock::new();
    let clock2 = clock1.clone();

    clock1.advance(d(Duration::from_secs(100)));

    assert_eq!(clock1.elapsed(), d(Duration::from_secs(100)));
    assert_eq!(clock2.elapsed(), d(Duration::from_secs(100)));
}

#[test]
fn test_clock_test_instant_consistency() {
    let mut clock = TestClock::new();

    let time1 = clock.trigger_time();
    let time2 = clock.trigger_time();

    assert_eq!(time1.instant, time2.instant);
    assert_eq!(time1.system_time, time2.system_time);
}

#[test]
fn test_clock_readings_move_together() {
    let clock = TestClock::starting_at(-500);
    clock.advance(200);
    clock.advance(300);
    let (instant, wall) = clock.current_times();
    assert_eq!(instant, 500);
    assert_eq!(wall, 0);
    clock.set_elapsed(7);
    assert_eq!(clock.current_times(), (7, -493));
}

#[test]
fn test_clock_advance_saturates_at_largest_duration() {
    let clock = TestClock::new();
    clock.set_elapsed(u128::MAX);
    assert_eq!(clock.elapsed(), Duration::MAX.as_nanos());
    clock.advance(1);
    assert_eq!(clock.elapsed(), Duration::MAX.as_nanos());
}

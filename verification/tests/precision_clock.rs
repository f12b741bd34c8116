use wavelet::clock::precision_clock::sample_of;
use std::time::Duration;
use wavelet::clock::cached::PrecisionClock as CachedClock;
use wavelet::clock::precision_clock::{Platform, PrecisionClock};
use wavelet::clock::Clock;

fn d(x: Duration) -> u128 {
    x.as_nanos()
}

#[test]
fn test_cached_clock_creation() {
    let clock = CachedClock::new();
    assert_eq!(clock.resync_interval(), d(Duration::from_secs(1)));
}

#[test]
fn test_custom_resync_interval() {
    let clock = CachedClock::new().with_resync_interval(d(Duration::from_millis(500)));

    assert_eq!(clock.resync_interval(), d(Duration::from_millis(500)));
}

#[test]
fn test_unix_nanos() {
    let mut clock = CachedClock::new();
    let nanos = clock.unix_nanos();

    assert!(nanos > 1_600_000_000_000_000_000);
}

#[test]
fn test_precision_clock_creation() {
    let clock = PrecisionClock::new(Platform::Linux);

    assert_eq!(clock.resync_interval(), d(Duration::from_secs(3600)));
    assert_eq!(clock.measurement_threshold(), d(Duration::from_nanos(500)));
    assert_eq!(clock.max_measurement_retries(), 5);
}

#[test]
fn test_custom_configuration() {
    let clock = PrecisionClock::with_config(
        d(Duration::from_secs(1800)),
        d(Duration::from_nanos(500)),
        50,
    );

    assert_eq!(clock.resync_interval(), d(Duration::from_secs(1800)));
    assert_eq!(clock.measurement_threshold(), d(Duration::from_nanos(500)));
    assert_eq!(clock.max_measurement_retries(), 50);
}

#[test]
fn precision_clock_test_manual_resync() {
    let mut clock = PrecisionClock::new(Platform::Linux);
    let initial_accuracy = clock.is_accurate();

    clock.resync();

    let time = clock.cycle_time();
    assert!(time.unix_timestamp_nanos() > 0);

    assert!(clock.is_accurate() == initial_accuracy || !clock.is_accurate());
}

#[test]
fn test_time_consistency() {
    let mut clock = PrecisionClock::new(Platform::Linux);

    let times: Vec<_> = (0..10).map(|_| clock.cycle_time()).collect();

    for window in times.windows(2) {
        assert!(window[1].now() >= window[0].now());
        assert!(window[1].unix_timestamp_nanos() >= window[0].unix_timestamp_nanos());
    }
}

#[test]
fn test_measurement_quality_reporting() {
    let clock = PrecisionClock::new(Platform::Linux);

    let _is_accurate = clock.is_accurate();
    let _threshold = clock.measurement_threshold();
}

#[test]
fn test_os_specific_defaults() {
    let clock = PrecisionClock::new(Platform::Linux);

    assert_eq!(clock.measurement_threshold(), d(Duration::from_nanos(500)));
    assert_eq!(clock.max_measurement_retries(), 5);
}

#[test]
fn platform_defaults() {
    assert_eq!(Platform::Linux.measurement_threshold(), 500);
    assert_eq!(Platform::Linux.max_retries(), 5);
    assert_eq!(Platform::Windows.measurement_threshold(), 2000);
    assert_eq!(Platform::Windows.max_retries(), 20);
    assert_eq!(Platform::MacOs.measurement_threshold(), 1000);
    assert_eq!(Platform::MacOs.max_retries(), 10);
    assert_eq!(Platform::Other.measurement_threshold(), 1500);
    assert_eq!(Platform::Other.max_retries(), 15);
    let clock = PrecisionClock::new(Platform::Windows);
    assert_eq!(clock.measurement_threshold(), 2000);
    assert_eq!(clock.max_measurement_retries(), 20);
}

#[test]
fn precision_clock_wall_time_follows_monotonic_time() {
    let clock = PrecisionClock::with_config(d(Duration::from_secs(3600)), 500, 5);
    let a = clock.time_at(1_000_000_000_000);
    let b = clock.time_at(1_000_000_000_500);
    assert_eq!(a.now(), 1_000_000_000_000);
    assert_eq!(b.unix_timestamp_nanos() - a.unix_timestamp_nanos(), 500);
}

#[test]
fn precision_clock_resync_is_not_due_right_after_resync() {
    let mut clock = PrecisionClock::with_config(d(Duration::from_secs(3600)), 500, 5);
    let before = clock.time_at(1);
    clock.check_and_resync(0);
    assert_eq!(clock.time_at(1), before);
}

#[test]
fn cached_clock_wall_time_follows_monotonic_time() {
    let clock = CachedClock::new();
    let a = clock.wall_at(10_000);
    let b = clock.wall_at(10_250);
    assert_eq!(b - a, 250);
    assert!(clock.wall_at(0) <= a);
}

#[test]
fn cached_clock_trigger_times_never_go_back() {
    let mut clock = CachedClock::new().with_resync_interval(d(Duration::from_secs(3600)));
    let t1 = clock.trigger_time();
    let t2 = clock.trigger_time();
    assert!(t2.instant >= t1.instant);
    assert!(t2.system_time >= t1.system_time);
}

#[test]
fn sample_is_the_midpoint_of_its_readings() {
    let s = sample_of(1_000, 42, 1_300);
    assert_eq!(s.variance, 300);
    assert_eq!(s.instant, 1_150);
    assert_eq!(s.wall, 42);
    // readings out of order count as no variance
    let s = sample_of(1_000, 7, 900);
    assert_eq!(s.variance, 0);
    assert_eq!(s.instant, 1_000);
}

#[test]
fn precision_clock_cycle_times_never_go_back() {
    let mut clock = PrecisionClock::with_config(d(Duration::from_secs(3600)), 500, 5);
    let a = clock.cycle_time();
    let b = clock.cycle_time();
    assert!(b.now() >= a.now());
    assert_eq!(b.unix_timestamp_nanos() - a.unix_timestamp_nanos(), (b.now() - a.now()) as i128);
}

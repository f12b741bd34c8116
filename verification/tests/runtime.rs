use wavelet::clock::test_clock::TestClock;
use wavelet::context::Context;
use wavelet::event_driver::ExecutionMode;
use wavelet::runtime::{Block, Runtime, RuntimeBuilder, RuntimeBuilderError, Sleep, Spin, MINIMUM_TIMER_PRECISION};

#[test]
fn builder_without_clock_reports_no_clock() {
    let r = RuntimeBuilder::<TestClock, Spin>::new().with_mode(Spin).build();
    assert_eq!(r.err().unwrap(), RuntimeBuilderError::NoClock);
    let r = RuntimeBuilder::<TestClock, Spin>::new().build();
    assert_eq!(r.err().unwrap(), RuntimeBuilderError::NoClock);
    assert_eq!(RuntimeBuilderError::NoClock.message(), "no clock provided");
}

#[test]
fn builder_without_mode_reports_no_mode() {
    let r = RuntimeBuilder::<TestClock, Spin>::new().with_clock(TestClock::new()).build();
    assert_eq!(r.err().unwrap(), RuntimeBuilderError::NoExecutionMode);
    assert_eq!(RuntimeBuilderError::NoExecutionMode.message(), "no execution mode provided");
}

#[test]
fn builder_with_both_builds_an_empty_runtime() {
    let clock = TestClock::new();
    clock.advance(5);
    let rt = Runtime::<TestClock, Sleep>::builder()
        .with_mode(Sleep::new(2 * MINIMUM_TIMER_PRECISION))
        .with_clock(clock)
        .build();
    let rt = match rt {
        Ok(rt) => rt,
        Err(_) => panic!("expected a runtime"),
    };
    assert_eq!(rt.mode().max_duration(), 2 * MINIMUM_TIMER_PRECISION);
    let (executor, clock, _mode) = rt.into_parts();
    assert_eq!(executor.node_count(), 0);
    assert_eq!(clock.elapsed(), 5);
}

#[test]
fn execution_mode_timeouts() {
    let ms = MINIMUM_TIMER_PRECISION;
    assert_eq!(Spin.poll_timeout(Some(100), 0), Some(0));
    let sleep = Sleep::new(5 * ms);
    assert_eq!(sleep.poll_timeout(None, 0), None);
    assert_eq!(sleep.poll_timeout(Some(10 * ms), 2 * ms), Some(5 * ms));
    assert_eq!(sleep.poll_timeout(Some(10 * ms), 8 * ms), Some(2 * ms));
    assert_eq!(sleep.poll_timeout(Some(10 * ms), 20 * ms), Some(0));
    assert_eq!(Block.poll_timeout(None, 0), None);
    assert_eq!(Block.poll_timeout(Some(10 * ms), 20 * ms), Some(ms));
    assert_eq!(Block.poll_timeout(Some(10 * ms), 2 * ms), Some(8 * ms));
    assert_eq!(ExecutionMode::Spin.cycle_timeout(), Some(0));
    assert_eq!(ExecutionMode::Park.cycle_timeout(), None);
}

#[test]
fn context_epochs_and_mutation() {
    let mut ctx = Context::new();
    assert_eq!(ctx.epoch(), 0);
    assert_eq!(ctx.trigger_time(), 0);
    ctx.increment_epoch();
    ctx.set_trigger_time(42);
    assert_eq!(ctx.epoch(), 1);
    assert_eq!(ctx.trigger_time(), 42);
    assert!(ctx.has_mutated(1));
    assert!(!ctx.has_mutated(0));
}

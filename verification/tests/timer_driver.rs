use wavelet::clock::test_clock::TestClock;
use wavelet::clock::Clock;
use wavelet::event_driver::timer_driver::{TimerDriver, TimerSource};
use wavelet::graph::{Graph, NodeContext};
use wavelet::scheduler::Scheduler;

const MS: u128 = 1_000_000;
const NOW: u128 = 10_000 * MS;

#[test]
fn test_timer_driver_creation() {
    let driver = TimerDriver::new();
    assert_eq!(driver.sequence(), 0);
    assert!(driver.is_empty());
}

#[test]
fn test_register_timer() {
    let mut driver = TimerDriver::new();
    let node_idx = 42;
    let when = NOW + 100 * MS;

    let registration = driver.register_timer(node_idx, when);

    assert_eq!(driver.sequence(), 1);
    assert_eq!(registration.when, when);
    assert_eq!(registration.id, 0);

    assert_eq!(driver.get(&registration), Some(node_idx));
}

#[test]
fn test_multiple_timer_registrations() {
    let mut driver = TimerDriver::new();
    let now = NOW;

    let reg1 = driver.register_timer(1, now + 100 * MS);
    let reg2 = driver.register_timer(2, now + 200 * MS);
    let reg3 = driver.register_timer(3, now + 100 * MS);

    assert_eq!(reg1.id, 0);
    assert_eq!(reg2.id, 1);
    assert_eq!(reg3.id, 2);

    let keys = driver.sources();
    assert_eq!(keys[0], reg1);
    assert_eq!(keys[1], reg3);
    assert_eq!(keys[2], reg2);
}

#[test]
fn test_deregister_timer() {
    let mut driver = TimerDriver::new();
    let node_idx = 42;
    let when = NOW + 100 * MS;

    let registration = driver.register_timer(node_idx, when);
    assert_eq!(driver.len(), 1);

    driver.deregister_timer(registration);
    assert!(driver.is_empty());
}

fn setup() -> (TimerDriver, Graph, Scheduler) {
    let driver = TimerDriver::new();
    let graph = Graph::new();
    let mut scheduler = Scheduler::new();
    scheduler.resize(5);
    (driver, graph, scheduler)
}

#[test]
fn test_poll_no_expired_timers() {
    let (mut driver, mut graph, mut scheduler) = setup();
    let node_idx = graph.add_node(NodeContext::new(1));

    let _registration = driver.register_timer(node_idx, NOW + 10_000 * MS);

    driver.poll(&mut graph, &mut scheduler, NOW, 1);

    assert!(scheduler.pop().is_none());
    assert_eq!(driver.len(), 1);
}

#[test]
fn test_poll_expired_timers() {
    let (mut driver, mut graph, mut scheduler) = setup();
    let node_idx = graph.add_node(NodeContext::new(2));

    let _registration = driver.register_timer(node_idx, NOW - 100 * MS);

    driver.poll(&mut graph, &mut scheduler, NOW, 1);

    assert_eq!(scheduler.pop(), Some(node_idx));
    assert!(driver.is_empty());
}

#[test]
fn test_poll_multiple_expired_timers() {
    let (mut driver, mut graph, mut scheduler) = setup();
    let node1_idx = graph.add_node(NodeContext::new(1));
    let node2_idx = graph.add_node(NodeContext::new(3));
    let node3_idx = graph.add_node(NodeContext::new(2));

    driver.register_timer(node3_idx, NOW - 100 * MS);
    driver.register_timer(node1_idx, NOW - 300 * MS);
    driver.register_timer(node2_idx, NOW - 200 * MS);

    driver.poll(&mut graph, &mut scheduler, NOW, 1);

    let mut scheduled = vec![];
    while let Some(node) = scheduler.pop() {
        scheduled.push(node);
    }

    assert_eq!(scheduled.len(), 3);
    assert_eq!(scheduled[0], node1_idx);
    assert_eq!(scheduled[1], node3_idx);
    assert_eq!(scheduled[2], node2_idx);

    assert!(driver.is_empty());
}

#[test]
fn test_poll_partial_expiry() {
    let (mut driver, mut graph, mut scheduler) = setup();
    let node1_idx = graph.add_node(NodeContext::new(1));
    let node2_idx = graph.add_node(NodeContext::new(1));

    driver.register_timer(node1_idx, NOW - 100 * MS);
    driver.register_timer(node2_idx, NOW + 100 * MS);

    driver.poll(&mut graph, &mut scheduler, NOW, 1);

    assert_eq!(scheduler.pop(), Some(node1_idx));
    assert!(scheduler.pop().is_none());

    assert_eq!(driver.len(), 1);
}

#[test]
fn test_sequence_wraparound() {
    let mut driver = TimerDriver::with_sequence(usize::MAX);

    let reg = driver.register_timer(1, NOW);

    assert_eq!(reg.id, usize::MAX);
    assert_eq!(driver.sequence(), 0);
}

#[test]
fn timer_driver_test_next_timer_tracking() {
    let mut driver = TimerDriver::new();
    let mut clock = TestClock::new();

    assert_eq!(driver.next_timer(), None);

    let cycle_time = clock.cycle_time();
    driver.register_timer(1, cycle_time.now() + 500 * MS);

    let expected_time = cycle_time.now() + 500 * MS;
    assert_eq!(driver.next_timer(), Some(expected_time));
}

#[test]
fn timer_fires_at_its_deadline_not_before() {
    let (mut driver, mut graph, mut scheduler) = setup();
    let a = graph.add_node(NodeContext::new(0));
    driver.register_timer(a, NOW);
    assert_eq!(driver.take_expired(NOW - 1), Vec::<usize>::new());
    assert_eq!(driver.take_expired(NOW), vec![a]);
    driver.poll(&mut graph, &mut scheduler, NOW, 1);
    assert_eq!(scheduler.pop(), None);
}

#[test]
fn deregister_after_register_restores_timers() {
    let mut driver = TimerDriver::new();
    let keep = driver.register_timer(7, NOW + 5);
    let before = driver.sources();
    let r = driver.register_timer(8, NOW);
    assert_eq!(driver.sources(), vec![r, keep]);
    driver.deregister_timer(r);
    assert_eq!(driver.sources(), before);
    // cancelling a timer that is not registered changes nothing
    driver.deregister_timer(TimerSource { when: 1, id: 99 });
    assert_eq!(driver.sources(), before);
}

#[test]
fn timers_sharing_a_deadline_fire_in_registration_order() {
    let mut driver = TimerDriver::new();
    driver.register_timer(3, NOW);
    driver.register_timer(1, NOW);
    driver.register_timer(2, NOW - 1);
    assert_eq!(driver.take_expired(NOW), vec![2, 3, 1]);
    assert!(driver.is_empty());
}

#[test]
fn timer_handle_names_its_timer() {
    let mut driver = TimerDriver::new();
    let handle = wavelet::event_driver::timer_driver::TimerHandle::new(driver.register_timer(4, NOW));
    assert_eq!(driver.get(&handle.source()), Some(4));
    driver.deregister_timer(handle.source());
    assert_eq!(driver.get(&handle.source()), None);
}

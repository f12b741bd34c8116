use wavelet::clock::test_clock::TestClock;
use wavelet::event_driver::ExecutionMode;
use wavelet::executor::Executor;
use wavelet::{Control, ExecutorState, Relationship};

const MS: u128 = 1_000_000;

/// Runs one cycle; `node` decides what each node that runs answers.
fn cycle<F: FnMut(&mut Executor, usize, u128) -> Control>(
    ex: &mut Executor,
    clock: &mut TestClock,
    timeout: Option<u128>,
    mut node: F,
) -> ExecutorState {
    let plan = ex.begin_cycle(clock, timeout);
    let now = plan.cycle_time.now();
    while let Some(n) = ex.next_node() {
        let c = node(ex, n, now);
        if ex.complete_node(c).is_terminated() {
            ex.stop_cycle();
            return ExecutorState::Terminated;
        }
    }
    ex.end_cycle();
    ExecutorState::Running
}

fn root(ex: &mut Executor) -> usize {
    ex.insert_node(&vec![]).0
}

fn child(ex: &mut Executor, parent: usize, rel: Relationship) -> usize {
    let depth = ex.node_depth(parent).unwrap();
    ex.insert_node(&vec![(parent, depth, rel)]).0
}

#[test]
fn executor_test_executor_creation() {
    let executor = Executor::new(ExecutionMode::Spin);
    assert_eq!(executor.epoch(), 0);
}

#[test]
fn executor_test_basic_cycle_execution() {
    let mut executor = Executor::new(ExecutionMode::Spin);
    let mut clock = TestClock::new();
    let node = root(&mut executor);
    executor.yield_now(node);
    let mut count = 0;

    cycle(&mut executor, &mut clock, Some(0), |ex, n, _| {
        count += 1;
        ex.yield_now(n);
        Control::Unchanged
    });
    assert_eq!(count, 1);
    assert_eq!(executor.epoch(), 1);

    cycle(&mut executor, &mut clock, Some(0), |ex, n, _| {
        count += 1;
        ex.yield_now(n);
        Control::Unchanged
    });
    assert_eq!(count, 2);
    assert_eq!(executor.epoch(), 2);
}

#[test]
fn executor_test_triggering_relationship() {
    let mut executor = Executor::new(ExecutionMode::Spin);
    let mut clock = TestClock::new();
    let parent = root(&mut executor);
    executor.yield_now(parent);
    let child_node = child(&mut executor, parent, Relationship::Trigger);
    let (mut p, mut c) = (0, 0);

    cycle(&mut executor, &mut clock, Some(0), |_, n, _| {
        if n == parent {
            p += 1;
            Control::Broadcast
        } else {
            assert_eq!(n, child_node);
            c += 1;
            Control::Unchanged
        }
    });
    assert_eq!(p, 1);
    assert_eq!(c, 1);
}

#[test]
fn executor_test_observe_relationship_does_not_trigger() {
    let mut executor = Executor::new(ExecutionMode::Spin);
    let mut clock = TestClock::new();
    let parent = root(&mut executor);
    executor.yield_now(parent);
    let _child = child(&mut executor, parent, Relationship::Observe);
    let (mut p, mut c) = (0, 0);

    cycle(&mut executor, &mut clock, Some(0), |_, n, _| {
        if n == parent {
            p += 1;
            Control::Broadcast
        } else {
            c += 1;
            Control::Unchanged
        }
    });
    assert_eq!(p, 1);
    assert_eq!(c, 0);
}

#[test]
fn executor_test_io_event_handling() {
    let mut executor = Executor::new(ExecutionMode::Spin);
    let mut clock = TestClock::new();
    let node = root(&mut executor);
    let notifications = executor.notification_handle();
    notifications.push(node).unwrap();
    let mut count = 0;

    cycle(&mut executor, &mut clock, Some(10 * MS), |_, _, _| {
        count += 1;
        Control::Unchanged
    });
    assert_eq!(count, 1);
}

#[test]
fn executor_test_timer_event_handling() {
    let mut executor = Executor::new(ExecutionMode::Spin);
    let mut clock = TestClock::new();
    let node = root(&mut executor);
    executor.yield_now(node);
    let mut count = 0;

    let mut run = |ex: &mut Executor, n: usize, now: u128| {
        count += 1;
        if count == 1 {
            ex.register_timer(n, now + 100 * MS);
        }
        Control::Unchanged
    };
    cycle(&mut executor, &mut clock, Some(0), &mut run);
    cycle(&mut executor, &mut clock, Some(0), &mut run);
    clock.advance(150 * MS);
    cycle(&mut executor, &mut clock, Some(0), &mut run);
    assert_eq!(count, 2);
}

#[test]
fn executor_test_timer_not_expired_yet() {
    let mut executor = Executor::new(ExecutionMode::Spin);
    let mut clock = TestClock::new();
    let node = root(&mut executor);
    executor.yield_now(node);
    let mut count = 0;

    let mut run = |ex: &mut Executor, n: usize, now: u128| {
        count += 1;
        ex.register_timer(n, now + 3_000 * MS);
        Control::Unchanged
    };
    cycle(&mut executor, &mut clock, Some(0), &mut run);
    cycle(&mut executor, &mut clock, Some(0), &mut run);
    assert_eq!(count, 1);
}

#[test]
fn executor_test_multiple_cycles_increment_epoch() {
    let mut executor = Executor::new(ExecutionMode::Spin);
    let mut clock = TestClock::new();

    assert_eq!(executor.epoch(), 0);
    for expected in 1..=3 {
        cycle(&mut executor, &mut clock, Some(0), |_, _, _| Control::Unchanged);
        assert_eq!(executor.epoch(), expected);
    }
}

#[test]
fn executor_test_chain_of_triggering_nodes() {
    let mut executor = Executor::new(ExecutionMode::Spin);
    let mut clock = TestClock::new();
    let node1 = root(&mut executor);
    executor.yield_now(node1);
    let node2 = child(&mut executor, node1, Relationship::Trigger);
    let node3 = child(&mut executor, node2, Relationship::Trigger);
    let mut order = Vec::new();

    cycle(&mut executor, &mut clock, Some(0), |_, n, _| {
        if n == node1 {
            order.push(1);
            Control::Broadcast
        } else if n == node2 {
            order.push(2);
            Control::Broadcast
        } else {
            assert_eq!(n, node3);
            order.push(3);
            Control::Unchanged
        }
    });
    assert_eq!(order, vec![1, 2, 3]);
}

#[test]
fn executor_test_next_timer_tracking() {
    let mut executor = Executor::new(ExecutionMode::Spin);
    let mut clock = TestClock::new();

    assert_eq!(executor.next_timer(), None);
    let node = root(&mut executor);
    executor.yield_now(node);
    assert_eq!(executor.next_timer(), None);

    let mut registered_at = 0;
    cycle(&mut executor, &mut clock, Some(0), |ex, n, now| {
        registered_at = now + 500 * MS;
        ex.register_timer(n, registered_at);
        Control::Unchanged
    });
    assert_eq!(executor.next_timer(), Some(registered_at));
}

#[test]
fn executor_test_yield_driver_integration() {
    let mut executor = Executor::new(ExecutionMode::Spin);
    let mut clock = TestClock::new();
    let node = root(&mut executor);
    executor.yield_now(node);
    let mut count = 0;

    cycle(&mut executor, &mut clock, Some(0), |_, _, _| {
        count += 1;
        Control::Unchanged
    });
    assert_eq!(count, 1);
}

#[test]
fn test_termination_state() {
    let mut executor = Executor::new(ExecutionMode::Spin);
    let mut clock = TestClock::new();
    let node = root(&mut executor);
    executor.yield_now(node);

    let state = cycle(&mut executor, &mut clock, Some(0), |_, _, _| Control::Terminate);
    assert!(state.is_terminated());
}

#[test]
fn executor_sweep_removes_node_at_cycle_end() {
    let mut executor = Executor::new(ExecutionMode::Spin);
    let mut clock = TestClock::new();
    let node1 = root(&mut executor);
    executor.yield_now(node1);
    let node2 = child(&mut executor, node1, Relationship::Trigger);
    let node3 = child(&mut executor, node2, Relationship::Trigger);

    assert_eq!(executor.node_count(), 3);
    let mut removed = Vec::new();
    let plan = executor.begin_cycle(&mut clock, Some(0));
    assert!(!plan.refresh_time);
    while let Some(n) = executor.next_node() {
        let c = if n == node3 { Control::Sweep } else { Control::Broadcast };
        executor.complete_node(c);
    }
    removed.extend(executor.end_cycle());
    assert_eq!(removed, vec![node3]);
    assert_eq!(executor.node_count(), 2);
}

#[test]
fn executor_sweep_poisons_children() {
    let mut executor = Executor::new(ExecutionMode::Spin);
    let mut clock = TestClock::new();
    let node1 = root(&mut executor);
    executor.yield_now(node1);
    let node2 = child(&mut executor, node1, Relationship::Observe);
    let node3 = child(&mut executor, node2, Relationship::Trigger);

    let mut ran = Vec::new();
    executor.begin_cycle(&mut clock, Some(0));
    while let Some(n) = executor.next_node() {
        ran.push(n);
        // every node answers Broadcast; poisoned ones are swept all the same
        executor.complete_node(Control::Broadcast);
        if n == node1 {
            assert!(!executor.is_poisoned(node2));
        }
    }
    let removed = executor.end_cycle();
    assert_eq!(ran, vec![node1]);
    assert!(removed.is_empty());

    // sweeping the root poisons its children, which are swept in turn
    executor.yield_now(node1);
    executor.begin_cycle(&mut clock, Some(0));
    let mut order = Vec::new();
    while let Some(n) = executor.next_node() {
        order.push(n);
        let c = if n == node1 { Control::Sweep } else { Control::Unchanged };
        executor.complete_node(c);
    }
    let removed = executor.end_cycle();
    assert_eq!(order, vec![node1, node2, node3]);
    assert_eq!(removed, vec![node1, node2, node3]);
    assert_eq!(executor.node_count(), 0);
}

#[test]
fn executor_node_runs_once_per_cycle() {
    let mut executor = Executor::new(ExecutionMode::Spin);
    let mut clock = TestClock::new();
    let a = root(&mut executor);
    let b = root(&mut executor);
    let depth = executor.node_depth(a).unwrap();
    let (c, ok) = executor.insert_node(&vec![(a, depth, Relationship::Trigger), (b, depth, Relationship::Trigger)]);
    assert!(ok);
    assert_eq!(executor.node_depth(c), Some(1));
    executor.yield_now(a);
    executor.yield_now(b);
    executor.yield_now(a);
    let mut ran = Vec::new();
    cycle(&mut executor, &mut clock, Some(0), |_, n, _| {
        ran.push(n);
        Control::Broadcast
    });
    assert_eq!(ran, vec![a, b, c]);
    assert!(executor.has_mutated(a));
    assert!(executor.has_mutated(c));
}

#[test]
fn executor_plan_waits_for_the_next_timer_when_idle() {
    let mut executor = Executor::new(ExecutionMode::Park);
    let mut clock = TestClock::new();
    let node = root(&mut executor);
    executor.register_timer(node, 40 * MS);
    let plan = executor.begin_cycle(&mut clock, None);
    assert_eq!(plan.io_timeout, Some(40 * MS));
    assert!(plan.poll_io);
    assert!(plan.refresh_time);
    assert_eq!(executor.next_node(), None);
    executor.end_cycle();

    // a ready node means no waiting
    executor.yield_now(node);
    let plan = executor.begin_cycle(&mut clock, None);
    assert_eq!(plan.io_timeout, Some(0));
    assert!(!plan.refresh_time);
}

#[test]
fn executor_scheduling_below_the_running_depth_is_refused() {
    let mut executor = Executor::new(ExecutionMode::Spin);
    let mut clock = TestClock::new();
    let a = root(&mut executor);
    let b = child(&mut executor, a, Relationship::Observe);
    executor.yield_now(b);
    executor.begin_cycle(&mut clock, Some(0));
    assert_eq!(executor.next_node(), Some(b));
    assert!(executor.schedule_node(a, 0).is_err());
    executor.complete_node(Control::Unchanged);
    assert_eq!(executor.next_node(), None);
    executor.end_cycle();
}

#[test]
fn executor_stop_cycle_drops_queue_and_keeps_marks() {
    let mut executor = Executor::new(ExecutionMode::Spin);
    let mut clock = TestClock::new();
    let a = root(&mut executor);
    let b = root(&mut executor);
    executor.yield_now(a);
    executor.yield_now(b);
    executor.mark_for_sweep(b);
    let mut ran: Vec<usize> = Vec::new();
    let state = cycle(&mut executor, &mut clock, Some(0), |_, n, _| {
        ran.push(n);
        Control::Terminate
    });
    assert!(state.is_terminated());
    assert_eq!(ran, vec![a]);
    assert!(!executor.has_pending());
    assert_eq!(executor.current(), None);
    // Nothing was swept: both nodes are still there.
    assert_eq!(executor.node_count(), 2);
    // The executor can run again; the marked node goes at the end of that cycle.
    let state = cycle(&mut executor, &mut clock, Some(0), |_, _, _| Control::Unchanged);
    assert!(!state.is_terminated());
    assert_eq!(executor.node_count(), 1);
}

#[test]
fn executor_drop_cascade_sweeps_in_one_cycle() {
    let mut executor = Executor::new(ExecutionMode::Spin);
    let mut clock = TestClock::new();
    let node1 = root(&mut executor);
    executor.yield_now(node1);
    let node2 = child(&mut executor, node1, Relationship::Trigger);
    let node3 = child(&mut executor, node2, Relationship::Trigger);
    assert_eq!(executor.node_count(), 3);

    executor.begin_cycle(&mut clock, Some(0));
    while let Some(n) = executor.next_node() {
        let c = if n == node3 { Control::Sweep } else { Control::Broadcast };
        executor.complete_node(c);
    }
    // Removing node3 drops the last handle of node2, whose removal drops the
    // last handle of node1: each is marked and swept before the cycle ends.
    assert_eq!(executor.end_cycle(), vec![node3]);
    executor.mark_for_sweep(node2);
    assert_eq!(executor.end_cycle(), vec![node2]);
    executor.mark_for_sweep(node1);
    assert_eq!(executor.end_cycle(), vec![node1]);
    assert_eq!(executor.end_cycle(), Vec::<usize>::new());
    assert_eq!(executor.node_count(), 0);
}

#[test]
fn executor_cycle_runs_each_node_once_in_depth_order() {
    let mut executor = Executor::new(ExecutionMode::Spin);
    let mut clock = TestClock::new();
    let top = root(&mut executor);
    executor.yield_now(top);
    let left = child(&mut executor, top, Relationship::Trigger);
    let right = child(&mut executor, top, Relationship::Trigger);
    let dl = executor.node_depth(left).unwrap();
    let dr = executor.node_depth(right).unwrap();
    let (bottom, ok) = executor.insert_node(&vec![
        (left, dl, Relationship::Trigger),
        (right, dr, Relationship::Trigger),
    ]);
    assert!(ok);
    let mut ran: Vec<usize> = Vec::new();
    let state = cycle(&mut executor, &mut clock, Some(0), |_, n, _| {
        ran.push(n);
        Control::Broadcast
    });
    assert!(!state.is_terminated());
    // Children of one node are offered newest edge first.
    assert_eq!(ran, vec![top, right, left, bottom]);
    let depths: Vec<u32> = ran.iter().map(|n| executor.node_depth(*n).unwrap()).collect();
    assert_eq!(depths, vec![0, 1, 1, 2]);
}

use wavelet::scheduler::Scheduler;

#[test]
fn scheduler_test_scheduler_basic() {
    let mut scheduler = Scheduler::new();
    scheduler.resize(5);

    let _ = scheduler.schedule(0, 0);
    let _ = scheduler.schedule(1, 1);
    let _ = scheduler.schedule(2, 4);
    let _ = scheduler.schedule(3, 2);
    let _ = scheduler.schedule(4, 3);
    let _ = scheduler.schedule(5, 1);
    let _ = scheduler.schedule(6, 2);
    let _ = scheduler.schedule(7, 4);

    let expected = [(0, 0), (1, 1), (5, 1), (3, 2), (6, 2), (4, 3), (2, 4), (7, 4)];
    for (node, depth) in expected {
        let item = scheduler.pop();
        assert!(item.is_some());
        assert_eq!(item.unwrap(), node);
        assert_eq!(scheduler.curr_depth(), depth);
    }

    let item = scheduler.pop();
    assert!(item.is_none());
}

#[test]
fn scheduler_test_scheduler_needs_to_exhaust() {
    let mut scheduler = Scheduler::new();
    scheduler.resize(3);

    let _ = scheduler.schedule(0, 0);
    let _ = scheduler.schedule(2, 2);

    let item = scheduler.pop();
    assert!(item.is_some());
    assert_eq!(item.unwrap(), 0);
    assert_eq!(scheduler.curr_depth(), 0);

    let item = scheduler.pop();
    assert!(item.is_some());
    assert_eq!(item.unwrap(), 2);
    assert_eq!(scheduler.curr_depth(), 2);

    let item = scheduler.pop();
    assert!(item.is_none());
}

#[test]
fn scheduler_refuses_depth_above_current() {
    let mut scheduler = Scheduler::new();
    scheduler.resize(3);
    assert!(scheduler.schedule(10, 2).is_ok());
    assert_eq!(scheduler.pop(), Some(10));
    assert_eq!(scheduler.curr_depth(), 2);
    let err = scheduler.schedule(11, 1).unwrap_err();
    assert_eq!(err.message(), "cannot schedule a node above the current processing depth");
    assert!(scheduler.schedule(12, 2).is_ok());
    assert_eq!(scheduler.pop(), Some(12));
    assert_eq!(scheduler.pop(), None);
    assert_eq!(scheduler.curr_depth(), 0);
    assert!(!scheduler.has_pending_event());
}

#[test]
fn scheduler_is_fifo_within_a_depth() {
    let mut scheduler = Scheduler::new();
    scheduler.enable_depth(1);
    assert_eq!(scheduler.depth_count(), 2);
    for n in [5, 3, 9] {
        let _ = scheduler.schedule(n, 1);
    }
    assert!(scheduler.has_pending_event());
    assert_eq!(scheduler.pop(), Some(5));
    assert_eq!(scheduler.pop(), Some(3));
    assert_eq!(scheduler.pop(), Some(9));
    assert_eq!(scheduler.pop(), None);
}

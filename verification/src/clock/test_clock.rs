//! A manually driven clock for tests.
//!
//! Its monotonic timeline starts at zero at a fixed wall-clock baseline, and
//! both readings move together by the elapsed time, which only the test
//! changes. Clones share the elapsed time.
use crate::clock::{add_nanos, Clock, CycleTime, TriggerTime};
use std::cell::Cell;
use std::rc::Rc;
use vstd::prelude::*;

verus! {

/// The largest duration std's `Duration` holds, in nanoseconds.
pub const MAX_DURATION_NANOS: u128 = 18_446_744_073_709_551_615_999_999_999;

/// The time elapsed since a test clock's baseline; never past the largest
/// duration.
#[derive(Debug, Clone, Copy)]
pub struct TestClockInner {
    elapsed: u128,
}

impl TestClockInner {
    /// The elapsed time.
    pub closed spec fn spec_elapsed(&self) -> u128 {
        self.elapsed
    }

    /// The elapsed time fits a duration.
    #[verifier::type_invariant]
    pub closed spec fn inv(&self) -> bool {
        self.elapsed <= MAX_DURATION_NANOS
    }

    /// Nothing elapsed.
    pub fn new() -> (c: Self)
        ensures
            c.spec_elapsed() == 0,
    {
        TestClockInner { elapsed: 0 }
    }

    /// Moves on by `duration`; a move past the largest duration stops there.
    pub fn advance(&mut self, duration: u128)
        ensures
            final(self).spec_elapsed() == if old(self).spec_elapsed() + duration <= MAX_DURATION_NANOS {
                old(self).spec_elapsed() + duration
            } else {
                MAX_DURATION_NANOS as int
            },
    {
        proof {
            use_type_invariant(&*self);
        }
        if duration <= MAX_DURATION_NANOS - self.elapsed {
            self.elapsed = self.elapsed + duration;
        } else {
            self.elapsed = MAX_DURATION_NANOS;
        }
    }

    /// Sets the elapsed time; a value past the largest duration stops there.
    pub fn set_elapsed(&mut self, elapsed: u128)
        ensures
            final(self).spec_elapsed() == if elapsed <= MAX_DURATION_NANOS {
                elapsed
            } else {
                MAX_DURATION_NANOS
            },
    {
        if elapsed <= MAX_DURATION_NANOS {
            self.elapsed = elapsed;
        } else {
            self.elapsed = MAX_DURATION_NANOS;
        }
    }

    /// Back to the baseline.
    pub fn reset(&mut self)
        ensures
            final(self).spec_elapsed() == 0,
    {
        self.elapsed = 0;
    }

    /// The elapsed time.
    pub fn elapsed(&self) -> (e: u128)
        ensures
            e == self.spec_elapsed(),
            e <= MAX_DURATION_NANOS,
    {
        proof {
            use_type_invariant(self);
        }
        self.elapsed
    }
}

#[verifier::external_type_specification]
#[verifier::external_body]
#[verifier::reject_recursive_types(T)]
pub struct ExCell<T: ?Sized>(Cell<T>);

/// `Cell::new`: a cell holding `c`.
#[verifier::external_body]
fn state_cell(c: TestClockInner) -> (r: Cell<TestClockInner>) {
    Cell::new(c)
}

/// `Cell::get`: the value last stored through any handle sharing the cell,
/// so nothing is stated of it beyond its type's invariant.
#[verifier::external_body]
fn state_get(c: &Cell<TestClockInner>) -> (r: TestClockInner) {
    c.get()
}

/// `Cell::set`: stores a new value for every handle sharing the cell.
#[verifier::external_body]
fn state_set(c: &Cell<TestClockInner>, v: TestClockInner) {
    c.set(v)
}

/// `Rc::clone`: another handle to the same cell.
#[verifier::external_body]
fn state_share(c: &Rc<Cell<TestClockInner>>) -> (r: Rc<Cell<TestClockInner>>) {
    c.clone()
}

/// A test clock: a fixed wall-clock baseline and an elapsed time that its
/// clones share, so advancing one advances all. The elapsed time may change
/// through any clone, so what a reading returns is stated only as far as it
/// is fixed: the wall-clock reading is the baseline moved on by the
/// monotonic one.
pub struct TestClock {
    baseline_wall_time: i128,
    state: Rc<Cell<TestClockInner>>,
}

impl TestClock {
    /// The wall-clock time at which the monotonic timeline starts.
    pub closed spec fn spec_baseline(&self) -> i128 {
        self.baseline_wall_time
    }

    /// The baseline leaves room for the largest duration.
    #[verifier::type_invariant]
    closed spec fn inv(&self) -> bool {
        self.baseline_wall_time + MAX_DURATION_NANOS <= i128::MAX
    }

    /// A clock at the Unix epoch with nothing elapsed.
    pub fn new() -> (c: Self)
        ensures
            c.spec_baseline() == 0,
    {
        TestClock { baseline_wall_time: 0, state: Rc::new(state_cell(TestClockInner::new())) }
    }

    /// A clock at `wall_time` with nothing elapsed.
    pub fn starting_at(wall_time: i128) -> (c: Self)
        requires
            wall_time + MAX_DURATION_NANOS <= i128::MAX,
        ensures
            c.spec_baseline() == wall_time,
    {
        TestClock { baseline_wall_time: wall_time, state: Rc::new(state_cell(TestClockInner::new())) }
    }

    /// Moves every clone on by `duration`; a move past the largest duration
    /// stops there.
    pub fn advance(&self, duration: u128) {
        let mut s = state_get(&self.state);
        s.advance(duration);
        state_set(&self.state, s);
    }

    /// Sets the elapsed time of every clone; a value past the largest
    /// duration stops there.
    pub fn set_elapsed(&self, elapsed: u128) {
        let mut s = state_get(&self.state);
        s.set_elapsed(elapsed);
        state_set(&self.state, s);
    }

    /// The elapsed time.
    pub fn elapsed(&self) -> (e: u128)
        ensures
            e <= MAX_DURATION_NANOS,
    {
        state_get(&self.state).elapsed()
    }

    /// The monotonic and wall-clock readings, without changing anything: the
    /// elapsed time, and the baseline moved on by it.
    pub fn current_times(&self) -> (r: (u128, i128))
        ensures
            r.0 <= MAX_DURATION_NANOS,
            r.1 == self.spec_baseline() + r.0,
    {
        proof {
            use_type_invariant(self);
        }
        let e = self.elapsed();
        (e, add_nanos(self.baseline_wall_time, e))
    }

    /// Back to the baseline for every clone.
    pub fn reset(&self) {
        let mut s = state_get(&self.state);
        s.reset();
        state_set(&self.state, s);
    }

    /// The current readings; the clock does not move by itself.
    pub fn trigger_time(&mut self) -> (t: TriggerTime)
        ensures
            final(self).spec_baseline() == old(self).spec_baseline(),
            t.system_time == old(self).spec_baseline() + t.instant,
    {
        let (i, w) = self.current_times();
        TriggerTime::new(i, w)
    }

    /// Another handle sharing this clock's time.
    pub fn share(&self) -> (c: TestClock)
        ensures
            c.spec_baseline() == self.spec_baseline(),
    {
        proof {
            use_type_invariant(self);
        }
        TestClock { baseline_wall_time: self.baseline_wall_time, state: state_share(&self.state) }
    }
}

impl Clone for TestClock {
    fn clone(&self) -> Self {
        self.share()
    }
}

impl Clock for TestClock {
    /// The current readings; the wall-clock one is the baseline moved on by
    /// the monotonic one.
    fn cycle_time(&mut self) -> (c: CycleTime)
        ensures
            final(self).spec_baseline() == old(self).spec_baseline(),
            c.unix_nanos() == old(self).spec_baseline() + c.instant_nanos(),
    {
        let (i, w) = self.current_times();
        CycleTime::new(i, w)
    }
}

} // verus!

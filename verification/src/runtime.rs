//! Putting an executor, a clock and an execution mode together.
//!
//! The execution mode decides how long a cycle may wait for I/O when no node
//! is ready; the builder checks that both a clock and a mode were given.
use crate::clock::Clock;
use crate::event_driver::ExecutionMode as DriverMode;
use crate::executor::Executor;
use crate::ExecutorState;
use vstd::prelude::*;

verus! {

/// The shortest wait a timer can ask for: one millisecond, in nanoseconds.
pub const MINIMUM_TIMER_PRECISION: u128 = 1_000_000;

/// How the runtime waits when no node is ready.
pub trait ExecutionMode {}

/// Never waits: polls again at once.
pub struct Spin;

/// Waits at most a fixed time (nanoseconds, at least one millisecond).
pub struct Sleep(u128);

/// Waits until an event arrives or the next timer is due.
pub struct Block;

impl ExecutionMode for Spin {}

impl ExecutionMode for Sleep {}

impl ExecutionMode for Block {}

/// Time from `now` until `deadline`, zero when it has passed.
pub open spec fn time_until(deadline: u128, now: u128) -> u128 {
    if deadline > now {
        (deadline - now) as u128
    } else {
        0
    }
}

/// `time_until` computed.
fn until(deadline: u128, now: u128) -> (d: u128)
    ensures
        d == time_until(deadline, now),
{
    if deadline > now {
        deadline - now
    } else {
        0
    }
}

impl Spin {
    /// The I/O wait of a cycle: none.
    pub fn poll_timeout(&self, next_timer: Option<u128>, now: u128) -> (t: Option<u128>)
        ensures
            t == Some(0u128),
    {
        Some(0)
    }
}

impl Sleep {
    /// The longest wait.
    pub closed spec fn spec_max(&self) -> u128 {
        self.0
    }

    /// A mode that waits at most `duration` nanoseconds, which must be at
    /// least one millisecond.
    pub fn new(duration: u128) -> (s: Self)
        requires
            duration >= MINIMUM_TIMER_PRECISION,
        ensures
            s.spec_max() == duration,
    {
        Sleep(duration)
    }

    /// The longest wait.
    pub fn max_duration(&self) -> (d: u128)
        ensures
            d == self.spec_max(),
    {
        self.0
    }

    /// The I/O wait of a cycle at `now`: until the next timer, but no longer
    /// than the longest wait; unbounded when there is no timer.
    pub fn poll_timeout(&self, next_timer: Option<u128>, now: u128) -> (t: Option<u128>)
        ensures
            t == match next_timer {
                Some(when) => Some(
                    if time_until(when, now) < self.spec_max() {
                        time_until(when, now)
                    } else {
                        self.spec_max()
                    },
                ),
                None => None,
            },
    {
        match next_timer {
            Some(when) => {
                let d = until(when, now);
                Some(
                    if d < self.0 {
                        d
                    } else {
                        self.0
                    },
                )
            },
            None => None,
        }
    }
}

impl Block {
    /// The I/O wait of a cycle at `now`: until the next timer, but at least
    /// one millisecond; unbounded when there is no timer.
    pub fn poll_timeout(&self, next_timer: Option<u128>, now: u128) -> (t: Option<u128>)
        ensures
            t == match next_timer {
                Some(when) => Some(
                    if time_until(when, now) > MINIMUM_TIMER_PRECISION {
                        time_until(when, now)
                    } else {
                        MINIMUM_TIMER_PRECISION
                    },
                ),
                None => None,
            },
    {
        match next_timer {
            Some(when) => {
                let d = until(when, now);
                Some(
                    if d > MINIMUM_TIMER_PRECISION {
                        d
                    } else {
                        MINIMUM_TIMER_PRECISION
                    },
                )
            },
            None => None,
        }
    }
}

/// One cycle of a runtime.
pub trait CycleOnce {
    /// Runs one cycle and says whether the runtime goes on.
    fn cycle_once(&mut self) -> ExecutorState;
}

/// Why a runtime could not be built.
#[derive(Debug, Clone, Copy, PartialEq, Eq, Structural)]
pub enum RuntimeBuilderError {
    /// No clock was given.
    NoClock,
    /// No execution mode was given.
    NoExecutionMode,
}

impl RuntimeBuilderError {
    /// The error's message.
    pub fn message(&self) -> (s: &'static str)
        ensures
            *self is NoClock ==> s@ == "no clock provided"@,
            *self is NoExecutionMode ==> s@ == "no execution mode provided"@,
    {
        match self {
            RuntimeBuilderError::NoClock => "no clock provided",
            RuntimeBuilderError::NoExecutionMode => "no execution mode provided",
        }
    }
}

/// Collects a clock and an execution mode for a runtime.
pub struct RuntimeBuilder<C: Clock, M: ExecutionMode> {
    clock: Option<C>,
    mode: Option<M>,
}

impl<C: Clock, M: ExecutionMode> RuntimeBuilder<C, M> {
    /// The clock given so far.
    pub closed spec fn spec_clock(&self) -> Option<C> {
        self.clock
    }

    /// The mode given so far.
    pub closed spec fn spec_mode(&self) -> Option<M> {
        self.mode
    }

    /// A builder with neither a clock nor a mode.
    pub fn new() -> (b: Self)
        ensures
            b.spec_clock() is None,
            b.spec_mode() is None,
    {
        RuntimeBuilder { clock: None, mode: None }
    }

    /// The same builder with `clock` as its clock.
    pub fn with_clock(self, clock: C) -> (b: Self)
        ensures
            b.spec_clock() == Some(clock),
            b.spec_mode() == self.spec_mode(),
    {
        RuntimeBuilder { clock: Some(clock), mode: self.mode }
    }

    /// The same builder with `mode` as its execution mode.
    pub fn with_mode(self, mode: M) -> (b: Self)
        ensures
            b.spec_clock() == self.spec_clock(),
            b.spec_mode() == Some(mode),
    {
        RuntimeBuilder { clock: self.clock, mode: Some(mode) }
    }

    /// A runtime with a new executor and the given clock and mode; the
    /// missing clock is reported before the missing mode.
    pub fn build(self) -> (r: Result<Runtime<C, M>, RuntimeBuilderError>)
        ensures
            self.spec_clock() is None ==> r == Err::<Runtime<C, M>, RuntimeBuilderError>(
                RuntimeBuilderError::NoClock,
            ),
            self.spec_clock() is Some && self.spec_mode() is None ==> r == Err::<
                Runtime<C, M>,
                RuntimeBuilderError,
            >(RuntimeBuilderError::NoExecutionMode),
            self.spec_clock() is Some && self.spec_mode() is Some ==> (r matches Ok(rt) && rt.spec_clock()
                == self.spec_clock().unwrap() && rt.spec_mode() == self.spec_mode().unwrap()
                && rt.spec_executor().wf() && rt.spec_executor().entries() == crate::graph::GraphEntries::empty()),
            r matches Ok(rt) ==> default_executor(rt.spec_executor()),
    {
        match self.clock {
            None => Err(RuntimeBuilderError::NoClock),
            Some(clock) => match self.mode {
                None => Err(RuntimeBuilderError::NoExecutionMode),
                Some(mode) => {
                    let executor = Executor::new(DriverMode::Park);
                    Ok(Runtime { executor, clock, mode })
                },
            },
        }
    }
}

/// A fresh executor with the default options: no nodes, nothing queued,
/// epoch 0, I/O on, 16 notifications per poll, and a timer driver with no
/// timers, so timers can be registered and fire.
pub open spec fn default_executor(e: Executor) -> bool {
    &&& e.wf()
    &&& e.entries() == crate::graph::GraphEntries::empty()
    &&& e.queues().len() == 0
    &&& e.spec_epoch() == 0
    &&& e.running() is None
    &&& e.marked().len() == 0
    &&& e.events().yields().len() == 0
    &&& e.events().io_on()
    &&& e.events().limit() == 16
    &&& e.events().timers() matches Some(t) && t.timers().len() == 0 && t.next_id() == 0
}

/// A built runtime's executor accepts timers: its event driver has a timer
/// driver, and it has no timer registered yet, so the first one registered
/// is the next to fire.
pub proof fn law_built_executor_has_timers(e: Executor)
    requires
        default_executor(e),
    ensures
        e.events().timers() is Some,
        e.events().timer_count() == 0,
        e.events().next_deadline() is None,
{
}

/// An executor with its clock and execution mode.
pub struct Runtime<C: Clock, M: ExecutionMode> {
    executor: Executor,
    clock: C,
    mode: M,
}

impl<C: Clock, M: ExecutionMode> Runtime<C, M> {
    /// The executor.
    pub closed spec fn spec_executor(&self) -> Executor {
        self.executor
    }

    /// The clock.
    pub closed spec fn spec_clock(&self) -> C {
        self.clock
    }

    /// The execution mode.
    pub closed spec fn spec_mode(&self) -> M {
        self.mode
    }

    /// A builder for a runtime.
    pub fn builder() -> (b: RuntimeBuilder<C, M>)
        ensures
            b.spec_clock() is None,
            b.spec_mode() is None,
    {
        RuntimeBuilder::new()
    }

    /// The executor, clock and mode, taken apart.
    pub fn into_parts(self) -> (p: (Executor, C, M))
        ensures
            p.0 == self.spec_executor(),
            p.1 == self.spec_clock(),
            p.2 == self.spec_mode(),
    {
        (self.executor, self.clock, self.mode)
    }

    /// The execution mode.
    pub fn mode(&self) -> (m: &M)
        ensures
            *m == self.spec_mode(),
    {
        &self.mode
    }
}

} // verus!

//! Event sources that schedule nodes: timers, yields and notifications from
//! other threads, and the plan for the I/O poll that the embedding loop runs.
use crate::clock::{Clock, CycleTime};
use crate::dispatch::{coherent, offer_all, sched_all};
use crate::graph::Graph;
use crate::queue::{queue_new, queue_pop, share};
use crate::scheduler::Scheduler;
use crossbeam_queue::ArrayQueue;
use std::sync::Arc;
use vstd::prelude::*;

pub mod timer_driver;
pub mod yield_driver;

use timer_driver::TimerDriver;
use yield_driver::YieldDriver;

verus! {

/// Lower bound on a timer-driven I/O wait: one millisecond, in nanoseconds.
pub const MINIMUM_TIMER_PRECISION: u128 = 1_000_000;

/// Whether the runtime parks the thread while waiting for events.
#[derive(Debug, Clone, Copy, PartialEq, Eq, Hash, Structural)]
pub enum ExecutionMode {
    /// Never park: lowest latency, highest CPU use.
    Spin,
    /// Park in the I/O poll when nothing is ready.
    Park,
}

impl ExecutionMode {
    /// Whether this is `Park`.
    pub fn is_park(&self) -> (r: bool)
        ensures
            r == (*self is Park),
    {
        match self {
            ExecutionMode::Spin => false,
            ExecutionMode::Park => true,
        }
    }

    /// Whether this is `Spin`.
    pub fn is_spin(&self) -> (r: bool)
        ensures
            r == (*self is Spin),
    {
        match self {
            ExecutionMode::Spin => true,
            ExecutionMode::Park => false,
        }
    }

    /// The timeout a realtime runtime cycles with: none for `Spin` (poll
    /// without waiting), unbounded for `Park`.
    pub fn cycle_timeout(&self) -> (t: Option<u128>)
        ensures
            *self is Spin ==> t == Some(0u128),
            *self is Park ==> t is None,
    {
        match self {
            ExecutionMode::Spin => Some(0),
            ExecutionMode::Park => None,
        }
    }
}

/// Event driver options.
#[derive(Debug, Clone, Copy, PartialEq, Eq, Structural)]
pub struct EventDriverConfig {
    /// Whether an I/O driver is attached.
    pub io_enabled: bool,
    /// Whether timers are available.
    pub timer_enabled: bool,
    /// Capacity of the cross-thread notification queue.
    pub notification_capacity: usize,
    /// Capacity of the I/O event buffer.
    pub io_capacity: usize,
    /// Most notifications taken from the queue per poll.
    pub poll_limit: usize,
}

impl EventDriverConfig {
    /// The default options: I/O and timers on, 256 notification slots, 1024
    /// I/O events, 16 notifications per poll.
    pub fn default_config() -> (c: Self)
        ensures
            c == (EventDriverConfig {
                io_enabled: true,
                timer_enabled: true,
                notification_capacity: 256,
                io_capacity: 1024,
                poll_limit: 16,
            }),
    {
        EventDriverConfig {
            io_enabled: true,
            timer_enabled: true,
            notification_capacity: 256,
            io_capacity: 1024,
            poll_limit: 16,
        }
    }
}

/// Takes at most `limit` indices from the notification queue, in queue
/// order. Also gives what each pop returned, in order (`pops`): the pops
/// stop at the first empty one or after `limit` of them, and the indices
/// taken are exactly the values the pops returned, in pop order.
fn drain_notifications(q: &ArrayQueue<usize>, limit: usize) -> (r: (Vec<usize>, Ghost<Seq<Option<usize>>>))
    ensures
        r.1@.len() <= limit,
        r.0@.len() <= r.1@.len() <= r.0@.len() + 1,
        forall|i: int| 0 <= i < r.0@.len() ==> r.1@[i] == Some(#[trigger] r.0@[i]),
        r.1@.len() == r.0@.len() + 1 ==> r.1@.last() is None,
        r.1@.len() == r.0@.len() ==> r.0@.len() == limit,
{
    let mut r: Vec<usize> = Vec::new();
    let ghost mut pops: Seq<Option<usize>> = Seq::empty();
    let mut i: usize = 0;
    while i < limit
        invariant_except_break
            0 <= i <= limit,
            r@.len() == i,
            pops.len() == i,
            forall|j: int| 0 <= j < r@.len() ==> pops[j] == Some(#[trigger] r@[j]),
        ensures
            pops.len() <= limit,
            r@.len() <= pops.len() <= r@.len() + 1,
            forall|j: int| 0 <= j < r@.len() ==> pops[j] == Some(#[trigger] r@[j]),
            pops.len() == r@.len() + 1 ==> pops.last() is None,
            pops.len() == r@.len() ==> r@.len() == limit,
        decreases limit - i,
    {
        let popped = queue_pop(q);
        proof {
            pops = pops.push(popped);
        }
        match popped {
            None => {
                break;
            },
            Some(x) => {
                r.push(x);
            },
        }
        i = i + 1;
    }
    (r, Ghost(pops))
}

/// The nodes of the timers that fired between two states of an optional
/// timer driver (none without one).
pub open spec fn fired_timers(before: Option<TimerDriver>, after: Option<TimerDriver>) -> Seq<usize> {
    match (before, after) {
        (Some(t), Some(u)) => timer_driver::fired_between(t.timers(), u.timers()),
        _ => Seq::empty(),
    }
}

/// A poll at the monotonic time `now` fired exactly the timers whose
/// deadline is at or before `now` (a prefix of the ordered timers) and left
/// the rest, keeping the sequence counter.
pub open spec fn timers_fired(before: TimerDriver, after: TimerDriver, now: u128) -> bool {
    let k = before.timers().len() - after.timers().len();
    &&& timer_driver::expired_split(before.timers(), now, k)
    &&& after.timers() == before.timers().subrange(k, before.timers().len() as int)
    &&& after.next_id() == before.next_id()
}

/// Time from `now` until `deadline`, zero when the deadline has passed.
pub open spec fn saturating_until(deadline: u128, now: u128) -> u128 {
    if deadline > now {
        (deadline - now) as u128
    } else {
        0
    }
}

/// The I/O wait when no node is ready: bounded by the next timer (but not
/// below one millisecond when a finite timeout is given), unbounded only when
/// there is neither a timeout nor a timer.
pub open spec fn effective_timeout(
    timers_on: bool,
    next_timer: Option<u128>,
    timeout: Option<u128>,
    now: u128,
) -> Option<u128> {
    if !timers_on {
        timeout
    } else {
        match (timeout, next_timer) {
            (Some(t), Some(deadline)) => {
                let d = saturating_until(deadline, now);
                let m = if t < d {
                    t
                } else {
                    d
                };
                Some(
                    if m > MINIMUM_TIMER_PRECISION {
                        m
                    } else {
                        MINIMUM_TIMER_PRECISION
                    },
                )
            },
            (Some(t), None) => Some(t),
            (None, Some(deadline)) => Some(saturating_until(deadline, now)),
            (None, None) => None,
        }
    }
}

/// The time until a deadline: added to `now` it reaches a deadline that is
/// still ahead, and it is zero for one already passed.
pub proof fn law_time_until_deadline(deadline: u128, now: u128)
    ensures
        deadline > now ==> now + saturating_until(deadline, now) == deadline,
        deadline <= now ==> saturating_until(deadline, now) == 0,
{
}

/// The planned I/O wait of an idle cycle. Without timers it is the caller's
/// timeout. With timers, a timeout `t` and a next timer due in `d`, the wait
/// is never longer than `t` nor than `d` unless that bound is under one
/// millisecond, never under one millisecond, and is one of `t`, `d` or one
/// millisecond: the smaller of `t` and `d`, raised to one millisecond. With
/// only one of them it is that one; with neither the wait is unbounded.
pub proof fn law_io_wait_bounded_by_timeout_and_timer(next_timer: Option<u128>, timeout: Option<u128>, now: u128)
    ensures
        effective_timeout(false, next_timer, timeout, now) == timeout,
        (timeout, next_timer) matches (Some(t), Some(deadline)) ==> {
            let d = saturating_until(deadline, now);
            effective_timeout(true, next_timer, timeout, now) matches Some(w) && {
                &&& w >= MINIMUM_TIMER_PRECISION
                &&& (w <= t || w == MINIMUM_TIMER_PRECISION)
                &&& (w <= d || w == MINIMUM_TIMER_PRECISION)
                &&& (w == t || w == d || w == MINIMUM_TIMER_PRECISION)
                &&& (t >= MINIMUM_TIMER_PRECISION && d >= MINIMUM_TIMER_PRECISION ==> w <= t && w <= d && (w == t || w == d))
            }
        },
        (timeout, next_timer) matches (Some(t), None) ==> effective_timeout(true, next_timer, timeout, now) == Some(t),
        (timeout, next_timer) matches (None, Some(deadline)) ==> effective_timeout(true, next_timer, timeout, now) == Some(
            saturating_until(deadline, now),
        ),
        timeout is None && next_timer is None ==> effective_timeout(true, next_timer, timeout, now) is None,
{
}

/// What the embedding loop does with the I/O driver after a poll.
#[derive(Debug, Clone, Copy, PartialEq, Eq, Structural)]
pub struct PollPlan {
    /// The time of this cycle, read after the notifications were taken.
    pub cycle_time: CycleTime,
    /// Whether the I/O driver is polled.
    pub poll_io: bool,
    /// How long the I/O poll may wait (`None`: until an event arrives).
    pub io_timeout: Option<u128>,
    /// Whether the clock is read again after the I/O poll.
    pub refresh_time: bool,
}

/// The event sources of one executor.
pub struct EventDriver {
    timer_driver: Option<TimerDriver>,
    yield_driver: YieldDriver,
    notifications: Arc<ArrayQueue<usize>>,
    poll_limit: usize,
    mode: ExecutionMode,
    io_enabled: bool,
}

impl EventDriver {
    /// Timers, when enabled.
    pub closed spec fn timers(&self) -> Option<TimerDriver> {
        self.timer_driver
    }

    /// Pending yield requests.
    pub closed spec fn yields(&self) -> Seq<usize> {
        self.yield_driver.waiting()
    }

    /// Most notifications taken per poll.
    pub closed spec fn limit(&self) -> usize {
        self.poll_limit
    }

    /// The execution mode.
    pub closed spec fn spec_mode(&self) -> ExecutionMode {
        self.mode
    }

    /// Whether an I/O driver is attached.
    pub closed spec fn io_on(&self) -> bool {
        self.io_enabled
    }

    /// Number of registered timers (0 without timers).
    pub open spec fn timer_count(&self) -> nat {
        match self.timers() {
            Some(t) => t.timers().len(),
            None => 0,
        }
    }

    /// The deadline of the earliest timer, if any.
    pub open spec fn next_deadline(&self) -> Option<u128> {
        match self.timers() {
            Some(t) => if t.timers().len() > 0 {
                Some(t.timers()[0].0.when)
            } else {
                None
            },
            None => None,
        }
    }

    /// The queue other threads push notified node indices into.
    pub closed spec fn notifications(&self) -> Arc<ArrayQueue<usize>> {
        self.notifications
    }

    /// The timer driver, when present, is well formed.
    pub closed spec fn wf(&self) -> bool {
        self.timer_driver matches Some(t) ==> t.wf()
    }

    /// An event driver with the default options.
    pub fn new(mode: ExecutionMode) -> (d: Self)
        ensures
            d.wf(),
            d.io_on(),
            d.timers() matches Some(t) && t.timers().len() == 0 && t.next_id() == 0,
            d.yields() == Seq::<usize>::empty(),
            d.limit() == 16,
            d.spec_mode() == mode,
    {
        Self::with_config(EventDriverConfig::default_config(), mode)
    }

    /// An event driver with the given options.
    pub fn with_config(cfg: EventDriverConfig, mode: ExecutionMode) -> (d: Self)
        requires
            0 < cfg.notification_capacity,
            cfg.notification_capacity < 0x8000_0000_0000_0000,
        ensures
            d.wf(),
            d.io_on() == cfg.io_enabled,
            cfg.timer_enabled ==> (d.timers() matches Some(t) && t.timers().len() == 0
                && t.next_id() == 0),
            !cfg.timer_enabled ==> d.timers() is None,
            d.yields() == Seq::<usize>::empty(),
            d.limit() == cfg.poll_limit,
            d.spec_mode() == mode,
    {
        EventDriver {
            timer_driver: if cfg.timer_enabled {
                Some(TimerDriver::new())
            } else {
                None
            },
            yield_driver: YieldDriver::new(),
            notifications: Arc::new(queue_new(cfg.notification_capacity)),
            poll_limit: cfg.poll_limit,
            mode,
            io_enabled: cfg.io_enabled,
        }
    }

    /// A handle to the queue through which other threads notify nodes.
    pub fn notification_handle(&self) -> (r: Arc<ArrayQueue<usize>>)
        ensures
            r == self.notifications(),
    {
        share(&self.notifications)
    }

    /// Whether timers are enabled.
    pub fn timers_enabled(&self) -> (b: bool)
        ensures
            b == (self.timers() is Some),
    {
        self.timer_driver.is_some()
    }

    /// Whether an I/O driver is attached.
    pub fn io_enabled(&self) -> (b: bool)
        ensures
            b == self.io_on(),
    {
        self.io_enabled
    }

    /// The execution mode.
    pub fn mode(&self) -> (m: ExecutionMode)
        ensures
            m == self.spec_mode(),
    {
        self.mode
    }

    /// Asks for `node_index` to be scheduled at the next poll.
    pub fn yield_now(&mut self, node_index: usize)
        ensures
            final(self).yields() == old(self).yields().push(node_index),
            final(self).timers() == old(self).timers(),
            final(self).limit() == old(self).limit(),
            final(self).spec_mode() == old(self).spec_mode(),
            final(self).io_on() == old(self).io_on(),
            final(self).wf() == old(self).wf(),
    {
        self.yield_driver.yield_now(node_index);
    }

    /// Registers a timer for `idx` at `when`.
    pub fn register_timer(&mut self, idx: usize, when: u128) -> (source:
        timer_driver::TimerSource)
        requires
            old(self).wf(),
            old(self).timers() is Some,
        ensures
            final(self).wf(),
            final(self).timers() is Some,
            source == (timer_driver::TimerSource {
                when,
                id: old(self).timers().unwrap().next_id(),
            }),
            timer_driver::registered(old(self).timers().unwrap().timers(), final(self).timers().unwrap().timers(), source, idx),
            final(self).timers().unwrap().next_id() == old(self).timers().unwrap().next_id().wrapping_add(1),
            final(self).yields() == old(self).yields(),
            final(self).limit() == old(self).limit(),
            final(self).spec_mode() == old(self).spec_mode(),
            final(self).io_on() == old(self).io_on(),
    {
        let mut t = self.timer_driver.take().unwrap();
        let s = t.register_timer(idx, when);
        self.timer_driver = Some(t);
        s
    }

    /// Cancels a timer.
    pub fn deregister_timer(&mut self, source: timer_driver::TimerSource)
        requires
            old(self).wf(),
            old(self).timers() is Some,
        ensures
            final(self).wf(),
            final(self).timers() is Some,
            timer_driver::deregistered(old(self).timers().unwrap().timers(), final(self).timers().unwrap().timers(), source),
            final(self).timers().unwrap().next_id() == old(self).timers().unwrap().next_id(),
            final(self).yields() == old(self).yields(),
            final(self).limit() == old(self).limit(),
            final(self).spec_mode() == old(self).spec_mode(),
            final(self).io_on() == old(self).io_on(),
    {
        let mut t = self.timer_driver.take().unwrap();
        t.deregister_timer(source);
        self.timer_driver = Some(t);
    }

    /// The deadline of the earliest timer (`None` without timers).
    pub fn next_timer(&self) -> (r: Option<u128>)
        requires
            self.wf(),
        ensures
            self.timers() is None ==> r is None,
            self.timers() matches Some(t) ==> (t.timers().len() == 0 ==> r is None) && (
            t.timers().len() > 0 ==> r == Some(t.timers()[0].0.when)),
    {
        match &self.timer_driver {
            Some(t) => t.next_timer(),
            None => None,
        }
    }

    /// Schedules the nodes that notifications, yields and expired timers ask
    /// for, reads the cycle time in between, and says how the I/O driver is
    /// to be polled: without waiting when a node is ready or `timeout` is
    /// zero, else with the timer-bounded wait of [`effective_timeout`].
    pub fn poll<C: Clock>(
        &mut self,
        graph: &mut Graph,
        scheduler: &mut Scheduler,
        clock: &mut C,
        timeout: Option<u128>,
        epoch: usize,
    ) -> (plan: PollPlan)
        requires
            old(self).wf(),
            old(graph).wf(),
            old(scheduler).wf(),
            old(scheduler).current_depth() == 0,
            coherent(old(graph).entries(), old(scheduler).queues()),
            old(scheduler).pending() + old(self).limit() + old(self).yields().len() + (match old(self).timers() {
                Some(t) => t.timers().len(),
                None => 0,
            }) < usize::MAX,
        ensures
            final(self).wf(),
            final(graph).wf(),
            final(scheduler).wf(),
            final(scheduler).current_depth() == 0,
            coherent(final(graph).entries(), final(scheduler).queues()),
            final(self).yields() == Seq::<usize>::empty(),
            final(self).limit() == old(self).limit(),
            final(self).spec_mode() == old(self).spec_mode(),
            final(self).io_on() == old(self).io_on(),
            final(self).timers() is Some == old(self).timers() is Some,
            exists|notified: Seq<usize>|
                notified.len() <= old(self).limit() && (final(graph).entries(), final(scheduler).queues()) == sched_all(
                    sched_all(
                        sched_all(
                            (old(graph).entries(), old(scheduler).queues()),
                            notified,
                            epoch,
                        ),
                        old(self).yields(),
                        epoch,
                    ),
                    fired_timers(old(self).timers(), final(self).timers()),
                    epoch,
                ),
            old(self).timers() matches Some(t) ==> final(self).timers() matches Some(u) && timers_fired(
                t,
                u,
                plan.cycle_time.instant_nanos(),
            ),
            plan.poll_io == old(self).io_on(),
            (final(scheduler).pending() > 0 || timeout == Some(0u128)) ==> {
                &&& plan.io_timeout == Some(0u128)
                &&& !plan.refresh_time
            },
            !(final(scheduler).pending() > 0 || timeout == Some(0u128)) ==> {
                let next = match final(self).timers() {
                    Some(t) => if t.timers().len() > 0 {
                        Some(t.timers()[0].0.when)
                    } else {
                        None
                    },
                    None => None,
                };
                &&& plan.io_timeout == effective_timeout(
                    final(self).timers() is Some,
                    next,
                    timeout,
                    plan.cycle_time.instant_nanos(),
                )
                &&& plan.refresh_time == (old(self).io_on() && old(self).spec_mode() is Park
                    && plan.io_timeout != Some(0u128))
            },
    {
        let (notified, _pops) = drain_notifications(&self.notifications, self.poll_limit);
        proof {
            crate::dispatch::lemma_sched_all_total(
                (graph.entries(), scheduler.queues()),
                notified@,
                epoch,
            );
            scheduler.lemma_wf();
        }
        offer_all(graph, scheduler, &notified, epoch);
        let ghost s1 = (graph.entries(), scheduler.queues());
        let cycle_time = clock.cycle_time();
        proof {
            crate::dispatch::lemma_sched_all_total(s1, self.yield_driver.waiting(), epoch);
            scheduler.lemma_wf();
        }
        self.yield_driver.poll(graph, scheduler, epoch);
        let ghost s2 = (graph.entries(), scheduler.queues());
        let ghost mut fired: Seq<usize> = Seq::empty();
        let ghost timers0 = self.timer_driver;
        match self.timer_driver.take() {
            Some(mut t) => {
                proof {
                    scheduler.lemma_wf();
                }
                let ghost tv = t.timers();
                let now0 = cycle_time.now();
                t.poll(graph, scheduler, now0, epoch);
                proof {
                    let k = choose|k: int|
                        0 <= k <= tv.len() && (forall|i: int|
                            0 <= i < k ==> #[trigger] tv[i].0.when <= now0) && (k
                            < tv.len() ==> tv[k].0.when > now0) && t.timers()
                            == tv.subrange(k, tv.len() as int) && (graph.entries(), scheduler.queues())
                            == sched_all(s2, timer_driver::timer_nodes(tv.subrange(0, k)), epoch);
                    fired = timer_driver::timer_nodes(tv.subrange(0, k));
                    crate::dispatch::lemma_sched_all_total(s2, fired, epoch);
                    assert(tv.len() - t.timers().len() == k);
                    assert(timer_driver::expired_split(tv, now0, k));
                }
                self.timer_driver = Some(t);
                proof {
                    assert(fired == fired_timers(timers0, self.timer_driver));
                }
            },
            None => {},
        }
        proof {
            assert(sched_all(s2, Seq::<usize>::empty(), epoch) == s2);
            crate::dispatch::lemma_sched_all_total(s2, fired, epoch);
        }
        if scheduler.has_pending_event() || timeout == Some(0u128) {
            return PollPlan {
                cycle_time,
                poll_io: self.io_enabled,
                io_timeout: Some(0),
                refresh_time: false,
            };
        }
        let next = self.next_timer();
        let now = cycle_time.now();
        let eff: Option<u128> = if self.timer_driver.is_none() {
            timeout
        } else {
            match (timeout, next) {
                (Some(t), Some(deadline)) => {
                    let d = if deadline > now {
                        deadline - now
                    } else {
                        0
                    };
                    let m = if t < d {
                        t
                    } else {
                        d
                    };
                    Some(
                        if m > MINIMUM_TIMER_PRECISION {
                            m
                        } else {
                            MINIMUM_TIMER_PRECISION
                        },
                    )
                },
                (Some(t), None) => Some(t),
                (None, Some(deadline)) => Some(
                    if deadline > now {
                        deadline - now
                    } else {
                        0
                    },
                ),
                (None, None) => None,
            }
        };
        let refresh = self.io_enabled && self.mode.is_park() && eff != Some(0u128);
        PollPlan { cycle_time, poll_io: self.io_enabled, io_timeout: eff, refresh_time: refresh }
    }
}

} // verus!

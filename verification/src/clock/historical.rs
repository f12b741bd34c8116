//! Replaying a historical interval in fixed time steps.
use crate::clock::{add_nanos, Clock, CycleTime, TriggerTime};
use vstd::prelude::*;

verus! {

/// A half-open wall-clock interval `[start, end)`, in nanoseconds since the
/// Unix epoch.
#[derive(Debug, Clone, Copy, PartialEq, Eq, Structural)]
pub struct Interval {
    /// First instant inside the interval.
    pub start: i128,
    /// First instant after the interval.
    pub end: i128,
}

/// `end - start` when `start < end`, computed without leaving `u128`.
pub fn span_nanos(start: i128, end: i128) -> (d: u128)
    requires
        start < end,
    ensures
        d == end - start,
{
    if start >= 0 {
        (end - start) as u128
    } else if end < 0 {
        (end - start) as u128
    } else {
        let below: u128 = (-(start + 1)) as u128;
        (end as u128) + below + 1
    }
}

impl Interval {
    /// The interval `[start, end)`; `start` must come before `end`.
    pub fn new(start: i128, end: i128) -> (i: Self)
        requires
            start < end,
        ensures
            i.start == start,
            i.end == end,
    {
        Interval { start, end }
    }

    /// The interval's length (zero when `end` is not after `start`).
    pub fn duration(&self) -> (d: u128)
        ensures
            self.start < self.end ==> d == self.end - self.start,
            self.start >= self.end ==> d == 0,
    {
        if self.start < self.end {
            span_nanos(self.start, self.end)
        } else {
            0
        }
    }

    /// Whether `time` lies in `[start, end)`.
    pub fn contains(&self, time: i128) -> (b: bool)
        ensures
            b == (self.start <= time && time < self.end),
    {
        time >= self.start && time < self.end
    }
}

/// The default replay step: 100 microseconds.
pub const DEFAULT_TIME_STEP: u128 = 100_000;

/// A clock that walks through a historical interval in fixed steps: each
/// reading returns the current position and then moves one step on, until
/// the next step would reach the end of the interval. Its monotonic timeline
/// starts at zero at the interval's start.
pub struct HistoricalClock {
    interval: Interval,
    time_step: u128,
    current_time: i128,
    exhausted: bool,
}

impl HistoricalClock {
    /// The interval being replayed.
    pub closed spec fn spec_interval(&self) -> Interval {
        self.interval
    }

    /// The step.
    pub closed spec fn spec_step(&self) -> u128 {
        self.time_step
    }

    /// The current position.
    pub closed spec fn spec_current(&self) -> i128 {
        self.current_time
    }

    /// Whether the interval is used up.
    pub closed spec fn spec_exhausted(&self) -> bool {
        self.exhausted
    }

    /// The monotonic reading that belongs to the current position: the time
    /// elapsed since the interval's start (zero before it).
    pub open spec fn spec_instant(&self) -> u128 {
        if self.spec_current() > self.spec_interval().start {
            (self.spec_current() - self.spec_interval().start) as u128
        } else {
            0
        }
    }

    /// The current position lies in the interval (start included, end
    /// excluded).
    pub open spec fn within(&self) -> bool {
        self.spec_interval().start <= self.spec_current() < self.spec_interval().end
    }

    /// The position reached by one step, if that is still inside the interval.
    pub open spec fn step_lands_inside(&self) -> bool {
        self.spec_current() + self.spec_step() < self.spec_interval().end
    }

    /// A clock over `interval` stepping 100 microseconds.
    pub fn new(interval: Interval) -> (c: Self)
        ensures
            c.spec_interval() == interval,
            c.spec_step() == DEFAULT_TIME_STEP,
            c.spec_current() == interval.start,
            !c.spec_exhausted(),
            interval.start < interval.end ==> c.within(),
    {
        Self::with_time_step(interval, DEFAULT_TIME_STEP)
    }

    /// A clock over `interval` stepping `time_step` nanoseconds.
    pub fn with_time_step(interval: Interval, time_step: u128) -> (c: Self)
        ensures
            c.spec_interval() == interval,
            c.spec_step() == time_step,
            c.spec_current() == interval.start,
            !c.spec_exhausted(),
            interval.start < interval.end ==> c.within(),
    {
        HistoricalClock {
            current_time: interval.start,
            interval,
            time_step,
            exhausted: false,
        }
    }

    /// Whether the interval is used up.
    pub fn is_exhausted(&self) -> (b: bool)
        ensures
            b == self.spec_exhausted(),
    {
        self.exhausted
    }

    /// The current position.
    pub fn current_time(&self) -> (t: i128)
        ensures
            t == self.spec_current(),
    {
        self.current_time
    }

    /// The interval being replayed.
    pub fn interval(&self) -> (i: &Interval)
        ensures
            *i == self.spec_interval(),
    {
        &self.interval
    }

    /// The step.
    pub fn time_step(&self) -> (s: u128)
        ensures
            s == self.spec_step(),
    {
        self.time_step
    }

    /// Back to the interval's start, not exhausted.
    pub fn reset(&mut self)
        ensures
            final(self).spec_interval() == old(self).spec_interval(),
            final(self).spec_step() == old(self).spec_step(),
            final(self).spec_current() == old(self).spec_interval().start,
            !final(self).spec_exhausted(),
            old(self).spec_interval().start < old(self).spec_interval().end ==> final(self).within(),
    {
        self.current_time = self.interval.start;
        self.exhausted = false;
    }

    /// The monotonic reading of the current position.
    pub fn current_instant(&self) -> (i: u128)
        ensures
            i == self.spec_instant(),
    {
        if self.current_time > self.interval.start {
            span_nanos(self.interval.start, self.current_time)
        } else {
            0
        }
    }

    /// Moves one step on; when that step would reach the end of the interval
    /// the position stays and the clock is exhausted instead.
    pub fn advance(&mut self)
        ensures
            final(self).spec_interval() == old(self).spec_interval(),
            final(self).spec_step() == old(self).spec_step(),
            old(self).spec_exhausted() ==> final(self).spec_current() == old(self).spec_current()
                && final(self).spec_exhausted(),
            !old(self).spec_exhausted() && old(self).step_lands_inside() ==> final(self).spec_current()
                == old(self).spec_current() + old(self).spec_step() && !final(self).spec_exhausted(),
            !old(self).spec_exhausted() && !old(self).step_lands_inside() ==> final(self).spec_current()
                == old(self).spec_current() && final(self).spec_exhausted(),
            old(self).within() ==> final(self).within(),
    {
        if self.exhausted {
            return;
        }
        if self.current_time >= self.interval.end {
            self.exhausted = true;
        } else {
            let room = span_nanos(self.current_time, self.interval.end);
            if self.time_step >= room {
                self.exhausted = true;
            } else {
                self.current_time = add_nanos(self.current_time, self.time_step);
            }
        }
    }

    /// The current position (monotonic and wall clock), after which the
    /// clock moves one step on.
    pub fn trigger_time(&mut self) -> (t: TriggerTime)
        ensures
            t.instant == old(self).spec_instant(),
            t.system_time == old(self).spec_current(),
            old(self).within() ==> t.instant == t.system_time - old(self).spec_interval().start,
            final(self).spec_interval() == old(self).spec_interval(),
            final(self).spec_step() == old(self).spec_step(),
            old(self).spec_exhausted() ==> final(self).spec_current() == old(self).spec_current()
                && final(self).spec_exhausted(),
            !old(self).spec_exhausted() && old(self).step_lands_inside() ==> final(self).spec_current()
                == old(self).spec_current() + old(self).spec_step() && !final(self).spec_exhausted(),
            !old(self).spec_exhausted() && !old(self).step_lands_inside() ==> final(self).spec_current()
                == old(self).spec_current() && final(self).spec_exhausted(),
            old(self).within() ==> final(self).within(),
    {
        let result = TriggerTime::new(self.current_instant(), self.current_time);
        self.advance();
        result
    }
}

impl Clock for HistoricalClock {
    /// The current position, after which the clock moves one step on (see
    /// [`HistoricalClock::trigger_time`]).
    fn cycle_time(&mut self) -> (c: CycleTime)
        ensures
            c.instant_nanos() == old(self).spec_instant(),
            c.unix_nanos() == old(self).spec_current(),
            old(self).within() ==> c.instant_nanos() == c.unix_nanos() - old(self).spec_interval().start,
            final(self).spec_interval() == old(self).spec_interval(),
            final(self).spec_step() == old(self).spec_step(),
            old(self).spec_exhausted() ==> final(self).spec_current() == old(self).spec_current()
                && final(self).spec_exhausted(),
            !old(self).spec_exhausted() && old(self).step_lands_inside() ==> final(self).spec_current()
                == old(self).spec_current() + old(self).spec_step() && !final(self).spec_exhausted(),
            !old(self).spec_exhausted() && !old(self).step_lands_inside() ==> final(self).spec_current()
                == old(self).spec_current() && final(self).spec_exhausted(),
            old(self).within() ==> final(self).within(),
    {
        let t = self.trigger_time();
        t.to_cycle_time()
    }
}

} // verus!

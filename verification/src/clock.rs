//! Time as the runtime sees it.
//!
//! A cycle carries two readings of the same moment: a monotonic instant, in
//! nanoseconds on the clock's own monotonic timeline, used for timers and
//! durations; and a wall-clock time, in nanoseconds since the Unix epoch,
//! used for timestamps. Durations are nanosecond counts.
use vstd::prelude::*;

pub mod cached;
pub mod historical;
pub mod precision_clock;
pub mod system;
pub mod test_clock;

verus! {

/// `t + d`: a wall-clock time moved on by a duration.
pub fn add_nanos(t: i128, d: u128) -> (r: i128)
    requires
        t + d <= i128::MAX,
    ensures
        r == t + d,
{
    if t >= 0 {
        t + d as i128
    } else {
        let below: u128 = (-(t + 1)) as u128;
        if d > below {
            (d - below - 1) as i128
        } else {
            t + d as i128
        }
    }
}

/// `t + d`, or the largest wall-clock time where that does not fit.
pub fn saturating_add_nanos(t: i128, d: u128) -> (r: i128)
    ensures
        r == if t + d <= i128::MAX {
            t + d
        } else {
            i128::MAX as int
        },
{
    let headroom: u128 = if t >= 0 {
        (i128::MAX - t) as u128
    } else {
        (i128::MAX as u128) + ((-(t + 1)) as u128) + 1
    };
    if d > headroom {
        i128::MAX
    } else {
        add_nanos(t, d)
    }
}

/// One moment, read both from the monotonic clock and from the wall clock.
#[derive(Debug, Clone, Copy, PartialEq, Eq, Structural)]
pub struct CycleTime {
    instant: u128,
    unix_time: i128,
}

impl CycleTime {
    /// The monotonic reading, in nanoseconds.
    pub closed spec fn instant_nanos(&self) -> u128 {
        self.instant
    }

    /// The wall-clock reading, in nanoseconds since the Unix epoch.
    pub closed spec fn unix_nanos(&self) -> i128 {
        self.unix_time
    }

    /// A cycle time from a monotonic instant and a wall-clock time.
    pub fn new(instant: u128, system_time: i128) -> (c: Self)
        ensures
            c.instant_nanos() == instant,
            c.unix_nanos() == system_time,
    {
        CycleTime { instant, unix_time: system_time }
    }

    /// The monotonic instant.
    pub fn now(&self) -> (i: u128)
        ensures
            i == self.instant_nanos(),
    {
        self.instant
    }

    /// The wall-clock time, in nanoseconds since the Unix epoch.
    pub fn unix_timestamp(&self) -> (t: i128)
        ensures
            t == self.unix_nanos(),
    {
        self.unix_time
    }

    /// The wall-clock time, in nanoseconds since the Unix epoch.
    pub fn unix_timestamp_nanos(&self) -> (t: i128)
        ensures
            t == self.unix_nanos(),
    {
        self.unix_time
    }
}

/// A monotonic instant and the wall-clock time of the same moment.
#[derive(Debug, Clone, Copy, PartialEq, Eq, Structural)]
pub struct TriggerTime {
    /// Monotonic reading, in nanoseconds.
    pub instant: u128,
    /// Wall-clock reading, in nanoseconds since the Unix epoch.
    pub system_time: i128,
}

impl TriggerTime {
    /// A trigger time from a monotonic instant and a wall-clock time.
    pub fn new(instant: u128, system_time: i128) -> (t: Self)
        ensures
            t.instant == instant,
            t.system_time == system_time,
    {
        TriggerTime { instant, system_time }
    }

    /// The same moment as a [`CycleTime`].
    pub fn to_cycle_time(&self) -> (c: CycleTime)
        ensures
            c.instant_nanos() == self.instant,
            c.unix_nanos() == self.system_time,
    {
        CycleTime::new(self.instant, self.system_time)
    }
}

/// A source of cycle times.
pub trait Clock {
    /// The time of the current cycle.
    fn cycle_time(&mut self) -> CycleTime;
}

} // verus!

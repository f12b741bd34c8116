//! A wall clock that caches one wall-clock reading and moves it on by the
//! monotonic time elapsed since, taking a fresh reading once the resync
//! interval has passed.
use crate::clock::system::{monotonic_now, nanos_between, wall_clock_now};
use crate::clock::{saturating_add_nanos, Clock, CycleTime, TriggerTime};
use std::time::Instant;
use vstd::prelude::*;

verus! {

/// Default time between resyncs: one second, in nanoseconds.
pub const DEFAULT_CACHE_RESYNC_INTERVAL: u128 = 1_000_000_000;

/// A wall clock read through the monotonic clock, resynced at a fixed
/// interval. Its monotonic timeline counts nanoseconds since it was made.
pub struct PrecisionClock {
    anchor: Instant,
    base_wall_time: i128,
    base_instant: u128,
    last_resync: u128,
    resync_interval: u128,
    wall_reading: Ghost<i128>,
    reading_instant: Ghost<u128>,
    resyncs: Ghost<nat>,
}

/// Reads the monotonic clock as nanoseconds since `anchor`.
fn elapsed_since(anchor: &Instant) -> u128 {
    let now = monotonic_now();
    nanos_between(&now, anchor)
}

/// `a - b`, or zero when `b` is larger.
pub open spec fn nanos_after(a: u128, b: u128) -> int {
    if a > b {
        a - b
    } else {
        0
    }
}

impl PrecisionClock {
    /// Time between resyncs.
    pub closed spec fn spec_resync_interval(&self) -> u128 {
        self.resync_interval
    }

    /// Wall-clock time of the cached reading.
    pub closed spec fn spec_base_wall(&self) -> i128 {
        self.base_wall_time
    }

    /// Monotonic time of the cached reading.
    pub closed spec fn spec_base_instant(&self) -> u128 {
        self.base_instant
    }

    /// Monotonic time of the last resync.
    pub closed spec fn spec_last_resync(&self) -> u128 {
        self.last_resync
    }

    /// The wall-clock reading taken by the latest resync (or when the clock
    /// was made).
    pub closed spec fn spec_wall_reading(&self) -> i128 {
        self.wall_reading@
    }

    /// The monotonic time at which that reading was taken.
    pub closed spec fn spec_reading_instant(&self) -> u128 {
        self.reading_instant@
    }

    /// How many resyncs took a fresh reading since the clock was made.
    pub closed spec fn spec_resyncs(&self) -> nat {
        self.resyncs@
    }

    /// The cached reading is the latest wall-clock reading, at the
    /// monotonic time it was taken.
    pub open spec fn holds_latest_reading(&self) -> bool {
        &&& self.spec_base_wall() == self.spec_wall_reading()
        &&& self.spec_base_instant() == self.spec_reading_instant()
    }

    /// The wall-clock time this clock gives at the monotonic time `now`: the
    /// cached reading moved on by the time since it (none when `now` is
    /// earlier), or the largest time where that does not fit.
    pub open spec fn spec_wall_at(&self, now: u128) -> int {
        let t = self.spec_base_wall() + nanos_after(now, self.spec_base_instant());
        if t <= i128::MAX {
            t
        } else {
            i128::MAX as int
        }
    }

    /// Whether a resync is due at the monotonic time `now`.
    pub open spec fn spec_resync_due(&self, now: u128) -> bool {
        nanos_after(now, self.spec_last_resync()) >= self.spec_resync_interval()
    }

    /// A clock with a fresh reading, resynced every second.
    pub fn new() -> (c: Self)
        ensures
            c.spec_resync_interval() == DEFAULT_CACHE_RESYNC_INTERVAL,
            c.spec_base_instant() == c.spec_last_resync(),
            c.spec_base_instant() == 0,
            c.holds_latest_reading(),
    {
        let anchor = monotonic_now();
        let wall = wall_clock_now();
        PrecisionClock {
            anchor,
            base_wall_time: wall,
            base_instant: 0,
            last_resync: 0,
            resync_interval: DEFAULT_CACHE_RESYNC_INTERVAL,
            wall_reading: Ghost(wall),
            reading_instant: Ghost(0),
            resyncs: Ghost(0),
        }
    }

    /// The same clock, resynced every `interval` nanoseconds.
    pub fn with_resync_interval(self, interval: u128) -> (c: Self)
        ensures
            c.spec_resync_interval() == interval,
            c.spec_base_wall() == self.spec_base_wall(),
            c.spec_base_instant() == self.spec_base_instant(),
            c.spec_last_resync() == self.spec_last_resync(),
            c.spec_wall_reading() == self.spec_wall_reading(),
            c.spec_reading_instant() == self.spec_reading_instant(),
            c.spec_resyncs() == self.spec_resyncs(),
    {
        let mut c = self;
        c.resync_interval = interval;
        c
    }

    /// Time between resyncs.
    pub fn resync_interval(&self) -> (d: u128)
        ensures
            d == self.spec_resync_interval(),
    {
        self.resync_interval
    }

    /// Takes a fresh wall-clock reading as the cached one.
    pub fn resync(&mut self)
        ensures
            final(self).spec_resync_interval() == old(self).spec_resync_interval(),
            final(self).spec_base_instant() == final(self).spec_last_resync(),
            final(self).holds_latest_reading(),
            final(self).spec_resyncs() == old(self).spec_resyncs() + 1,
    {
        let now = elapsed_since(&self.anchor);
        let wall = wall_clock_now();
        self.base_wall_time = wall;
        self.base_instant = now;
        self.last_resync = now;
        self.wall_reading = Ghost(wall);
        self.reading_instant = Ghost(now);
        self.resyncs = Ghost(self.resyncs@ + 1);
    }

    /// Resyncs when the resync interval has passed since the last resync,
    /// as of the monotonic time `now`.
    pub fn check_and_resync(&mut self, now: u128)
        ensures
            final(self).spec_resync_interval() == old(self).spec_resync_interval(),
            old(self).spec_resync_due(now) ==> final(self).spec_base_instant()
                == final(self).spec_last_resync(),
            old(self).spec_resync_due(now) ==> final(self).holds_latest_reading(),
            old(self).spec_resync_due(now) ==> final(self).spec_resyncs() == old(self).spec_resyncs() + 1,
            !old(self).spec_resync_due(now) ==> *final(self) == *old(self),
    {
        let since = if now > self.last_resync {
            now - self.last_resync
        } else {
            0
        };
        if since >= self.resync_interval {
            self.resync();
        }
    }

    /// The wall-clock time at the monotonic time `now`.
    pub fn wall_at(&self, now: u128) -> (t: i128)
        ensures
            t == self.spec_wall_at(now),
    {
        let elapsed = if now > self.base_instant {
            now - self.base_instant
        } else {
            0
        };
        saturating_add_nanos(self.base_wall_time, elapsed)
    }

    /// The current monotonic time and the wall-clock time for it, after a
    /// resync if one is due.
    pub fn trigger_time(&mut self) -> (t: TriggerTime)
        ensures
            final(self).spec_resync_interval() == old(self).spec_resync_interval(),
            t.system_time == final(self).spec_wall_at(t.instant),
            !old(self).spec_resync_due(t.instant) ==> *final(self) == *old(self),
            old(self).spec_resync_due(t.instant) ==> final(self).spec_base_instant()
                == final(self).spec_last_resync(),
            old(self).spec_resync_due(t.instant) ==> final(self).holds_latest_reading(),
            old(self).spec_resync_due(t.instant) ==> final(self).spec_resyncs() == old(self).spec_resyncs() + 1,
    {
        let now = elapsed_since(&self.anchor);
        self.check_and_resync(now);
        let wall = self.wall_at(now);
        TriggerTime::new(now, wall)
    }

    /// The current wall-clock time in nanoseconds since the Unix epoch,
    /// after a resync if one is due.
    pub fn unix_nanos(&mut self) -> (r: i128)
        ensures
            final(self).spec_resync_interval() == old(self).spec_resync_interval(),
            exists|now: u128|
                #![trigger final(self).spec_wall_at(now)]
                {
                    &&& r == final(self).spec_wall_at(now)
                    &&& !old(self).spec_resync_due(now) ==> *final(self) == *old(self)
                    &&& old(self).spec_resync_due(now) ==> final(self).spec_base_instant()
                        == final(self).spec_last_resync()
                    &&& old(self).spec_resync_due(now) ==> final(self).holds_latest_reading()
                    &&& old(self).spec_resync_due(now) ==> final(self).spec_resyncs() == old(self).spec_resyncs() + 1
                },
    {
        let t = self.trigger_time();
        t.system_time
    }
}

impl Clock for PrecisionClock {
    /// The current monotonic time and the wall-clock time for it, after a
    /// resync if one is due.
    fn cycle_time(&mut self) -> (c: CycleTime)
        ensures
            final(self).spec_resync_interval() == old(self).spec_resync_interval(),
            c.unix_nanos() == final(self).spec_wall_at(c.instant_nanos()),
            !old(self).spec_resync_due(c.instant_nanos()) ==> *final(self) == *old(self),
            old(self).spec_resync_due(c.instant_nanos()) ==> final(self).spec_base_instant()
                == final(self).spec_last_resync(),
            old(self).spec_resync_due(c.instant_nanos()) ==> final(self).holds_latest_reading(),
            old(self).spec_resync_due(c.instant_nanos()) ==> final(self).spec_resyncs() == old(self).spec_resyncs() + 1,
    {
        self.trigger_time().to_cycle_time()
    }
}

/// A clock that holds its latest reading gives exactly that reading at
/// the monotonic time it was taken, and moves on from it by the monotonic
/// time elapsed since (below the largest wall-clock time): after a resync,
/// the time it tells is the fresh reading, not an older one.
pub proof fn law_resync_tells_fresh_reading(c: &PrecisionClock, now: u128)
    requires
        c.holds_latest_reading(),
        c.spec_reading_instant() <= now,
        c.spec_wall_reading() + (now - c.spec_reading_instant()) <= i128::MAX,
    ensures
        c.spec_wall_at(c.spec_reading_instant()) == c.spec_wall_reading(),
        c.spec_wall_at(now) == c.spec_wall_reading() + (now - c.spec_reading_instant()),
{
}

/// Between resyncs the clock never goes back: a later monotonic time gives
/// a wall-clock time no earlier.
pub proof fn law_wall_time_never_goes_back(c: &PrecisionClock, n1: u128, n2: u128)
    requires
        n1 <= n2,
    ensures
        c.spec_wall_at(n1) <= c.spec_wall_at(n2),
{
}

/// Between resyncs the wall-clock time moves exactly as the monotonic time
/// does, from the cached reading on and below the largest wall-clock time.
pub proof fn law_wall_time_follows_monotonic(c: &PrecisionClock, n1: u128, n2: u128)
    requires
        c.spec_base_instant() <= n1 <= n2,
        c.spec_wall_at(n2) < i128::MAX,
    ensures
        c.spec_wall_at(n2) - c.spec_wall_at(n1) == n2 - n1,
{
}

} // verus!

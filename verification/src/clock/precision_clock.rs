//! A wall clock read through the monotonic clock: the wall time is sampled
//! once, carefully, and later readings add the monotonic time elapsed since.
use crate::clock::system::{monotonic_now, nanos_between, wall_clock_now};
use crate::clock::{saturating_add_nanos, Clock, CycleTime};
use std::time::Instant;
use vstd::prelude::*;

verus! {

/// Default time between automatic resyncs: one hour, in nanoseconds.
pub const DEFAULT_RESYNC_INTERVAL: u128 = 3_600_000_000_000;

/// The worst measurement variance considered at all: one second.
pub const WORST_VARIANCE: u128 = 1_000_000_000;

/// Operating systems with their own timing defaults.
#[derive(Debug, Clone, Copy, PartialEq, Eq, Structural)]
pub enum Platform {
    /// Fast, consistent timing.
    Linux,
    /// More variable timing.
    Windows,
    /// Good but variable timing.
    MacOs,
    /// Any other system.
    Other,
}

impl Platform {
    /// Acceptable variance of one wall-clock measurement, in nanoseconds.
    pub open spec fn spec_threshold(self) -> u128 {
        match self {
            Platform::Linux => 500,
            Platform::Windows => 2000,
            Platform::MacOs => 1000,
            Platform::Other => 1500,
        }
    }

    /// Measurement attempts per resync.
    pub open spec fn spec_retries(self) -> u32 {
        match self {
            Platform::Linux => 5,
            Platform::Windows => 20,
            Platform::MacOs => 10,
            Platform::Other => 15,
        }
    }

    /// Acceptable variance of one wall-clock measurement, in nanoseconds.
    pub fn measurement_threshold(self) -> (t: u128)
        ensures
            t == self.spec_threshold(),
    {
        match self {
            Platform::Linux => 500,
            Platform::Windows => 2000,
            Platform::MacOs => 1000,
            Platform::Other => 1500,
        }
    }

    /// Measurement attempts per resync.
    pub fn max_retries(self) -> (n: u32)
        ensures
            n == self.spec_retries(),
    {
        match self {
            Platform::Linux => 5,
            Platform::Windows => 20,
            Platform::MacOs => 10,
            Platform::Other => 15,
        }
    }
}

/// One bracketed wall-clock measurement: the midpoint of the two monotonic
/// readings around it, the wall-clock reading, and the distance between the
/// two monotonic readings.
#[derive(Debug, Clone, Copy, PartialEq, Eq, Structural)]
pub struct Sample {
    /// Estimated monotonic time of the wall-clock reading.
    pub instant: u128,
    /// The wall-clock reading.
    pub wall: i128,
    /// Distance between the monotonic readings around it.
    pub variance: u128,
}

/// The best of a run of samples: each sample with a smaller variance than
/// every earlier one (and than one second) replaces the current best.
pub open spec fn best_of(samples: Seq<Sample>) -> Option<Sample>
    decreases samples.len(),
{
    if samples.len() == 0 {
        None
    } else {
        let b = best_of(samples.drop_last());
        let s = samples.last();
        let bound = match b {
            Some(x) => x.variance,
            None => WORST_VARIANCE,
        };
        if s.variance < bound {
            Some(s)
        } else {
            b
        }
    }
}

/// The sampling stops at the first sample that becomes the best and meets
/// the threshold.
pub open spec fn stops_at(samples: Seq<Sample>, i: int, threshold: u128) -> bool {
    best_of(samples.subrange(0, i + 1)) == Some(samples[i]) && samples[i].variance <= threshold
}

/// One bracketed measurement from its readings: the monotonic reading
/// `before`, the wall-clock reading `wall` and the monotonic reading `after`.
/// Its variance is the time between the two monotonic readings (zero when
/// `after` is not after `before`), its instant their midpoint.
pub open spec fn sample_spec(before: u128, wall: i128, after: u128) -> Sample {
    let variance: u128 = if after > before {
        (after - before) as u128
    } else {
        0
    };
    Sample { instant: (before + variance / 2) as u128, wall, variance }
}

/// The sample of one bracketed measurement (see [`sample_spec`]).
pub fn sample_of(before: u128, wall: i128, after: u128) -> (s: Sample)
    ensures
        s == sample_spec(before, wall, after),
{
    let variance = if after > before {
        after - before
    } else {
        0
    };
    Sample { instant: before + variance / 2, wall, variance }
}

/// The samples of a run of readings `(before, wall, after)`.
pub open spec fn samples_of(readings: Seq<(u128, i128, u128)>) -> Seq<Sample> {
    readings.map_values(|r: (u128, i128, u128)| sample_spec(r.0, r.1, r.2))
}

/// A run of readings taken one after another on the monotonic clock, all
/// between the monotonic times `from` and `to`.
pub open spec fn readings_in_order(readings: Seq<(u128, i128, u128)>, from: u128, to: u128) -> bool {
    &&& from <= to
    &&& forall|i: int|
        0 <= i < readings.len() ==> from <= #[trigger] readings[i].0 && readings[i].0 <= readings[i].2
            && readings[i].2 <= to
    &&& forall|i: int, j: int|
        0 <= i < j < readings.len() ==> #[trigger] readings[i].2 <= #[trigger] readings[j].0
}

/// A wall clock that follows the monotonic clock and resyncs periodically.
/// Its monotonic timeline counts nanoseconds since the clock was made.
pub struct PrecisionClock {
    anchor: Instant,
    latest: u128,
    base_wall_time: i128,
    base_instant: u128,
    last_resync: u128,
    resync_interval: u128,
    measurement_threshold: u128,
    max_measurement_retries: u32,
    is_accurate: bool,
}

impl PrecisionClock {
    /// Time between automatic resyncs.
    pub closed spec fn spec_resync_interval(&self) -> u128 {
        self.resync_interval
    }

    /// Acceptable measurement variance.
    pub closed spec fn spec_threshold(&self) -> u128 {
        self.measurement_threshold
    }

    /// Attempts per resync.
    pub closed spec fn spec_retries(&self) -> u32 {
        self.max_measurement_retries
    }

    /// Whether the last resync met the threshold.
    pub closed spec fn spec_accurate(&self) -> bool {
        self.is_accurate
    }

    /// Wall-clock time of the baseline.
    pub closed spec fn spec_base_wall(&self) -> i128 {
        self.base_wall_time
    }

    /// Monotonic time of the baseline.
    pub closed spec fn spec_base_instant(&self) -> u128 {
        self.base_instant
    }

    /// Monotonic time of the last resync.
    pub closed spec fn spec_last_resync(&self) -> u128 {
        self.last_resync
    }

    /// The latest monotonic reading this clock took.
    pub closed spec fn spec_latest(&self) -> u128 {
        self.latest
    }

    /// The baseline and the last resync were read no later than the latest
    /// reading.
    #[verifier::type_invariant]
    closed spec fn inv(&self) -> bool {
        &&& self.base_instant <= self.latest
        &&& self.last_resync <= self.latest
    }

    /// A clock with the defaults of `platform` (the platform the caller runs
    /// on): resync every hour, and that platform's threshold and attempts.
    pub fn new(platform: Platform) -> (c: Self)
        ensures
            c.spec_resync_interval() == DEFAULT_RESYNC_INTERVAL,
            c.spec_threshold() == platform.spec_threshold(),
            c.spec_retries() == platform.spec_retries(),
            exists|b: PrecisionClock|
                b.spec_threshold() == platform.spec_threshold() && b.spec_retries()
                    == platform.spec_retries() && #[trigger] resynced(&b, &c),
    {
        Self::with_config(DEFAULT_RESYNC_INTERVAL, platform.measurement_threshold(), platform.max_retries())
    }

    /// A clock with the given resync interval, threshold and attempts.
    pub fn with_config(resync_interval: u128, measurement_threshold: u128, max_retries: u32) -> (c:
        Self)
        ensures
            c.spec_resync_interval() == resync_interval,
            c.spec_threshold() == measurement_threshold,
            c.spec_retries() == max_retries,
            exists|b: PrecisionClock|
                b.spec_threshold() == measurement_threshold && b.spec_retries() == max_retries
                    && #[trigger] resynced(&b, &c),
    {
        let anchor = monotonic_now();
        let wall = wall_clock_now();
        let mut clock = PrecisionClock {
            anchor,
            latest: 0,
            base_wall_time: wall,
            base_instant: 0,
            last_resync: 0,
            resync_interval,
            measurement_threshold,
            max_measurement_retries: max_retries,
            is_accurate: false,
        };
        let ghost before = clock;
        clock.resync();
        assert(resynced(&before, &clock));
        clock
    }

    /// Time between automatic resyncs.
    pub fn resync_interval(&self) -> (d: u128)
        ensures
            d == self.spec_resync_interval(),
    {
        self.resync_interval
    }

    /// Attempts per resync.
    pub fn max_measurement_retries(&self) -> (n: u32)
        ensures
            n == self.spec_retries(),
    {
        self.max_measurement_retries
    }

    /// Whether the last resync met the threshold.
    pub fn is_accurate(&self) -> (b: bool)
        ensures
            b == self.spec_accurate(),
    {
        self.is_accurate
    }

    /// The acceptable measurement variance.
    pub fn measurement_threshold(&self) -> (d: u128)
        ensures
            d == self.spec_threshold(),
    {
        self.measurement_threshold
    }

    /// Reads the monotonic clock (nanoseconds on this clock's timeline). A
    /// reading earlier than the latest one is taken as the latest one, so
    /// the readings never go back; the result becomes the latest.
    fn read_monotonic(&mut self) -> (n: u128)
        ensures
            n == final(self).spec_latest(),
            old(self).spec_latest() <= n,
            same_baseline(old(self), final(self)),
            final(self).anchor == old(self).anchor,
    {
        proof {
            use_type_invariant(&*self);
        }
        let now = monotonic_now();
        let raw = nanos_between(&now, &self.anchor);
        let n = if raw > self.latest {
            raw
        } else {
            self.latest
        };
        self.latest = n;
        n
    }

    /// Takes up to `max_retries` bracketed measurements, stopping at the
    /// first one that becomes the best and meets the threshold, and makes the
    /// best one (see [`best_of`]) the new baseline; the clock is accurate when
    /// that one meets the threshold. Without any measurement under one second
    /// the baseline is a fresh plain reading and the clock is not accurate.
    pub fn resync(&mut self)
        ensures
            resynced(old(self), final(self)),
    {
        proof {
            use_type_invariant(&*self);
        }
        let mut best: Option<Sample> = None;
        let mut best_variance: u128 = WORST_VARIANCE;
        let ghost mut readings: Seq<(u128, i128, u128)> = Seq::empty();
        let mut attempt: u32 = 0;
        let mut stopped = false;
        while attempt < self.max_measurement_retries && !stopped
            invariant
                attempt <= self.max_measurement_retries,
                readings.len() == attempt,
                readings_in_order(readings, old(self).spec_latest(), self.spec_latest()),
                best == best_of(samples_of(readings)),
                best_variance == match best {
                    Some(x) => x.variance,
                    None => WORST_VARIANCE,
                },
                best matches Some(x) ==> x.instant <= self.spec_latest(),
                stopped ==> readings.len() > 0 && stops_at(
                    samples_of(readings),
                    readings.len() - 1,
                    self.measurement_threshold,
                ),
                forall|i: int|
                    0 <= i < readings.len() - 1 ==> !stops_at(
                        samples_of(readings),
                        i,
                        self.measurement_threshold,
                    ),
                !stopped ==> forall|i: int|
                    0 <= i < readings.len() ==> !stops_at(
                        samples_of(readings),
                        i,
                        self.measurement_threshold,
                    ),
                !stopped ==> match best {
                    Some(x) => x.variance > self.measurement_threshold,
                    None => true,
                },
                same_baseline(old(self), self),
                self.anchor == old(self).anchor,
            decreases self.max_measurement_retries - attempt,
        {
            let before = self.read_monotonic();
            let wall = wall_clock_now();
            let after = self.read_monotonic();
            let sample = sample_of(before, wall, after);
            let ghost prev = readings;
            proof {
                readings = readings.push((before, wall, after));
                let samples = samples_of(readings);
                let ps = samples_of(prev);
                assert(samples.drop_last() =~= ps);
                assert(samples.last() == sample);
                assert(samples.subrange(0, samples.len() as int) =~= samples);
                assert forall|i: int| 0 <= i < prev.len() implies stops_at(
                    samples,
                    i,
                    self.measurement_threshold,
                ) == stops_at(ps, i, self.measurement_threshold) by {
                    assert(samples.subrange(0, i + 1) =~= ps.subrange(0, i + 1));
                }
                assert forall|i: int, j: int| 0 <= i < j < readings.len() implies #[trigger] readings[i].2
                    <= #[trigger] readings[j].0 by {
                    if j < prev.len() {
                        assert(readings[i] == prev[i] && readings[j] == prev[j]);
                    } else {
                        assert(readings[i] == prev[i]);
                    }
                }
                assert forall|i: int| 0 <= i < readings.len() implies old(self).spec_latest()
                    <= #[trigger] readings[i].0 && readings[i].0 <= readings[i].2 && readings[i].2
                    <= self.spec_latest() by {
                    if i < prev.len() {
                        assert(readings[i] == prev[i]);
                    }
                }
            }
            if sample.variance < best_variance {
                best_variance = sample.variance;
                best = Some(sample);
                if sample.variance <= self.measurement_threshold {
                    stopped = true;
                }
            }
            attempt = attempt + 1;
        }
        match best {
            Some(b) => {
                self.base_wall_time = b.wall;
                self.base_instant = b.instant;
                self.last_resync = b.instant;
                self.is_accurate = b.variance <= self.measurement_threshold;
                proof {
                    assert(readings_in_order(readings, old(self).spec_latest(), self.spec_latest()));
                }
            },
            None => {
                let now = self.read_monotonic();
                self.base_wall_time = wall_clock_now();
                self.base_instant = now;
                self.last_resync = now;
                self.is_accurate = false;
                proof {
                    assert(readings_in_order(readings, old(self).spec_latest(), self.spec_latest()));
                }
            },
        }
    }

    /// Resyncs when at least the resync interval has passed since the last
    /// resync (as of the monotonic time `now`; no time has passed when `now`
    /// is earlier).
    pub fn check_and_resync(&mut self, now: u128)
        ensures
            resync_due(old(self), now) ==> resynced(old(self), final(self)),
            !resync_due(old(self), now) ==> *final(self) == *old(self),
    {
        let since = if now > self.last_resync {
            now - self.last_resync
        } else {
            0
        };
        if since >= self.resync_interval {
            self.resync();
        }
    }

    /// The wall-clock time for the monotonic time `now`: the baseline
    /// wall-clock time moved on by the monotonic time elapsed since the
    /// baseline (none when `now` is earlier), or the largest wall-clock time
    /// when that does not fit.
    pub open spec fn spec_time_at(&self, now: u128) -> int {
        let elapsed: int = if now > self.spec_base_instant() {
            now - self.spec_base_instant()
        } else {
            0
        };
        if self.spec_base_wall() + elapsed <= i128::MAX {
            self.spec_base_wall() + elapsed
        } else {
            i128::MAX as int
        }
    }

    /// The cycle time for the monotonic time `now` (see [`Self::spec_time_at`]).
    pub fn time_at(&self, now: u128) -> (c: CycleTime)
        ensures
            c.instant_nanos() == now,
            c.unix_nanos() == self.spec_time_at(now),
    {
        let elapsed = if now > self.base_instant {
            now - self.base_instant
        } else {
            0
        };
        CycleTime::new(now, saturating_add_nanos(self.base_wall_time, elapsed))
    }
}

/// Two clock states with the same settings, baseline, last resync and
/// accuracy (the latest reading may differ).
pub open spec fn same_baseline(a: &PrecisionClock, b: &PrecisionClock) -> bool {
    &&& a.spec_resync_interval() == b.spec_resync_interval()
    &&& a.spec_threshold() == b.spec_threshold()
    &&& a.spec_retries() == b.spec_retries()
    &&& a.spec_base_wall() == b.spec_base_wall()
    &&& a.spec_base_instant() == b.spec_base_instant()
    &&& a.spec_last_resync() == b.spec_last_resync()
    &&& a.spec_accurate() == b.spec_accurate()
}

/// Whether a resync is due at the monotonic time `now`: the time since the
/// last resync (none when `now` is earlier) has reached the resync interval.
pub open spec fn resync_due(c: &PrecisionClock, now: u128) -> bool {
    let since: int = if now > c.spec_last_resync() {
        now - c.spec_last_resync()
    } else {
        0
    };
    since >= c.spec_resync_interval()
}

/// What a resync makes of a clock: the settings stay; a run of bracketed
/// measurements was taken after the clock's latest reading, one after
/// another, no more than the allowed attempts, ending early exactly at the
/// first sample that becomes the best and meets the threshold; the best
/// sample, if any, is the new baseline, and the clock is accurate exactly
/// when that sample meets the threshold. Without one, a fresh reading (the
/// new latest) is the baseline and the clock is not accurate.
pub open spec fn resynced(before: &PrecisionClock, after: &PrecisionClock) -> bool {
    &&& after.spec_resync_interval() == before.spec_resync_interval()
    &&& after.spec_threshold() == before.spec_threshold()
    &&& after.spec_retries() == before.spec_retries()
    &&& exists|readings: Seq<(u128, i128, u128)>|
        #![trigger readings_in_order(readings, before.spec_latest(), after.spec_latest())]
        {
            let samples = samples_of(readings);
            &&& readings_in_order(readings, before.spec_latest(), after.spec_latest())
            &&& readings.len() <= before.spec_retries()
            &&& forall|i: int|
                0 <= i < samples.len() - 1 ==> !stops_at(samples, i, before.spec_threshold())
            &&& (samples.len() < before.spec_retries() ==> samples.len() > 0 && stops_at(
                samples,
                samples.len() - 1,
                before.spec_threshold(),
            ))
            &&& match best_of(samples) {
                Some(b) => {
                    &&& after.spec_base_wall() == b.wall
                    &&& after.spec_base_instant() == b.instant
                    &&& after.spec_last_resync() == b.instant
                    &&& after.spec_accurate() == (b.variance <= before.spec_threshold())
                },
                None => {
                    &&& !after.spec_accurate()
                    &&& after.spec_base_instant() == after.spec_latest()
                    &&& after.spec_last_resync() == after.spec_latest()
                },
            }
        }
}

/// What one cycle-time reading does to a clock: it reads the monotonic time
/// `c.instant_nanos()` (no earlier than the clock's latest reading), resyncs
/// exactly when a resync is due at that time, and gives the wall-clock time
/// for it.
pub open spec fn cycled(before: &PrecisionClock, after: &PrecisionClock, c: CycleTime) -> bool {
    &&& before.spec_base_instant() <= before.spec_latest()
    &&& before.spec_latest() <= c.instant_nanos()
    &&& c.instant_nanos() <= after.spec_latest()
    &&& resync_due(before, c.instant_nanos()) ==> resynced(before, after)
    &&& !resync_due(before, c.instant_nanos()) ==> same_baseline(before, after)
    &&& c.unix_nanos() == after.spec_time_at(c.instant_nanos())
}

impl Clock for PrecisionClock {
    /// The current monotonic time and the wall-clock time for it, after a
    /// resync if one is due (see [`cycled`]).
    fn cycle_time(&mut self) -> (c: CycleTime)
        ensures
            cycled(old(self), final(self), c),
    {
        proof {
            use_type_invariant(&*self);
        }
        let now = self.read_monotonic();
        let ghost mid = *self;
        self.check_and_resync(now);
        proof {
            if resync_due(&mid, now) {
                let readings = choose|readings: Seq<(u128, i128, u128)>|
                    #![trigger readings_in_order(readings, mid.spec_latest(), self.spec_latest())]
                    {
                        let samples = samples_of(readings);
                        &&& readings_in_order(readings, mid.spec_latest(), self.spec_latest())
                        &&& readings.len() <= mid.spec_retries()
                        &&& forall|i: int|
                            0 <= i < samples.len() - 1 ==> !stops_at(samples, i, mid.spec_threshold())
                        &&& (samples.len() < mid.spec_retries() ==> samples.len() > 0 && stops_at(
                            samples,
                            samples.len() - 1,
                            mid.spec_threshold(),
                        ))
                        &&& match best_of(samples) {
                            Some(b) => {
                                &&& self.spec_base_wall() == b.wall
                                &&& self.spec_base_instant() == b.instant
                                &&& self.spec_last_resync() == b.instant
                                &&& self.spec_accurate() == (b.variance <= mid.spec_threshold())
                            },
                            None => {
                                &&& !self.spec_accurate()
                                &&& self.spec_base_instant() == self.spec_latest()
                                &&& self.spec_last_resync() == self.spec_latest()
                            },
                        }
                    };
                assert(readings_in_order(readings, old(self).spec_latest(), self.spec_latest()));
            }
        }
        self.time_at(now)
    }
}

/// Between resyncs the clock never goes back: a later monotonic time gives
/// a wall-clock time no earlier.
pub proof fn law_time_never_goes_back(c: &PrecisionClock, n1: u128, n2: u128)
    requires
        n1 <= n2,
    ensures
        c.spec_time_at(n1) <= c.spec_time_at(n2),
{
}

/// Between resyncs the wall-clock time moves exactly as the monotonic time
/// does, from the baseline on and below the largest wall-clock time.
pub proof fn law_time_follows_monotonic(c: &PrecisionClock, n1: u128, n2: u128)
    requires
        c.spec_base_instant() <= n1 <= n2,
        c.spec_time_at(n2) < i128::MAX,
    ensures
        c.spec_time_at(n2) - c.spec_time_at(n1) == n2 - n1,
{
}

/// Two cycle-time readings in a row, neither of which resyncs: the second
/// monotonic time is no earlier than the first, and the wall-clock times
/// move in lockstep with them (below the largest wall-clock time).
pub proof fn law_cycle_times_move_in_lockstep(
    s0: &PrecisionClock,
    s1: &PrecisionClock,
    s2: &PrecisionClock,
    r1: CycleTime,
    r2: CycleTime,
)
    requires
        cycled(s0, s1, r1),
        cycled(s1, s2, r2),
        !resync_due(s0, r1.instant_nanos()),
        !resync_due(s1, r2.instant_nanos()),
        r2.unix_nanos() < i128::MAX,
    ensures
        r1.instant_nanos() <= r2.instant_nanos(),
        r2.unix_nanos() - r1.unix_nanos() == r2.instant_nanos() - r1.instant_nanos(),
{
}

} // verus!

//! Timers: nodes scheduled once the cycle time reaches a deadline.
use crate::dispatch::{coherent, offer_all, sched_all};
use crate::graph::Graph;
use crate::scheduler::Scheduler;
use vstd::prelude::*;

verus! {

/// A registered timer: its deadline (nanoseconds on the monotonic timeline)
/// and a sequence number that orders timers sharing a deadline and tells
/// them apart.
#[derive(Debug, Clone, Copy, PartialEq, Eq, Hash, Structural)]
pub struct TimerSource {
    /// When the timer fires.
    pub when: u128,
    /// Registration sequence number.
    pub id: usize,
}

/// An opaque handle to a registered timer, for cancelling it.
#[derive(Debug, Clone, Copy, PartialEq, Eq, Structural)]
pub struct TimerHandle(TimerSource);

impl TimerHandle {
    /// The handle of the timer `source`.
    pub fn new(source: TimerSource) -> (h: Self)
        ensures
            h.spec_source() == source,
    {
        TimerHandle(source)
    }

    /// The registered timer this handle names.
    pub closed spec fn spec_source(&self) -> TimerSource {
        self.0
    }

    /// The registered timer this handle names.
    pub fn source(&self) -> (s: TimerSource)
        ensures
            s == self.spec_source(),
    {
        self.0
    }
}

/// Timer order: earlier deadline first, then lower sequence number.
pub open spec fn source_lt(a: TimerSource, b: TimerSource) -> bool {
    a.when < b.when || (a.when == b.when && a.id < b.id)
}

/// Strictly increasing keys.
pub open spec fn sorted_timers(s: Seq<(TimerSource, usize)>) -> bool {
    forall|i: int, j: int| 0 <= i < j < s.len() ==> source_lt(#[trigger] s[i].0, #[trigger] s[j].0)
}

/// Node indices of a run of timers, in order.
pub open spec fn timer_nodes(s: Seq<(TimerSource, usize)>) -> Seq<usize> {
    s.map_values(|e: (TimerSource, usize)| e.1)
}

/// The first `k` timers are those whose deadline is at or before `now`, and
/// every later one is not yet due.
pub open spec fn expired_split(timers: Seq<(TimerSource, usize)>, now: u128, k: int) -> bool {
    &&& 0 <= k <= timers.len()
    &&& forall|i: int| 0 <= i < k ==> #[trigger] timers[i].0.when <= now
    &&& forall|i: int| k <= i < timers.len() ==> #[trigger] timers[i].0.when > now
}

/// In timers kept in order, once the timer at `k` is not yet due, none
/// after it is.
pub proof fn lemma_expired_split_exact(timers: Seq<(TimerSource, usize)>, now: u128, k: int)
    requires
        sorted_timers(timers),
        0 <= k <= timers.len(),
        k < timers.len() ==> timers[k].0.when > now,
    ensures
        forall|i: int| k <= i < timers.len() ==> #[trigger] timers[i].0.when > now,
{
    assert forall|i: int| k <= i < timers.len() implies #[trigger] timers[i].0.when > now by {
        if k < i {
            assert(source_lt(timers[k].0, timers[i].0));
        }
    }
}

/// The nodes of the timers that fired between two states of the timers:
/// the ones before the timers that are left.
pub open spec fn fired_between(before: Seq<(TimerSource, usize)>, after: Seq<(TimerSource, usize)>) -> Seq<usize> {
    timer_nodes(before.subrange(0, before.len() - after.len()))
}

/// The timers after registering `source` for node `idx`: inserted at its
/// place in the order, or, when a timer with the same handle is registered,
/// taking over that timer's slot.
pub open spec fn registered(
    before: Seq<(TimerSource, usize)>,
    after: Seq<(TimerSource, usize)>,
    source: TimerSource,
    idx: usize,
) -> bool {
    exists|p: int|
        0 <= p <= before.len() && {
            ||| after == before.insert(p, (source, idx))
            ||| (p < before.len() && before[p].0 == source && after == before.update(p, (source, idx)))
        }
}

/// The timers after cancelling `source`: the timer with that handle is
/// removed; nothing changes when there is none.
pub open spec fn deregistered(
    before: Seq<(TimerSource, usize)>,
    after: Seq<(TimerSource, usize)>,
    source: TimerSource,
) -> bool {
    &&& (forall|i: int| 0 <= i < before.len() ==> #[trigger] before[i].0 != source) ==> after == before
    &&& forall|i: int|
        0 <= i < before.len() && #[trigger] before[i].0 == source ==> after == before.remove(i)
}

fn source_less(a: &TimerSource, b: &TimerSource) -> (r: bool)
    ensures
        r == source_lt(*a, *b),
{
    a.when < b.when || (a.when == b.when && a.id < b.id)
}

/// Registered timers, ordered by deadline then sequence number.
pub struct TimerDriver {
    timers: Vec<(TimerSource, usize)>,
    sequence: usize,
}

impl TimerDriver {
    /// The registered timers with their nodes, in firing order.
    pub closed spec fn timers(&self) -> Seq<(TimerSource, usize)> {
        self.timers@
    }

    /// The sequence number the next registration gets.
    pub closed spec fn next_id(&self) -> usize {
        self.sequence
    }

    /// Timers are kept strictly ordered.
    pub open spec fn wf(&self) -> bool {
        sorted_timers(self.timers())
    }

    /// No timers; the first registration gets sequence number 0.
    pub fn new() -> (t: Self)
        ensures
            t.wf(),
            t.timers() == Seq::<(TimerSource, usize)>::empty(),
            t.next_id() == 0,
    {
        TimerDriver { timers: Vec::new(), sequence: 0 }
    }

    /// No timers; the first registration gets sequence number `next`.
    pub fn with_sequence(next: usize) -> (t: Self)
        ensures
            t.wf(),
            t.timers() == Seq::<(TimerSource, usize)>::empty(),
            t.next_id() == next,
    {
        TimerDriver { timers: Vec::new(), sequence: next }
    }

    /// The handles of the registered timers, in firing order.
    pub fn sources(&self) -> (r: Vec<TimerSource>)
        ensures
            r@ == self.timers().map_values(|e: (TimerSource, usize)| e.0),
    {
        let mut r: Vec<TimerSource> = Vec::new();
        let mut i: usize = 0;
        while i < self.timers.len()
            invariant
                0 <= i <= self.timers@.len(),
                r@ == self.timers@.subrange(0, i as int).map_values(|e: (TimerSource, usize)| e.0),
            decreases self.timers@.len() - i,
        {
            r.push(self.timers[i].0);
            i = i + 1;
            assert(r@ =~= self.timers@.subrange(0, i as int).map_values(|e: (TimerSource, usize)| e.0));
        }
        assert(self.timers@.subrange(0, i as int) =~= self.timers@);
        r
    }

    /// The sequence number the next registration gets.
    pub fn sequence(&self) -> (n: usize)
        ensures
            n == self.next_id(),
    {
        self.sequence
    }

    /// Number of registered timers.
    pub fn len(&self) -> (n: usize)
        ensures
            n == self.timers().len(),
    {
        self.timers.len()
    }

    /// Whether no timer is registered.
    pub fn is_empty(&self) -> (b: bool)
        ensures
            b == (self.timers().len() == 0),
    {
        self.timers.len() == 0
    }

    /// The node a timer would schedule, if that timer is registered.
    pub fn get(&self, source: &TimerSource) -> (r: Option<usize>)
        requires
            self.wf(),
        ensures
            r is Some <==> exists|i: int| 0 <= i < self.timers().len() && self.timers()[i].0 == *source,
            forall|i: int|
                0 <= i < self.timers().len() && self.timers()[i].0 == *source ==> r == Some(
                    #[trigger] self.timers()[i].1,
                ),
    {
        let mut i: usize = 0;
        while i < self.timers.len()
            invariant
                0 <= i <= self.timers@.len(),
                self.wf(),
                forall|j: int| 0 <= j < i ==> #[trigger] self.timers@[j].0 != *source,
            decreases self.timers@.len() - i,
        {
            let e = self.timers[i];
            if e.0.when == source.when && e.0.id == source.id {
                proof {
                    assert(self.timers()[i as int].0 == *source);
                    assert forall|j: int|
                        0 <= j < self.timers().len() && self.timers()[j].0 == *source implies j == i by {
                        if j != i {
                            if j < i {
                            } else {
                                assert(source_lt(self.timers@[i as int].0, self.timers@[j].0));
                            }
                        }
                    }
                }
                return Some(e.1);
            }
            i = i + 1;
        }
        None
    }

    /// The deadline of the earliest timer.
    pub fn next_timer(&self) -> (r: Option<u128>)
        requires
            self.wf(),
        ensures
            self.timers().len() == 0 ==> r is None,
            self.timers().len() > 0 ==> r == Some(self.timers()[0].0.when),
            forall|i: int| 0 <= i < self.timers().len() ==> r.unwrap() <= #[trigger] self.timers()[i].0.when,
    {
        if self.timers.len() == 0 {
            None
        } else {
            proof {
                assert forall|i: int| 0 <= i < self.timers().len() implies self.timers@[0].0.when
                    <= #[trigger] self.timers()[i].0.when by {
                    if i > 0 {
                        assert(source_lt(self.timers@[0].0, self.timers@[i].0));
                    }
                }
            }
            Some(self.timers[0].0.when)
        }
    }

    /// Registers a timer that schedules node `idx` once the time reaches
    /// `when`, and returns its handle. The handle carries the current
    /// sequence number, which then advances (wrapping around). A handle equal
    /// to a registered one (possible only after the counter wrapped) takes
    /// over its slot.
    pub fn register_timer(&mut self, idx: usize, when: u128) -> (source: TimerSource)
        requires
            old(self).wf(),
        ensures
            final(self).wf(),
            source == (TimerSource { when, id: old(self).next_id() }),
            final(self).next_id() == old(self).next_id().wrapping_add(1),
            registered(old(self).timers(), final(self).timers(), source, idx),
    {
        let source = TimerSource { when, id: self.sequence };
        self.sequence = self.sequence.wrapping_add(1);
        let mut p: usize = 0;
        while p < self.timers.len() && source_less(&self.timers[p].0, &source)
            invariant
                0 <= p <= self.timers@.len(),
                self.timers@ == old(self).timers@,
                sorted_timers(self.timers@),
                forall|j: int| 0 <= j < p ==> source_lt(#[trigger] self.timers@[j].0, source),
            decreases self.timers@.len() - p,
        {
            p = p + 1;
        }
        let ghost old_t = self.timers@;
        if p < self.timers.len() && self.timers[p].0.when == source.when && self.timers[p].0.id
            == source.id {
            self.timers.set(p, (source, idx));
            proof {
                assert(old_t[p as int].0 == source);
                assert(self.timers() == old(self).timers().update(p as int, (source, idx)));
                assert(p < old(self).timers().len() && old(self).timers()[p as int].0 == source);
                assert forall|i: int, j: int| 0 <= i < j < self.timers@.len() implies source_lt(
                    #[trigger] self.timers@[i].0,
                    #[trigger] self.timers@[j].0,
                ) by {
                    assert(source_lt(old_t[i].0, old_t[j].0));
                }
            }
        } else {
            self.timers.insert(p, (source, idx));
            proof {
                assert(self.timers() == old(self).timers().insert(p as int, (source, idx)));
                assert forall|i: int, j: int| 0 <= i < j < self.timers@.len() implies source_lt(
                    #[trigger] self.timers@[i].0,
                    #[trigger] self.timers@[j].0,
                ) by {
                    if i < p && j < p {
                        assert(source_lt(old_t[i].0, old_t[j].0));
                    } else if i < p && j == p {
                    } else if i < p && j > p {
                        assert(source_lt(old_t[i].0, old_t[j - 1].0));
                    } else if i == p {
                        // old_t[j - 1] is not below source and differs from it
                        assert(!source_lt(old_t[p as int].0, source));
                        if j - 1 > p {
                            assert(source_lt(old_t[p as int].0, old_t[j - 1].0));
                        }
                    } else {
                        assert(source_lt(old_t[i - 1].0, old_t[j - 1].0));
                    }
                }
            }
        }
        source
    }

    /// Cancels the timer with handle `source`; nothing happens when it is not
    /// registered (for instance because it already fired).
    pub fn deregister_timer(&mut self, source: TimerSource)
        requires
            old(self).wf(),
        ensures
            final(self).wf(),
            final(self).next_id() == old(self).next_id(),
            deregistered(old(self).timers(), final(self).timers(), source),
    {
        let mut i: usize = 0;
        while i < self.timers.len()
            invariant
                0 <= i <= self.timers@.len(),
                self.timers@ == old(self).timers@,
                self.sequence == old(self).sequence,
                sorted_timers(self.timers@),
                forall|j: int| 0 <= j < i ==> #[trigger] self.timers@[j].0 != source,
            decreases self.timers@.len() - i,
        {
            if self.timers[i].0.when == source.when && self.timers[i].0.id == source.id {
                let ghost old_t = self.timers@;
                let _ = self.timers.remove(i);
                proof {
                    assert forall|a: int, b: int| 0 <= a < b < self.timers@.len() implies source_lt(
                        #[trigger] self.timers@[a].0,
                        #[trigger] self.timers@[b].0,
                    ) by {
                        let oa = if a < i { a } else { a + 1 };
                        let ob = if b < i { b } else { b + 1 };
                        assert(source_lt(old_t[oa].0, old_t[ob].0));
                    }
                    assert forall|k: int|
                        0 <= k < old_t.len() && #[trigger] old_t[k].0 == source implies k == i by {
                        if k > i {
                            assert(source_lt(old_t[i as int].0, old_t[k].0));
                        }
                    }
                }
                return;
            }
            i = i + 1;
        }
    }

    /// Removes every timer whose deadline is at or before `now` and returns
    /// their nodes in firing order.
    pub fn take_expired(&mut self, now: u128) -> (fired: Vec<usize>)
        requires
            old(self).wf(),
        ensures
            final(self).wf(),
            final(self).next_id() == old(self).next_id(),
            exists|k: int|
                0 <= k <= old(self).timers().len() && (forall|i: int|
                    0 <= i < k ==> #[trigger] old(self).timers()[i].0.when <= now) && (forall|i: int|
                    k <= i < old(self).timers().len() ==> #[trigger] old(self).timers()[i].0.when > now)
                    && fired@ == timer_nodes(old(self).timers().subrange(0, k))
                    && final(self).timers() == old(self).timers().subrange(
                    k,
                    old(self).timers().len() as int,
                ),
    {
        let ghost old_t = self.timers@;
        let mut k: usize = 0;
        let mut fired: Vec<usize> = Vec::new();
        while k < self.timers.len() && self.timers[k].0.when <= now
            invariant
                0 <= k <= self.timers@.len(),
                self.timers@ == old_t,
                old_t == old(self).timers@,
                forall|i: int| 0 <= i < k ==> #[trigger] old_t[i].0.when <= now,
                fired@ == timer_nodes(old_t.subrange(0, k as int)),
            decreases self.timers@.len() - k,
        {
            fired.push(self.timers[k].1);
            k = k + 1;
            assert(fired@ =~= timer_nodes(old_t.subrange(0, k as int)));
        }
        let rest = self.timers.split_off(k);
        self.timers = rest;
        proof {
            assert(self.timers() == old(self).timers().subrange(k as int, old_t.len() as int));
            assert(k < old_t.len() ==> old(self).timers()[k as int].0.when > now);
            assert(fired@ == timer_nodes(old(self).timers().subrange(0, k as int)));
            assert(forall|i: int| 0 <= i < k ==> #[trigger] old(self).timers()[i].0.when <= now);
            lemma_expired_split_exact(old_t, now, k as int);
            assert forall|a: int, b: int| 0 <= a < b < self.timers@.len() implies source_lt(
                #[trigger] self.timers@[a].0,
                #[trigger] self.timers@[b].0,
            ) by {
                assert(source_lt(old_t[a + k].0, old_t[b + k].0));
            }
        }
        fired
    }

    /// Schedules the node of every timer whose deadline is at or before
    /// `now` (each at most once per `epoch`) and removes those timers.
    pub fn poll(&mut self, graph: &mut Graph, scheduler: &mut Scheduler, now: u128, epoch: usize)
        requires
            old(self).wf(),
            old(graph).wf(),
            old(scheduler).wf(),
            old(scheduler).current_depth() == 0,
            coherent(old(graph).entries(), old(scheduler).queues()),
            old(scheduler).pending() + old(self).timers().len() < usize::MAX,
        ensures
            final(self).wf(),
            final(graph).wf(),
            final(scheduler).wf(),
            final(scheduler).current_depth() == 0,
            final(self).next_id() == old(self).next_id(),
            exists|k: int|
                0 <= k <= old(self).timers().len() && (forall|i: int|
                    0 <= i < k ==> #[trigger] old(self).timers()[i].0.when <= now) && (forall|i: int|
                    k <= i < old(self).timers().len() ==> #[trigger] old(self).timers()[i].0.when > now)
                    && final(self).timers() == old(self).timers().subrange(
                    k,
                    old(self).timers().len() as int,
                ) && (final(graph).entries(), final(scheduler).queues()) == sched_all(
                    (old(graph).entries(), old(scheduler).queues()),
                    timer_nodes(old(self).timers().subrange(0, k)),
                    epoch,
                ),
    {
        let fired = self.take_expired(now);
        offer_all(graph, scheduler, &fired, epoch);
    }
}

/// Cancelling a fresh timer right after registering it leaves the timers
/// as they were.
pub proof fn law_deregister_undoes_register(
    before: Seq<(TimerSource, usize)>,
    mid: Seq<(TimerSource, usize)>,
    after: Seq<(TimerSource, usize)>,
    source: TimerSource,
    idx: usize,
)
    requires
        sorted_timers(before),
        sorted_timers(mid),
        forall|i: int| 0 <= i < before.len() ==> #[trigger] before[i].0 != source,
        registered(before, mid, source, idx),
        deregistered(mid, after, source),
    ensures
        after == before,
{
    let p = choose|p: int|
        0 <= p <= before.len() && {
            ||| mid == before.insert(p, (source, idx))
            ||| (p < before.len() && before[p].0 == source && mid == before.update(p, (source, idx)))
        };
    assert(mid == before.insert(p, (source, idx)));
    assert(mid[p].0 == source);
    assert(mid.remove(p) =~= before);
}

} // verus!

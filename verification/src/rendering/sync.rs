//! Timeline synchronization of submitted frames, per output.
use vstd::prelude::*;
use std::collections::BTreeMap;
use std::time::Instant;
use vstd::std_specs::btree::spec_keys_iter;
use vstd::std_specs::iter::IteratorSpec;

verus! {

#[verifier::external_type_specification]
#[verifier::external_body]
pub struct ExInstant(Instant);

/// The current instant of the monotonic clock.
///
/// Trusted: calls `Instant::now`; the result depends on the clock, so
/// nothing is stated of it.
#[verifier::external_body]
pub(crate) fn instant_now() -> Instant {
    Instant::now()
}

/// A point on an output's GPU timeline.
#[derive(Debug, Clone, Copy)]
pub struct TimelinePoint {
    pub value: u64,
    pub output_idx: usize,
}

/// The timeline points submitted on one output and not yet completed.
#[derive(Debug)]
pub struct FrameSync {
    pending: BTreeMap<u64, Instant>,
    max_timeline: u64,
}

/// Timeline points further than this behind the newest one are dropped by
/// garbage collection.
pub open spec fn gc_window() -> u64 {
    64
}

impl FrameSync {
    /// The pending timeline points.
    pub closed spec fn pending_set(&self) -> Set<u64> {
        self.pending@.dom()
    }

    /// The largest timeline point ever submitted (0 before any).
    pub closed spec fn max_submitted(&self) -> u64 {
        self.max_timeline
    }

    pub closed spec fn wf(&self) -> bool {
        self.pending@.dom().finite()
    }

    /// Nothing pending.
    pub fn new() -> (s: FrameSync)
        ensures
            s.wf(),
            s.pending_set() == Set::<u64>::empty(),
            s.max_submitted() == 0,
    {
        FrameSync { pending: BTreeMap::new(), max_timeline: 0 }
    }

    /// Submit a timeline point.
    pub fn submit(&mut self, timeline: u64)
        requires
            old(self).wf(),
        ensures
            final(self).wf(),
            final(self).pending_set() == old(self).pending_set().insert(timeline),
            final(self).max_submitted() == (if timeline > old(self).max_submitted() {
                timeline
            } else {
                old(self).max_submitted()
            }),
    {
        broadcast use vstd::std_specs::btree::group_btree_axioms;
        self.pending.insert(timeline, instant_now());
        if timeline > self.max_timeline {
            self.max_timeline = timeline;
        }
    }

    /// Mark a timeline point complete.
    pub fn complete(&mut self, timeline: u64)
        requires
            old(self).wf(),
        ensures
            final(self).wf(),
            final(self).pending_set() == old(self).pending_set().remove(timeline),
            final(self).max_submitted() == old(self).max_submitted(),
    {
        broadcast use vstd::std_specs::btree::group_btree_axioms;
        self.pending.remove(&timeline);
    }

    /// The number of pending timeline points.
    pub fn pending_count(&self) -> (n: usize)
        requires
            self.wf(),
        ensures
            n == self.pending_set().len(),
    {
        broadcast use vstd::std_specs::btree::group_btree_axioms;
        self.pending.len()
    }

    /// Drop pending points more than 64 behind the newest submitted point.
    pub fn gc(&mut self)
        requires
            old(self).wf(),
        ensures
            final(self).wf(),
            final(self).max_submitted() == old(self).max_submitted(),
            final(self).pending_set() == old(self).pending_set().filter(
                |t: u64|
                    t > (if old(self).max_submitted() >= gc_window() {
                        old(self).max_submitted() - gc_window()
                    } else {
                        0
                    }),
            ),
    {
        broadcast use vstd::std_specs::btree::group_btree_axioms;
        let cutoff = self.max_timeline.saturating_sub(64);
        let ghost dom = self.pending@.dom();
        let mut doomed: Vec<u64> = Vec::new();
        proof {
            assert forall|t: u64| dom.contains(t) implies (exists|j: int|
                0 <= j < spec_keys_iter(&self.pending).remaining().len()
                    && *spec_keys_iter(&self.pending).remaining()[j] == t) by {
                let ks = spec_keys_iter(&self.pending).remaining();
                assert(ks.unref().to_set().contains(t));
                let j = choose|j: int| 0 <= j < ks.unref().len() && ks.unref()[j] == t;
                assert(*ks[j] == t);
            }
        }
        for k in it: self.pending.keys()
            invariant
                dom == self.pending@.dom(),
                it.seq() == spec_keys_iter(&self.pending).remaining(),
                forall|j: int| 0 <= j < doomed.len() ==> doomed[j] <= cutoff && dom.contains(
                    #[trigger] doomed[j],
                ),
                forall|t: u64|
                    #![trigger dom.contains(t)]
                    dom.contains(t) && t <= cutoff ==> doomed@.contains(t) || (exists|j: int|
                        it.index() <= j < it.seq().len() && *it.seq()[j] == t),
        {
            let ghost idx = it.index();
            proof {
                assert(it.seq().map_values(|r: &u64| *r)[idx] == *k);
                assert(it.seq().map_values(|r: &u64| *r).to_set().contains(*k));
            }
            let ghost before = doomed@;
            if *k <= cutoff {
                doomed.push(*k);
                assert(doomed@[doomed@.len() - 1] == *k);
            }
            proof {
                assert forall|t: u64|
                    #![trigger dom.contains(t)]
                    dom.contains(t) && t <= cutoff implies doomed@.contains(t) || (exists|j: int|
                        idx + 1 <= j < it.seq().len() && *it.seq()[j] == t) by {
                    if !doomed@.contains(t) {
                        if before.contains(t) {
                            let m = choose|m: int| 0 <= m < before.len() && before[m] == t;
                            assert(doomed@[m] == t);
                        } else {
                            let j = choose|j: int| idx <= j < it.seq().len() && *it.seq()[j] == t;
                            if j == idx {
                                assert(doomed@.contains(*k));
                            }
                        }
                    }
                }
            }
        }
        let ghost keys = doomed@;
        let mut i: usize = 0;
        while i < doomed.len()
            invariant
                i <= doomed.len(),
                doomed@ == keys,
                self.pending@.dom().finite(),
                self.max_timeline == old(self).max_timeline,
                self.pending@.dom() == dom.filter(
                    |t: u64| !(exists|j: int| 0 <= j < i && doomed@[j] == t),
                ),
            decreases doomed.len() - i,
        {
            self.pending.remove(&doomed[i]);
            i = i + 1;
            assert(self.pending@.dom() =~= dom.filter(
                |t: u64| !(exists|j: int| 0 <= j < i && doomed@[j] == t),
            ));
        }
        assert forall|t: u64| dom.contains(t) && t <= cutoff implies keys.contains(t) by {
        }
        assert(self.pending@.dom() =~= dom.filter(|t: u64| t > cutoff));
    }
}

impl Default for FrameSync {
    fn default() -> (s: FrameSync)
        ensures
            s.wf(),
            s.pending_set() == Set::<u64>::empty(),
            s.max_submitted() == 0,
    {
        FrameSync::new()
    }
}

/// One `FrameSync` per output.
#[derive(Debug)]
pub struct MultiOutputSync {
    syncs: Vec<FrameSync>,
}

impl MultiOutputSync {
    /// The per-output synchronization states, in output order.
    pub closed spec fn outputs(&self) -> Seq<FrameSync> {
        self.syncs@
    }

    pub closed spec fn wf(&self) -> bool {
        forall|i: int| 0 <= i < self.syncs@.len() ==> (#[trigger] self.syncs@[i]).wf()
    }

    /// Nothing pending on `count` outputs.
    pub fn new(count: usize) -> (m: MultiOutputSync)
        ensures
            m.wf(),
            m.outputs().len() == count,
            forall|i: int|
                0 <= i < count ==> (#[trigger] m.outputs()[i]).pending_set() == Set::<u64>::empty()
                    && m.outputs()[i].max_submitted() == 0,
    {
        let mut syncs: Vec<FrameSync> = Vec::new();
        let mut i: usize = 0;
        while i < count
            invariant
                i <= count,
                syncs@.len() == i,
                forall|j: int|
                    0 <= j < i ==> (#[trigger] syncs@[j]).wf() && syncs@[j].pending_set() == Set::<
                        u64,
                    >::empty() && syncs@[j].max_submitted() == 0,
            decreases count - i,
        {
            syncs.push(FrameSync::new());
            i = i + 1;
        }
        MultiOutputSync { syncs }
    }

    /// Submit a timeline point on output `idx`; unknown outputs are ignored.
    pub fn submit(&mut self, idx: usize, timeline: u64)
        requires
            old(self).wf(),
        ensures
            final(self).wf(),
            final(self).outputs().len() == old(self).outputs().len(),
            forall|i: int|
                0 <= i < old(self).outputs().len() && i != idx ==> #[trigger] final(self).outputs()[i]
                    == old(self).outputs()[i],
            idx < old(self).outputs().len() ==> final(self).outputs()[idx as int].pending_set()
                == old(self).outputs()[idx as int].pending_set().insert(timeline),
    {
        if idx < self.syncs.len() {
            self.syncs[idx].submit(timeline);
        }
    }

    /// Complete a timeline point on output `idx`; unknown outputs are
    /// ignored.
    pub fn complete(&mut self, idx: usize, timeline: u64)
        requires
            old(self).wf(),
        ensures
            final(self).wf(),
            final(self).outputs().len() == old(self).outputs().len(),
            forall|i: int|
                0 <= i < old(self).outputs().len() && i != idx ==> #[trigger] final(self).outputs()[i]
                    == old(self).outputs()[i],
            idx < old(self).outputs().len() ==> final(self).outputs()[idx as int].pending_set()
                == old(self).outputs()[idx as int].pending_set().remove(timeline),
    {
        if idx < self.syncs.len() {
            self.syncs[idx].complete(timeline);
        }
    }

    /// No output has a pending timeline point.
    pub fn all_complete(&self) -> (b: bool)
        requires
            self.wf(),
        ensures
            b == forall|i: int|
                0 <= i < self.outputs().len() ==> (#[trigger] self.outputs()[i]).pending_set().len()
                    == 0,
    {
        let mut i: usize = 0;
        while i < self.syncs.len()
            invariant
                self.wf(),
                i <= self.syncs.len(),
                forall|j: int| 0 <= j < i ==> (#[trigger] self.syncs@[j]).pending_set().len() == 0,
            decreases self.syncs.len() - i,
        {
            if self.syncs[i].pending_count() != 0 {
                assert(self.outputs()[i as int].pending_set().len() != 0);
                return false;
            }
            i = i + 1;
        }
        true
    }

    /// Garbage-collect every output.
    pub fn gc_all(&mut self)
        requires
            old(self).wf(),
        ensures
            final(self).wf(),
            final(self).outputs().len() == old(self).outputs().len(),
            forall|i: int|
                0 <= i < old(self).outputs().len() ==> {
                    let o = old(self).outputs()[i];
                    let cutoff = if o.max_submitted() >= gc_window() {
                        o.max_submitted() - gc_window()
                    } else {
                        0
                    };
                    &&& (#[trigger] final(self).outputs()[i]).pending_set() == o.pending_set().filter(
                        |t: u64| t > cutoff,
                    )
                    &&& final(self).outputs()[i].max_submitted() == o.max_submitted()
                },
    {
        let mut i: usize = 0;
        while i < self.syncs.len()
            invariant
                self.wf(),
                i <= self.syncs.len(),
                self.syncs@.len() == old(self).syncs@.len(),
                forall|j: int|
                    i <= j < self.syncs@.len() ==> #[trigger] self.syncs@[j] == old(self).syncs@[j],
                forall|j: int|
                    0 <= j < i ==> {
                        let o = old(self).syncs@[j];
                        let cutoff = if o.max_submitted() >= gc_window() {
                            o.max_submitted() - gc_window()
                        } else {
                            0
                        };
                        &&& (#[trigger] self.syncs@[j]).pending_set() == o.pending_set().filter(
                            |t: u64| t > cutoff,
                        )
                        &&& self.syncs@[j].max_submitted() == o.max_submitted()
                    },
            decreases self.syncs.len() - i,
        {
            self.syncs[i].gc();
            i = i + 1;
        }
    }
}

/// Submitting a timeline point that was not pending and then completing it
/// leaves the pending points as they were.
pub proof fn lemma_submit_then_complete(pending: Set<u64>, t: u64)
    requires
        !pending.contains(t),
    ensures
        pending.insert(t).remove(t) == pending,
{
    assert(pending.insert(t).remove(t) =~= pending);
}

} // verus!

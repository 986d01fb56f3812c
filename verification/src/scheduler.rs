//! The bounded-concurrency scan scheduler: a self-refilling worker pool that
//! keeps at most `batch` probes in flight over the lazily enumerated target
//! space, records every verdict in completion order, and shuts issuance down
//! the moment any probe reports the fatal resource-exhaustion condition.
//!
//! The driver loop asks for tasks with [`Scheduler::launch_next`] until it
//! returns nothing, reports each completion with [`Scheduler::settle`], and
//! closes the run with [`Scheduler::finish`] once nothing is left in flight.

use vstd::prelude::*;

use vstd::multiset::Multiset;

use crate::enumerate::{task_space, SockIter};
use crate::ip::Ip;
use crate::{FatalScanError, PortState, ScanOutcome, ScanTask, Settlement};

verus! {

broadcast use vstd::multiset::group_multiset_axioms, vstd::seq_lib::group_to_multiset_ensures;

/// The scheduler's state: the cursor over the target space, the probes in
/// flight, the verdicts recorded so far, and whether a fatal condition has
/// been seen. Tasks that settle fatally are tracked only as a ghost
/// multiset: their verdicts are never recorded.
pub struct Scheduler {
    it: SockIter,
    batch: usize,
    in_flight: Vec<ScanTask>,
    results: Vec<ScanOutcome>,
    fatal: bool,
    lost: Ghost<Multiset<ScanTask>>,
}

impl Scheduler {
    /// The full target space of this run.
    pub closed spec fn space(&self) -> Seq<ScanTask> {
        self.it.space()
    }

    /// The configured concurrency ceiling.
    pub closed spec fn batch_spec(&self) -> int {
        self.batch as int
    }

    /// How many tasks have been launched so far.
    pub closed spec fn launched(&self) -> int {
        self.it.emitted()
    }

    /// The tasks currently in flight, in launch order.
    pub closed spec fn in_flight_seq(&self) -> Seq<ScanTask> {
        self.in_flight@
    }

    /// The verdicts recorded so far, in completion order.
    pub closed spec fn results_seq(&self) -> Seq<ScanOutcome> {
        self.results@
    }

    pub closed spec fn is_fatal_spec(&self) -> bool {
        self.fatal
    }

    /// The tasks whose probes settled fatally.
    pub closed spec fn lost_tasks(&self) -> Multiset<ScanTask> {
        self.lost@
    }

    /// Every launched task is accounted for exactly once: still in flight,
    /// recorded with a verdict, or settled fatally; and never more than
    /// `batch` are in flight.
    pub closed spec fn wf(&self) -> bool {
        &&& self.it.wf()
        &&& self.batch >= 1
        &&& self.in_flight@.len() <= self.batch
        &&& self.in_flight@.to_multiset().add(
            self.results@.map_values(|o: ScanOutcome| o.task).to_multiset(),
        ).add(self.lost@) == self.it.space().take(self.it.emitted()).to_multiset()
        &&& self.results@.len() + self.in_flight@.len() + self.lost@.len() == self.it.emitted()
        &&& (!self.fatal ==> self.lost@ == Multiset::<ScanTask>::empty())
    }

    /// A fresh scheduler over the port-major product of `ports` and `ips`,
    /// with nothing launched yet.
    pub fn new(ips: Vec<Ip>, ports: Vec<u16>, batch: usize) -> (s: Self)
        requires
            batch >= 1,
        ensures
            s.wf(),
            s.space() == task_space(ports@, ips@),
            s.batch_spec() == batch,
            s.launched() == 0,
            s.in_flight_seq() == Seq::<ScanTask>::empty(),
            s.results_seq() == Seq::<ScanOutcome>::empty(),
            !s.is_fatal_spec(),
    {
        let it = SockIter::new(ips, ports);
        let s = Scheduler {
            it,
            batch,
            in_flight: Vec::new(),
            results: Vec::new(),
            fatal: false,
            lost: Ghost(Multiset::empty()),
        };
        proof {
            assert(s.it.space().take(0) =~= Seq::<ScanTask>::empty());
            assert(Seq::<ScanTask>::empty().to_multiset() =~= Multiset::<ScanTask>::empty());
            assert(Seq::<ScanOutcome>::empty().map_values(|o: ScanOutcome| o.task)
                =~= Seq::<ScanTask>::empty());
            assert(s.in_flight@.to_multiset().add(
                s.results@.map_values(|o: ScanOutcome| o.task).to_multiset(),
            ).add(s.lost@) =~= s.it.space().take(s.it.emitted()).to_multiset());
        }
        s
    }

    pub fn in_flight_count(&self) -> (n: usize)
        ensures
            n == self.in_flight_seq().len(),
    {
        self.in_flight.len()
    }

    /// The in-flight task at a driver's index.
    pub fn in_flight_task(&self, idx: usize) -> (t: ScanTask)
        requires
            idx < self.in_flight_seq().len(),
        ensures
            t == self.in_flight_seq()[idx as int],
    {
        self.in_flight[idx]
    }

    pub fn is_fatal(&self) -> (b: bool)
        ensures
            b == self.is_fatal_spec(),
    {
        self.fatal
    }

    /// Whether every task of the space has been launched.
    pub fn exhausted(&self) -> (b: bool)
        requires
            self.wf(),
        ensures
            b == (self.launched() >= self.space().len()),
    {
        self.it.exhausted()
    }

    /// Whether a new probe may be issued now: the run is not fatal, the
    /// ceiling leaves room, and the space is not exhausted.
    pub open spec fn can_launch(&self) -> bool {
        &&& !self.is_fatal_spec()
        &&& self.in_flight_seq().len() < self.batch_spec()
        &&& self.launched() < self.space().len()
    }

    /// Law: a fatal settlement halts issuance for good, whatever targets
    /// remain unscanned.
    pub proof fn lemma_fatal_short_circuit(&self)
        requires
            self.is_fatal_spec(),
        ensures
            !self.can_launch(),
    {
    }

    /// Launches the next task when [`Self::can_launch`] allows it.
    pub fn launch_next(&mut self) -> (r: Option<ScanTask>)
        requires
            old(self).wf(),
        ensures
            final(self).wf(),
            final(self).space() == old(self).space(),
            final(self).batch_spec() == old(self).batch_spec(),
            final(self).results_seq() == old(self).results_seq(),
            final(self).is_fatal_spec() == old(self).is_fatal_spec(),
            final(self).lost_tasks() == old(self).lost_tasks(),
            if !old(self).can_launch() {
                &&& r is None
                &&& final(self).in_flight_seq() == old(self).in_flight_seq()
                &&& final(self).launched() == old(self).launched()
            } else {
                &&& r == Some(old(self).space()[old(self).launched()])
                &&& final(self).in_flight_seq() == old(self).in_flight_seq().push(
                    old(self).space()[old(self).launched()],
                )
                &&& final(self).launched() == old(self).launched() + 1
            },
    {
        if self.fatal || self.in_flight.len() >= self.batch {
            return None;
        }
        let ghost old_emitted = self.it.emitted();
        let ghost space = self.it.space();
        proof {
            self.it.lemma_emitted_in_range();
        }
        match self.it.next() {
            None => None,
            Some(t) => {
                let ghost prev_flight = self.in_flight@;
                self.in_flight.push(t);
                proof {
                    assert(space.take(old_emitted + 1) =~= space.take(old_emitted).push(t));
                    assert(self.in_flight@.to_multiset().add(
                        self.results@.map_values(|o: ScanOutcome| o.task).to_multiset(),
                    ).add(self.lost@) =~= space.take(self.it.emitted()).to_multiset());
                }
                Some(t)
            },
        }
    }

    /// Records that the in-flight probe at `idx` settled: a verdict is
    /// appended to the results; the fatal condition stops all further
    /// launches instead, without a verdict for that task.
    pub fn settle(&mut self, idx: usize, s: Settlement)
        requires
            old(self).wf(),
            idx < old(self).in_flight_seq().len(),
        ensures
            final(self).wf(),
            final(self).space() == old(self).space(),
            final(self).batch_spec() == old(self).batch_spec(),
            final(self).launched() == old(self).launched(),
            final(self).in_flight_seq() == old(self).in_flight_seq().remove(idx as int),
            match s {
                Settlement::Finished(st) => {
                    &&& final(self).results_seq() == old(self).results_seq().push(
                        (ScanOutcome { task: old(self).in_flight_seq()[idx as int], state: st }),
                    )
                    &&& final(self).is_fatal_spec() == old(self).is_fatal_spec()
                    &&& final(self).lost_tasks() == old(self).lost_tasks()
                },
                Settlement::Fatal => {
                    &&& final(self).results_seq() == old(self).results_seq()
                    &&& final(self).is_fatal_spec()
                    &&& final(self).lost_tasks() == old(self).lost_tasks().insert(
                        old(self).in_flight_seq()[idx as int],
                    )
                },
            },
    {
        let ghost space_taken = self.it.space().take(self.it.emitted());
        let ghost prev_flight = self.in_flight@;
        let ghost prev_tasks = self.results@.map_values(|o: ScanOutcome| o.task);
        let task = self.in_flight.remove(idx);
        proof {
            assert(prev_flight[idx as int] == task);
            assert(self.in_flight@.to_multiset() == prev_flight.to_multiset().remove(task));
            assert(prev_flight.contains(task));
        }
        match s {
            Settlement::Finished(st) => {
                self.results.push(ScanOutcome { task, state: st });
                proof {
                    assert(self.results@.map_values(|o: ScanOutcome| o.task) =~= prev_tasks.push(
                        task,
                    ));
                    assert(self.in_flight@.to_multiset().add(
                        self.results@.map_values(|o: ScanOutcome| o.task).to_multiset(),
                    ).add(self.lost@) =~= space_taken.to_multiset());
                }
            },
            Settlement::Fatal => {
                self.fatal = true;
                proof {
                    self.lost@ = self.lost@.insert(task);
                    assert(self.in_flight@.to_multiset().add(
                        self.results@.map_values(|o: ScanOutcome| o.task).to_multiset(),
                    ).add(self.lost@) =~= space_taken.to_multiset());
                }
            },
        }
    }

    /// Law: never more than `batch` probes are in flight, and never more
    /// than the target space holds.
    pub proof fn lemma_bounded_concurrency(&self)
        requires
            self.wf(),
        ensures
            self.in_flight_seq().len() <= self.batch_spec(),
            self.in_flight_seq().len() <= self.space().len(),
    {
        self.it.lemma_emitted_in_range();
    }

    /// Closes a drained run. Without a fatal condition the run covered the
    /// whole space: the recorded verdicts visit every task of the target
    /// space exactly once.
    pub fn finish(self) -> (r: Result<Vec<ScanOutcome>, FatalScanError>)
        requires
            self.wf(),
            self.in_flight_seq().len() == 0,
            self.is_fatal_spec() || self.launched() >= self.space().len(),
        ensures
            match r {
                Ok(v) => {
                    &&& !self.is_fatal_spec()
                    &&& v@ == self.results_seq()
                    &&& v@.map_values(|o: ScanOutcome| o.task).to_multiset()
                        == self.space().to_multiset()
                },
                Err(e) => self.is_fatal_spec() && e.batch == self.batch_spec(),
            },
    {
        if self.fatal {
            Err(FatalScanError { batch: self.batch })
        } else {
            proof {
                self.it.lemma_emitted_in_range();
                assert(self.it.space().take(self.it.emitted()) =~= self.it.space());
                assert(self.in_flight@ =~= Seq::<ScanTask>::empty());
                assert(Seq::<ScanTask>::empty().to_multiset() =~= Multiset::<ScanTask>::empty());
                assert(self.results@.map_values(|o: ScanOutcome| o.task).to_multiset()
                    =~= self.space().to_multiset());
            }
            Ok(self.results)
        }
    }
}

/// In a verdict sequence whose every verdict is fixed by `f`, an outcome is
/// seen as often as its task was visited — and never, if its verdict
/// contradicts `f`.
pub proof fn lemma_outcome_count(
    r: Seq<ScanOutcome>,
    f: spec_fn(ScanTask) -> PortState,
    o: ScanOutcome,
)
    requires
        forall|i: int| 0 <= i < r.len() ==> #[trigger] r[i].state == f(r[i].task),
    ensures
        f(o.task) == o.state ==> r.to_multiset().count(o) == r.map_values(
            |x: ScanOutcome| x.task,
        ).to_multiset().count(o.task),
        f(o.task) != o.state ==> r.to_multiset().count(o) == 0,
    decreases r.len(),
{
    if r.len() == 0 {
        assert(r.to_multiset() =~= Multiset::<ScanOutcome>::empty());
        assert(r.map_values(|x: ScanOutcome| x.task) =~= Seq::<ScanTask>::empty());
        assert(Seq::<ScanTask>::empty().to_multiset() =~= Multiset::<ScanTask>::empty());
    } else {
        let prev = r.drop_last();
        let last = r.last();
        assert(forall|i: int| 0 <= i < prev.len() ==> prev[i] == #[trigger] r[i]);
        lemma_outcome_count(prev, f, o);
        assert(r =~= prev.push(last));
        assert(r.map_values(|x: ScanOutcome| x.task) =~= prev.map_values(
            |x: ScanOutcome| x.task,
        ).push(last.task));
        assert(r.to_multiset() == prev.to_multiset().insert(last));
        assert(r.map_values(|x: ScanOutcome| x.task).to_multiset() == prev.map_values(
            |x: ScanOutcome| x.task,
        ).to_multiset().insert(last.task));
        assert(last.state == f(last.task));
    }
}

/// Law: two completed runs over the same target space, with every task's
/// verdict fixed by the same function of the task, classify identically —
/// whatever order completions arrived in.
pub proof fn lemma_idempotent_classification(
    r1: Seq<ScanOutcome>,
    r2: Seq<ScanOutcome>,
    f: spec_fn(ScanTask) -> PortState,
)
    requires
        forall|i: int| 0 <= i < r1.len() ==> #[trigger] r1[i].state == f(r1[i].task),
        forall|i: int| 0 <= i < r2.len() ==> #[trigger] r2[i].state == f(r2[i].task),
        r1.map_values(|x: ScanOutcome| x.task).to_multiset() == r2.map_values(
            |x: ScanOutcome| x.task,
        ).to_multiset(),
    ensures
        r1.to_multiset() == r2.to_multiset(),
{
    assert forall|o: ScanOutcome|
        r1.to_multiset().count(o) == r2.to_multiset().count(o) by {
        lemma_outcome_count(r1, f, o);
        lemma_outcome_count(r2, f, o);
    }
    assert(r1.to_multiset() =~= r2.to_multiset());
}

} // verus!

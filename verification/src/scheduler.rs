//! The probe batch: an admission gate of fixed size in front of the probes, and
//! the bookkeeping of what was started, what is running and what came back.

use crate::probe::Verdict;
use vstd::prelude::*;

verus! {

/// What came back from one probe of the batch: its position in the target list
/// and its verdict.
#[derive(Clone, Copy, PartialEq, Eq, Debug, Structural)]
pub struct ProbeRecord {
    pub index: usize,
    pub verdict: Verdict,
}

/// What the batch asks for next.
#[derive(Clone, Copy, PartialEq, Eq, Debug, Structural)]
pub enum Decision {
    /// The admission gate has room: start the probe of the target at this position.
    Start(usize),
    /// Nothing can be started now: wait for a running probe to come back.
    Await,
    /// Nothing runs and nothing more will be started.
    Done,
}

/// The state of a batch as plain mathematics.
pub struct SchedulerView {
    /// Number of targets in the batch.
    pub total: nat,
    /// Size of the admission gate.
    pub limit: nat,
    /// Number of probes admitted so far; they are the targets `0..started`.
    pub started: nat,
    /// Positions of the probes now running.
    pub in_flight: Seq<usize>,
    /// What came back, in the order of arrival.
    pub results: Seq<ProbeRecord>,
    /// Number of probes whose unit of work broke down instead of coming back.
    pub crashed: nat,
    /// Set once the batch has been stopped: nothing more is admitted.
    pub halted: bool,
}

impl SchedulerView {
    /// A batch of `total` targets behind a gate of size `limit`, nothing started.
    pub open spec fn fresh(total: nat, limit: nat) -> SchedulerView {
        SchedulerView {
            total,
            limit,
            started: 0,
            in_flight: Seq::empty(),
            results: Seq::empty(),
            crashed: 0,
            halted: false,
        }
    }

    /// Whether the probe at position `index` is running.
    pub open spec fn is_running(self, index: int) -> bool {
        exists|j: int| 0 <= j < self.in_flight.len() && #[trigger] self.in_flight[j] == index
    }

    /// Whether a record for the probe at position `index` has arrived.
    pub open spec fn has_result(self, index: int) -> bool {
        exists|k: int| 0 <= k < self.results.len() && (#[trigger] self.results[k]).index == index
    }

    /// Whether the probe at position `index` is running or has come back.
    pub open spec fn accounted(self, index: int) -> bool {
        self.is_running(index) || self.has_result(index)
    }

    /// The invariant of the bookkeeping.
    pub open spec fn wf(self) -> bool {
        &&& self.started <= self.total
        &&& self.in_flight.len() <= self.limit
        &&& self.in_flight.len() + self.results.len() + self.crashed == self.started
        &&& self.crashed > 0 ==> self.halted
        &&& forall|j: int| 0 <= j < self.in_flight.len() ==> (#[trigger] self.in_flight[j]) < self.started
        &&& forall|k: int| 0 <= k < self.results.len() ==> (#[trigger] self.results[k]).index < self.started
        &&& self.in_flight.no_duplicates()
        &&& forall|j: int, k: int|
            0 <= j < self.results.len() && 0 <= k < self.results.len() && j != k ==> (#[trigger] self.results[j]).index
                != (#[trigger] self.results[k]).index
        &&& forall|j: int, k: int|
            0 <= j < self.in_flight.len() && 0 <= k < self.results.len() ==> (#[trigger] self.in_flight[j]) != (
            #[trigger] self.results[k]).index
        &&& !self.halted ==> forall|i: int| 0 <= i < self.started ==> #[trigger] self.accounted(i)
    }

    /// Whether the admission gate admits another probe now.
    pub open spec fn can_start(self) -> bool {
        !self.halted && self.started < self.total && self.in_flight.len() < self.limit
    }

    /// Whether nothing runs and nothing more will be admitted.
    pub open spec fn drained(self) -> bool {
        self.in_flight.len() == 0 && (self.halted || self.started == self.total)
    }

    /// What the batch asks for next.
    pub open spec fn decide(self) -> Decision {
        if self.can_start() {
            Decision::Start(self.started as usize)
        } else if self.drained() {
            Decision::Done
        } else {
            Decision::Await
        }
    }

    /// The batch after the next probe passed the admission gate; unchanged
    /// where the admission gate is shut.
    pub open spec fn launch(self) -> SchedulerView {
        if self.can_start() {
            SchedulerView {
                started: self.started + 1,
                in_flight: self.in_flight.push(self.started as usize),
                ..self
            }
        } else {
            self
        }
    }

    /// The batch after the running probe at `index` came back with `verdict`;
    /// unchanged where no such probe runs.
    pub open spec fn complete(self, index: usize, verdict: Verdict) -> SchedulerView {
        if self.in_flight.contains(index) {
            SchedulerView {
                in_flight: self.in_flight.remove(self.in_flight.index_of(index)),
                results: self.results.push(ProbeRecord { index, verdict }),
                ..self
            }
        } else {
            self
        }
    }

    /// The batch after the unit of work of the running probe at `index` broke
    /// down: its place at the admission gate is free again and the batch is stopped.
    /// Unchanged where no such probe runs.
    pub open spec fn crash(self, index: usize) -> SchedulerView {
        if self.in_flight.contains(index) {
            SchedulerView {
                in_flight: self.in_flight.remove(self.in_flight.index_of(index)),
                crashed: self.crashed + 1,
                halted: true,
                ..self
            }
        } else {
            self
        }
    }

    /// The batch after it was stopped.
    pub open spec fn halt(self) -> SchedulerView {
        SchedulerView { halted: true, ..self }
    }
}

/// Admitting a probe keeps the bookkeeping well formed.
pub proof fn lemma_launch_wf(s: SchedulerView)
    requires
        s.wf(),
        s.total <= usize::MAX,
    ensures
        s.launch().wf(),
{
    if s.can_start() {
        let t = s.launch();
        let fresh = s.started as usize;
        assert forall|i: int| 0 <= i < t.started implies #[trigger] t.accounted(i) by {
            if i < s.started {
                assert(s.accounted(i));
                if s.is_running(i) {
                    let j = choose|j: int| 0 <= j < s.in_flight.len() && #[trigger] s.in_flight[j] == i;
                    assert(t.in_flight[j] == i);
                } else {
                    let k = choose|k: int| 0 <= k < s.results.len() && (#[trigger] s.results[k]).index == i;
                    assert(t.results[k].index == i);
                }
            } else {
                assert(t.in_flight[s.in_flight.len() as int] == fresh);
            }
        }
    }
}

/// Taking the running probe at position `p` of the list out of it leaves a list
/// without repeats that no longer holds that probe.
proof fn lemma_remove_running(s: SchedulerView, p: int)
    requires
        s.wf(),
        0 <= p < s.in_flight.len(),
    ensures
        s.in_flight.index_of(s.in_flight[p]) == p,
        s.in_flight.remove(p).len() == s.in_flight.len() - 1,
        s.in_flight.remove(p).no_duplicates(),
        !s.in_flight.remove(p).contains(s.in_flight[p]),
        forall|j: int|
            0 <= j < s.in_flight.remove(p).len() ==> s.in_flight.contains(
                #[trigger] s.in_flight.remove(p)[j],
            ),
        forall|j: int|
            0 <= j < s.in_flight.len() && j != p ==> s.in_flight.remove(p).contains(
                #[trigger] s.in_flight[j],
            ),
{
    let f = s.in_flight;
    let r = f.remove(p);
    f.remove_ensures(p);
    assert(f.contains(f[p]));
    assert forall|j: int| 0 <= j < r.len() implies f.contains(#[trigger] r[j]) by {
        if j < p {
            assert(r[j] == f[j]);
        } else {
            assert(r[j] == f[j + 1]);
        }
    }
    assert forall|j: int| 0 <= j < f.len() && j != p implies r.contains(#[trigger] f[j]) by {
        if j < p {
            assert(r[j] == f[j]);
        } else {
            assert(r[j - 1] == f[j]);
        }
    }
    assert forall|i: int, j: int| 0 <= i < r.len() && 0 <= j < r.len() && i != j implies r[i] != r[j] by {
        let a = if i < p { i } else { i + 1 };
        let b = if j < p { j } else { j + 1 };
        assert(r[i] == f[a]);
        assert(r[j] == f[b]);
    }
    if r.contains(f[p]) {
        let j = choose|j: int| 0 <= j < r.len() && r[j] == f[p];
        let a = if j < p { j } else { j + 1 };
        assert(r[j] == f[a]);
    }
}

/// A probe that comes back keeps the bookkeeping well formed.
pub proof fn lemma_complete_wf(s: SchedulerView, index: usize, verdict: Verdict)
    requires
        s.wf(),
    ensures
        s.complete(index, verdict).wf(),
{
    if s.in_flight.contains(index) {
        let p = s.in_flight.index_of(index);
        let t = s.complete(index, verdict);
        lemma_remove_running(s, p);
        s.in_flight.remove_ensures(p);
        assert forall|j: int| 0 <= j < t.in_flight.len() implies (#[trigger] t.in_flight[j]) < t.started by {
            assert(s.in_flight.contains(t.in_flight[j]));
        }
        assert forall|j: int, k: int|
            0 <= j < t.in_flight.len() && 0 <= k < t.results.len() implies (#[trigger] t.in_flight[j]) != (
        #[trigger] t.results[k]).index by {
            assert(s.in_flight.contains(t.in_flight[j]));
            if k < s.results.len() {
                assert(t.results[k] == s.results[k]);
            } else {
                assert(t.in_flight.contains(t.in_flight[j]));
            }
        }
        assert forall|j: int, k: int|
            0 <= j < t.results.len() && 0 <= k < t.results.len() && j != k implies (#[trigger] t.results[j]).index
            != (#[trigger] t.results[k]).index by {
            if j < s.results.len() && k < s.results.len() {
                assert(t.results[j] == s.results[j]);
                assert(t.results[k] == s.results[k]);
            } else if j < s.results.len() {
                assert(t.results[j] == s.results[j]);
                assert(s.in_flight[p] != s.results[j].index);
            } else {
                assert(t.results[k] == s.results[k]);
                assert(s.in_flight[p] != s.results[k].index);
            }
        }
        if !t.halted {
            assert forall|i: int| 0 <= i < t.started implies #[trigger] t.accounted(i) by {
                assert(s.accounted(i));
                if i == index {
                    assert(t.results[s.results.len() as int].index == i);
                } else if s.is_running(i) {
                    let j = choose|j: int| 0 <= j < s.in_flight.len() && #[trigger] s.in_flight[j] == i;
                    assert(t.in_flight.contains(s.in_flight[j]));
                    let j2 = choose|j2: int| 0 <= j2 < t.in_flight.len() && t.in_flight[j2] == s.in_flight[j];
                    assert(t.in_flight[j2] == i);
                } else {
                    let k = choose|k: int| 0 <= k < s.results.len() && (#[trigger] s.results[k]).index == i;
                    assert(t.results[k].index == i);
                }
            }
        }
    }
}

/// A unit of work that breaks down keeps the bookkeeping well formed.
pub proof fn lemma_crash_wf(s: SchedulerView, index: usize)
    requires
        s.wf(),
    ensures
        s.crash(index).wf(),
{
    if s.in_flight.contains(index) {
        let p = s.in_flight.index_of(index);
        let t = s.crash(index);
        lemma_remove_running(s, p);
        s.in_flight.remove_ensures(p);
        assert forall|j: int| 0 <= j < t.in_flight.len() implies (#[trigger] t.in_flight[j]) < t.started by {
            assert(s.in_flight.contains(t.in_flight[j]));
        }
        assert forall|j: int, k: int|
            0 <= j < t.in_flight.len() && 0 <= k < t.results.len() implies (#[trigger] t.in_flight[j]) != (
        #[trigger] t.results[k]).index by {
            assert(s.in_flight.contains(t.in_flight[j]));
        }
    }
}

/// Stopping the batch keeps the bookkeeping well formed.
pub proof fn lemma_halt_wf(s: SchedulerView)
    requires
        s.wf(),
    ensures
        s.halt().wf(),
{
}

/// The admission gate holds: in a well-formed batch no more probes run than
/// the admission gate has places, and nothing that can happen to the batch
/// changes that.
pub proof fn law_admission_bound(s: SchedulerView, index: usize, verdict: Verdict)
    requires
        s.wf(),
        s.total <= usize::MAX,
    ensures
        s.in_flight.len() <= s.limit,
        s.launch().in_flight.len() <= s.limit,
        s.complete(index, verdict).in_flight.len() <= s.limit,
        s.crash(index).in_flight.len() <= s.limit,
        s.halt().in_flight.len() <= s.limit,
{
    lemma_launch_wf(s);
    lemma_complete_wf(s, index, verdict);
    lemma_crash_wf(s, index);
}

/// Behind an admission gate with at least one place a batch never stands
/// still: where it asks to wait, a probe is running whose return will end
/// the wait.
pub proof fn law_wait_has_a_cause(s: SchedulerView)
    requires
        s.wf(),
        s.limit >= 1,
        s.decide() is Await,
    ensures
        s.in_flight.len() > 0,
{
}

/// A place is given back whenever its probe ends, whatever the verdict, and
/// also when the unit of work breaks down: one probe less is running, and the
/// one that ended is not among them.
pub proof fn law_place_is_given_back(s: SchedulerView, index: usize, verdict: Verdict)
    requires
        s.wf(),
        s.in_flight.contains(index),
    ensures
        s.complete(index, verdict).in_flight.len() == s.in_flight.len() - 1,
        !s.complete(index, verdict).in_flight.contains(index),
        s.crash(index).in_flight.len() == s.in_flight.len() - 1,
        !s.crash(index).in_flight.contains(index),
{
    lemma_remove_running(s, s.in_flight.index_of(index));
}

/// The records that have arrived stay as they are: what happens to one probe
/// changes no record of another. A probe that comes back adds its own record
/// behind them, and nothing else adds or changes one.
pub proof fn law_records_are_kept(s: SchedulerView, index: usize, verdict: Verdict)
    ensures
        s.launch().results == s.results,
        s.crash(index).results == s.results,
        s.halt().results == s.results,
        s.complete(index, verdict).results == if s.in_flight.contains(index) {
            s.results.push(ProbeRecord { index, verdict })
        } else {
            s.results
        },
{
}

/// A batch that ran to its end without being stopped holds exactly one record
/// for each target: as many records as targets, and for each position one
/// record and no second one.
pub proof fn lemma_one_record_per_target(s: SchedulerView)
    requires
        s.wf(),
        s.drained(),
        !s.halted,
    ensures
        s.results.len() == s.total,
        forall|i: int| 0 <= i < s.total ==> s.has_result(i),
        forall|j: int, k: int|
            0 <= j < s.results.len() && 0 <= k < s.results.len() && j != k ==> s.results[j].index
                != s.results[k].index,
{
    assert forall|i: int| 0 <= i < s.total implies s.has_result(i) by {
        assert(s.accounted(i));
    }
}

/// A probe batch: the targets are known by their positions `0..total`, and at
/// most `limit` of them run at any moment.
pub struct Scheduler {
    total: usize,
    limit: usize,
    started: usize,
    in_flight: Vec<usize>,
    results: Vec<ProbeRecord>,
    crashed: usize,
    halted: bool,
}

impl View for Scheduler {
    type V = SchedulerView;

    closed spec fn view(&self) -> SchedulerView {
        SchedulerView {
            total: self.total as nat,
            limit: self.limit as nat,
            started: self.started as nat,
            in_flight: self.in_flight@,
            results: self.results@,
            crashed: self.crashed as nat,
            halted: self.halted,
        }
    }
}

impl Scheduler {
    /// The invariant that every batch handed out by this module meets.
    pub open spec fn wf(&self) -> bool {
        self@.wf() && self@.total <= usize::MAX && self@.limit <= usize::MAX
    }

    /// A batch of `total` targets behind a gate of size `limit`.
    pub fn new(total: usize, limit: usize) -> (s: Scheduler)
        ensures
            s.wf(),
            s@ == SchedulerView::fresh(total as nat, limit as nat),
    {
        Scheduler {
            total,
            limit,
            started: 0,
            in_flight: Vec::new(),
            results: Vec::new(),
            crashed: 0,
            halted: false,
        }
    }

    /// Number of targets in the batch.
    pub fn total(&self) -> (n: usize)
        ensures
            n == self@.total,
    {
        self.total
    }

    /// Size of the admission gate.
    pub fn limit(&self) -> (n: usize)
        ensures
            n == self@.limit,
    {
        self.limit
    }

    /// Number of probes admitted so far.
    pub fn started(&self) -> (n: usize)
        ensures
            n == self@.started,
    {
        self.started
    }

    /// Number of probes now running.
    pub fn in_flight(&self) -> (n: usize)
        ensures
            n == self@.in_flight.len(),
    {
        self.in_flight.len()
    }

    /// Number of probes whose unit of work broke down.
    pub fn crashed(&self) -> (n: usize)
        ensures
            n == self@.crashed,
    {
        self.crashed
    }

    /// Whether the batch has been stopped.
    pub fn is_halted(&self) -> (b: bool)
        ensures
            b == self@.halted,
    {
        self.halted
    }

    /// What came back so far, in the order of arrival.
    pub fn results(&self) -> (r: &Vec<ProbeRecord>)
        ensures
            r@ == self@.results,
    {
        &self.results
    }

    /// Gives up the batch for its records, in the order of arrival.
    pub fn into_results(self) -> (r: Vec<ProbeRecord>)
        ensures
            r@ == self@.results,
    {
        self.results
    }

    /// Whether the probe at position `index` is running.
    pub fn is_running(&self, index: usize) -> (b: bool)
        ensures
            b == self@.in_flight.contains(index),
    {
        self.position(index).is_some()
    }

    fn position(&self, index: usize) -> (p: Option<usize>)
        ensures
            match p {
                Some(p) => p < self.in_flight@.len() && self.in_flight@[p as int] == index,
                None => !self.in_flight@.contains(index),
            },
    {
        let mut p: usize = 0;
        while p < self.in_flight.len()
            invariant
                p <= self.in_flight@.len(),
                forall|j: int| 0 <= j < p ==> self.in_flight@[j] != index,
            decreases self.in_flight@.len() - p,
        {
            if self.in_flight[p] == index {
                return Some(p);
            }
            p += 1;
        }
        None
    }

    /// What the batch asks for next: to start the next target while the admission gate has
    /// room and the batch is not stopped, else to wait while anything runs or is
    /// still to be started, else nothing more.
    pub fn decide(&self) -> (d: Decision)
        requires
            self.wf(),
        ensures
            d == self@.decide(),
    {
        if !self.halted && self.started < self.total && self.in_flight.len() < self.limit {
            Decision::Start(self.started)
        } else if self.in_flight.len() == 0 && (self.halted || self.started == self.total) {
            Decision::Done
        } else {
            Decision::Await
        }
    }

    /// Takes a place at the admission gate for the next target, if there is
    /// room for one, and gives its position.
    pub fn launch(&mut self) -> (admitted: Option<usize>)
        requires
            old(self).wf(),
        ensures
            final(self).wf(),
            final(self)@ == old(self)@.launch(),
            admitted == if old(self)@.can_start() {
                Some(old(self)@.started as usize)
            } else {
                None
            },
    {
        proof {
            lemma_launch_wf(self@);
        }
        if !self.halted && self.started < self.total && self.in_flight.len() < self.limit {
            let index: usize = self.started;
            self.in_flight.push(index);
            self.started = index + 1;
            Some(index)
        } else {
            None
        }
    }

    /// Records that the running probe at `index` came back with `verdict` and
    /// frees its place at the admission gate. Says whether such a probe was running; if
    /// not, nothing changes.
    pub fn complete(&mut self, index: usize, verdict: Verdict) -> (known: bool)
        requires
            old(self).wf(),
        ensures
            final(self).wf(),
            final(self)@ == old(self)@.complete(index, verdict),
            known == old(self)@.in_flight.contains(index),
    {
        proof {
            lemma_complete_wf(self@, index, verdict);
        }
        match self.position(index) {
            Some(p) => {
                proof {
                    lemma_remove_running(self@, p as int);
                }
                self.in_flight.remove(p);
                self.results.push(ProbeRecord { index, verdict });
                true
            },
            None => false,
        }
    }

    /// Records that the unit of work of the running probe at `index` broke down:
    /// frees its place at the admission gate and stops the batch. Says whether such a probe
    /// was running; if not, nothing changes.
    pub fn crash(&mut self, index: usize) -> (known: bool)
        requires
            old(self).wf(),
        ensures
            final(self).wf(),
            final(self)@ == old(self)@.crash(index),
            known == old(self)@.in_flight.contains(index),
    {
        proof {
            lemma_crash_wf(self@, index);
        }
        match self.position(index) {
            Some(p) => {
                proof {
                    lemma_remove_running(self@, p as int);
                }
                self.in_flight.remove(p);
                self.crashed = self.crashed + 1;
                self.halted = true;
                true
            },
            None => false,
        }
    }

    /// Stops the batch: nothing more is admitted; what runs may still come back.
    pub fn halt(&mut self)
        requires
            old(self).wf(),
        ensures
            final(self).wf(),
            final(self)@ == old(self)@.halt(),
    {
        self.halted = true;
    }
}

} // verus!

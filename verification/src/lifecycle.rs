//! The life of one run: provision the sandbox, wait until it is ready, run the
//! probe batch behind its gate, tear the sandbox down. The run is a state
//! machine: the caller performs the action it asks for and hands back what
//! happened.

use crate::probe::Verdict;
use crate::readiness::Readiness;
use crate::scheduler::{
    lemma_complete_wf, lemma_crash_wf, lemma_halt_wf, lemma_launch_wf, lemma_one_record_per_target,
    Decision, ProbeRecord, Scheduler,
    SchedulerView,
};
use vstd::prelude::*;

verus! {

/// Where a run stands.
#[derive(Clone, Copy, PartialEq, Eq, Debug, Structural)]
pub enum Phase {
    /// The sandbox is being created.
    Provisioning,
    /// The change-event stream of the sandbox is being opened.
    OpeningWatch,
    /// The run waits for the sandbox to report that it is running.
    AwaitingReady,
    /// The probe batch is under way.
    Probing,
    /// The sandbox is being deleted.
    TearingDown,
    /// Nothing is left to do.
    Finished,
}

/// Why a run failed.
#[derive(Clone, Copy, PartialEq, Eq, Debug, Structural)]
pub enum RunError {
    /// The sandbox could not be created.
    Provision,
    /// The change-event stream could not be opened, or broke.
    Watch,
    /// The sandbox did not report that it is running before the stream ended or
    /// the deadline passed.
    ReadinessTimeout,
    /// A change event came without its status block.
    MalformedEvent,
    /// The unit of work of a probe broke down.
    Join,
    /// The deletion request failed.
    Teardown,
    /// Another sandbox than the one created was reported as deleted.
    TeardownIntegrity,
    /// The caller handed back something that does not answer the action asked for.
    Protocol,
}

/// What the caller hands back to the run.
#[derive(Clone, Copy, PartialEq, Eq, Debug, Structural)]
pub enum Event {
    /// The sandbox was created.
    Provisioned,
    /// The creation request was refused.
    ProvisionFailed,
    /// The change-event stream is open.
    WatchOpened,
    /// The change-event stream could not be opened, or broke.
    WatchFailed,
    /// A change event arrived, with what it means for the wait.
    Watch(Readiness),
    /// The change-event stream came to its end.
    WatchEnded,
    /// The deadline of the readiness wait passed.
    DeadlineElapsed,
    /// The probe asked for was started.
    ProbeStarted,
    /// The running probe at this position came back.
    ProbeFinished { index: usize, verdict: Verdict },
    /// The unit of work of the running probe at this position broke down.
    ProbeCrashed { index: usize },
    /// The control plane reported a sandbox as deleted; `confirmed` says whether
    /// it named the one that this run created.
    Deleted { confirmed: bool },
    /// The control plane took the deletion request and named no sandbox yet.
    DeletionAccepted,
    /// The deletion request failed.
    DeleteFailed,
}

/// What the run asks its caller to do.
#[derive(Clone, Copy, PartialEq, Eq, Debug, Structural)]
pub enum Action {
    /// Create the sandbox.
    Provision,
    /// Open the change-event stream of the sandbox.
    OpenWatch,
    /// Hand over the next change event.
    NextWatchEvent,
    /// Start the probe of the target at this position.
    StartProbe(usize),
    /// Wait for a running probe to come back.
    AwaitProbe,
    /// Delete the sandbox.
    Teardown,
    /// Stop: the run is over.
    Exit,
}

/// The state of a run as plain mathematics.
pub struct RunView {
    pub phase: Phase,
    pub sched: SchedulerView,
    /// The failure that the run will report, if any.
    pub error: Option<RunError>,
    /// Whether the sandbox was created.
    pub provisioned: bool,
}

impl RunView {
    /// A run at its start, for `total` targets behind a gate of size `limit`.
    pub open spec fn start(total: nat, limit: nat) -> RunView {
        RunView {
            phase: Phase::Provisioning,
            sched: SchedulerView::fresh(total, limit),
            error: None,
            provisioned: false,
        }
    }

    /// The invariant of a run. Before the probe batch nothing was started.
    /// While the batch is under way something still runs or waits to be
    /// started, and the batch is stopped exactly where a failure is noted.
    /// The deletion is asked for only when nothing runs. A run without a
    /// failure that has reached the deletion has run its whole batch. A run
    /// that ended without a sandbox ended with a failure.
    pub open spec fn wf(self) -> bool {
        &&& self.sched.wf()
        &&& self.sched.total <= usize::MAX
        &&& match self.phase {
            Phase::Provisioning => !self.provisioned && self.error is None && self.sched.started == 0
                && !self.sched.halted,
            Phase::OpeningWatch | Phase::AwaitingReady => self.provisioned && self.error is None
                && self.sched.started == 0 && !self.sched.halted,
            Phase::Probing => self.provisioned && !self.sched.drained() && (self.sched.halted
                <==> self.error is Some),
            Phase::TearingDown => self.provisioned && self.sched.in_flight.len() == 0 && (
            self.error is None ==> self.sched.drained() && !self.sched.halted),
            Phase::Finished => if self.provisioned {
                self.sched.in_flight.len() == 0 && (self.error is None ==> self.sched.drained()
                    && !self.sched.halted)
            } else {
                self.error is Some && self.sched.started == 0
            },
        }
    }

    /// What the run asks for in this state.
    pub open spec fn action(self) -> Action {
        match self.phase {
            Phase::Provisioning => Action::Provision,
            Phase::OpeningWatch => Action::OpenWatch,
            Phase::AwaitingReady => Action::NextWatchEvent,
            Phase::Probing => match self.sched.decide() {
                Decision::Start(index) => Action::StartProbe(index),
                _ => Action::AwaitProbe,
            },
            Phase::TearingDown => Action::Teardown,
            Phase::Finished => Action::Exit,
        }
    }

    /// The run with `error` noted, unless an earlier failure is noted already.
    pub open spec fn noting(self, error: RunError) -> RunView {
        if self.error is None {
            RunView { error: Some(error), ..self }
        } else {
            self
        }
    }

    /// The run moved to `phase`.
    pub open spec fn moved(self, phase: Phase) -> RunView {
        RunView { phase, ..self }
    }

    /// The run at the start of the probe batch: with no target at all the batch
    /// is over at once.
    pub open spec fn entering_batch(self) -> RunView {
        if self.sched.drained() {
            self.moved(Phase::TearingDown)
        } else {
            self.moved(Phase::Probing)
        }
    }

    /// The run after one event of the probe batch. While the admission gate
    /// has room for the next target, the one event in turn is that its probe
    /// was started. Else the events in turn are the return of a running probe,
    /// which is recorded, and the breakdown of its unit of work, which stops
    /// the batch with a failure. Anything else stops the batch as a breach of
    /// the protocol. A stopped batch admits nothing more, and what runs may
    /// still come back. As soon as nothing runs and nothing more will be
    /// started, the run moves on to the deletion. Behind an admission gate
    /// without any place no probe is ever started, and the batch waits for good.
    pub open spec fn after_batch_event(self, event: Event) -> RunView {
        let next = match event {
            Event::ProbeStarted if self.sched.can_start() => RunView { sched: self.sched.launch(), ..self },
            Event::ProbeFinished { index, verdict } if !self.sched.can_start()
                && self.sched.in_flight.contains(index) => RunView {
                sched: self.sched.complete(index, verdict),
                ..self
            },
            Event::ProbeCrashed { index } if !self.sched.can_start() && self.sched.in_flight.contains(
                index,
            ) => RunView { sched: self.sched.crash(index), ..self }.noting(RunError::Join),
            _ => RunView { sched: self.sched.halt(), ..self }.noting(RunError::Protocol),
        };
        if next.sched.drained() {
            next.moved(Phase::TearingDown)
        } else {
            next
        }
    }

    /// The run after `event`. In each phase the events in turn are those that
    /// answer the action asked for; any other event is a breach of the
    /// protocol and ends the phase with a failure. A failure before the
    /// sandbox exists ends the run. A failure after that leads to the
    /// deletion, and so does the end of the batch. The failure that the run
    /// reports is the first one noted, but for the deletion of another
    /// sandbox, which is reported whatever happened before. A run that is over
    /// takes no more events.
    pub open spec fn after(self, event: Event) -> RunView {
        match self.phase {
            Phase::Provisioning => match event {
                Event::Provisioned => RunView { provisioned: true, ..self }.moved(Phase::OpeningWatch),
                Event::ProvisionFailed => self.noting(RunError::Provision).moved(Phase::Finished),
                _ => self.noting(RunError::Protocol).moved(Phase::Finished),
            },
            Phase::OpeningWatch => match event {
                Event::WatchOpened => self.moved(Phase::AwaitingReady),
                Event::WatchFailed => self.noting(RunError::Watch).moved(Phase::TearingDown),
                _ => self.noting(RunError::Protocol).moved(Phase::TearingDown),
            },
            Phase::AwaitingReady => match event {
                Event::Watch(Readiness::Waiting) => self,
                Event::Watch(Readiness::Ready) => self.entering_batch(),
                Event::Watch(Readiness::Malformed) => self.noting(RunError::MalformedEvent).moved(
                    Phase::TearingDown,
                ),
                Event::WatchEnded | Event::DeadlineElapsed => self.noting(
                    RunError::ReadinessTimeout,
                ).moved(Phase::TearingDown),
                Event::WatchFailed => self.noting(RunError::Watch).moved(Phase::TearingDown),
                _ => self.noting(RunError::Protocol).moved(Phase::TearingDown),
            },
            Phase::Probing => self.after_batch_event(event),
            Phase::TearingDown => match event {
                Event::Deleted { confirmed } => if confirmed {
                    self.moved(Phase::Finished)
                } else {
                    RunView { error: Some(RunError::TeardownIntegrity), ..self }.moved(Phase::Finished)
                },
                Event::DeletionAccepted => self.moved(Phase::Finished),
                Event::DeleteFailed => self.noting(RunError::Teardown).moved(Phase::Finished),
                _ => self.noting(RunError::Protocol).moved(Phase::Finished),
            },
            Phase::Finished => self,
        }
    }

    /// The run after each of `events` in turn.
    pub open spec fn after_all(self, events: Seq<Event>) -> RunView
        decreases events.len(),
    {
        if events.len() == 0 {
            self
        } else {
            self.after_all(events.drop_last()).after(events.last())
        }
    }

    /// The actions that the run asks for while `events` come in: the one of the
    /// state it is in, then the one after each event.
    pub open spec fn actions(self, events: Seq<Event>) -> Seq<Action>
        decreases events.len(),
    {
        if events.len() == 0 {
            seq![self.action()]
        } else {
            self.actions(events.drop_last()).push(self.after_all(events).action())
        }
    }
}

/// How often `action` stands in `actions`.
pub open spec fn count_of(actions: Seq<Action>, action: Action) -> nat
    decreases actions.len(),
{
    if actions.len() == 0 {
        0
    } else {
        count_of(actions.drop_last(), action) + if actions.last() == action {
            1nat
        } else {
            0nat
        }
    }
}

/// A run at its start is well formed.
pub proof fn lemma_start_wf(total: nat, limit: nat)
    requires
        total <= usize::MAX,
    ensures
        RunView::start(total, limit).wf(),
{
}

/// Every event keeps a run well formed.
pub proof fn lemma_after_wf(s: RunView, event: Event)
    requires
        s.wf(),
    ensures
        s.after(event).wf(),
        s.after(event).sched.total == s.sched.total,
        s.after(event).sched.limit == s.sched.limit,
{
    match s.phase {
        Phase::Probing => {
            lemma_launch_wf(s.sched);
            lemma_halt_wf(s.sched);
            match event {
                Event::ProbeFinished { index, verdict } => {
                    lemma_complete_wf(s.sched, index, verdict);
                },
                Event::ProbeCrashed { index } => {
                    lemma_crash_wf(s.sched, index);
                },
                _ => {},
            }
        },
        _ => {},
    }
}

/// Whatever events come in, the run stays well formed.
pub proof fn lemma_after_all_wf(s: RunView, events: Seq<Event>)
    requires
        s.wf(),
    ensures
        s.after_all(events).wf(),
        s.after_all(events).sched.total == s.sched.total,
        s.after_all(events).sched.limit == s.sched.limit,
    decreases events.len(),
{
    if events.len() > 0 {
        lemma_after_all_wf(s, events.drop_last());
        lemma_after_wf(s.after_all(events.drop_last()), events.last());
    }
}

/// Whether the deletion of the sandbox has been asked for in this state or before.
pub open spec fn torn_down(s: RunView) -> bool {
    s.phase is TearingDown || (s.phase is Finished && s.provisioned)
}

/// Whether the first thing that happened was the creation of the sandbox.
pub open spec fn provisioning_succeeded(events: Seq<Event>) -> bool {
    events.len() > 0 && events[0] == Event::Provisioned
}

proof fn lemma_teardown_count(total: nat, limit: nat, events: Seq<Event>)
    requires
        total <= usize::MAX,
    ensures
        RunView::start(total, limit).after_all(events).wf(),
        RunView::start(total, limit).after_all(events).provisioned == provisioning_succeeded(events),
        count_of(RunView::start(total, limit).actions(events), Action::Teardown) == if torn_down(
            RunView::start(total, limit).after_all(events),
        ) {
            1nat
        } else {
            0nat
        },
        count_of(RunView::start(total, limit).actions(events), Action::Provision) == 1,
    decreases events.len(),
{
    let s0 = RunView::start(total, limit);
    lemma_start_wf(total, limit);
    lemma_after_all_wf(s0, events);
    if events.len() == 0 {
        let a = s0.actions(events);
        assert(a.drop_last().len() == 0);
        assert(count_of(a.drop_last(), Action::Teardown) == 0);
        assert(count_of(a.drop_last(), Action::Provision) == 0);
    } else {
        let before = events.drop_last();
        lemma_teardown_count(total, limit, before);
        let mid = s0.after_all(before);
        let a = s0.actions(events);
        assert(a.drop_last() =~= s0.actions(before));
        assert(a.last() == mid.after(events.last()).action());
        lemma_after_wf(mid, events.last());
        if before.len() > 0 {
            assert(before[0] == events[0]);
        }
    }
}

/// The creation of the sandbox is asked for exactly once in every run: at its
/// start, and never again whatever happens.
pub proof fn law_provision_once(total: nat, limit: nat, events: Seq<Event>)
    requires
        total <= usize::MAX,
    ensures
        count_of(RunView::start(total, limit).actions(events), Action::Provision) == 1,
        RunView::start(total, limit).actions(events)[0] == Action::Provision,
{
    lemma_teardown_count(total, limit, events);
    lemma_actions_first(RunView::start(total, limit), events);
}

proof fn lemma_actions_first(s: RunView, events: Seq<Event>)
    ensures
        s.actions(events).len() == events.len() + 1,
        s.actions(events)[0] == s.action(),
    decreases events.len(),
{
    if events.len() > 0 {
        lemma_actions_first(s, events.drop_last());
    }
}

/// The deletion of the sandbox is asked for at most once in every run. In a run
/// that came to its end it was asked for exactly once if the sandbox had been
/// created, whatever went wrong after that. Where the sandbox was not created
/// it is never asked for.
pub proof fn law_teardown_exactly_once(total: nat, limit: nat, events: Seq<Event>)
    requires
        total <= usize::MAX,
    ensures
        count_of(RunView::start(total, limit).actions(events), Action::Teardown) <= 1,
        provisioning_succeeded(events) && RunView::start(total, limit).after_all(events).phase
            is Finished ==> count_of(RunView::start(total, limit).actions(events), Action::Teardown)
            == 1,
        !provisioning_succeeded(events) ==> count_of(
            RunView::start(total, limit).actions(events),
            Action::Teardown,
        ) == 0,
{
    lemma_teardown_count(total, limit, events);
}

/// At every moment of every run, no more probes are running than the admission gate has
/// places.
pub proof fn law_gate_never_exceeded(total: nat, limit: nat, events: Seq<Event>)
    requires
        total <= usize::MAX,
    ensures
        forall|k: int|
            0 <= k <= events.len() ==> (#[trigger] RunView::start(total, limit).after_all(
                events.take(k),
            )).sched.in_flight.len() <= limit,
{
    assert forall|k: int| 0 <= k <= events.len() implies (#[trigger] RunView::start(
        total,
        limit,
    ).after_all(events.take(k))).sched.in_flight.len() <= limit by {
        lemma_start_wf(total, limit);
        lemma_after_all_wf(RunView::start(total, limit), events.take(k));
    }
}

/// A run that came to its end without a failure holds exactly one record for
/// each target: as many records as targets, a record for every position, and
/// no position twice.
pub proof fn law_one_record_per_target(total: nat, limit: nat, events: Seq<Event>)
    requires
        total <= usize::MAX,
        RunView::start(total, limit).after_all(events).phase is Finished,
        RunView::start(total, limit).after_all(events).error is None,
    ensures
        RunView::start(total, limit).after_all(events).sched.results.len() == total,
        forall|i: int|
            0 <= i < total ==> RunView::start(total, limit).after_all(events).sched.has_result(i),
        forall|j: int, k: int|
            0 <= j < total && 0 <= k < total && j != k ==> RunView::start(total, limit).after_all(
                events,
            ).sched.results[j].index != RunView::start(total, limit).after_all(
                events,
            ).sched.results[k].index,
{
    let f = RunView::start(total, limit).after_all(events);
    lemma_start_wf(total, limit);
    lemma_after_all_wf(RunView::start(total, limit), events);
    lemma_one_record_per_target(f.sched);
}

/// Whatever happens, the records that have arrived stay as they are: an event
/// adds at most one record behind them.
pub proof fn law_records_only_grow(s: RunView, event: Event)
    ensures
        s.sched.results.len() <= s.after(event).sched.results.len() <= s.sched.results.len() + 1,
        forall|k: int|
            0 <= k < s.sched.results.len() ==> s.after(event).sched.results[k] == s.sched.results[k],
{
}

/// The barriers between the phases: no probe is started before the sandbox was
/// created, and the deletion is asked for only when no probe runs.
pub proof fn law_phase_barriers(total: nat, limit: nat, events: Seq<Event>)
    requires
        total <= usize::MAX,
    ensures
        !RunView::start(total, limit).after_all(events).provisioned ==> RunView::start(
            total,
            limit,
        ).after_all(events).sched.started == 0,
        RunView::start(total, limit).after_all(events).action() == Action::Teardown
            ==> RunView::start(total, limit).after_all(events).sched.in_flight.len() == 0,
{
    lemma_start_wf(total, limit);
    lemma_after_all_wf(RunView::start(total, limit), events);
}

/// Whether the sandbox was reported as running.
pub open spec fn saw_ready(events: Seq<Event>) -> bool {
    exists|k: int| 0 <= k < events.len() && #[trigger] events[k] == Event::Watch(Readiness::Ready)
}

/// Readiness comes first: wherever the probe batch is under way, a probe was
/// started, or the run is over without a failure, the sandbox had been created
/// and had been reported as running.
pub proof fn law_probes_follow_readiness(total: nat, limit: nat, events: Seq<Event>)
    requires
        total <= usize::MAX,
    ensures
        RunView::start(total, limit).after_all(events).phase is Probing || RunView::start(
            total,
            limit,
        ).after_all(events).sched.started > 0 || (RunView::start(total, limit).after_all(events).phase
            is Finished && RunView::start(total, limit).after_all(events).error is None)
            ==> provisioning_succeeded(events) && saw_ready(events),
{
    lemma_ready_seen(total, limit, events);
    lemma_teardown_count(total, limit, events);
    lemma_start_wf(total, limit);
    lemma_after_all_wf(RunView::start(total, limit), events);
}

proof fn lemma_ready_seen(total: nat, limit: nat, events: Seq<Event>)
    requires
        total <= usize::MAX,
    ensures
        ({
            let f = RunView::start(total, limit).after_all(events);
            f.phase is Probing || f.sched.started > 0 || ((f.phase is Finished || f.phase is TearingDown)
                && f.error is None) ==> saw_ready(events)
        }),
    decreases events.len(),
{
    let s0 = RunView::start(total, limit);
    lemma_start_wf(total, limit);
    if events.len() > 0 {
        let before = events.drop_last();
        let mid = s0.after_all(before);
        let f = s0.after_all(events);
        lemma_ready_seen(total, limit, before);
        lemma_after_all_wf(s0, before);
        lemma_after_wf(mid, events.last());
        if f.phase is Probing || f.sched.started > 0 || ((f.phase is Finished || f.phase is TearingDown)
            && f.error is None) {
            if saw_ready(before) {
                let k = choose|k: int| 0 <= k < before.len() && #[trigger] before[k] == Event::Watch(Readiness::Ready);
                assert(events[k] == Event::Watch(Readiness::Ready));
            } else {
                assert(events[events.len() - 1] == Event::Watch(Readiness::Ready));
            }
        }
    }
}

/// The readiness wait ends with the first event that decides it: the report
/// that the sandbox is running opens the probe batch at once and without a
/// failure, the end of the stream and the deadline give the timeout failure,
/// and an event that decides nothing changes nothing.
pub proof fn law_readiness_wait(s: RunView)
    requires
        s.wf(),
        s.phase is AwaitingReady,
    ensures
        s.after(Event::Watch(Readiness::Waiting)) == s,
        s.after(Event::Watch(Readiness::Ready)).error is None,
        s.after(Event::Watch(Readiness::Ready)).phase == if s.sched.total == 0 {
            Phase::TearingDown
        } else {
            Phase::Probing
        },
        s.after(Event::WatchEnded).phase is TearingDown,
        s.after(Event::WatchEnded).error == Some(RunError::ReadinessTimeout),
        s.after(Event::DeadlineElapsed).phase is TearingDown,
        s.after(Event::DeadlineElapsed).error == Some(RunError::ReadinessTimeout),
        s.after(Event::Watch(Readiness::Malformed)).phase is TearingDown,
        s.after(Event::Watch(Readiness::Malformed)).error == Some(RunError::MalformedEvent),
{
}

/// One run.
pub struct Run {
    phase: Phase,
    sched: Scheduler,
    error: Option<RunError>,
    provisioned: bool,
}

impl View for Run {
    type V = RunView;

    closed spec fn view(&self) -> RunView {
        RunView { phase: self.phase, sched: self.sched@, error: self.error, provisioned: self.provisioned }
    }
}

impl Run {
    /// The invariant that every run handed out by this module meets.
    pub closed spec fn wf(&self) -> bool {
        self@.wf() && self.sched.wf()
    }

    /// A well-formed run has a well-formed state.
    pub proof fn lemma_wf(&self)
        requires
            self.wf(),
        ensures
            self@.wf(),
    {
    }

    /// A run at its start, for `total` targets behind a gate of size `limit`.
    pub fn new(total: usize, limit: usize) -> (run: Run)
        ensures
            run.wf(),
            run@ == RunView::start(total as nat, limit as nat),
    {
        Run { phase: Phase::Provisioning, sched: Scheduler::new(total, limit), error: None, provisioned: false }
    }

    /// Where the run stands.
    pub fn phase(&self) -> (p: Phase)
        ensures
            p == self@.phase,
    {
        self.phase
    }

    /// The failure that the run will report, if any.
    pub fn error(&self) -> (e: Option<RunError>)
        ensures
            e == self@.error,
    {
        self.error
    }

    /// Whether the sandbox was created.
    pub fn provisioned(&self) -> (b: bool)
        ensures
            b == self@.provisioned,
    {
        self.provisioned
    }

    /// Number of probes now running.
    pub fn in_flight(&self) -> (n: usize)
        ensures
            n == self@.sched.in_flight.len(),
    {
        self.sched.in_flight()
    }

    /// What came back from the probes so far, in the order of arrival.
    pub fn results(&self) -> (r: &Vec<ProbeRecord>)
        ensures
            r@ == self@.sched.results,
    {
        self.sched.results()
    }

    /// Gives up the run for the records of its probes, in the order of arrival.
    pub fn into_results(self) -> (r: Vec<ProbeRecord>)
        ensures
            r@ == self@.sched.results,
    {
        self.sched.into_results()
    }

    /// How the run ended: `None` while it is under way.
    pub fn outcome(&self) -> (o: Option<Result<(), RunError>>)
        ensures
            o == if self@.phase is Finished {
                Some(
                    match self@.error {
                        Some(e) => Err::<(), RunError>(e),
                        None => Ok(()),
                    },
                )
            } else {
                None
            },
    {
        match self.phase {
            Phase::Finished => match self.error {
                Some(e) => Some(Err(e)),
                None => Some(Ok(())),
            },
            _ => None,
        }
    }

    /// What the run asks its caller to do now.
    pub fn action(&self) -> (a: Action)
        requires
            self.wf(),
        ensures
            a == self@.action(),
    {
        match self.phase {
            Phase::Provisioning => Action::Provision,
            Phase::OpeningWatch => Action::OpenWatch,
            Phase::AwaitingReady => Action::NextWatchEvent,
            Phase::Probing => match self.sched.decide() {
                Decision::Start(index) => Action::StartProbe(index),
                _ => Action::AwaitProbe,
            },
            Phase::TearingDown => Action::Teardown,
            Phase::Finished => Action::Exit,
        }
    }

    fn note(&mut self, error: RunError)
        ensures
            final(self)@ == old(self)@.noting(error),
            final(self).sched == old(self).sched,
    {
        if self.error.is_none() {
            self.error = Some(error);
        }
    }

    fn batch_event(&mut self, event: Event)
        requires
            old(self).sched.wf(),
        ensures
            final(self).sched.wf(),
            final(self)@ == old(self)@.after_batch_event(event),
    {
        let open: bool = match self.sched.decide() {
            Decision::Start(_) => true,
            _ => false,
        };
        match event {
            Event::ProbeStarted if open => {
                self.sched.launch();
            },
            Event::ProbeFinished { index, verdict } if !open && self.sched.is_running(index) => {
                self.sched.complete(index, verdict);
            },
            Event::ProbeCrashed { index } if !open && self.sched.is_running(index) => {
                self.sched.crash(index);
                self.note(RunError::Join);
            },
            _ => {
                self.sched.halt();
                self.note(RunError::Protocol);
            },
        }
        match self.sched.decide() {
            Decision::Done => {
                self.phase = Phase::TearingDown;
            },
            _ => {},
        }
    }

    /// Takes in what happened and says what to do next.
    pub fn step(&mut self, event: Event) -> (a: Action)
        requires
            old(self).wf(),
        ensures
            final(self).wf(),
            final(self)@ == old(self)@.after(event),
            a == final(self)@.action(),
    {
        proof {
            lemma_after_wf(self@, event);
        }
        match self.phase {
            Phase::Provisioning => match event {
                Event::Provisioned => {
                    self.provisioned = true;
                    self.phase = Phase::OpeningWatch;
                },
                Event::ProvisionFailed => {
                    self.note(RunError::Provision);
                    self.phase = Phase::Finished;
                },
                _ => {
                    self.note(RunError::Protocol);
                    self.phase = Phase::Finished;
                },
            },
            Phase::OpeningWatch => match event {
                Event::WatchOpened => {
                    self.phase = Phase::AwaitingReady;
                },
                Event::WatchFailed => {
                    self.note(RunError::Watch);
                    self.phase = Phase::TearingDown;
                },
                _ => {
                    self.note(RunError::Protocol);
                    self.phase = Phase::TearingDown;
                },
            },
            Phase::AwaitingReady => match event {
                Event::Watch(Readiness::Waiting) => {},
                Event::Watch(Readiness::Ready) => {
                    match self.sched.decide() {
                        Decision::Done => {
                            self.phase = Phase::TearingDown;
                        },
                        _ => {
                            self.phase = Phase::Probing;
                        },
                    }
                },
                Event::Watch(Readiness::Malformed) => {
                    self.note(RunError::MalformedEvent);
                    self.phase = Phase::TearingDown;
                },
                Event::WatchEnded | Event::DeadlineElapsed => {
                    self.note(RunError::ReadinessTimeout);
                    self.phase = Phase::TearingDown;
                },
                Event::WatchFailed => {
                    self.note(RunError::Watch);
                    self.phase = Phase::TearingDown;
                },
                _ => {
                    self.note(RunError::Protocol);
                    self.phase = Phase::TearingDown;
                },
            },
            Phase::Probing => {
                self.batch_event(event);
            },
            Phase::TearingDown => match event {
                Event::Deleted { confirmed } => {
                    if !confirmed {
                        self.error = Some(RunError::TeardownIntegrity);
                    }
                    self.phase = Phase::Finished;
                },
                Event::DeletionAccepted => {
                    self.phase = Phase::Finished;
                },
                Event::DeleteFailed => {
                    self.note(RunError::Teardown);
                    self.phase = Phase::Finished;
                },
                _ => {
                    self.note(RunError::Protocol);
                    self.phase = Phase::Finished;
                },
            },
            Phase::Finished => {},
        }
        self.action()
    }
}

} // verus!

//! A run with its data: the sandbox it creates, the targets it probes and the
//! results it collects. The session takes what happened in the terms of the
//! control plane, turns it into the event that the run understands, and turns
//! the action that the run asks for into an order with all that is needed to
//! carry it out.

use crate::config::{Config, ConfigView};
use crate::lifecycle::{
    count_of, law_records_only_grow, law_teardown_exactly_once, lemma_after_all_wf, lemma_after_wf,
    Action, Event, Phase, Run, RunError, RunView,
};
use crate::probe::{
    check_remote_host, probe_command, probe_result, probe_targets, target_views, targets_of,
    command_text, Exchange, ExchangeView, ProbeResult, ProbeResultView, ProbeTarget, TargetView,
    Verdict,
};
use crate::readiness::{
    meaning, observe, Readiness, WatchItem, WatchItemView, READINESS_TIMEOUT_SECS,
};
use crate::sandbox::{HandleView, SandboxHandle, SandboxSpec, SandboxSpecView};
use crate::scheduler::lemma_one_record_per_target;
use vstd::prelude::*;

verus! {

/// What happened, as the caller saw it.
#[derive(Debug)]
pub enum Happening {
    /// The sandbox was created.
    Provisioned,
    /// The creation request was refused.
    ProvisionFailed,
    /// The change-event stream is open.
    WatchOpened,
    /// The change-event stream could not be opened, or broke.
    WatchFailed,
    /// A change event arrived.
    Watch(WatchItem),
    /// The change-event stream came to its end.
    WatchEnded,
    /// The deadline of the readiness wait passed.
    DeadlineElapsed,
    /// The probe asked for was started.
    ProbeStarted,
    /// The remote command of the running probe at this position is over.
    ProbeReturned { index: usize, exchange: Exchange },
    /// The unit of work of the running probe at this position broke down.
    ProbeCrashed { index: usize },
    /// The control plane reported this sandbox as deleted.
    Deleted { name: String, namespace: String },
    /// The control plane took the deletion request and named no sandbox yet.
    DeletionAccepted,
    /// The deletion request failed.
    DeleteFailed,
}

/// A happening as plain mathematics.
pub enum HappeningView {
    Provisioned,
    ProvisionFailed,
    WatchOpened,
    WatchFailed,
    Watch(WatchItemView),
    WatchEnded,
    DeadlineElapsed,
    ProbeStarted,
    ProbeReturned { index: usize, exchange: ExchangeView },
    ProbeCrashed { index: usize },
    Deleted { name: Seq<char>, namespace: Seq<char> },
    DeletionAccepted,
    DeleteFailed,
}

impl View for Happening {
    type V = HappeningView;

    open spec fn view(&self) -> HappeningView {
        match self {
            Happening::Provisioned => HappeningView::Provisioned,
            Happening::ProvisionFailed => HappeningView::ProvisionFailed,
            Happening::WatchOpened => HappeningView::WatchOpened,
            Happening::WatchFailed => HappeningView::WatchFailed,
            Happening::Watch(item) => HappeningView::Watch(item@),
            Happening::WatchEnded => HappeningView::WatchEnded,
            Happening::DeadlineElapsed => HappeningView::DeadlineElapsed,
            Happening::ProbeStarted => HappeningView::ProbeStarted,
            Happening::ProbeReturned { index, exchange } => HappeningView::ProbeReturned {
                index: *index,
                exchange: exchange@,
            },
            Happening::ProbeCrashed { index } => HappeningView::ProbeCrashed { index: *index },
            Happening::Deleted { name, namespace } => HappeningView::Deleted {
                name: name@,
                namespace: namespace@,
            },
            Happening::DeletionAccepted => HappeningView::DeletionAccepted,
            Happening::DeleteFailed => HappeningView::DeleteFailed,
        }
    }
}

/// The views of a list of happenings.
pub open spec fn happening_views(happenings: Seq<Happening>) -> Seq<HappeningView> {
    Seq::new(happenings.len(), |i: int| happenings[i]@)
}

/// What the caller is to do, with all that it needs for it.
#[derive(Debug)]
pub enum Order {
    /// Create the sandbox that the session describes.
    Provision,
    /// Open the change-event stream, narrowed by this selector, from this
    /// resource version on, and let the control plane end it after so many
    /// seconds.
    OpenWatch { selector: String, resource_version: String, timeout_secs: u32 },
    /// Hand over the next change event.
    NextWatchEvent,
    /// Run this command in the sandbox: the probe of the target at this
    /// position. `stderr` says whether the error output of the command is to
    /// be carried back.
    StartProbe { index: usize, command: Vec<String>, stderr: bool },
    /// Wait for a running probe to come back.
    AwaitProbe,
    /// Delete the sandbox of this name in this scope.
    Teardown { name: String, namespace: String },
    /// Stop: the run is over.
    Exit,
}

/// An order as plain mathematics.
pub enum OrderView {
    Provision,
    OpenWatch { selector: Seq<char>, resource_version: Seq<char>, timeout_secs: u32 },
    NextWatchEvent,
    StartProbe { index: usize, command: Seq<Seq<char>>, stderr: bool },
    AwaitProbe,
    Teardown { name: Seq<char>, namespace: Seq<char> },
    Exit,
}

impl View for Order {
    type V = OrderView;

    open spec fn view(&self) -> OrderView {
        match self {
            Order::Provision => OrderView::Provision,
            Order::OpenWatch { selector, resource_version, timeout_secs } => OrderView::OpenWatch {
                selector: selector@,
                resource_version: resource_version@,
                timeout_secs: *timeout_secs,
            },
            Order::NextWatchEvent => OrderView::NextWatchEvent,
            Order::StartProbe { index, command, stderr } => OrderView::StartProbe {
                index: *index,
                command: Seq::new(command@.len(), |i: int| command@[i]@),
                stderr: *stderr,
            },
            Order::AwaitProbe => OrderView::AwaitProbe,
            Order::Teardown { name, namespace } => OrderView::Teardown { name: name@, namespace: namespace@ },
            Order::Exit => OrderView::Exit,
        }
    }
}

impl OrderView {
    /// The action of the run that this order carries out.
    pub open spec fn action(self) -> Action {
        match self {
            OrderView::Provision => Action::Provision,
            OrderView::OpenWatch { .. } => Action::OpenWatch,
            OrderView::NextWatchEvent => Action::NextWatchEvent,
            OrderView::StartProbe { index, .. } => Action::StartProbe(index),
            OrderView::AwaitProbe => Action::AwaitProbe,
            OrderView::Teardown { .. } => Action::Teardown,
            OrderView::Exit => Action::Exit,
        }
    }
}

/// The views of a list of orders.
pub open spec fn order_views(orders: Seq<Order>) -> Seq<OrderView> {
    Seq::new(orders.len(), |i: int| orders[i]@)
}

/// The views of a list of results.
pub open spec fn result_views(results: Seq<ProbeResult>) -> Seq<ProbeResultView> {
    Seq::new(results.len(), |i: int| results[i]@)
}

/// The state of a session as plain mathematics.
pub struct SessionView {
    /// The sandbox that the session creates.
    pub spec: SandboxSpecView,
    /// The targets of the batch, in the order of their positions.
    pub targets: Seq<TargetView>,
    /// The run.
    pub run: RunView,
    /// The results of the probes that came back, in the order of arrival.
    pub results: Seq<ProbeResultView>,
}

impl SessionView {
    /// A session at its start: the sandbox `name` in the scope and with the
    /// image of the settings, one target for each host and port, and the
    /// admission gate of the configured size.
    pub open spec fn start(config: ConfigView, name: Seq<char>) -> SessionView {
        SessionView {
            spec: SandboxSpecView {
                name,
                namespace: config.namespace,
                image: config.image,
                restart_policy: "Never"@,
                command: seq!["tail"@, "-f"@, "/dev/null"@],
            },
            targets: targets_of(config.hosts, config.ports),
            run: RunView::start(config.hosts.len() * config.ports.len(), config.max_connections as nat),
            results: Seq::empty(),
        }
    }

    /// The invariant of a session: the run is well formed, the batch is as
    /// long as the target list, and for each record of the run there is the
    /// result of that very target with that very verdict.
    pub open spec fn wf(self) -> bool {
        &&& self.run.wf()
        &&& self.run.sched.total == self.targets.len()
        &&& self.results.len() == self.run.sched.results.len()
        &&& forall|k: int|
            0 <= k < self.results.len() ==> (#[trigger] self.results[k]).target
                == self.targets[self.run.sched.results[k].index as int] && self.results[k].verdict
                == self.run.sched.results[k].verdict
    }

    /// Whether a result has arrived for the target at position `index`: one
    /// that names that very target, under a record of that position.
    pub open spec fn has_result_for(self, index: int) -> bool {
        exists|k: int|
            0 <= k < self.results.len() && k < self.run.sched.results.len() && (
            #[trigger] self.run.sched.results[k]).index == index && self.results[k].target
                == self.targets[index]
    }

    /// The result of the probe at `index` for what came of its remote command.
    pub open spec fn result_for(self, index: usize, exchange: ExchangeView) -> ProbeResultView {
        probe_result(self.targets[index as int].host, self.targets[index as int].port, exchange)
    }

    /// The event of the run that a happening amounts to: a change event by
    /// what it means for the readiness wait, a probe that returned by the
    /// verdict on what its command printed, a deletion by whether it names
    /// the sandbox of this session.
    pub open spec fn digest(self, happening: HappeningView) -> Event {
        match happening {
            HappeningView::Provisioned => Event::Provisioned,
            HappeningView::ProvisionFailed => Event::ProvisionFailed,
            HappeningView::WatchOpened => Event::WatchOpened,
            HappeningView::WatchFailed => Event::WatchFailed,
            HappeningView::Watch(item) => Event::Watch(meaning(item)),
            HappeningView::WatchEnded => Event::WatchEnded,
            HappeningView::DeadlineElapsed => Event::DeadlineElapsed,
            HappeningView::ProbeStarted => Event::ProbeStarted,
            HappeningView::ProbeReturned { index, exchange } => Event::ProbeFinished {
                index,
                verdict: if index < self.targets.len() {
                    self.result_for(index, exchange).verdict
                } else {
                    Verdict::ExecError
                },
            },
            HappeningView::ProbeCrashed { index } => Event::ProbeCrashed { index },
            HappeningView::Deleted { name, namespace } => Event::Deleted {
                confirmed: name == self.spec.name && namespace == self.spec.namespace,
            },
            HappeningView::DeletionAccepted => Event::DeletionAccepted,
            HappeningView::DeleteFailed => Event::DeleteFailed,
        }
    }

    /// The session after `happening`: the run takes the event it amounts to,
    /// and where the run took in a record, the result of that probe is put
    /// behind the others.
    pub open spec fn after(self, happening: HappeningView) -> SessionView {
        let run = self.run.after(self.digest(happening));
        let results = match happening {
            HappeningView::ProbeReturned { index, exchange } if run.sched.results.len()
                > self.run.sched.results.len() => self.results.push(self.result_for(index, exchange)),
            _ => self.results,
        };
        SessionView { run, results, ..self }
    }

    /// The order that the session gives in this state. The change-event
    /// stream starts from the state of the sandbox as it is, not from its
    /// history, and ends with the deadline of the readiness wait. A probe
    /// carries back what its command prints and not its error output.
    pub open spec fn order(self) -> OrderView {
        match self.run.action() {
            Action::Provision => OrderView::Provision,
            Action::OpenWatch => OrderView::OpenWatch {
                selector: "metadata.name="@ + self.spec.name,
                resource_version: "0"@,
                timeout_secs: READINESS_TIMEOUT_SECS,
            },
            Action::NextWatchEvent => OrderView::NextWatchEvent,
            Action::StartProbe(index) => OrderView::StartProbe {
                index,
                command: seq![
                    "sh"@,
                    "-c"@,
                    command_text(self.targets[index as int].host, self.targets[index as int].port),
                ],
                stderr: false,
            },
            Action::AwaitProbe => OrderView::AwaitProbe,
            Action::Teardown => OrderView::Teardown {
                name: self.spec.name,
                namespace: self.spec.namespace,
            },
            Action::Exit => OrderView::Exit,
        }
    }

    /// The session after each of `happenings` in turn.
    pub open spec fn after_all(self, happenings: Seq<HappeningView>) -> SessionView
        decreases happenings.len(),
    {
        if happenings.len() == 0 {
            self
        } else {
            self.after_all(happenings.drop_last()).after(happenings.last())
        }
    }

    /// The orders that the session gives while `happenings` come in: the one of
    /// the state it is in, then the one after each happening.
    pub open spec fn orders(self, happenings: Seq<HappeningView>) -> Seq<OrderView>
        decreases happenings.len(),
    {
        if happenings.len() == 0 {
            seq![self.order()]
        } else {
            self.orders(happenings.drop_last()).push(self.after_all(happenings).order())
        }
    }

    /// The events of the run that `happenings` amount to.
    pub open spec fn events(self, happenings: Seq<HappeningView>) -> Seq<Event> {
        Seq::new(happenings.len(), |i: int| self.digest(happenings[i]))
    }
}

/// A session at its start is well formed.
pub proof fn lemma_session_start_wf(config: ConfigView, name: Seq<char>)
    requires
        config.hosts.len() * config.ports.len() <= usize::MAX,
    ensures
        SessionView::start(config, name).wf(),
{
}

/// Every happening keeps a session well formed, and leaves the sandbox and the
/// targets as they are.
pub proof fn lemma_session_after_wf(s: SessionView, happening: HappeningView)
    requires
        s.wf(),
    ensures
        s.after(happening).wf(),
        s.after(happening).spec == s.spec,
        s.after(happening).targets == s.targets,
        s.after(happening).run == s.run.after(s.digest(happening)),
{
    let event = s.digest(happening);
    let t = s.after(happening);
    lemma_after_wf(s.run, event);
    law_records_only_grow(s.run, event);
    if t.run.sched.results.len() > s.run.sched.results.len() {
        lemma_new_record(s.run, event);
    }
}

/// Where an event adds a record to a run, the event is the return of a probe
/// that was running, and the record holds its position and its verdict.
proof fn lemma_new_record(s: RunView, event: Event)
    requires
        s.wf(),
        s.after(event).sched.results.len() > s.sched.results.len(),
    ensures
        event matches Event::ProbeFinished { index, verdict } && index < s.sched.total
            && s.after(event).sched.results == s.sched.results.push(
            crate::scheduler::ProbeRecord { index, verdict },
        ),
{
    match event {
        Event::ProbeFinished { index, verdict } => {
            if s.sched.in_flight.contains(index) {
                let j = choose|j: int| 0 <= j < s.sched.in_flight.len() && s.sched.in_flight[j] == index;
                assert(s.sched.in_flight[j] < s.sched.started);
            }
        },
        _ => {},
    }
}

/// Whatever happens, the session stays well formed, its sandbox and targets
/// stay as they are, and its run is the run over the events that the
/// happenings amount to.
pub proof fn lemma_session_after_all(s: SessionView, happenings: Seq<HappeningView>)
    requires
        s.wf(),
    ensures
        s.after_all(happenings).wf(),
        s.after_all(happenings).spec == s.spec,
        s.after_all(happenings).targets == s.targets,
        s.after_all(happenings).run == s.run.after_all(s.events(happenings)),
    decreases happenings.len(),
{
    if happenings.len() > 0 {
        let before = happenings.drop_last();
        lemma_session_after_all(s, before);
        let mid = s.after_all(before);
        lemma_session_after_wf(mid, happenings.last());
        assert(s.events(happenings).drop_last() =~= s.events(before));
        assert(s.events(happenings).last() == mid.digest(happenings.last()));
    } else {
        assert(s.events(happenings) =~= Seq::<Event>::empty());
    }
}

/// The actions of the run that a list of orders carries out.
pub open spec fn actions_of(orders: Seq<OrderView>) -> Seq<Action> {
    Seq::new(orders.len(), |i: int| orders[i].action())
}

/// The orders of a session are the actions of its run, one for one: the run
/// over the events that the happenings amount to decides what is ordered.
pub proof fn law_orders_follow_the_run(s: SessionView, happenings: Seq<HappeningView>)
    requires
        s.wf(),
    ensures
        s.orders(happenings).len() == happenings.len() + 1,
        actions_of(s.orders(happenings)) == s.run.actions(s.events(happenings)),
    decreases happenings.len(),
{
    lemma_session_after_all(s, happenings);
    if happenings.len() > 0 {
        let before = happenings.drop_last();
        law_orders_follow_the_run(s, before);
        assert(s.events(happenings).drop_last() =~= s.events(before));
        assert(actions_of(s.orders(happenings)) =~= actions_of(s.orders(before)).push(
            s.after_all(happenings).order().action(),
        ));
    } else {
        assert(s.events(happenings) =~= Seq::<Event>::empty());
        assert(actions_of(s.orders(happenings)) =~= seq![s.run.action()]);
    }
}

/// The deletion of the sandbox is ordered at most once in every session. In a
/// session that came to its end it was ordered exactly once if the sandbox had
/// been created, whatever went wrong after that: a readiness wait that timed
/// out, probes that failed. Where the sandbox was not created it is never
/// ordered.
pub proof fn law_session_teardown_once(config: ConfigView, name: Seq<char>, happenings: Seq<HappeningView>)
    requires
        config.hosts.len() * config.ports.len() <= usize::MAX,
    ensures
        count_of(actions_of(SessionView::start(config, name).orders(happenings)), Action::Teardown) <= 1,
        happenings.len() > 0 && happenings[0] is Provisioned && SessionView::start(
            config,
            name,
        ).after_all(happenings).run.phase is Finished ==> count_of(
            actions_of(SessionView::start(config, name).orders(happenings)),
            Action::Teardown,
        ) == 1,
        !(happenings.len() > 0 && happenings[0] is Provisioned) ==> count_of(
            actions_of(SessionView::start(config, name).orders(happenings)),
            Action::Teardown,
        ) == 0,
{
    let s = SessionView::start(config, name);
    let total = config.hosts.len() * config.ports.len();
    lemma_session_start_wf(config, name);
    law_orders_follow_the_run(s, happenings);
    lemma_session_after_all(s, happenings);
    law_teardown_exactly_once(total, config.max_connections as nat, s.events(happenings));
    if happenings.len() > 0 {
        assert(s.events(happenings)[0] == s.digest(happenings[0]));
    }
}

/// Every order names the sandbox of the session and the target at its
/// position: the stream is narrowed to the name that the session was started
/// with, a probe runs the command for the host and port at its position of
/// the batch, and the deletion names the sandbox that was created, in its scope.
pub proof fn law_orders_name_sandbox_and_target(
    config: ConfigView,
    name: Seq<char>,
    happenings: Seq<HappeningView>,
    k: int,
)
    requires
        config.hosts.len() * config.ports.len() <= usize::MAX,
        0 <= k <= happenings.len(),
    ensures
        match SessionView::start(config, name).orders(happenings)[k] {
            OrderView::OpenWatch { selector, resource_version, timeout_secs } => selector
                == "metadata.name="@ + name && resource_version == "0"@ && timeout_secs
                == READINESS_TIMEOUT_SECS,
            OrderView::StartProbe { index, command, stderr } => !stderr && index < config.hosts.len()
                * config.ports.len() && command == seq![
                "sh"@,
                "-c"@,
                command_text(
                    targets_of(config.hosts, config.ports)[index as int].host,
                    targets_of(config.hosts, config.ports)[index as int].port,
                ),
            ],
            OrderView::Teardown { name: deleted, namespace } => deleted == name && namespace
                == config.namespace,
            _ => true,
        },
    decreases happenings.len(),
{
    let s = SessionView::start(config, name);
    lemma_session_start_wf(config, name);
    law_orders_follow_the_run(s, happenings);
    if k == happenings.len() {
        lemma_session_after_all(s, happenings);
        if happenings.len() > 0 {
            law_orders_follow_the_run(s, happenings.drop_last());
            assert(s.orders(happenings)[k] == s.after_all(happenings).order());
        }
    } else {
        law_orders_follow_the_run(s, happenings.drop_last());
        assert(s.orders(happenings)[k] == s.orders(happenings.drop_last())[k]);
        law_orders_name_sandbox_and_target(config, name, happenings.drop_last(), k);
    }
}

/// At every moment of every session, no more probes are running than the
/// settings allow at the same time.
pub proof fn law_session_admission_bound(
    config: ConfigView,
    name: Seq<char>,
    happenings: Seq<HappeningView>,
)
    requires
        config.hosts.len() * config.ports.len() <= usize::MAX,
    ensures
        forall|k: int|
            0 <= k <= happenings.len() ==> (#[trigger] SessionView::start(config, name).after_all(
                happenings.take(k),
            )).run.sched.in_flight.len() <= config.max_connections,
{
    let s = SessionView::start(config, name);
    lemma_session_start_wf(config, name);
    assert forall|k: int| 0 <= k <= happenings.len() implies (#[trigger] s.after_all(
        happenings.take(k),
    )).run.sched.in_flight.len() <= config.max_connections by {
        lemma_session_after_all(s, happenings.take(k));
        lemma_after_all_wf(s.run, s.events(happenings.take(k)));
    }
}

/// The readiness wait of a session ends with the first change event that
/// decides it. A change that reports the sandbox as running opens the probe
/// batch at once and without a failure. A change without its status block
/// ends the wait with a failure, and so do the end of the stream and the
/// deadline, with the timeout. Any other event leaves the session as it is.
pub proof fn law_session_readiness_wait(s: SessionView, item: WatchItemView)
    requires
        s.wf(),
        s.run.phase is AwaitingReady,
    ensures
        meaning(item) == Readiness::Waiting ==> s.after(HappeningView::Watch(item)) == s,
        meaning(item) == Readiness::Ready ==> s.after(HappeningView::Watch(item)).run.error is None
            && s.after(HappeningView::Watch(item)).run.phase == if s.targets.len() == 0 {
            Phase::TearingDown
        } else {
            Phase::Probing
        },
        meaning(item) == Readiness::Malformed ==> s.after(HappeningView::Watch(item)).run.error
            == Some(RunError::MalformedEvent) && s.after(HappeningView::Watch(item)).run.phase
            is TearingDown,
        s.after(HappeningView::WatchEnded).run.error == Some(RunError::ReadinessTimeout),
        s.after(HappeningView::WatchEnded).run.phase is TearingDown,
        s.after(HappeningView::DeadlineElapsed).run.error == Some(RunError::ReadinessTimeout),
        s.after(HappeningView::DeadlineElapsed).run.phase is TearingDown,
{
}

/// A session that came to its end without a failure holds exactly one result
/// for each host and port: as many results as the product of the two list
/// lengths, for each position of the batch a result of that very target, and
/// no position twice.
pub proof fn law_one_result_per_target(config: ConfigView, name: Seq<char>, happenings: Seq<HappeningView>)
    requires
        config.hosts.len() * config.ports.len() <= usize::MAX,
        SessionView::start(config, name).after_all(happenings).run.phase is Finished,
        SessionView::start(config, name).after_all(happenings).run.error is None,
    ensures
        SessionView::start(config, name).after_all(happenings).results.len() == config.hosts.len()
            * config.ports.len(),
        SessionView::start(config, name).after_all(happenings).targets == targets_of(
            config.hosts,
            config.ports,
        ),
        forall|i: int|
            0 <= i < config.hosts.len() * config.ports.len() ==> #[trigger] SessionView::start(
                config,
                name,
            ).after_all(happenings).has_result_for(i),
        forall|j: int, k: int|
            0 <= j < config.hosts.len() * config.ports.len() && 0 <= k < config.hosts.len()
                * config.ports.len() && j != k ==> (#[trigger] SessionView::start(
                config,
                name,
            ).after_all(happenings).run.sched.results[j]).index != (#[trigger] SessionView::start(
                config,
                name,
            ).after_all(happenings).run.sched.results[k]).index,
{
    let s = SessionView::start(config, name);
    let f = s.after_all(happenings);
    let total = config.hosts.len() * config.ports.len();
    lemma_session_start_wf(config, name);
    lemma_session_after_all(s, happenings);
    lemma_one_record_per_target(f.run.sched);
    assert forall|i: int| 0 <= i < total implies #[trigger] f.has_result_for(i) by {
        assert(f.run.sched.has_result(i));
        let k = choose|k: int|
            0 <= k < f.run.sched.results.len() && (#[trigger] f.run.sched.results[k]).index == i;
        assert(f.results[k].target == f.targets[f.run.sched.results[k].index as int]);
    }
}

/// The result of a probe rests on its own target and on what came of its own
/// remote command, and it touches no other result: when a probe returns, the
/// results that have arrived stay as they are, and if the probe was running,
/// its result, marked as its output says, is put behind them.
pub proof fn law_result_rests_on_its_own_exchange(s: SessionView, index: usize, exchange: ExchangeView)
    requires
        s.wf(),
    ensures
        forall|k: int|
            0 <= k < s.results.len() ==> s.after(HappeningView::ProbeReturned { index, exchange }).results[k]
                == s.results[k],
        s.run.phase is Probing && !s.run.sched.can_start() && s.run.sched.in_flight.contains(index) ==> s.after(
            HappeningView::ProbeReturned { index, exchange },
        ).results == s.results.push(
            probe_result(s.targets[index as int].host, s.targets[index as int].port, exchange),
        ),
        !(s.run.phase is Probing && !s.run.sched.can_start() && s.run.sched.in_flight.contains(index))
            ==> s.after(HappeningView::ProbeReturned { index, exchange }).results == s.results,
{
    let h = HappeningView::ProbeReturned { index, exchange };
    lemma_session_after_wf(s, h);
    if s.run.after(s.digest(h)).sched.results.len() > s.run.sched.results.len() {
        lemma_new_record(s.run, s.digest(h));
    }
    if s.run.sched.in_flight.contains(index) {
        let j = choose|j: int| 0 <= j < s.run.sched.in_flight.len() && s.run.sched.in_flight[j] == index;
        assert(s.run.sched.in_flight[j] < s.run.sched.started);
    }
}

/// A run with its data.
pub struct Session {
    spec: SandboxSpec,
    handle: SandboxHandle,
    targets: Vec<ProbeTarget>,
    run: Run,
    results: Vec<ProbeResult>,
}

impl View for Session {
    type V = SessionView;

    closed spec fn view(&self) -> SessionView {
        SessionView {
            spec: self.spec@,
            targets: target_views(self.targets@),
            run: self.run@,
            results: result_views(self.results@),
        }
    }
}

impl Session {
    /// The invariant that every session handed out by this module meets.
    pub closed spec fn wf(&self) -> bool {
        &&& self@.wf()
        &&& self.run.wf()
        &&& self.handle@ == (HandleView { name: self.spec@.name, namespace: self.spec@.namespace })
    }

    /// A well-formed session has a well-formed state.
    pub proof fn lemma_wf(&self)
        requires
            self.wf(),
        ensures
            self@.wf(),
    {
    }

    /// A session at its start, for the sandbox `name` and these settings.
    pub fn new(config: &Config, name: String) -> (session: Session)
        ensures
            session.wf(),
            session@ == SessionView::start(config@, name@),
    {
        let spec = SandboxSpec::new(config, name);
        let handle = spec.handle();
        let targets = probe_targets(config.hosts(), config.ports());
        let run = Run::new(targets.len(), config.max_connections());
        let session = Session { spec, handle, targets, run, results: Vec::new() };
        proof {
            assert(session@.results =~= Seq::<ProbeResultView>::empty());
            session.run.lemma_wf();
        }
        session
    }

    /// The sandbox that the session creates.
    pub fn spec(&self) -> (spec: &SandboxSpec)
        ensures
            spec@ == self@.spec,
    {
        &self.spec
    }

    /// The identity of that sandbox.
    pub fn handle(&self) -> (handle: &SandboxHandle)
        ensures
            self.wf() ==> handle@ == (HandleView {
                name: self@.spec.name,
                namespace: self@.spec.namespace,
            }),
    {
        &self.handle
    }

    /// The targets of the batch, in the order of their positions.
    pub fn targets(&self) -> (targets: &Vec<ProbeTarget>)
        ensures
            target_views(targets@) == self@.targets,
    {
        &self.targets
    }

    /// The results of the probes that came back, in the order of arrival.
    pub fn results(&self) -> (results: &Vec<ProbeResult>)
        ensures
            result_views(results@) == self@.results,
    {
        &self.results
    }

    /// Gives up the session for its results.
    pub fn into_results(self) -> (results: Vec<ProbeResult>)
        ensures
            result_views(results@) == self@.results,
    {
        self.results
    }

    /// Where the run stands.
    pub fn phase(&self) -> (p: Phase)
        ensures
            p == self@.run.phase,
    {
        self.run.phase()
    }

    /// The failure that the run will report, if any.
    pub fn error(&self) -> (e: Option<RunError>)
        ensures
            e == self@.run.error,
    {
        self.run.error()
    }

    /// Number of probes now running.
    pub fn in_flight(&self) -> (n: usize)
        ensures
            n == self@.run.sched.in_flight.len(),
    {
        self.run.in_flight()
    }

    /// How the run ended: `None` while it is under way.
    pub fn outcome(&self) -> (o: Option<Result<(), RunError>>)
        ensures
            o == if self@.run.phase is Finished {
                Some(
                    match self@.run.error {
                        Some(e) => Err::<(), RunError>(e),
                        None => Ok(()),
                    },
                )
            } else {
                None
            },
    {
        self.run.outcome()
    }

    /// What the caller is to do now.
    pub fn order(&self) -> (order: Order)
        requires
            self.wf(),
        ensures
            order@ == self@.order(),
    {
        proof {
            self.run.lemma_wf();
        }
        match self.run.action() {
            Action::Provision => Order::Provision,
            Action::OpenWatch => Order::OpenWatch {
                selector: self.handle.watch_selector(),
                resource_version: String::from_str("0"),
                timeout_secs: READINESS_TIMEOUT_SECS,
            },
            Action::NextWatchEvent => Order::NextWatchEvent,
            Action::StartProbe(index) => {
                let target = &self.targets[index];
                let command = probe_command(target.host.as_str(), target.port);
                let order = Order::StartProbe { index, command, stderr: false };
                proof {
                    assert(order@->StartProbe_command =~= seq![
                        "sh"@,
                        "-c"@,
                        command_text(self@.targets[index as int].host, self@.targets[index as int].port),
                    ]);
                }
                order
            },
            Action::AwaitProbe => Order::AwaitProbe,
            Action::Teardown => Order::Teardown {
                name: self.handle.name().clone(),
                namespace: self.handle.namespace().clone(),
            },
            Action::Exit => Order::Exit,
        }
    }

    /// The event that `happening` amounts to and, for a probe that returned,
    /// its result.
    fn digest(&self, happening: Happening) -> (d: (Event, Option<ProbeResult>))
        requires
            self.wf(),
        ensures
            d.0 == self@.digest(happening@),
            match happening@ {
                HappeningView::ProbeReturned { index, exchange } => if index < self@.targets.len() {
                    d.1 matches Some(r) && r@ == self@.result_for(index, exchange)
                } else {
                    d.1 is None
                },
                _ => d.1 is None,
            },
    {
        match happening {
            Happening::Provisioned => (Event::Provisioned, None),
            Happening::ProvisionFailed => (Event::ProvisionFailed, None),
            Happening::WatchOpened => (Event::WatchOpened, None),
            Happening::WatchFailed => (Event::WatchFailed, None),
            Happening::Watch(item) => (Event::Watch(observe(&item)), None),
            Happening::WatchEnded => (Event::WatchEnded, None),
            Happening::DeadlineElapsed => (Event::DeadlineElapsed, None),
            Happening::ProbeStarted => (Event::ProbeStarted, None),
            Happening::ProbeReturned { index, exchange } => {
                if index < self.targets.len() {
                    let target = &self.targets[index];
                    let result = check_remote_host(target.host.as_str(), target.port, exchange);
                    (Event::ProbeFinished { index, verdict: result.verdict }, Some(result))
                } else {
                    (Event::ProbeFinished { index, verdict: Verdict::ExecError }, None)
                }
            },
            Happening::ProbeCrashed { index } => (Event::ProbeCrashed { index }, None),
            Happening::Deleted { name, namespace } => {
                let confirmed = self.handle.matches(name.as_str(), namespace.as_str());
                (Event::Deleted { confirmed }, None)
            },
            Happening::DeletionAccepted => (Event::DeletionAccepted, None),
            Happening::DeleteFailed => (Event::DeleteFailed, None),
        }
    }

    /// Takes in what happened and says what to do next.
    pub fn advance(&mut self, happening: Happening) -> (order: Order)
        requires
            old(self).wf(),
        ensures
            final(self).wf(),
            final(self)@ == old(self)@.after(happening@),
            order@ == final(self)@.order(),
    {
        let ghost before = self@;
        let ghost seen = happening@;
        proof {
            lemma_session_after_wf(before, seen);
            self.run.lemma_wf();
        }
        let (event, result) = self.digest(happening);
        let records: usize = self.run.results().len();
        self.run.step(event);
        proof {
            if before.run.after(event).sched.results.len() > before.run.sched.results.len() {
                lemma_new_record(before.run, event);
            }
        }
        match result {
            Some(result) => {
                if self.run.results().len() > records {
                    self.results.push(result);
                    proof {
                        assert(self@.results =~= before.results.push(result@));
                    }
                }
            },
            None => {},
        }
        self.order()
    }
}

fn reversed(list: Vec<Happening>) -> (r: Vec<Happening>)
    ensures
        r@.len() == list@.len(),
        forall|j: int| 0 <= j < r@.len() ==> r@[j] == list@[list@.len() - 1 - j],
{
    let ghost all = list@;
    let mut list = list;
    let mut r: Vec<Happening> = Vec::new();
    while list.len() > 0
        invariant
            list@.len() + r@.len() == all.len(),
            forall|j: int| 0 <= j < list@.len() ==> list@[j] == all[j],
            forall|j: int| 0 <= j < r@.len() ==> r@[j] == all[all.len() - 1 - j],
        decreases list@.len(),
    {
        match list.pop() {
            Some(h) => {
                r.push(h);
            },
            None => {},
        }
    }
    r
}

/// What a run did and how it stood at the end.
#[derive(Debug)]
pub struct RunReport {
    /// The orders that were given: the first one at the start and one more
    /// after each happening.
    pub orders: Vec<Order>,
    /// The results of the probes that came back, in the order of arrival.
    pub results: Vec<ProbeResult>,
    /// Where the run stood after the last happening.
    pub phase: Phase,
    /// The failure that the run reports, if any.
    pub error: Option<RunError>,
}

/// Runs the settings against a record of what happened: a session for the
/// sandbox `name`, fed with `happenings` one after the other.
pub fn run(config: &Config, name: String, happenings: Vec<Happening>) -> (report: RunReport)
    ensures
        order_views(report.orders@) == SessionView::start(config@, name@).orders(
            happening_views(happenings@),
        ),
        result_views(report.results@) == SessionView::start(config@, name@).after_all(
            happening_views(happenings@),
        ).results,
        report.phase == SessionView::start(config@, name@).after_all(
            happening_views(happenings@),
        ).run.phase,
        report.error == SessionView::start(config@, name@).after_all(
            happening_views(happenings@),
        ).run.error,
{
    let ghost start = SessionView::start(config@, name@);
    let ghost all = happening_views(happenings@);
    let n: usize = happenings.len();
    let mut rest = reversed(happenings);
    let mut session = Session::new(config, name);
    let mut orders: Vec<Order> = Vec::new();
    orders.push(session.order());
    let mut i: usize = 0;
    proof {
        assert(all.take(0) =~= Seq::<HappeningView>::empty());
        assert(order_views(orders@) =~= start.orders(all.take(0)));
    }
    while i < n
        invariant
            i <= n,
            n == all.len(),
            rest@.len() == n - i,
            forall|j: int| 0 <= j < rest@.len() ==> (#[trigger] rest@[j])@ == all[n - 1 - j],
            session.wf(),
            session@ == start.after_all(all.take(i as int)),
            order_views(orders@) == start.orders(all.take(i as int)),
        decreases n - i,
    {
        proof {
            assert(all.take(i + 1).drop_last() =~= all.take(i as int));
            assert(all.take(i + 1).last() == all[i as int]);
        }
        match rest.pop() {
            Some(happening) => {
                let ghost seen = order_views(orders@);
                let order = session.advance(happening);
                orders.push(order);
                proof {
                    assert(order_views(orders@) =~= seen.push(order@));
                }
            },
            None => {},
        }
        i += 1;
    }
    proof {
        assert(all.take(i as int) =~= all);
    }
    let phase = session.phase();
    let error = session.error();
    RunReport { orders, results: session.into_results(), phase, error }
}

} // verus!

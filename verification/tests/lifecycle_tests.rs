use k8stcp::config::Config;
use k8stcp::lifecycle::{Action, Event, Phase, Run, RunError};
use k8stcp::probe::{check_remote_host, probe_targets, Exchange, Verdict};
use k8stcp::readiness::{observe, Readiness, SandboxStatus, WatchItem};
use k8stcp::sandbox::SandboxSpec;
use k8stcp::scheduler::ProbeRecord;

struct Report {
    actions: Vec<Action>,
    results: Vec<ProbeRecord>,
    phase: Phase,
    error: Option<RunError>,
}

fn run(config: &Config, events: &Vec<Event>) -> Report {
    let mut machine = Run::new(config.hosts().len() * config.ports().len(), config.max_connections());
    let mut actions = vec![machine.action()];
    for event in events {
        actions.push(machine.step(*event));
    }
    let phase = machine.phase();
    let error = machine.error();
    Report { actions, results: machine.into_results(), phase, error }
}

fn settings(hosts: &[&str], ports: &[&str], limit: &str) -> Config {
    Config::build(
        None,
        None,
        hosts.iter().map(|s| s.to_string()).collect(),
        ports.iter().map(|s| s.to_string()).collect(),
        Some(limit.to_string()),
    ).unwrap()
}

fn count(actions: &[Action], wanted: Action) -> usize {
    actions.iter().filter(|a| **a == wanted).count()
}

fn finished(index: usize, verdict: Verdict) -> Event {
    Event::ProbeFinished { index, verdict }
}

#[test]
fn end_to_end_two_hosts_one_port_limit_one() {
    let config = settings(&["10.0.0.1", "10.0.0.2"], &["22"], "1");
    let spec = SandboxSpec::new(&config, "tcp-check-1700000000".to_string());
    let handle = spec.handle();
    let targets = probe_targets(config.hosts(), config.ports());
    assert_eq!(targets.len(), 2);

    let running = WatchItem::Modified(Some(SandboxStatus { phase: Some("Running".to_string()) }));
    let first = check_remote_host(
        &targets[0].host,
        targets[0].port,
        Exchange::Completed(vec![Some(b"tcpcheck-successful".to_vec())]),
    );
    let second = check_remote_host(
        &targets[1].host,
        targets[1].port,
        Exchange::Completed(vec![Some(b"tcpcheck-failed".to_vec())]),
    );
    assert_eq!(first.report_line(), "tcpcheck-successful on host: 10.0.0.1 port: 22");
    assert_eq!(second.report_line(), "tcpcheck-failed on host: 10.0.0.2 port: 22");
    let confirmed = handle.matches(&spec.name, &spec.namespace);
    assert!(confirmed);

    let events = vec![
        Event::Provisioned,
        Event::WatchOpened,
        Event::Watch(observe(&WatchItem::Added)),
        Event::Watch(observe(&running)),
        Event::ProbeStarted,
        finished(0, first.verdict),
        Event::ProbeStarted,
        finished(1, second.verdict),
        Event::Deleted { confirmed },
    ];
    let report = run(&config, &events);
    assert_eq!(
        report.actions,
        vec![
            Action::Provision,
            Action::OpenWatch,
            Action::NextWatchEvent,
            Action::NextWatchEvent,
            Action::StartProbe(0),
            Action::AwaitProbe,
            Action::StartProbe(1),
            Action::AwaitProbe,
            Action::Teardown,
            Action::Exit,
        ]
    );
    assert_eq!(count(&report.actions, Action::Provision), 1);
    assert_eq!(count(&report.actions, Action::OpenWatch), 1);
    assert_eq!(count(&report.actions, Action::Teardown), 1);
    assert_eq!(
        report.results,
        vec![
            ProbeRecord { index: 0, verdict: Verdict::Successful },
            ProbeRecord { index: 1, verdict: Verdict::Failed },
        ]
    );
    assert_eq!(report.phase, Phase::Finished);
    assert_eq!(report.error, None);
}

#[test]
fn one_at_a_time_under_a_limit_of_one() {
    let mut machine = Run::new(2, 1);
    assert_eq!(machine.action(), Action::Provision);
    assert_eq!(machine.step(Event::Provisioned), Action::OpenWatch);
    assert_eq!(machine.step(Event::WatchOpened), Action::NextWatchEvent);
    assert_eq!(machine.step(Event::Watch(Readiness::Ready)), Action::StartProbe(0));
    assert_eq!(machine.in_flight(), 0);
    assert_eq!(machine.step(Event::ProbeStarted), Action::AwaitProbe);
    assert_eq!(machine.in_flight(), 1);
    assert_eq!(machine.step(finished(0, Verdict::Successful)), Action::StartProbe(1));
    assert_eq!(machine.in_flight(), 0);
    assert_eq!(machine.step(Event::ProbeStarted), Action::AwaitProbe);
    assert_eq!(machine.in_flight(), 1);
    assert_eq!(machine.step(finished(1, Verdict::Successful)), Action::Teardown);
    assert_eq!(machine.outcome(), None);
    assert_eq!(machine.step(Event::Deleted { confirmed: true }), Action::Exit);
    assert_eq!(machine.outcome(), Some(Ok(())));
    assert_eq!(machine.results().len(), 2);
}

#[test]
fn provisioning_failure_skips_everything_and_the_teardown() {
    let report = run(&settings(&["a"], &["22"], "1"), &vec![Event::ProvisionFailed]);
    assert_eq!(report.actions, vec![Action::Provision, Action::Exit]);
    assert_eq!(count(&report.actions, Action::Teardown), 0);
    assert_eq!(report.phase, Phase::Finished);
    assert_eq!(report.error, Some(RunError::Provision));
    assert!(report.results.is_empty());
}

#[test]
fn finished_run_stays_finished() {
    let events = vec![Event::ProvisionFailed, Event::Provisioned, Event::WatchOpened, Event::Deleted { confirmed: true }];
    let report = run(&settings(&["a"], &["22"], "1"), &events);
    assert_eq!(report.actions, vec![Action::Provision, Action::Exit, Action::Exit, Action::Exit, Action::Exit]);
    assert_eq!(report.error, Some(RunError::Provision));
}

#[test]
fn readiness_timeout_tears_down_without_probing() {
    for end in [Event::WatchEnded, Event::DeadlineElapsed] {
        let events = vec![
            Event::Provisioned,
            Event::WatchOpened,
            Event::Watch(Readiness::Waiting),
            end,
            Event::Deleted { confirmed: true },
        ];
        let report = run(&settings(&["a", "b"], &["22"], "4"), &events);
        assert_eq!(
            report.actions,
            vec![
                Action::Provision,
                Action::OpenWatch,
                Action::NextWatchEvent,
                Action::NextWatchEvent,
                Action::Teardown,
                Action::Exit,
            ]
        );
        assert_eq!(report.error, Some(RunError::ReadinessTimeout));
        assert_eq!(report.phase, Phase::Finished);
        assert!(report.results.is_empty());
    }
}

#[test]
fn malformed_event_tears_down_without_probing() {
    let events = vec![
        Event::Provisioned,
        Event::WatchOpened,
        Event::Watch(observe(&WatchItem::Modified(None))),
        Event::DeletionAccepted,
    ];
    let report = run(&settings(&["a"], &["22"], "4"), &events);
    assert_eq!(
        report.actions,
        vec![Action::Provision, Action::OpenWatch, Action::NextWatchEvent, Action::Teardown, Action::Exit]
    );
    assert_eq!(report.error, Some(RunError::MalformedEvent));
}

#[test]
fn watch_failure_tears_down() {
    let report = run(
        &settings(&["a"], &["22"], "4"),
        &vec![Event::Provisioned, Event::WatchFailed, Event::Deleted { confirmed: true }],
    );
    assert_eq!(report.actions, vec![Action::Provision, Action::OpenWatch, Action::Teardown, Action::Exit]);
    assert_eq!(report.error, Some(RunError::Watch));
    let report = run(
        &settings(&["a"], &["22"], "4"),
        &vec![Event::Provisioned, Event::WatchOpened, Event::WatchFailed, Event::Deleted { confirmed: true }],
    );
    assert_eq!(count(&report.actions, Action::Teardown), 1);
    assert_eq!(report.error, Some(RunError::Watch));
}

#[test]
fn failing_probes_do_not_stop_the_others() {
    let events = vec![
        Event::Provisioned,
        Event::WatchOpened,
        Event::Watch(Readiness::Ready),
        Event::ProbeStarted,
        Event::ProbeStarted,
        finished(1, Verdict::ExecError),
        Event::ProbeStarted,
        finished(0, Verdict::Failed),
        Event::ProbeStarted,
        finished(3, Verdict::ExecError),
        finished(2, Verdict::Successful),
        Event::Deleted { confirmed: true },
    ];
    let report = run(&settings(&["a", "b"], &["22", "80"], "2"), &events);
    assert_eq!(
        report.actions,
        vec![
            Action::Provision,
            Action::OpenWatch,
            Action::NextWatchEvent,
            Action::StartProbe(0),
            Action::StartProbe(1),
            Action::AwaitProbe,
            Action::StartProbe(2),
            Action::AwaitProbe,
            Action::StartProbe(3),
            Action::AwaitProbe,
            Action::AwaitProbe,
            Action::Teardown,
            Action::Exit,
        ]
    );
    assert_eq!(
        report.results,
        vec![
            ProbeRecord { index: 1, verdict: Verdict::ExecError },
            ProbeRecord { index: 0, verdict: Verdict::Failed },
            ProbeRecord { index: 3, verdict: Verdict::ExecError },
            ProbeRecord { index: 2, verdict: Verdict::Successful },
        ]
    );
    assert_eq!(report.error, None);
    assert_eq!(report.phase, Phase::Finished);
}

#[test]
fn every_host_and_port_gets_one_record() {
    let config = settings(&["a", "b", "a"], &["22", "80"], "10");
    let mut events = vec![Event::Provisioned, Event::WatchOpened, Event::Watch(Readiness::Ready)];
    for _ in 0..6 {
        events.push(Event::ProbeStarted);
    }
    for index in 0..6 {
        events.push(finished(index, Verdict::Successful));
    }
    events.push(Event::Deleted { confirmed: true });
    let report = run(&config, &events);
    assert_eq!(report.results.len(), 6);
    assert_eq!(report.error, None);
    assert_eq!(report.phase, Phase::Finished);
    assert_eq!(count(&report.actions, Action::Teardown), 1);
}

#[test]
fn run_without_targets_goes_straight_to_the_teardown() {
    let events = vec![Event::Provisioned, Event::WatchOpened, Event::Watch(Readiness::Ready), Event::Deleted { confirmed: true }];
    let report = run(&settings(&[], &["22"], "3"), &events);
    assert_eq!(
        report.actions,
        vec![Action::Provision, Action::OpenWatch, Action::NextWatchEvent, Action::Teardown, Action::Exit]
    );
    assert_eq!(report.error, None);
    assert!(report.results.is_empty());
}

#[test]
fn crash_stops_admission_waits_for_the_rest_and_tears_down() {
    let events = vec![
        Event::Provisioned,
        Event::WatchOpened,
        Event::Watch(Readiness::Ready),
        Event::ProbeStarted,
        Event::ProbeStarted,
        Event::ProbeCrashed { index: 0 },
        finished(1, Verdict::Successful),
        Event::Deleted { confirmed: true },
    ];
    let report = run(&settings(&["a", "b", "c"], &["22"], "2"), &events);
    assert_eq!(
        report.actions,
        vec![
            Action::Provision,
            Action::OpenWatch,
            Action::NextWatchEvent,
            Action::StartProbe(0),
            Action::StartProbe(1),
            Action::AwaitProbe,
            Action::AwaitProbe,
            Action::Teardown,
            Action::Exit,
        ]
    );
    assert_eq!(report.error, Some(RunError::Join));
    assert_eq!(report.results, vec![ProbeRecord { index: 1, verdict: Verdict::Successful }]);
}

#[test]
fn teardown_of_another_sandbox_is_reported_over_everything() {
    let events = vec![
        Event::Provisioned,
        Event::WatchOpened,
        Event::WatchEnded,
        Event::Deleted { confirmed: false },
    ];
    let report = run(&settings(&["a"], &["22"], "1"), &events);
    assert_eq!(report.error, Some(RunError::TeardownIntegrity));
    let events = vec![
        Event::Provisioned,
        Event::WatchOpened,
        Event::Watch(Readiness::Ready),
        Event::ProbeStarted,
        finished(0, Verdict::Successful),
        Event::Deleted { confirmed: false },
    ];
    let report = run(&settings(&["a"], &["22"], "1"), &events);
    assert_eq!(report.error, Some(RunError::TeardownIntegrity));
    assert_eq!(report.phase, Phase::Finished);
}

#[test]
fn failed_deletion_is_reported_unless_something_failed_before() {
    let events = vec![
        Event::Provisioned,
        Event::WatchOpened,
        Event::Watch(Readiness::Ready),
        Event::ProbeStarted,
        finished(0, Verdict::Successful),
        Event::DeleteFailed,
    ];
    assert_eq!(run(&settings(&["a"], &["22"], "1"), &events).error, Some(RunError::Teardown));
    let events = vec![Event::Provisioned, Event::WatchOpened, Event::WatchEnded, Event::DeleteFailed];
    assert_eq!(run(&settings(&["a"], &["22"], "1"), &events).error, Some(RunError::ReadinessTimeout));
}

#[test]
fn an_event_out_of_turn_is_a_protocol_failure() {
    let report = run(&settings(&["a"], &["22"], "1"), &vec![Event::WatchOpened]);
    assert_eq!(report.actions, vec![Action::Provision, Action::Exit]);
    assert_eq!(report.error, Some(RunError::Protocol));

    let report = run(&settings(&["a"], &["22"], "1"), &vec![Event::Provisioned, Event::ProbeStarted, Event::DeletionAccepted]);
    assert_eq!(report.actions, vec![Action::Provision, Action::OpenWatch, Action::Teardown, Action::Exit]);
    assert_eq!(report.error, Some(RunError::Protocol));

    let events = vec![
        Event::Provisioned,
        Event::WatchOpened,
        Event::Watch(Readiness::Ready),
        finished(0, Verdict::Successful),
        Event::Deleted { confirmed: true },
    ];
    let report = run(&settings(&["a"], &["22"], "1"), &events);
    assert_eq!(
        report.actions,
        vec![
            Action::Provision,
            Action::OpenWatch,
            Action::NextWatchEvent,
            Action::StartProbe(0),
            Action::Teardown,
            Action::Exit,
        ]
    );
    assert_eq!(report.error, Some(RunError::Protocol));
    assert!(report.results.is_empty());
}

#[test]
fn a_limit_of_zero_never_starts_a_probe() {
    let events = vec![
        Event::Provisioned,
        Event::WatchOpened,
        Event::Watch(Readiness::Ready),
    ];
    let report = run(&settings(&["a"], &["22"], "0"), &events);
    assert_eq!(
        report.actions,
        vec![Action::Provision, Action::OpenWatch, Action::NextWatchEvent, Action::AwaitProbe]
    );
    assert_eq!(report.phase, Phase::Probing);
}

#[test]
fn run_over_no_event_asks_for_the_sandbox() {
    let report = run(&settings(&["a"], &["22"], "1"), &vec![]);
    assert_eq!(report.actions, vec![Action::Provision]);
    assert_eq!(report.phase, Phase::Provisioning);
    assert_eq!(report.error, None);
}

#[test]
fn machine_reports_where_it_stands() {
    let mut machine = Run::new(1, 1);
    assert_eq!(machine.phase(), Phase::Provisioning);
    assert!(!machine.provisioned());
    machine.step(Event::Provisioned);
    assert!(machine.provisioned());
    assert_eq!(machine.phase(), Phase::OpeningWatch);
    machine.step(Event::WatchOpened);
    assert_eq!(machine.phase(), Phase::AwaitingReady);
    machine.step(Event::Watch(Readiness::Malformed));
    assert_eq!(machine.phase(), Phase::TearingDown);
    assert_eq!(machine.error(), Some(RunError::MalformedEvent));
    machine.step(Event::DeletionAccepted);
    assert_eq!(machine.outcome(), Some(Err(RunError::MalformedEvent)));
    assert!(machine.into_results().is_empty());
}

use k8stcp::config::Config;
use k8stcp::lifecycle::{Phase, RunError};
use k8stcp::probe::{Exchange, ProbeResult, Verdict};
use k8stcp::readiness::{SandboxStatus, WatchItem};
use k8stcp::session::{run, Happening, Order, RunReport, Session};

fn settings(hosts: &[&str], ports: &[&str], limit: &str) -> Config {
    Config::build(
        Some("probes".to_string()),
        None,
        hosts.iter().map(|s| s.to_string()).collect(),
        ports.iter().map(|s| s.to_string()).collect(),
        Some(limit.to_string()),
    ).unwrap()
}

fn name() -> String {
    "tcp-check-1700000000".to_string()
}

fn phase(phase: &str) -> Happening {
    Happening::Watch(WatchItem::Modified(Some(SandboxStatus { phase: Some(phase.to_string()) })))
}

fn printed(index: usize, text: &str) -> Happening {
    Happening::ProbeReturned { index, exchange: Exchange::Completed(vec![Some(text.as_bytes().to_vec())]) }
}

fn deleted(name: &str, namespace: &str) -> Happening {
    Happening::Deleted { name: name.to_string(), namespace: namespace.to_string() }
}

fn command(host: &str, port: u32) -> Vec<String> {
    vec![
        "sh".to_string(),
        "-c".to_string(),
        format!(
            "timeout 5 nc -zv -w 2 {} {} && echo -n 'tcpcheck-successful' || echo -n 'tcpcheck-failed'",
            host, port
        ),
    ]
}

fn shown(orders: &[Order]) -> Vec<String> {
    orders.iter().map(|o| format!("{:?}", o)).collect()
}

fn rows(results: &[ProbeResult]) -> Vec<(String, u32, Verdict, String)> {
    results.iter().map(|r| (r.target.host.clone(), r.target.port, r.verdict, r.text.clone())).collect()
}

fn teardowns(report: &RunReport) -> usize {
    report.orders.iter().filter(|o| matches!(o, Order::Teardown { .. })).count()
}

fn provisions(report: &RunReport) -> usize {
    report.orders.iter().filter(|o| matches!(o, Order::Provision)).count()
}

fn probes(report: &RunReport) -> usize {
    report.orders.iter().filter(|o| matches!(o, Order::StartProbe { .. })).count()
}

#[test]
fn end_to_end_scenario() {
    let config = settings(&["10.0.0.1", "10.0.0.2"], &["22"], "1");
    let happenings = vec![
        Happening::Provisioned,
        Happening::WatchOpened,
        Happening::Watch(WatchItem::Added),
        phase("Pending"),
        phase("Running"),
        Happening::ProbeStarted,
        printed(0, "tcpcheck-successful"),
        Happening::ProbeStarted,
        printed(1, "tcpcheck-failed"),
        deleted("tcp-check-1700000000", "probes"),
    ];
    let report = run(&config, name(), happenings);
    let expected = vec![
        Order::Provision,
        Order::OpenWatch {
            selector: "metadata.name=tcp-check-1700000000".to_string(),
            resource_version: "0".to_string(),
            timeout_secs: 10,
        },
        Order::NextWatchEvent,
        Order::NextWatchEvent,
        Order::NextWatchEvent,
        Order::StartProbe { index: 0, command: command("10.0.0.1", 22), stderr: false },
        Order::AwaitProbe,
        Order::StartProbe { index: 1, command: command("10.0.0.2", 22), stderr: false },
        Order::AwaitProbe,
        Order::Teardown { name: "tcp-check-1700000000".to_string(), namespace: "probes".to_string() },
        Order::Exit,
    ];
    assert_eq!(shown(&report.orders), shown(&expected));
    assert_eq!(provisions(&report), 1);
    assert_eq!(probes(&report), 2);
    assert_eq!(teardowns(&report), 1);
    assert_eq!(
        rows(&report.results),
        vec![
            ("10.0.0.1".to_string(), 22, Verdict::Successful, "tcpcheck-successful".to_string()),
            ("10.0.0.2".to_string(), 22, Verdict::Failed, "tcpcheck-failed".to_string()),
        ]
    );
    assert_eq!(report.results[0].report_line(), "tcpcheck-successful on host: 10.0.0.1 port: 22");
    assert_eq!(report.results[1].report_line(), "tcpcheck-failed on host: 10.0.0.2 port: 22");
    assert_eq!(report.phase, Phase::Finished);
    assert_eq!(report.error, None);
}

#[test]
fn end_to_end_scenario_runs_one_probe_at_a_time() {
    let config = settings(&["10.0.0.1", "10.0.0.2"], &["22"], "1");
    let mut session = Session::new(&config, name());
    let mut most = 0;
    let happenings = vec![
        Happening::Provisioned,
        Happening::WatchOpened,
        phase("Running"),
        Happening::ProbeStarted,
        printed(0, "tcpcheck-successful"),
        Happening::ProbeStarted,
        printed(1, "tcpcheck-successful"),
        deleted("tcp-check-1700000000", "probes"),
    ];
    for happening in happenings {
        session.advance(happening);
        most = most.max(session.in_flight());
        assert!(session.in_flight() <= 1);
    }
    assert_eq!(most, 1);
    assert_eq!(session.outcome(), Some(Ok(())));
    assert_eq!(session.results().len(), 2);
}

#[test]
fn session_knows_its_sandbox_and_targets() {
    let config = settings(&["a", "b"], &["22", "80"], "3");
    let session = Session::new(&config, name());
    assert_eq!(session.spec().name, "tcp-check-1700000000");
    assert_eq!(session.spec().namespace, "probes");
    assert_eq!(session.spec().image, "alpine");
    assert_eq!(session.handle().name(), "tcp-check-1700000000");
    assert_eq!(session.handle().namespace(), "probes");
    let targets: Vec<(String, u32)> = session.targets().iter().map(|t| (t.host.clone(), t.port)).collect();
    assert_eq!(
        targets,
        vec![("a".to_string(), 22), ("b".to_string(), 22), ("a".to_string(), 80), ("b".to_string(), 80)]
    );
    assert_eq!(session.phase(), Phase::Provisioning);
    assert_eq!(session.error(), None);
    assert_eq!(session.outcome(), None);
    assert!(matches!(session.order(), Order::Provision));
}

#[test]
fn provisioning_failure_orders_no_teardown() {
    let report = run(&settings(&["a"], &["22"], "1"), name(), vec![Happening::ProvisionFailed]);
    assert_eq!(shown(&report.orders), shown(&[Order::Provision, Order::Exit]));
    assert_eq!(teardowns(&report), 0);
    assert_eq!(report.error, Some(RunError::Provision));
    assert_eq!(report.phase, Phase::Finished);
}

#[test]
fn readiness_timeout_orders_the_teardown_once() {
    for end in [Happening::WatchEnded, Happening::DeadlineElapsed] {
        let happenings = vec![
            Happening::Provisioned,
            Happening::WatchOpened,
            Happening::Watch(WatchItem::Added),
            phase("Pending"),
            end,
            deleted("tcp-check-1700000000", "probes"),
        ];
        let report = run(&settings(&["a", "b"], &["22"], "2"), name(), happenings);
        assert_eq!(teardowns(&report), 1);
        assert_eq!(probes(&report), 0);
        assert_eq!(report.error, Some(RunError::ReadinessTimeout));
        assert_eq!(report.phase, Phase::Finished);
        assert!(report.results.is_empty());
    }
}

#[test]
fn change_without_status_fails_fast_and_tears_down() {
    let happenings = vec![
        Happening::Provisioned,
        Happening::WatchOpened,
        Happening::Watch(WatchItem::Modified(None)),
        phase("Running"),
    ];
    let report = run(&settings(&["a"], &["22"], "2"), name(), happenings);
    assert_eq!(teardowns(&report), 1);
    assert_eq!(probes(&report), 0);
    assert_eq!(report.error, Some(RunError::MalformedEvent));
    assert_eq!(report.phase, Phase::Finished);
}

#[test]
fn all_probes_failing_still_tears_down_once() {
    let happenings = vec![
        Happening::Provisioned,
        Happening::WatchOpened,
        phase("Running"),
        Happening::ProbeStarted,
        Happening::ProbeStarted,
        Happening::ProbeReturned { index: 1, exchange: Exchange::ChannelFailed("refused".to_string()) },
        Happening::ProbeStarted,
        Happening::ProbeReturned { index: 0, exchange: Exchange::AbnormalExit("killed".to_string()) },
        printed(2, "tcpcheck-failed"),
        Happening::DeletionAccepted,
    ];
    let report = run(&settings(&["a", "b", "c"], &["22"], "2"), name(), happenings);
    assert_eq!(teardowns(&report), 1);
    assert_eq!(probes(&report), 3);
    assert_eq!(
        rows(&report.results),
        vec![
            ("b".to_string(), 22, Verdict::ExecError, "refused".to_string()),
            ("a".to_string(), 22, Verdict::ExecError, "killed".to_string()),
            ("c".to_string(), 22, Verdict::Failed, "tcpcheck-failed".to_string()),
        ]
    );
    assert_eq!(report.results[0].report_line(), "Error for host b: refused");
    assert_eq!(report.error, None);
    assert_eq!(report.phase, Phase::Finished);
}

#[test]
fn every_host_and_port_gets_one_result() {
    let config = settings(&["a", "b", "a"], &["22", "80"], "4");
    let mut happenings = vec![Happening::Provisioned, Happening::WatchOpened, phase("Running")];
    for _ in 0..4 {
        happenings.push(Happening::ProbeStarted);
    }
    happenings.push(printed(3, "tcpcheck-successful"));
    happenings.push(Happening::ProbeStarted);
    happenings.push(printed(0, "tcpcheck-failed"));
    happenings.push(Happening::ProbeStarted);
    for index in [5, 4, 2, 1] {
        happenings.push(printed(index, "tcpcheck-successful"));
    }
    happenings.push(deleted("tcp-check-1700000000", "probes"));
    let report = run(&config, name(), happenings);
    assert_eq!(report.error, None);
    assert_eq!(report.phase, Phase::Finished);
    assert_eq!(report.results.len(), 6);
    let mut targets: Vec<(String, u32)> = report.results.iter().map(|r| (r.target.host.clone(), r.target.port)).collect();
    targets.sort();
    assert_eq!(
        targets,
        vec![
            ("a".to_string(), 22),
            ("a".to_string(), 22),
            ("a".to_string(), 80),
            ("a".to_string(), 80),
            ("b".to_string(), 22),
            ("b".to_string(), 80),
        ]
    );
    assert_eq!(report.results[0].target.host, "a");
    assert_eq!(report.results[0].target.port, 80);
    assert_eq!(report.results[1].verdict, Verdict::Failed);
}

#[test]
fn session_refuses_the_teardown_of_another_sandbox() {
    for (deleted_name, namespace) in [("tcp-check-1700000001", "probes"), ("tcp-check-1700000000", "default")] {
        let happenings = vec![
            Happening::Provisioned,
            Happening::WatchOpened,
            phase("Running"),
            Happening::ProbeStarted,
            printed(0, "tcpcheck-successful"),
            deleted(deleted_name, namespace),
        ];
        let report = run(&settings(&["a"], &["22"], "1"), name(), happenings);
        assert_eq!(report.error, Some(RunError::TeardownIntegrity));
        assert_eq!(report.phase, Phase::Finished);
        assert_eq!(teardowns(&report), 1);
    }
}

#[test]
fn probe_that_was_not_running_leaves_no_result() {
    let happenings = vec![
        Happening::Provisioned,
        Happening::WatchOpened,
        phase("Running"),
        Happening::ProbeStarted,
        printed(1, "tcpcheck-successful"),
        printed(0, "tcpcheck-successful"),
        Happening::DeletionAccepted,
    ];
    let report = run(&settings(&["a", "b"], &["22"], "1"), name(), happenings);
    assert_eq!(rows(&report.results), vec![("a".to_string(), 22, Verdict::Successful, "tcpcheck-successful".to_string())]);
    assert_eq!(report.error, Some(RunError::Protocol));
    assert_eq!(probes(&report), 1);
    assert_eq!(teardowns(&report), 1);
}

#[test]
fn probe_beyond_the_batch_leaves_no_result() {
    let happenings = vec![
        Happening::Provisioned,
        Happening::WatchOpened,
        phase("Running"),
        Happening::ProbeStarted,
        printed(7, "tcpcheck-successful"),
    ];
    let report = run(&settings(&["a"], &["22"], "1"), name(), happenings);
    assert!(report.results.is_empty());
    assert_eq!(report.error, Some(RunError::Protocol));
    assert_eq!(report.phase, Phase::Probing);
}

#[test]
fn crash_of_a_probe_is_fatal_after_the_rest_came_back() {
    let happenings = vec![
        Happening::Provisioned,
        Happening::WatchOpened,
        phase("Running"),
        Happening::ProbeStarted,
        Happening::ProbeStarted,
        Happening::ProbeCrashed { index: 1 },
        printed(0, "tcpcheck-successful"),
        deleted("tcp-check-1700000000", "probes"),
    ];
    let report = run(&settings(&["a", "b", "c"], &["22"], "2"), name(), happenings);
    assert_eq!(probes(&report), 2);
    assert_eq!(teardowns(&report), 1);
    assert_eq!(report.error, Some(RunError::Join));
    assert_eq!(report.results.len(), 1);
}

#[test]
fn run_over_nothing_orders_the_sandbox() {
    let report = run(&settings(&["a"], &["22"], "1"), name(), vec![]);
    assert_eq!(shown(&report.orders), shown(&[Order::Provision]));
    assert_eq!(report.phase, Phase::Provisioning);
    assert_eq!(report.error, None);
}

#[test]
fn orders_keep_the_order_of_the_happenings() {
    let happenings = vec![Happening::Provisioned, Happening::WatchFailed, Happening::DeleteFailed, Happening::Provisioned];
    let report = run(&settings(&["a"], &["22"], "1"), name(), happenings);
    let expected = vec![
        Order::Provision,
        Order::OpenWatch {
            selector: "metadata.name=tcp-check-1700000000".to_string(),
            resource_version: "0".to_string(),
            timeout_secs: 10,
        },
        Order::Teardown { name: "tcp-check-1700000000".to_string(), namespace: "probes".to_string() },
        Order::Exit,
        Order::Exit,
    ];
    assert_eq!(shown(&report.orders), shown(&expected));
    assert_eq!(report.error, Some(RunError::Watch));
}

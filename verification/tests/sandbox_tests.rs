use k8stcp::config::Config;
use k8stcp::sandbox::{fresh_sandbox_name, sandbox_name, SandboxSpec, TeardownIntegrityError};

fn config(namespace: Option<&str>, image: Option<&str>) -> Config {
    Config::build(
        namespace.map(|s| s.to_string()),
        image.map(|s| s.to_string()),
        vec!["10.0.0.1".to_string()],
        vec!["22".to_string()],
        None,
    ).unwrap()
}

#[test]
fn name_carries_the_timestamp() {
    assert_eq!(sandbox_name(1700000000), "tcp-check-1700000000");
    assert_eq!(sandbox_name(0), "tcp-check-0");
    assert_eq!(sandbox_name(-5), "tcp-check--5");
    assert_eq!(sandbox_name(i64::MAX), "tcp-check-9223372036854775807");
    assert_eq!(sandbox_name(i64::MIN), "tcp-check--9223372036854775808");
}

#[test]
fn fresh_name_carries_the_time_of_the_clock() {
    let before = chrono::Utc::now().timestamp();
    let name = fresh_sandbox_name();
    let after = chrono::Utc::now().timestamp();
    let digits = name.strip_prefix("tcp-check-").unwrap();
    assert!(!digits.is_empty());
    assert!(digits.chars().all(|c| c.is_ascii_digit()));
    let seconds: i64 = digits.parse().unwrap();
    assert!(before <= seconds && seconds <= after);
    assert_eq!(name, sandbox_name(seconds));
}

#[test]
fn spec_idles_and_never_restarts() {
    let spec = SandboxSpec::new(&config(None, None), "tcp-check-1".to_string());
    assert_eq!(spec.name, "tcp-check-1");
    assert_eq!(spec.namespace, "default");
    assert_eq!(spec.image, "alpine");
    assert_eq!(spec.restart_policy, "Never");
    assert_eq!(spec.command, vec!["tail".to_string(), "-f".to_string(), "/dev/null".to_string()]);
}

#[test]
fn spec_takes_scope_and_image_from_the_settings() {
    let spec = SandboxSpec::new(&config(Some("probes"), Some("busybox")), "tcp-check-2".to_string());
    assert_eq!(spec.namespace, "probes");
    assert_eq!(spec.image, "busybox");
}

#[test]
fn handle_is_name_and_scope_of_the_spec() {
    let spec = SandboxSpec::new(&config(Some("probes"), None), "tcp-check-3".to_string());
    let handle = spec.handle();
    assert_eq!(handle.name(), "tcp-check-3");
    assert_eq!(handle.namespace(), "probes");
    let again = spec.handle();
    assert_eq!(again.name(), handle.name());
    assert_eq!(again.namespace(), handle.namespace());
}

#[test]
fn selector_narrows_to_the_name() {
    let handle = SandboxSpec::new(&config(None, None), "tcp-check-1700000000".to_string()).handle();
    assert_eq!(handle.watch_selector(), "metadata.name=tcp-check-1700000000");
}

#[test]
fn teardown_of_the_same_sandbox_is_confirmed() {
    let handle = SandboxSpec::new(&config(Some("probes"), None), "tcp-check-3".to_string()).handle();
    assert!(handle.matches("tcp-check-3", "probes"));
    assert_eq!(handle.confirm_teardown("tcp-check-3", "probes"), Ok(()));
}

#[test]
fn teardown_of_another_sandbox_is_an_integrity_failure() {
    let handle = SandboxSpec::new(&config(Some("probes"), None), "tcp-check-3".to_string()).handle();
    assert!(!handle.matches("tcp-check-4", "probes"));
    assert!(!handle.matches("tcp-check-3", "default"));
    assert!(!handle.matches("", ""));
    assert_eq!(handle.confirm_teardown("tcp-check-4", "probes"), Err(TeardownIntegrityError::IdentityMismatch));
    assert_eq!(handle.confirm_teardown("tcp-check-3", "other"), Err(TeardownIntegrityError::IdentityMismatch));
    assert_eq!(handle.confirm_teardown("tcp-check-33", "probes"), Err(TeardownIntegrityError::IdentityMismatch));
}

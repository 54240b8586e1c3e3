//! The sandbox: how it is named, what is asked of the control plane to create
//! it, and the identity by which it is watched and deleted.

use crate::config::Config;
use crate::text::{signed_decimal, signed_decimal_string};
use vstd::prelude::*;

verus! {

/// The name of the sandbox of a run that starts at `timestamp`, in seconds of
/// Unix time.
pub open spec fn sandbox_name_text(timestamp: int) -> Seq<char> {
    "tcp-check-"@ + signed_decimal(timestamp)
}

/// Names the sandbox of a run that starts at `timestamp`.
pub fn sandbox_name(timestamp: i64) -> (name: String)
    ensures
        name@ == sandbox_name_text(timestamp as int),
{
    let mut name = String::from_str("tcp-check-");
    let digits = signed_decimal_string(timestamp);
    name.append(digits.as_str());
    name
}

/// `chrono::Utc::now().timestamp()`: the clock of the machine, in whole seconds
/// since the start of 1970. chrono reads the clock as a span since that moment
/// and gives up with a panic where the clock stands before it, so what comes
/// back is never negative. Nothing else is known of it.
#[verifier::external_body]
fn unix_seconds() -> (seconds: i64)
    ensures
        0 <= seconds,
{
    chrono::Utc::now().timestamp()
}

/// Names the sandbox of a run that starts now.
pub fn fresh_sandbox_name() -> (name: String)
    ensures
        exists|timestamp: int| 0 <= timestamp <= i64::MAX && name@ == sandbox_name_text(timestamp),
{
    let now: i64 = unix_seconds();
    let name = sandbox_name(now);
    proof {
        assert(0 <= now as int <= i64::MAX && name@ == sandbox_name_text(now as int));
    }
    name
}

/// What is asked of the control plane: one unit that runs `image`, never
/// restarts, and idles on a command that does not end by itself, so that
/// commands can be run in it again and again.
#[derive(Debug)]
pub struct SandboxSpec {
    pub name: String,
    pub namespace: String,
    pub image: String,
    pub restart_policy: String,
    pub command: Vec<String>,
}

/// A sandbox description as plain mathematics.
pub struct SandboxSpecView {
    pub name: Seq<char>,
    pub namespace: Seq<char>,
    pub image: Seq<char>,
    pub restart_policy: Seq<char>,
    pub command: Seq<Seq<char>>,
}

impl View for SandboxSpec {
    type V = SandboxSpecView;

    open spec fn view(&self) -> SandboxSpecView {
        SandboxSpecView {
            name: self.name@,
            namespace: self.namespace@,
            image: self.image@,
            restart_policy: self.restart_policy@,
            command: Seq::new(self.command@.len(), |i: int| self.command@[i]@),
        }
    }
}

/// The identity of a sandbox: its name and the scope it lives in.
#[derive(Debug)]
pub struct SandboxHandle {
    name: String,
    namespace: String,
}

/// An identity as plain mathematics.
pub struct HandleView {
    pub name: Seq<char>,
    pub namespace: Seq<char>,
}

impl View for SandboxHandle {
    type V = HandleView;

    closed spec fn view(&self) -> HandleView {
        HandleView { name: self.name@, namespace: self.namespace@ }
    }
}

/// Why a deletion is not accepted as the deletion of this run's sandbox.
#[derive(Clone, Copy, PartialEq, Eq, Debug, Structural)]
pub enum TeardownIntegrityError {
    /// The control plane named another sandbox as the deleted one.
    IdentityMismatch,
}

impl SandboxSpec {
    /// Describes the sandbox `name` for the scope and image of `config`.
    pub fn new(config: &Config, name: String) -> (spec: SandboxSpec)
        ensures
            spec@ == (SandboxSpecView {
                name: name@,
                namespace: config@.namespace,
                image: config@.image,
                restart_policy: "Never"@,
                command: seq!["tail"@, "-f"@, "/dev/null"@],
            }),
    {
        let mut command: Vec<String> = Vec::new();
        command.push(String::from_str("tail"));
        command.push(String::from_str("-f"));
        command.push(String::from_str("/dev/null"));
        let spec = SandboxSpec {
            name,
            namespace: config.namespace().clone(),
            image: config.image().clone(),
            restart_policy: String::from_str("Never"),
            command,
        };
        proof {
            assert(spec@.command =~= seq!["tail"@, "-f"@, "/dev/null"@]);
        }
        spec
    }

    /// The identity of the sandbox that this description creates.
    pub fn handle(&self) -> (handle: SandboxHandle)
        ensures
            handle@ == (HandleView { name: self@.name, namespace: self@.namespace }),
    {
        SandboxHandle { name: self.name.clone(), namespace: self.namespace.clone() }
    }
}

impl SandboxHandle {
    /// The name of the sandbox.
    pub fn name(&self) -> (s: &String)
        ensures
            s@ == self@.name,
    {
        &self.name
    }

    /// The scope in which the sandbox lives.
    pub fn namespace(&self) -> (s: &String)
        ensures
            s@ == self@.namespace,
    {
        &self.namespace
    }

    /// The field selector that narrows a change-event stream to this sandbox.
    pub fn watch_selector(&self) -> (selector: String)
        ensures
            selector@ == "metadata.name="@ + self@.name,
    {
        let mut selector = String::from_str("metadata.name=");
        selector.append(self.name.as_str());
        selector
    }

    /// Whether `name` in `namespace` is this sandbox.
    pub fn matches(&self, name: &str, namespace: &str) -> (same: bool)
        ensures
            same == (self@.name == name@ && self@.namespace == namespace@),
    {
        let name = String::from_str(name);
        let namespace = String::from_str(namespace);
        self.name == name && self.namespace == namespace
    }

    /// Checks what the control plane reports as deleted against this sandbox:
    /// anything else than this very sandbox is an integrity failure.
    pub fn confirm_teardown(&self, name: &str, namespace: &str) -> (r: Result<(), TeardownIntegrityError>)
        ensures
            r is Ok <==> self@.name == name@ && self@.namespace == namespace@,
            r is Err ==> r == Err::<(), TeardownIntegrityError>(TeardownIntegrityError::IdentityMismatch),
    {
        if self.matches(name, namespace) {
            Ok(())
        } else {
            Err(TeardownIntegrityError::IdentityMismatch)
        }
    }
}

} // verus!

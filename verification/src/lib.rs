//! Reachability probing of host and port pairs from inside a cluster network.
//!
//! One run creates an ephemeral sandbox, waits until it is ready, runs one
//! reachability check for each host and port through a remote-execution
//! channel into the sandbox, and deletes the sandbox whatever came of it.
//! This library holds the rules of such a run, stated and proved; it does no
//! input or output itself. Its caller performs what the library orders and
//! hands back what happened.
//!
//! - [`config`]: the settings of a run, built from the raw texts of the
//!   command line.
//! - [`sandbox`]: the name, the description and the identity of the sandbox.
//! - [`readiness`]: what a change event of the sandbox means for the
//!   readiness wait.
//! - [`probe`]: the targets, the probe command, the capture of its output and
//!   the verdict on it.
//! - [`scheduler`]: the probe batch behind its admission gate.
//! - [`lifecycle`]: the run as a state machine over plain events.
//! - [`session`]: the run with its data, over what the control plane reports.
//! - [`text`]: decimal notation and substring search.

pub mod config;
pub mod lifecycle;
pub mod probe;
pub mod readiness;
pub mod sandbox;
pub mod scheduler;
pub mod session;
pub mod text;

pub use config::Config;
pub use probe::{check_remote_host, get_output};
pub use session::run;

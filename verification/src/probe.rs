//! One reachability check: its target, the command that performs it, the capture
//! of what it printed, and the classification of the outcome.

use crate::config::texts;
use crate::text::{contains_text, decimal, decimal_string, text_contains};
use vstd::arithmetic::div_mod::lemma_fundamental_div_mod_converse;
use vstd::prelude::*;
use vstd::utf8::{decode_utf8, encode_utf8, encode_utf8_decode_utf8, valid_utf8};

verus! {

/// How one probe ended.
#[derive(Clone, Copy, PartialEq, Eq, Debug, Structural)]
pub enum Verdict {
    /// The remote command reported that the port answered.
    Successful,
    /// The remote command reported that the port did not answer.
    Failed,
    /// The remote command ran, but its output holds neither report.
    Inconclusive,
    /// The remote command could not be run to a normal end.
    ExecError,
}

/// One host and port to probe.
#[derive(Debug)]
pub struct ProbeTarget {
    pub host: String,
    pub port: u32,
}

/// A target as plain mathematics.
pub struct TargetView {
    pub host: Seq<char>,
    pub port: u32,
}

impl View for ProbeTarget {
    type V = TargetView;

    open spec fn view(&self) -> TargetView {
        TargetView { host: self.host@, port: self.port }
    }
}

impl Clone for ProbeTarget {
    fn clone(&self) -> (c: ProbeTarget)
        ensures
            c@ == self@,
    {
        ProbeTarget { host: self.host.clone(), port: self.port }
    }
}

/// The views of a list of targets.
pub open spec fn target_views(targets: Seq<ProbeTarget>) -> Seq<TargetView> {
    Seq::new(targets.len(), |i: int| targets[i]@)
}

/// The target at position `i` of the batch: the ports run in the outer loop and
/// the hosts in the inner one.
pub open spec fn target_at(hosts: Seq<Seq<char>>, ports: Seq<u32>, i: int) -> TargetView {
    TargetView { host: hosts[i % (hosts.len() as int)], port: ports[i / (hosts.len() as int)] }
}

/// The batch for a list of hosts and a list of ports: every host with every
/// port, an entry for each occurrence where a host or a port is listed twice.
pub open spec fn targets_of(hosts: Seq<Seq<char>>, ports: Seq<u32>) -> Seq<TargetView> {
    Seq::new(hosts.len() * ports.len(), |i: int| target_at(hosts, ports, i))
}

/// Lists the targets of a batch.
pub fn probe_targets(hosts: &Vec<String>, ports: &Vec<u32>) -> (targets: Vec<ProbeTarget>)
    ensures
        targets@.len() == hosts@.len() * ports@.len(),
        target_views(targets@) == targets_of(texts(hosts@), ports@),
{
    let ghost h = texts(hosts@);
    let ghost n = hosts@.len() as int;
    let mut targets: Vec<ProbeTarget> = Vec::new();
    let mut p: usize = 0;
    while p < ports.len()
        invariant
            p <= ports@.len(),
            h == texts(hosts@),
            n == hosts@.len(),
            targets@.len() == p * n,
            forall|k: int| 0 <= k < targets@.len() ==> (#[trigger] targets@[k])@ == target_at(h, ports@, k),
        decreases ports@.len() - p,
    {
        let mut q: usize = 0;
        while q < hosts.len()
            invariant
                p < ports@.len(),
                q <= hosts@.len(),
                h == texts(hosts@),
                n == hosts@.len(),
                targets@.len() == p * n + q,
                forall|k: int|
                    0 <= k < targets@.len() ==> (#[trigger] targets@[k])@ == target_at(h, ports@, k),
            decreases hosts@.len() - q,
        {
            proof {
                lemma_fundamental_div_mod_converse(p * n + q, n, p as int, q as int);
            }
            targets.push(ProbeTarget { host: hosts[q].clone(), port: ports[p] });
            q += 1;
        }
        proof {
            assert((p + 1) * n == p * n + n) by (nonlinear_arith);
        }
        p += 1;
    }
    proof {
        assert(ports@.len() * n == n * ports@.len()) by (nonlinear_arith);
        assert(target_views(targets@) =~= targets_of(h, ports@));
    }
    targets
}

/// The shell line that probes `host` at `port`: a test of at most five seconds
/// that prints one of two reports and no line end.
pub open spec fn command_text(host: Seq<char>, port: u32) -> Seq<char> {
    "timeout 5 nc -zv -w 2 "@ + host + " "@ + decimal(port as nat)
        + " && echo -n 'tcpcheck-successful' || echo -n 'tcpcheck-failed'"@
}

/// The command to run in the sandbox for one target: a shell, its flag, and the
/// shell line.
pub fn probe_command(host: &str, port: u32) -> (argv: Vec<String>)
    ensures
        argv@.len() == 3,
        argv@[0]@ == "sh"@,
        argv@[1]@ == "-c"@,
        argv@[2]@ == command_text(host@, port),
{
    let mut line = String::from_str("timeout 5 nc -zv -w 2 ");
    line.append(host);
    line.append(" ");
    let digits = decimal_string(port as u64);
    line.append(digits.as_str());
    line.append(" && echo -n 'tcpcheck-successful' || echo -n 'tcpcheck-failed'");
    let mut argv: Vec<String> = Vec::new();
    argv.push(String::from_str("sh"));
    argv.push(String::from_str("-c"));
    argv.push(line);
    argv
}

/// The report of a port that answered.
pub open spec fn success_sentinel() -> Seq<char> {
    "tcpcheck-successful"@
}

/// The report of a port that did not answer.
pub open spec fn failure_sentinel() -> Seq<char> {
    "tcpcheck-failed"@
}

/// The verdict that a captured output stands for: the success report decides
/// first, then the failure report.
pub open spec fn classify(output: Seq<char>) -> Verdict {
    if contains_text(output, success_sentinel()) {
        Verdict::Successful
    } else if contains_text(output, failure_sentinel()) {
        Verdict::Failed
    } else {
        Verdict::Inconclusive
    }
}

/// Classifies a captured output.
pub fn verdict_of(output: &str) -> (v: Verdict)
    ensures
        v == classify(output@),
{
    if text_contains(output, "tcpcheck-successful") {
        Verdict::Successful
    } else if text_contains(output, "tcpcheck-failed") {
        Verdict::Failed
    } else {
        Verdict::Inconclusive
    }
}

/// The views of a list of chunks.
pub open spec fn chunk_views(chunks: Seq<Option<Vec<u8>>>) -> Seq<Option<Seq<u8>>> {
    Seq::new(
        chunks.len(),
        |i: int|
            match chunks[i] {
                Some(bytes) => Some(bytes@),
                None => None,
            },
    )
}

/// The text that one chunk adds to the capture: what its bytes encode, or
/// nothing if the read failed or the bytes are no valid text.
pub open spec fn chunk_text(chunk: Option<Seq<u8>>) -> Seq<char> {
    match chunk {
        Some(bytes) => if valid_utf8(bytes) {
            decode_utf8(bytes)
        } else {
            Seq::empty()
        },
        None => Seq::empty(),
    }
}

/// The capture of a stream of chunks: the texts of the chunks, one after the
/// other in the order of arrival.
pub open spec fn joined_text(chunks: Seq<Option<Seq<u8>>>) -> Seq<char>
    decreases chunks.len(),
{
    if chunks.len() == 0 {
        Seq::empty()
    } else {
        joined_text(chunks.drop_last()) + chunk_text(chunks.last())
    }
}

/// `String::from_utf8` of std, on a copy of `bytes`: gives a string exactly
/// when the bytes are valid UTF-8, and then one that is encoded by these very
/// bytes.
#[verifier::external_body]
fn text_from_utf8(bytes: &Vec<u8>) -> (text: Option<String>)
    ensures
        text is Some <==> valid_utf8(bytes@),
        text matches Some(s) ==> encode_utf8(s@) == bytes@,
{
    String::from_utf8(bytes.clone()).ok()
}

/// Puts together what a remote command printed: the chunks read from its
/// output, decoded one by one and joined. A chunk whose read failed, or that
/// does not decode, is left out.
pub fn get_output(chunks: &Vec<Option<Vec<u8>>>) -> (out: String)
    ensures
        out@ == joined_text(chunk_views(chunks@)),
{
    let ghost all = chunk_views(chunks@);
    let mut out = String::new();
    let mut i: usize = 0;
    proof {
        assert(all.take(0) =~= Seq::empty());
    }
    while i < chunks.len()
        invariant
            i <= chunks@.len(),
            all == chunk_views(chunks@),
            out@ == joined_text(all.take(i as int)),
        decreases chunks@.len() - i,
    {
        proof {
            assert(all.take(i + 1).drop_last() =~= all.take(i as int));
            assert(all.take(i + 1).last() == all[i as int]);
        }
        match &chunks[i] {
            Some(bytes) => {
                match text_from_utf8(bytes) {
                    Some(text) => {
                        proof {
                            encode_utf8_decode_utf8(text@);
                        }
                        out.append(text.as_str());
                    },
                    None => {
                        proof {
                            assert(out@ + Seq::<char>::empty() =~= out@);
                        }
                    },
                }
            },
            None => {
                proof {
                    assert(out@ + Seq::<char>::empty() =~= out@);
                }
            },
        }
        i += 1;
    }
    proof {
        assert(all.take(i as int) =~= all);
    }
    out
}

/// What came of running the remote command of one probe.
#[derive(Debug)]
pub enum Exchange {
    /// The command ran to a normal end; these are the chunks read from its
    /// output, `None` for a read that failed.
    Completed(Vec<Option<Vec<u8>>>),
    /// The channel into the sandbox could not be opened; the text says why.
    ChannelFailed(String),
    /// The command did not come to a normal end; the text says why.
    AbnormalExit(String),
}

/// An exchange as plain mathematics.
pub enum ExchangeView {
    Completed(Seq<Option<Seq<u8>>>),
    ChannelFailed(Seq<char>),
    AbnormalExit(Seq<char>),
}

impl View for Exchange {
    type V = ExchangeView;

    open spec fn view(&self) -> ExchangeView {
        match self {
            Exchange::Completed(chunks) => ExchangeView::Completed(chunk_views(chunks@)),
            Exchange::ChannelFailed(why) => ExchangeView::ChannelFailed(why@),
            Exchange::AbnormalExit(why) => ExchangeView::AbnormalExit(why@),
        }
    }
}

/// The result of one probe.
#[derive(Debug)]
pub struct ProbeResult {
    /// What was probed.
    pub target: ProbeTarget,
    /// How the probe ended.
    pub verdict: Verdict,
    /// The captured output of the remote command; for an execution error, the
    /// text that says why.
    pub text: String,
}

/// A result as plain mathematics.
pub struct ProbeResultView {
    pub target: TargetView,
    pub verdict: Verdict,
    pub text: Seq<char>,
}

impl View for ProbeResult {
    type V = ProbeResultView;

    open spec fn view(&self) -> ProbeResultView {
        ProbeResultView { target: self.target@, verdict: self.verdict, text: self.text@ }
    }
}

/// The result that an exchange stands for.
pub open spec fn probe_result(host: Seq<char>, port: u32, exchange: ExchangeView) -> ProbeResultView {
    let target = TargetView { host, port };
    match exchange {
        ExchangeView::Completed(chunks) => ProbeResultView {
            target,
            verdict: classify(joined_text(chunks)),
            text: joined_text(chunks),
        },
        ExchangeView::ChannelFailed(why) => ProbeResultView { target, verdict: Verdict::ExecError, text: why },
        ExchangeView::AbnormalExit(why) => ProbeResultView { target, verdict: Verdict::ExecError, text: why },
    }
}

/// The line that reports a result: what the remote command printed, then the
/// host and the port; for an execution error, the host and the reason.
pub open spec fn report_text(r: ProbeResultView) -> Seq<char> {
    if r.verdict is ExecError {
        "Error for host "@ + r.target.host + ": "@ + r.text
    } else {
        r.text + " on host: "@ + r.target.host + " port: "@ + decimal(r.target.port as nat)
    }
}

/// Turns what came of the remote command for `host` and `port` into the result
/// of the probe.
pub fn check_remote_host(host: &str, port: u32, exchange: Exchange) -> (r: ProbeResult)
    ensures
        r@ == probe_result(host@, port, exchange@),
{
    let target = ProbeTarget { host: String::from_str(host), port };
    match exchange {
        Exchange::Completed(chunks) => {
            let text = get_output(&chunks);
            let verdict = verdict_of(text.as_str());
            ProbeResult { target, verdict, text }
        },
        Exchange::ChannelFailed(why) => ProbeResult { target, verdict: Verdict::ExecError, text: why },
        Exchange::AbnormalExit(why) => ProbeResult { target, verdict: Verdict::ExecError, text: why },
    }
}

impl ProbeResult {
    /// Whether the line of this result goes to the error stream.
    pub fn is_error(&self) -> (b: bool)
        ensures
            b == (self@.verdict is ExecError),
    {
        match self.verdict {
            Verdict::ExecError => true,
            _ => false,
        }
    }

    /// The line that reports this result.
    pub fn report_line(&self) -> (line: String)
        ensures
            line@ == report_text(self@),
    {
        if self.is_error() {
            let mut line = String::from_str("Error for host ");
            line.append(self.target.host.as_str());
            line.append(": ");
            line.append(self.text.as_str());
            line
        } else {
            let mut line = self.text.clone();
            line.append(" on host: ");
            line.append(self.target.host.as_str());
            line.append(" port: ");
            let digits = decimal_string(self.target.port as u64);
            line.append(digits.as_str());
            line
        }
    }
}

/// How a probe is marked. An output that holds the success sentinel is marked
/// successful. One that holds the failure sentinel, and not the other one, is
/// marked failed. Where the command could not be run to a normal end, and only
/// there, the result is an execution error. All of this rests on the probe's
/// own target and exchange alone.
pub proof fn law_verdicts(host: Seq<char>, port: u32, exchange: ExchangeView)
    ensures
        probe_result(host, port, exchange).target == (TargetView { host, port }),
        exchange matches ExchangeView::Completed(chunks) && contains_text(
            joined_text(chunks),
            success_sentinel(),
        ) ==> probe_result(host, port, exchange).verdict == Verdict::Successful,
        exchange matches ExchangeView::Completed(chunks) && !contains_text(
            joined_text(chunks),
            success_sentinel(),
        ) && contains_text(joined_text(chunks), failure_sentinel()) ==> probe_result(
            host,
            port,
            exchange,
        ).verdict == Verdict::Failed,
        exchange is ChannelFailed || exchange is AbnormalExit <==> probe_result(
            host,
            port,
            exchange,
        ).verdict == Verdict::ExecError,
{
}

} // verus!

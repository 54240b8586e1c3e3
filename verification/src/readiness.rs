//! The readiness wait: what each change event of the sandbox means for it, and
//! how a stream of such events ends the wait.

use vstd::prelude::*;

verus! {

/// What one change event means for the readiness wait.
#[derive(Clone, Copy, PartialEq, Eq, Debug, Structural)]
pub enum Readiness {
    /// The event does not decide anything: keep waiting.
    Waiting,
    /// The sandbox reports that it is running.
    Ready,
    /// The event breaks the rules of the event stream: give up.
    Malformed,
}

/// Why the readiness wait failed.
#[derive(Clone, Copy, PartialEq, Eq, Debug, Structural)]
pub enum ReadinessError {
    /// The stream ended, or the deadline passed, before the sandbox reported
    /// that it is running.
    ReadinessTimeout,
    /// A change came without its status block.
    MalformedEvent,
}

/// Seconds that the readiness wait may take.
pub const READINESS_TIMEOUT_SECS: u32 = 10;

/// The status block of a sandbox.
#[derive(Debug)]
pub struct SandboxStatus {
    /// The lifecycle phase that the sandbox reports, if it reports one.
    pub phase: Option<String>,
}

/// One item of the change-event stream.
#[derive(Debug)]
pub enum WatchItem {
    /// The sandbox appeared.
    Added,
    /// The sandbox changed; with its status block, if the event has one.
    Modified(Option<SandboxStatus>),
    /// Any other event.
    Other,
}

/// A stream item as plain mathematics: for a change, its status block, and in
/// the block the phase.
pub enum WatchItemView {
    Added,
    Modified(Option<Option<Seq<char>>>),
    Other,
}

impl View for WatchItem {
    type V = WatchItemView;

    open spec fn view(&self) -> WatchItemView {
        match self {
            WatchItem::Added => WatchItemView::Added,
            WatchItem::Modified(None) => WatchItemView::Modified(None),
            WatchItem::Modified(Some(status)) => WatchItemView::Modified(
                Some(
                    match status.phase {
                        Some(phase) => Some(phase@),
                        None => None,
                    },
                ),
            ),
            WatchItem::Other => WatchItemView::Other,
        }
    }
}

/// What a stream item means for the wait. Only a change decides: without a
/// status block it breaks the rules, with the phase `Running` the sandbox is
/// ready. Everything else leaves the wait as it is.
pub open spec fn meaning(item: WatchItemView) -> Readiness {
    match item {
        WatchItemView::Modified(None) => Readiness::Malformed,
        WatchItemView::Modified(Some(Some(phase))) => if phase == "Running"@ {
            Readiness::Ready
        } else {
            Readiness::Waiting
        },
        _ => Readiness::Waiting,
    }
}

/// Says what a stream item means for the wait.
pub fn observe(item: &WatchItem) -> (r: Readiness)
    ensures
        r == meaning(item@),
{
    match item {
        WatchItem::Modified(None) => Readiness::Malformed,
        WatchItem::Modified(Some(status)) => match &status.phase {
            Some(phase) => {
                let running = String::from_str("Running");
                if *phase == running {
                    Readiness::Ready
                } else {
                    Readiness::Waiting
                }
            },
            None => Readiness::Waiting,
        },
        _ => Readiness::Waiting,
    }
}

/// A stream item with the second of the wait in which it arrived.
#[derive(Debug)]
pub struct TimedItem {
    pub at: u64,
    pub item: WatchItem,
}

/// A timed item as plain mathematics.
pub struct TimedItemView {
    pub at: u64,
    pub item: WatchItemView,
}

impl View for TimedItem {
    type V = TimedItemView;

    open spec fn view(&self) -> TimedItemView {
        TimedItemView { at: self.at, item: self.item@ }
    }
}

/// The views of a list of timed items.
pub open spec fn item_views(items: Seq<TimedItem>) -> Seq<TimedItemView> {
    Seq::new(items.len(), |i: int| items[i]@)
}

/// How the wait over a stream ends. The items are taken in order. One that
/// arrives after the deadline ends the wait with the timeout, and so does the
/// end of the stream. One that arrives in time ends it if it decides: with the
/// second of its arrival where the sandbox is ready, with a failure where it
/// breaks the rules.
pub open spec fn wait_result(items: Seq<TimedItemView>, deadline: u64) -> Result<u64, ReadinessError>
    decreases items.len(),
{
    if items.len() == 0 {
        Err(ReadinessError::ReadinessTimeout)
    } else if items[0].at > deadline {
        Err(ReadinessError::ReadinessTimeout)
    } else {
        match meaning(items[0].item) {
            Readiness::Ready => Ok(items[0].at),
            Readiness::Malformed => Err(ReadinessError::MalformedEvent),
            Readiness::Waiting => wait_result(items.drop_first(), deadline),
        }
    }
}

/// Runs the readiness wait over a stream of change events that is known in
/// advance, with a deadline in seconds: gives the second in which the sandbox
/// was seen ready, or the reason why the wait failed.
pub fn await_ready(items: &Vec<TimedItem>, deadline: u64) -> (r: Result<u64, ReadinessError>)
    ensures
        r == wait_result(item_views(items@), deadline),
{
    let ghost all = item_views(items@);
    let mut i: usize = 0;
    proof {
        assert(all.skip(0) =~= all);
    }
    while i < items.len()
        invariant
            i <= items@.len(),
            all == item_views(items@),
            wait_result(all, deadline) == wait_result(all.skip(i as int), deadline),
        decreases items@.len() - i,
    {
        proof {
            assert(all.skip(i as int)[0] == items@[i as int]@);
            assert(all.skip(i as int).drop_first() =~= all.skip(i + 1));
        }
        if items[i].at > deadline {
            return Err(ReadinessError::ReadinessTimeout);
        }
        match observe(&items[i].item) {
            Readiness::Ready => {
                return Ok(items[i].at);
            },
            Readiness::Malformed => {
                return Err(ReadinessError::MalformedEvent);
            },
            Readiness::Waiting => {},
        }
        i += 1;
    }
    Err(ReadinessError::ReadinessTimeout)
}

/// The wait ends at once with the first change that reports the sandbox as
/// running, at the second of its arrival, provided that all items before it
/// came in time and decided nothing, and that it came in time itself. What
/// follows it in the stream plays no part.
pub proof fn law_first_ready_ends_wait(items: Seq<TimedItemView>, deadline: u64, i: int)
    requires
        0 <= i < items.len(),
        forall|j: int|
            0 <= j < i ==> (#[trigger] items[j]).at <= deadline && meaning(items[j].item)
                == Readiness::Waiting,
        items[i].at <= deadline,
        meaning(items[i].item) == Readiness::Ready,
    ensures
        wait_result(items, deadline) == Ok::<u64, ReadinessError>(items[i].at),
    decreases i,
{
    if i > 0 {
        let rest = items.drop_first();
        assert forall|j: int| 0 <= j < i - 1 implies (#[trigger] rest[j]).at <= deadline && meaning(
            rest[j].item,
        ) == Readiness::Waiting by {
            assert(rest[j] == items[j + 1]);
        }
        assert(rest[i - 1] == items[i]);
        law_first_ready_ends_wait(rest, deadline, i - 1);
    }
}

/// Where no item that arrives within the deadline decides anything, the wait
/// ends with the timeout.
pub proof fn law_undecided_wait_times_out(items: Seq<TimedItemView>, deadline: u64)
    requires
        forall|j: int|
            0 <= j < items.len() && (#[trigger] items[j]).at <= deadline ==> meaning(items[j].item)
                == Readiness::Waiting,
    ensures
        wait_result(items, deadline) == Err::<u64, ReadinessError>(ReadinessError::ReadinessTimeout),
    decreases items.len(),
{
    if items.len() > 0 && items[0].at <= deadline {
        let rest = items.drop_first();
        assert forall|j: int| 0 <= j < rest.len() && (#[trigger] rest[j]).at <= deadline implies meaning(
            rest[j].item,
        ) == Readiness::Waiting by {
            assert(rest[j] == items[j + 1]);
        }
        law_undecided_wait_times_out(rest, deadline);
    }
}

} // verus!

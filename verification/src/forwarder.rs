//! The forwarding path behind a terminal adapter, as a state machine.
//!
//! One task per session takes the frames out of the adapter's queue and
//! writes them to the network channel, one at a time: the next frame is not
//! looked at before the write of the last one has ended. The task stops when
//! the queue is closed, or silently when a write fails, which happens when
//! the peer has gone in the middle of a render.
//!
//! Receiving and writing are the embedding program's work. `Forwarder::step`
//! decides what comes next.

use vstd::prelude::*;
use crate::terminal::{outgoing_after, Call};

verus! {

/// Where the forwarding task stands.
#[derive(Clone, Copy, Debug, PartialEq, Eq, Structural)]
pub enum ForwardPhase {
    /// Waiting for the next frame from the queue.
    Receiving,
    /// A write to the network channel is under way.
    Writing,
    /// The task has ended.
    Stopped,
}

/// What the embedding program reports to the forwarder.
#[derive(Debug, PartialEq, Eq)]
pub enum Report {
    /// The queue gave this frame, or `None` once it is closed and empty.
    Received(Option<Vec<u8>>),
    /// The write ended; `true` if the network took the frame.
    Written(bool),
}

/// What the forwarder asks the embedding program to do next.
#[derive(Debug, PartialEq, Eq)]
pub enum Order {
    /// Wait for the next frame from the queue.
    Receive,
    /// Write this frame to the network channel.
    Write(Vec<u8>),
    /// End the task.
    Stop,
    /// The report did not fit the phase: carry on as before. A frame that
    /// came with such a report is not written.
    Ignore,
}

/// A report as a mathematical value.
pub enum ReportView {
    Received(Option<Seq<u8>>),
    Written(bool),
}

/// An order as a mathematical value.
pub enum OrderView {
    Receive,
    Write(Seq<u8>),
    Stop,
    Ignore,
}

impl View for Report {
    type V = ReportView;

    open spec fn view(&self) -> ReportView {
        match *self {
            Report::Received(Some(frame)) => ReportView::Received(Some(frame@)),
            Report::Received(None) => ReportView::Received(None),
            Report::Written(delivered) => ReportView::Written(delivered),
        }
    }
}

impl View for Order {
    type V = OrderView;

    open spec fn view(&self) -> OrderView {
        match *self {
            Order::Receive => OrderView::Receive,
            Order::Write(frame) => OrderView::Write(frame@),
            Order::Stop => OrderView::Stop,
            Order::Ignore => OrderView::Ignore,
        }
    }
}

/// The forwarder's transition function.
///
/// A frame is written as it was received. Only the end of that write lets
/// the forwarder receive again.
pub open spec fn spec_forward(phase: ForwardPhase, report: ReportView) -> (
    ForwardPhase,
    OrderView,
) {
    match (phase, report) {
        (ForwardPhase::Receiving, ReportView::Received(Some(frame))) => (
            ForwardPhase::Writing,
            OrderView::Write(frame),
        ),
        (ForwardPhase::Receiving, ReportView::Received(None)) => (
            ForwardPhase::Stopped,
            OrderView::Stop,
        ),
        (ForwardPhase::Writing, ReportView::Written(true)) => (
            ForwardPhase::Receiving,
            OrderView::Receive,
        ),
        (ForwardPhase::Writing, ReportView::Written(false)) => (
            ForwardPhase::Stopped,
            OrderView::Stop,
        ),
        _ => (phase, OrderView::Ignore),
    }
}

/// The phase of a forwarder, started fresh, before it takes the report at
/// position `k` of `reports`.
pub open spec fn forward_phase_at(reports: Seq<ReportView>, k: nat) -> ForwardPhase
    decreases k,
{
    if k == 0 {
        ForwardPhase::Receiving
    } else {
        spec_forward(forward_phase_at(reports, (k - 1) as nat), reports[k - 1]).0
    }
}

/// The forwarder's answer to the report at position `k` of `reports`.
pub open spec fn order_at(reports: Seq<ReportView>, k: nat) -> OrderView {
    spec_forward(forward_phase_at(reports, k), reports[k as int]).1
}

/// The frames that the queue gave while the forwarder was receiving, among
/// the first `k` of `reports`, in the order in which it gave them.
pub open spec fn frames_taken(reports: Seq<ReportView>, k: nat) -> Seq<Seq<u8>>
    decreases k,
{
    if k == 0 {
        Seq::empty()
    } else {
        let earlier = frames_taken(reports, (k - 1) as nat);
        match (forward_phase_at(reports, (k - 1) as nat), reports[k - 1]) {
            (ForwardPhase::Receiving, ReportView::Received(Some(frame))) => earlier.push(frame),
            _ => earlier,
        }
    }
}

/// The frames that the forwarder asked to have written in answer to the
/// first `k` of `reports`, in the order of asking.
pub open spec fn frames_written(reports: Seq<ReportView>, k: nat) -> Seq<Seq<u8>>
    decreases k,
{
    if k == 0 {
        Seq::empty()
    } else {
        let earlier = frames_written(reports, (k - 1) as nat);
        match order_at(reports, (k - 1) as nat) {
            OrderView::Write(frame) => earlier.push(frame),
            _ => earlier,
        }
    }
}

/// The decisions of the task that empties one adapter's queue.
pub struct Forwarder {
    phase: ForwardPhase,
}

impl Forwarder {
    /// Where the forwarder stands.
    pub closed spec fn spec_phase(&self) -> ForwardPhase {
        self.phase
    }

    /// A forwarder about to wait for its first frame.
    pub fn new() -> (forwarder: Self)
        ensures
            forwarder.spec_phase() == ForwardPhase::Receiving,
    {
        Forwarder { phase: ForwardPhase::Receiving }
    }

    #[verifier::when_used_as_spec(spec_phase)]
    pub fn phase(&self) -> (phase: ForwardPhase)
        ensures
            phase == self.spec_phase(),
    {
        self.phase
    }

    /// Takes one report and answers with what to do next.
    pub fn step(&mut self, report: Report) -> (order: Order)
        ensures
            (final(self).phase(), order@) == spec_forward(old(self).phase(), report@),
    {
        let (next, order) = match (self.phase, report) {
            (ForwardPhase::Receiving, Report::Received(Some(frame))) => (
                ForwardPhase::Writing,
                Order::Write(frame),
            ),
            (ForwardPhase::Receiving, Report::Received(None)) => (
                ForwardPhase::Stopped,
                Order::Stop,
            ),
            (ForwardPhase::Writing, Report::Written(true)) => (
                ForwardPhase::Receiving,
                Order::Receive,
            ),
            (ForwardPhase::Writing, Report::Written(false)) => (
                ForwardPhase::Stopped,
                Order::Stop,
            ),
            (phase, _) => (phase, Order::Ignore),
        };
        self.phase = next;
        order
    }
}

/// The frames reach the network in the order in which the queue gave them,
/// each of them once and unchanged.
pub proof fn lemma_written_as_taken(reports: Seq<ReportView>, k: nat)
    ensures
        frames_written(reports, k) == frames_taken(reports, k),
    decreases k,
{
    if k > 0 {
        lemma_written_as_taken(reports, (k - 1) as nat);
    }
}

/// What reaches the network is a beginning of what was flushed, in flush
/// order, provided the queue is first in, first out: that is, provided the
/// frames that it gave to the forwarder are a beginning of the frames that it
/// took from the adapter. The queue is not part of this crate, so its order
/// stands here as a condition.
pub proof fn lemma_network_sees_flush_order(
    calls: Seq<Call>,
    k: nat,
    reports: Seq<ReportView>,
    m: nat,
)
    requires
        frames_taken(reports, m).is_prefix_of(outgoing_after(calls, k).frames),
    ensures
        frames_written(reports, m).is_prefix_of(outgoing_after(calls, k).frames),
{
    lemma_written_as_taken(reports, m);
}

/// While a write is under way the forwarder stays in `Writing` until the end
/// of that write is reported.
pub proof fn lemma_writing_until_written(reports: Seq<ReportView>, i: nat, j: nat)
    requires
        i < j,
        order_at(reports, i) is Write,
        forall|k: int| i < k < j ==> !(#[trigger] reports[k] is Written),
    ensures
        forward_phase_at(reports, j) is Writing,
    decreases j,
{
    if i + 1 < j {
        lemma_writing_until_written(reports, i, (j - 1) as nat);
    }
}

/// One write is in flight at a time: between any two requests to write, the
/// end of the first write was reported.
pub proof fn lemma_one_write_at_a_time(reports: Seq<ReportView>, i: nat, j: nat)
    requires
        i < j,
        order_at(reports, i) is Write,
        order_at(reports, j) is Write,
    ensures
        exists|k: int| i < k < j && #[trigger] reports[k] is Written,
{
    if forall|k: int| i < k < j ==> !(#[trigger] reports[k] is Written) {
        lemma_writing_until_written(reports, i, j);
    }
}

/// A stopped forwarder stays stopped and asks for nothing more. A failed
/// write is therefore the last one.
pub proof fn lemma_stopped_is_final(reports: Seq<ReportView>, i: nat, j: nat)
    requires
        forward_phase_at(reports, i) is Stopped,
        i <= j,
    ensures
        forward_phase_at(reports, j) is Stopped,
        order_at(reports, j) is Ignore,
    decreases j,
{
    if i < j {
        lemma_stopped_is_final(reports, i, (j - 1) as nat);
    }
}

} // verus!

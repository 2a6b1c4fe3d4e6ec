//! The terminal adapter: what the renderer writes to.
//!
//! The renderer believes that it writes to a local terminal. `write` only
//! collects the bytes. `flush` hands everything collected since the last
//! flush, as one frame, to an unbounded in-process queue and returns without
//! waiting for the network. A task of its own empties that queue (see
//! `forwarder`). Once that task is gone, `flush` fails with `BrokenPipe`, and
//! the session can be closed instead of hanging.

use vstd::prelude::*;
use tokio::sync::mpsc::error::SendError;
use tokio::sync::mpsc::UnboundedSender;

verus! {

/// The sending half of tokio's unbounded channel, `tokio::sync::mpsc::UnboundedSender`.
/// Nothing is said of what is inside it.
#[verifier::external_type_specification]
#[verifier::external_body]
#[verifier::reject_recursive_types(T)]
pub struct ExUnboundedSender<T>(UnboundedSender<T>);

/// The error of a send on a closed channel, `tokio::sync::mpsc::error::SendError`.
/// Nothing is said of what is inside it.
#[verifier::external_type_specification]
#[verifier::external_body]
#[verifier::reject_recursive_types(T)]
pub struct ExSendError<T>(SendError<T>);

/// `UnboundedSender::send` puts a message into the queue without waiting, or
/// fails if the receiving half is closed or gone. Which of the two happens
/// depends on the other end, so nothing is claimed of the result. (The call
/// ends the process if the count of queued messages outgrows `usize`.)
pub assume_specification<T>[ UnboundedSender::<T>::send ](
    sender: &UnboundedSender<T>,
    message: T,
) -> (sent: Result<(), SendError<T>>)
;

/// Why a flush failed.
#[derive(Clone, Copy, Debug, PartialEq, Eq, Structural)]
pub enum FlushError {
    /// Nobody reads the queue any more: the frame was not taken.
    BrokenPipe,
}

/// An adapter as a mathematical value.
pub struct Outgoing {
    /// The bytes written since the last successful flush.
    pub sink: Seq<u8>,
    /// The frames that the queue has taken so far, oldest first.
    pub frames: Seq<Seq<u8>>,
}

/// An adapter that has seen no byte yet.
pub open spec fn spec_start() -> Outgoing {
    Outgoing { sink: Seq::empty(), frames: Seq::empty() }
}

/// Writing appends to the sink and touches nothing else.
pub open spec fn spec_write(before: Outgoing, buf: Seq<u8>) -> Outgoing {
    Outgoing { sink: before.sink + buf, frames: before.frames }
}

/// A flush that the queue accepted turns the sink into the newest frame. One
/// that it refused changes nothing: the bytes stay for the next attempt.
pub open spec fn spec_flush(before: Outgoing, accepted: bool) -> Outgoing {
    if accepted {
        Outgoing { sink: Seq::empty(), frames: before.frames.push(before.sink) }
    } else {
        before
    }
}

/// The buffering writer of one session.
pub struct TerminalHandle {
    sender: UnboundedSender<Vec<u8>>,
    sink: Vec<u8>,
    frames: Ghost<Seq<Seq<u8>>>,
}

impl View for TerminalHandle {
    type V = Outgoing;

    closed spec fn view(&self) -> Outgoing {
        Outgoing { sink: self.sink@, frames: self.frames@ }
    }
}

impl TerminalHandle {
    /// An adapter that flushes into the queue behind `sender`.
    pub fn start(sender: UnboundedSender<Vec<u8>>) -> (handle: Self)
        ensures
            handle@ == spec_start(),
    {
        TerminalHandle { sender, sink: Vec::new(), frames: Ghost(Seq::empty()) }
    }

    /// Collects `buf`. Always takes all of it.
    pub fn write(&mut self, buf: &[u8]) -> (taken: usize)
        ensures
            taken == buf@.len(),
            final(self)@ == spec_write(old(self)@, buf@),
    {
        self.sink.extend_from_slice(buf);
        assert(self.sink@ =~= old(self).sink@ + buf@);
        buf.len()
    }

    /// Hands the collected bytes to the queue as one frame.
    ///
    /// Whether the queue takes the frame is for its other end to decide.
    /// Either way the outcome is accounted for as `spec_flush` says.
    pub fn flush(&mut self) -> (done: Result<(), FlushError>)
        ensures
            final(self)@ == spec_flush(old(self)@, done is Ok),
    {
        let frame = self.sink.clone();
        assert(frame@ =~= self.sink@);
        let sent = self.sender.send(frame);
        self.settle(sent.is_ok())
    }

    /// Books the outcome of handing the sink to the queue.
    fn settle(&mut self, accepted: bool) -> (done: Result<(), FlushError>)
        ensures
            done is Ok <==> accepted,
            final(self)@ == spec_flush(old(self)@, accepted),
    {
        if accepted {
            self.frames = Ghost(self.frames@.push(self.sink@));
            self.sink.clear();
            Ok(())
        } else {
            Err(FlushError::BrokenPipe)
        }
    }

    /// How many bytes wait for the next flush.
    pub fn pending(&self) -> (count: usize)
        ensures
            count == self@.sink.len(),
    {
        self.sink.len()
    }
}

/// One call of the renderer, as a mathematical value.
pub enum Call {
    /// `write` with these bytes.
    Write(Seq<u8>),
    /// `flush`, and whether the queue took the frame.
    Flush(bool),
}

/// What one call makes of an adapter.
pub open spec fn spec_call(before: Outgoing, call: Call) -> Outgoing {
    match call {
        Call::Write(buf) => spec_write(before, buf),
        Call::Flush(accepted) => spec_flush(before, accepted),
    }
}

/// The adapter after the first `k` of `calls`, started fresh.
pub open spec fn outgoing_after(calls: Seq<Call>, k: nat) -> Outgoing
    decreases k,
{
    if k == 0 {
        spec_start()
    } else {
        spec_call(outgoing_after(calls, (k - 1) as nat), calls[k - 1])
    }
}

/// All bytes written by the first `k` of `calls`, in the order of writing.
pub open spec fn written_by(calls: Seq<Call>, k: nat) -> Seq<u8>
    decreases k,
{
    if k == 0 {
        Seq::empty()
    } else {
        match calls[k - 1] {
            Call::Write(buf) => written_by(calls, (k - 1) as nat) + buf,
            Call::Flush(_) => written_by(calls, (k - 1) as nat),
        }
    }
}

/// Whatever the renderer calls and however its flushes end, no byte is lost,
/// doubled or moved: the frames taken by the queue, one after the other and
/// followed by what still waits in the sink, are exactly the bytes written.
pub proof fn lemma_bytes_stay_in_order(calls: Seq<Call>, k: nat)
    ensures
        outgoing_after(calls, k).frames.flatten() + outgoing_after(calls, k).sink == written_by(
            calls,
            k,
        ),
    decreases k,
{
    if k > 0 {
        let before = outgoing_after(calls, (k - 1) as nat);
        let after = outgoing_after(calls, k);
        lemma_bytes_stay_in_order(calls, (k - 1) as nat);
        match calls[k - 1] {
            Call::Write(buf) => {
                assert(after.frames.flatten() + after.sink =~= (before.frames.flatten()
                    + before.sink) + buf);
            },
            Call::Flush(accepted) => {
                if accepted {
                    before.frames.lemma_flatten_push(before.sink);
                    assert(after.frames.flatten() + after.sink =~= before.frames.flatten()
                        + before.sink);
                }
            },
        }
    } else {
        assert(outgoing_after(calls, 0).frames.flatten() + outgoing_after(calls, 0).sink
            =~= Seq::<u8>::empty());
    }
}

/// Frames enter the queue in flush order and stay as they were taken: what
/// the queue has taken after `k` calls is the beginning of what it has taken
/// after any longer run of the same calls.
pub proof fn lemma_frames_in_flush_order(calls: Seq<Call>, k: nat, m: nat)
    requires
        k <= m,
    ensures
        outgoing_after(calls, k).frames.is_prefix_of(outgoing_after(calls, m).frames),
    decreases m,
{
    if k < m {
        lemma_frames_in_flush_order(calls, k, (m - 1) as nat);
        let shorter = outgoing_after(calls, k).frames;
        let before = outgoing_after(calls, (m - 1) as nat).frames;
        let after = outgoing_after(calls, m).frames;
        assert(before.is_prefix_of(after));
        assert(shorter.is_prefix_of(after)) by {
            assert(shorter =~= after.subrange(0, shorter.len() as int));
        }
    } else {
        let frames = outgoing_after(calls, k).frames;
        assert(frames =~= frames.subrange(0, frames.len() as int));
    }
}

} // verus!

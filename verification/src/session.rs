//! A client's session: its messages, and the frames that are written to it.
use tokio::sync::mpsc::Sender;
use vstd::prelude::*;

use crate::frame::{frame_bytes, frame_slice, Frame};
use crate::queue::{FoundEmpty, Inbox};
use crate::relay::{
    client_frame_handled, handle_client_frame, handle_tap_frame, tap_frame_handled, AppState,
    FrameReport,
};
use crate::table::ClientId;
use crate::traffic::{capped, saturating_usize_to_u64, wrapped, TrafficTotals};

verus! {

/// How many frames may wait for a client.
pub const CLIENT_OUTBOUND_QUEUE_CAPACITY: usize = 128;

/// How many waiting frames are written to a client in one go.
pub const CLIENT_OUTBOUND_DRAIN_BATCH_SIZE: usize = 32;

/// Whether a session goes on.
#[derive(Clone, Copy, Debug, PartialEq, Eq, Structural)]
pub enum SessionControl {
    Continue,
    Disconnect,
}

/// What came from a client.
pub enum ClientMessage {
    /// A binary message: an Ethernet frame.
    Binary(Frame),
    /// A text message.
    Text,
    /// A ping.
    Ping,
    /// A pong.
    Pong,
    /// The client closes the connection.
    Close,
    /// The connection failed.
    Failed,
}

/// Connects a client under a new number.
pub fn open_session(state: &mut AppState, tx: Sender<Frame>) -> (r: ClientId)
    ensures
        r == old(state).next_client_id,
        final(state).next_client_id == wrapped(old(state).next_client_id + 1),
        final(state).table@ == old(state).table@.registered(r, tx),
        final(state).outbox == old(state).outbox,
        final(state).traffic == old(state).traffic,
        old(state).table@.well_formed() ==> final(state).table@.well_formed(),
        old(state).sound() && old(state).next_client_id < u64::MAX ==> {
            &&& !old(state).table@.clients.contains_key(r)
            &&& final(state).sound()
        },
{
    let client_id: ClientId = state.next_client_id();
    state.register_client(client_id, tx);
    client_id
}

/// Handles a message from a client. Says whether the session goes on, and what became of the frame
/// if the message was one.
pub fn handle_client_message(
    state: &mut AppState,
    client_id: ClientId,
    message: ClientMessage,
) -> (r: (SessionControl, Option<FrameReport>))
    ensures
        r.0 == (if message is Close || message is Failed {
            SessionControl::Disconnect
        } else {
            SessionControl::Continue
        }),
        message matches ClientMessage::Binary(frame) ==> {
            &&& final(state).traffic.totals() == (TrafficTotals {
                websocket_rx: old(state).traffic.counters.websocket_rx.totals_after(
                    1,
                    frame_bytes(frame).len() as u64,
                ),
                ..old(state).traffic.totals()
            })
            &&& final(state).traffic.samples() == old(state).traffic.samples()
            &&& final(state).traffic.started_at == old(state).traffic.started_at
            &&& final(state).next_client_id == old(state).next_client_id
            &&& final(state).outbox.tap() == old(state).outbox.tap()
            &&& r.1 matches Some(report)
            &&& client_frame_handled(
                *old(state),
                *final(state),
                client_id,
                frame_bytes(frame),
                report,
            )
        },
        !(message is Binary) ==> r.1 is None && *final(state) == *old(state),
        old(state).table@.well_formed() ==> final(state).table@.well_formed(),
        old(state).sound() ==> final(state).sound(),
{
    match message {
        ClientMessage::Binary(frame) => {
            let length: usize = frame_slice(&frame).len();
            state.record_websocket_rx(length);
            let report = handle_client_frame(state, client_id, frame);
            (SessionControl::Continue, Some(report))
        },
        ClientMessage::Close => (SessionControl::Disconnect, None),
        ClientMessage::Failed => (SessionControl::Disconnect, None),
        ClientMessage::Text => (SessionControl::Continue, None),
        ClientMessage::Ping => (SessionControl::Continue, None),
        ClientMessage::Pong => (SessionControl::Continue, None),
    }
}

/// Adds what the queue gave to a batch. Hands on that the queue was empty.
pub fn extend_batch(batch: &mut Vec<Frame>, received: Result<Frame, FoundEmpty>) -> (r: Option<
    FoundEmpty,
>)
    ensures
        received matches Ok(frame) ==> r is None && final(batch)@ == old(batch)@.push(frame),
        received matches Err(empty) ==> r == Some(empty) && final(batch)@ == old(batch)@,
{
    match received {
        Ok(frame) => {
            batch.push(frame);
            None
        },
        Err(empty) => Some(empty),
    }
}

/// The frames to write in one go, and that the queue was found empty behind them, if it was.
#[derive(Debug)]
pub struct Drained {
    pub batch: Vec<Frame>,
    pub ended: Option<FoundEmpty>,
}

/// The frames to write in one go: the first one, and those that wait behind it until the queue is
/// empty or the batch is full, in the order in which they were taken. Which frames wait in the
/// queue is not stated.
pub fn drain_batch(first: Frame, rx: &mut Inbox) -> (r: Drained)
    ensures
        1 <= r.batch@.len() <= CLIENT_OUTBOUND_DRAIN_BATCH_SIZE,
        r.batch@[0] == first,
        final(rx).taken() == old(rx).taken() + r.batch@.skip(1),
        r.ended is None ==> r.batch@.len() == CLIENT_OUTBOUND_DRAIN_BATCH_SIZE,
        r.ended is Some ==> r.batch@.len() < CLIENT_OUTBOUND_DRAIN_BATCH_SIZE,
{
    let mut batch: Vec<Frame> = Vec::new();
    batch.push(first);
    while batch.len() < CLIENT_OUTBOUND_DRAIN_BATCH_SIZE
        invariant
            1 <= batch@.len() <= CLIENT_OUTBOUND_DRAIN_BATCH_SIZE,
            batch@[0] == first,
            rx.taken() == old(rx).taken() + batch@.skip(1),
        decreases CLIENT_OUTBOUND_DRAIN_BATCH_SIZE - batch@.len(),
    {
        let ghost before = batch@;
        let ended = extend_batch(&mut batch, rx.receive());
        proof {
            if ended is None {
                assert(batch@.skip(1) =~= before.skip(1).push(batch@.last()));
            }
        }
        if ended.is_some() {
            return Drained { batch, ended };
        }
    }
    Drained { batch, ended: None }
}

/// What was written to a client since the last time it was counted.
#[derive(Clone, Copy, Debug, PartialEq, Eq, Structural)]
pub struct SentTally {
    pub frames: u64,
    pub bytes: u64,
}

/// The bytes of some frames together, given how long each is.
pub open spec fn byte_sum(lengths: Seq<usize>) -> nat
    decreases lengths.len(),
{
    if lengths.len() == 0 {
        0
    } else {
        byte_sum(lengths.drop_last()) + lengths.last() as nat
    }
}

impl SentTally {
    /// Whether this is the tally of frames of the given lengths.
    pub open spec fn counts(self, lengths: Seq<usize>) -> bool {
        &&& self.frames == capped(lengths.len() as int)
        &&& self.bytes == capped(byte_sum(lengths) as int)
    }

    /// Nothing was written.
    pub fn new() -> (r: SentTally)
        ensures
            r.counts(Seq::empty()),
    {
        SentTally { frames: 0, bytes: 0 }
    }

    /// Adds one frame that was written.
    pub fn add_sent(&mut self, frame_len: usize)
        ensures
            final(self).frames == capped(old(self).frames + 1),
            final(self).bytes == capped(old(self).bytes + frame_len),
            forall|lengths: Seq<usize>| #[trigger]
                old(self).counts(lengths) ==> final(self).counts(lengths.push(frame_len)),
    {
        self.frames = self.frames.saturating_add(1);
        self.bytes = self.bytes.saturating_add(saturating_usize_to_u64(frame_len));
        proof {
            assert forall|lengths: Seq<usize>| #[trigger]
                old(self).counts(lengths) implies self.counts(lengths.push(frame_len)) by {
                assert(lengths.push(frame_len).drop_last() =~= lengths);
            }
        }
    }
}

/// Whether a task goes on writing.
#[derive(Clone, Copy, Debug, PartialEq, Eq, Structural)]
pub enum WriterStep {
    Continue,
    Stop,
}

/// What to do after a frame was to be written to a client: a frame that was written counts, and the
/// first that was not ends it.
pub fn on_client_write(tally: &mut SentTally, frame_len: usize, written: bool) -> (r: WriterStep)
    ensures
        written ==> {
            &&& r == WriterStep::Continue
            &&& final(tally).frames == capped(old(tally).frames + 1)
            &&& final(tally).bytes == capped(old(tally).bytes + frame_len)
            &&& forall|lengths: Seq<usize>| #[trigger]
                old(tally).counts(lengths) ==> final(tally).counts(lengths.push(frame_len))
        },
        !written ==> r == WriterStep::Stop && *final(tally) == *old(tally),
{
    if written {
        tally.add_sent(frame_len);
        WriterStep::Continue
    } else {
        WriterStep::Stop
    }
}

/// What to do after a frame was to be written to the TAP device: a frame that was written counts,
/// and the first that was not ends it.
pub fn on_tap_write(state: &mut AppState, frame_len: usize, written: bool) -> (r: WriterStep)
    ensures
        written ==> {
            &&& r == WriterStep::Continue
            &&& final(state).traffic.totals() == (TrafficTotals {
                tap_tx: old(state).traffic.counters.tap_tx.totals_after(1, frame_len as u64),
                ..old(state).traffic.totals()
            })
            &&& final(state).traffic.samples() == old(state).traffic.samples()
            &&& final(state).differs_in_traffic_only(*old(state))
        },
        !written ==> r == WriterStep::Stop && *final(state) == *old(state),
{
    if written {
        state.record_tap_tx(frame_len);
        WriterStep::Continue
    } else {
        WriterStep::Stop
    }
}

/// Counts what was written to a client, if anything was.
pub fn record_sent(state: &mut AppState, tally: SentTally)
    ensures
        tally.frames > 0 ==> {
            &&& final(state).traffic.totals() == (TrafficTotals {
                websocket_tx: old(state).traffic.counters.websocket_tx.totals_after(
                    tally.frames,
                    tally.bytes,
                ),
                ..old(state).traffic.totals()
            })
            &&& final(state).traffic.samples() == old(state).traffic.samples()
            &&& final(state).differs_in_traffic_only(*old(state))
        },
        tally.frames == 0 ==> *final(state) == *old(state),
{
    if tally.frames > 0 {
        state.record_websocket_tx_batch(tally.frames, tally.bytes);
    }
}

/// What the task of the TAP device does next.
pub enum TapStep {
    /// Write the frame to the device.
    Write(Frame),
    /// A frame from the device was handled.
    Handled(FrameReport),
    /// Wait for the next event.
    Wait,
    /// End the task: no more frames will come for the device.
    Stop,
}

/// How large a buffer a frame from a device of the given MTU needs: besides the payload, two
/// addresses, a VLAN tag and a type.
pub fn tap_buffer_len(mtu: u16) -> (r: usize)
    ensures
        r == mtu + 18,
{
    mtu as usize + 18
}

/// What to do when the queue for the device gave a frame, or was closed.
pub fn on_tap_outgoing(outgoing: Option<Frame>) -> (r: TapStep)
    ensures
        r == match outgoing {
            Some(frame) => TapStep::Write(frame),
            None => TapStep::Stop,
        },
{
    match outgoing {
        Some(frame) => TapStep::Write(frame),
        None => TapStep::Stop,
    }
}

/// What to do when the device gave `size` bytes: they are at the front of the buffer.
pub fn on_tap_incoming(state: &mut AppState, buffer: &[u8], size: usize) -> (r: TapStep)
    requires
        size <= buffer@.len(),
    ensures
        size == 0 ==> r is Wait && *final(state) == *old(state),
        size > 0 ==> {
            &&& final(state).traffic.totals() == (TrafficTotals {
                tap_rx: old(state).traffic.counters.tap_rx.totals_after(1, size as u64),
                ..old(state).traffic.totals()
            })
            &&& final(state).traffic.samples() == old(state).traffic.samples()
            &&& final(state).traffic.started_at == old(state).traffic.started_at
            &&& final(state).next_client_id == old(state).next_client_id
            &&& final(state).outbox.tap() == old(state).outbox.tap()
            &&& final(state).table == old(state).table
            &&& r matches TapStep::Handled(report)
            &&& tap_frame_handled(
                *old(state),
                *final(state),
                buffer@.take(size as int),
                report,
            )
        },
{
    if size == 0 {
        return TapStep::Wait;
    }
    state.record_tap_rx(size);
    let frame = Frame::copy_from_slice(vstd::slice::slice_subrange(buffer, 0, size));
    assert(buffer@.subrange(0, size as int) =~= buffer@.take(size as int));
    TapStep::Handled(handle_tap_frame(state, frame))
}

/// No frames have no bytes, one frame has its own, and the bytes of two runs of frames add up. A
/// tally is the number of frames and the sum of their bytes, as long as both fit.
pub proof fn tallies_add_up(a: Seq<usize>, b: Seq<usize>, n: usize, tally: SentTally)
    ensures
        byte_sum(Seq::empty()) == 0,
        byte_sum(seq![n]) == n,
        byte_sum(a + b) == byte_sum(a) + byte_sum(b),
        tally.counts(a) && a.len() <= u64::MAX ==> tally.frames == a.len(),
        tally.counts(a) && byte_sum(a) <= u64::MAX ==> tally.bytes == byte_sum(a),
        tally.counts(a) && byte_sum(a) > u64::MAX ==> tally.bytes == u64::MAX,
    decreases b.len(),
{
    assert(seq![n].drop_last() =~= Seq::empty());
    reveal_with_fuel(byte_sum, 2);
    if b.len() == 0 {
        assert(a + b =~= a);
    } else {
        tallies_add_up(a, b.drop_last(), n, tally);
        assert((a + b).drop_last() =~= a + b.drop_last());
        assert((a + b).last() == b.last());
    }
}

} // verus!

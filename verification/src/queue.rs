//! The queues between the relay and the tasks that write to clients and to the TAP device.
use tokio::sync::mpsc::error::TrySendError;
use tokio::sync::mpsc::{Receiver, Sender, UnboundedSender};
use vstd::prelude::*;

use crate::frame::{frame_bytes, Frame};

verus! {

/// `tokio::sync::mpsc::Sender`, the sending half of a bounded queue.
#[verifier::external_type_specification]
#[verifier::external_body]
#[verifier::reject_recursive_types(T)]
pub struct ExSender<T>(Sender<T>);

/// `tokio::sync::mpsc::Receiver`, the receiving half of a bounded queue.
#[verifier::external_type_specification]
#[verifier::external_body]
#[verifier::reject_recursive_types(T)]
pub struct ExReceiver<T>(Receiver<T>);

/// `tokio::sync::mpsc::UnboundedSender`, the sending half of a queue without a limit.
#[verifier::external_type_specification]
#[verifier::external_body]
#[verifier::reject_recursive_types(T)]
pub struct ExUnboundedSender<T>(UnboundedSender<T>);

/// Why a frame was not queued. The frame comes back with the error.
#[derive(Debug)]
pub enum QueueError {
    /// The queue holds as many frames as it can.
    Full(Frame),
    /// Nobody reads the queue any more.
    Closed(Frame),
}

impl QueueError {
    /// The frame that was not queued.
    pub open spec fn frame(self) -> Frame {
        match self {
            QueueError::Full(frame) => frame,
            QueueError::Closed(frame) => frame,
        }
    }
}

/// That a frame was handed to the queue of a client, and what came of it. Only a call of
/// `Sender::try_send` makes one.
pub struct Attempt {
    outcome: Result<(), QueueError>,
    tx: Ghost<Sender<Frame>>,
    frame: Ghost<Frame>,
}

impl Attempt {
    /// The queue to which the frame was handed.
    pub closed spec fn queue(self) -> Sender<Frame> {
        self.tx@
    }

    /// The frame that was handed over.
    pub closed spec fn frame(self) -> Frame {
        self.frame@
    }

    /// What came of it.
    pub closed spec fn result(self) -> Result<(), QueueError> {
        self.outcome
    }

    /// What came of it.
    pub fn outcome(&self) -> (r: &Result<(), QueueError>)
        ensures
            *r == self.result(),
    {
        &self.outcome
    }
}

/// That a frame was handed to the queue of the TAP device, and what came of it. Only a call of
/// `UnboundedSender::send` makes one.
pub struct TapAttempt {
    outcome: Result<(), QueueError>,
    tx: Ghost<UnboundedSender<Frame>>,
    frame: Ghost<Frame>,
}

impl TapAttempt {
    /// The queue to which the frame was handed.
    pub closed spec fn queue(self) -> UnboundedSender<Frame> {
        self.tx@
    }

    /// The frame that was handed over.
    pub closed spec fn frame(self) -> Frame {
        self.frame@
    }

    /// What came of it.
    pub closed spec fn result(self) -> Result<(), QueueError> {
        self.outcome
    }

    /// What came of it.
    pub fn outcome(&self) -> (r: &Result<(), QueueError>)
        ensures
            *r == self.result(),
    {
        &self.outcome
    }
}

/// That a frame was handed to a queue.
pub enum Handed {
    /// A frame with these bytes was handed to the queue of a client.
    Client(Sender<Frame>, Seq<u8>),
    /// A frame with these bytes was handed to the queue of the TAP device.
    Tap(Seq<u8>),
}

/// The way out of the relay: the queue of the TAP device, and what was handed to any queue so far.
/// A frame reaches a queue only through an outbox, and every call leaves one entry.
pub struct Outbox {
    tap_tx: UnboundedSender<Frame>,
    handed: Ghost<Seq<Handed>>,
}

impl Outbox {
    /// The queue of the TAP device.
    pub closed spec fn tap(self) -> UnboundedSender<Frame> {
        self.tap_tx
    }

    /// What was handed over so far, in order.
    pub closed spec fn handed(self) -> Seq<Handed> {
        self.handed@
    }

    /// An outbox through which nothing went.
    pub fn new(tap_tx: UnboundedSender<Frame>) -> (r: Outbox)
        ensures
            r.tap() == tap_tx,
            r.handed() == Seq::<Handed>::empty(),
    {
        Outbox { tap_tx, handed: Ghost(Seq::empty()) }
    }

    /// `Sender::try_send` is handed the frame once. It queues it without waiting, or hands that
    /// same frame back. Whether there is room, and whether anybody still reads the queue, is not
    /// stated: both change behind the sender's back.
    #[verifier::external_body]
    pub(crate) fn try_send(&mut self, tx: &Sender<Frame>, frame: Frame) -> (r: Attempt)
        ensures
            final(self).handed() == old(self).handed().push(
                Handed::Client(*tx, frame_bytes(frame)),
            ),
            final(self).tap() == old(self).tap(),
            r.queue() == *tx,
            r.frame() == frame,
            r.result() matches Err(error) ==> error.frame() == frame,
    {
        let ghost sent = frame;
        let outcome = match tx.try_send(frame) {
            Ok(()) => Ok(()),
            Err(TrySendError::Full(frame)) => Err(QueueError::Full(frame)),
            Err(TrySendError::Closed(frame)) => Err(QueueError::Closed(frame)),
        };
        proof {
            self.handed@ = self.handed@.push(Handed::Client(*tx, frame_bytes(sent)));
        }
        Attempt { outcome, tx: Ghost(*tx), frame: Ghost(sent) }
    }

    /// `UnboundedSender::send` of the queue of the TAP device is handed the frame once. It queues
    /// it, or hands that same frame back where nobody reads the queue any more. Whether somebody
    /// does is not stated: it changes behind the sender's back.
    #[verifier::external_body]
    pub(crate) fn send(&mut self, frame: Frame) -> (r: TapAttempt)
        ensures
            final(self).handed() == old(self).handed().push(Handed::Tap(frame_bytes(frame))),
            final(self).tap() == old(self).tap(),
            r.queue() == old(self).tap(),
            r.frame() == frame,
            r.result() matches Err(error) ==> error == QueueError::Closed(frame),
    {
        let ghost sent = frame;
        let outcome = match self.tap_tx.send(frame) {
            Ok(()) => Ok(()),
            Err(error) => Err(QueueError::Closed(error.0)),
        };
        proof {
            self.handed@ = self.handed@.push(Handed::Tap(frame_bytes(sent)));
        }
        TapAttempt { outcome, tx: Ghost(self.tap_tx), frame: Ghost(sent) }
    }
}

/// That a queue was found to hold no frame. Only a call of `Receiver::try_recv` makes one.
#[derive(Debug)]
pub struct FoundEmpty {
    seen: (),
}

/// The reading end of a client's queue, and the frames that were taken out of it without waiting.
pub struct Inbox {
    rx: Receiver<Frame>,
    taken: Ghost<Seq<Frame>>,
}

impl Inbox {
    /// The reading end of the queue.
    pub closed spec fn queue(self) -> Receiver<Frame> {
        self.rx
    }

    /// The frames that were taken so far, in order.
    pub closed spec fn taken(self) -> Seq<Frame> {
        self.taken@
    }

    /// An inbox out of which nothing was taken.
    pub fn new(rx: Receiver<Frame>) -> (r: Inbox)
        ensures
            r.queue() == rx,
            r.taken() == Seq::<Frame>::empty(),
    {
        Inbox { rx, taken: Ghost(Seq::empty()) }
    }

    /// The reading end of the queue, for a task that waits for the next frame.
    pub fn receiver(&mut self) -> (r: &mut Receiver<Frame>)
        ensures
            *r == old(self).queue(),
            final(self).queue() == *final(r),
            final(self).taken() == old(self).taken(),
    {
        &mut self.rx
    }

    /// `Receiver::try_recv` takes one frame out of the queue without waiting, and hands it out, or
    /// takes none. Which frame that is, or that there is none, is not stated: other tasks fill the
    /// queue.
    #[verifier::external_body]
    pub(crate) fn receive(&mut self) -> (r: Result<Frame, FoundEmpty>)
        ensures
            r matches Ok(frame) ==> final(self).taken() == old(self).taken().push(frame),
            r is Err ==> final(self).taken() == old(self).taken(),
    {
        match self.rx.try_recv() {
            Ok(frame) => {
                proof {
                    self.taken@ = self.taken@.push(frame);
                }
                Ok(frame)
            },
            Err(_) => Err(FoundEmpty { seen: () }),
        }
    }
}

} // verus!

//! The signal that asks a stream worker to stop.
//!
//! Each session owns one bounded channel of unit messages. The sending half,
//! a [`CancelHandle`], stays with the registry; the receiving half, a
//! [`CancelWatch`], goes to the worker, which waits on it beside its
//! connection.

use tokio::sync::mpsc::error::TrySendError;
use tokio::sync::mpsc::{Receiver, Sender};
use vstd::prelude::*;

verus! {

/// The sending half of a bounded `tokio::sync::mpsc` channel, carried as an
/// opaque value.
#[verifier::external_type_specification]
#[verifier::external_body]
#[verifier::reject_recursive_types(T)]
pub struct ExSender<T>(Sender<T>);

/// The receiving half of a bounded `tokio::sync::mpsc` channel, carried as an
/// opaque value.
#[verifier::external_type_specification]
#[verifier::external_body]
#[verifier::reject_recursive_types(T)]
pub struct ExReceiver<T>(Receiver<T>);

/// How many stop requests a session's channel can hold unread.
pub const CANCEL_BUFFER: usize = 8;

/// What became of a stop request.
#[derive(Clone, Copy, Debug, PartialEq, Eq, Structural)]
pub enum SignalOutcome {
    /// The request is in the channel, for the worker to read.
    Delivered,
    /// The channel is full of earlier requests that the worker has not read.
    Pending,
    /// The worker has already gone and dropped its end.
    WorkerGone,
}

/// The handle by which a session's worker is asked to stop.
pub struct CancelHandle {
    sender: Sender<()>,
}

/// The worker's end of the signal: the place where a stop request arrives.
pub struct CancelWatch {
    receiver: Receiver<()>,
}

/// The buffer size that the channel of `sender` was made with: what
/// `Sender::max_capacity` returns for it, at any time.
pub uninterp spec fn sender_max_capacity(sender: Sender<()>) -> usize;

/// The buffer size that the channel of `receiver` was made with: what
/// `Receiver::max_capacity` returns for it, at any time.
pub uninterp spec fn receiver_max_capacity(receiver: Receiver<()>) -> usize;

/// Calls `tokio::sync::mpsc::channel::<()>` with `capacity` as its buffer
/// size. That function panics on a capacity of zero or above a limit of its
/// semaphore, `usize::MAX >> 3`, which is `usize::MAX / 8`; both are left
/// out here. The channel keeps the buffer size that it was made with, and
/// both halves report it as their maximum capacity. Nothing else is claimed
/// of the two halves that come back.
#[verifier::external_body]
fn unit_channel(capacity: usize) -> (halves: (Sender<()>, Receiver<()>))
    requires
        0 < capacity <= usize::MAX / 8,
    ensures
        sender_max_capacity(halves.0) == capacity,
        receiver_max_capacity(halves.1) == capacity,
{
    tokio::sync::mpsc::channel::<()>(capacity)
}

/// Calls `Sender::max_capacity`, which returns the buffer size that the
/// channel was made with and never changes.
#[verifier::external_body]
fn sender_limit(sender: &Sender<()>) -> (limit: usize)
    ensures
        limit == sender_max_capacity(*sender),
{
    sender.max_capacity()
}

/// Calls `Receiver::max_capacity`, which returns the buffer size that the
/// channel was made with and never changes.
#[verifier::external_body]
fn receiver_limit(receiver: &Receiver<()>) -> (limit: usize)
    ensures
        limit == receiver_max_capacity(*receiver),
{
    receiver.max_capacity()
}

/// Calls `Sender::try_send` with the unit message and tells its three
/// outcomes apart. Which of them comes back depends on what the receiving
/// side has done so far, so nothing is claimed of it.
#[verifier::external_body]
fn try_send_unit(sender: &Sender<()>) -> (outcome: SignalOutcome) {
    match sender.try_send(()) {
        Ok(()) => SignalOutcome::Delivered,
        Err(TrySendError::Full(())) => SignalOutcome::Pending,
        Err(TrySendError::Closed(())) => SignalOutcome::WorkerGone,
    }
}

/// A fresh signal: the handle for the registry and the watch for the worker,
/// the two ends of a new channel with room for [`CANCEL_BUFFER`] unread stop
/// requests.
pub fn cancel_pair() -> (pair: (CancelHandle, CancelWatch))
    ensures
        pair.0.spec_buffer() == CANCEL_BUFFER,
        pair.1.spec_buffer() == CANCEL_BUFFER,
{
    let (sender, receiver) = unit_channel(CANCEL_BUFFER);
    (CancelHandle { sender }, CancelWatch { receiver })
}

impl CancelHandle {
    /// The sending half that this handle holds.
    pub closed spec fn spec_sender(&self) -> Sender<()> {
        self.sender
    }

    /// How many unread stop requests the handle's channel has room for.
    pub open spec fn spec_buffer(&self) -> usize {
        sender_max_capacity(self.spec_sender())
    }

    /// How many unread stop requests the handle's channel has room for.
    pub fn buffer(&self) -> (room: usize)
        ensures
            room == self.spec_buffer(),
    {
        sender_limit(&self.sender)
    }

    /// Asks the worker to stop, without waiting for it. A request that cannot
    /// be delivered is dropped: the outcome says so, and it is no error.
    pub fn signal(&self) -> (outcome: SignalOutcome) {
        try_send_unit(&self.sender)
    }
}

impl CancelWatch {
    /// The receiving half that this watch holds.
    pub closed spec fn spec_receiver(&self) -> Receiver<()> {
        self.receiver
    }

    /// How many unread stop requests the watch's channel has room for.
    pub open spec fn spec_buffer(&self) -> usize {
        receiver_max_capacity(self.spec_receiver())
    }

    /// How many unread stop requests the watch's channel has room for.
    pub fn buffer(&self) -> (room: usize)
        ensures
            room == self.spec_buffer(),
    {
        receiver_limit(&self.receiver)
    }

    /// Gives up the channel's receiving half, for the worker to wait on: the
    /// very half that the watch held, with the room it was made with.
    pub fn into_receiver(self) -> (receiver: Receiver<()>)
        ensures
            receiver == self.spec_receiver(),
            receiver_max_capacity(receiver) == self.spec_buffer(),
    {
        self.receiver
    }
}

} // verus!

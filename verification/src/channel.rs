//! Bounded mpsc channels from the `futures` crate, declared for the verifier.
//!
//! The reactor's inboxes and the per-session command channels are
//! `futures::channel::mpsc` channels.  Whether a given `try_send` is accepted
//! depends on the channel's runtime fill, so nothing is promised of the
//! outcomes here; the reactor's contracts hold whatever these calls return.

use vstd::prelude::*;

verus! {

/// Capacity of every channel of the service: the two reactor inboxes and the
/// per-session command channels.
pub const CHANNEL_BUFFER: usize = 256;

#[verifier::external_type_specification]
#[verifier::external_body]
#[verifier::reject_recursive_types(T)]
/// `futures::channel::mpsc::Sender`, the transmission end of a bounded
/// channel, opaque to the verifier.
pub struct ExSender<T>(futures::channel::mpsc::Sender<T>);

#[verifier::external_type_specification]
#[verifier::external_body]
#[verifier::reject_recursive_types(T)]
/// `futures::channel::mpsc::Receiver`, the receiving end of a bounded
/// channel, opaque to the verifier.
pub struct ExReceiver<T>(futures::channel::mpsc::Receiver<T>);

/// Outcome of one non-blocking poll of a channel receiver.
pub enum Polled<T> {
    /// A message was waiting.
    Item(T),
    /// No message is waiting, but senders are still alive.
    Empty,
    /// Every sender is gone and the queue is drained.
    Closed,
}

/// Relies on `futures::channel::mpsc::channel`: creates a bounded channel of
/// the given buffer size (it panics only on absurd sizes, far above any this
/// crate requests).
#[verifier::external_body]
pub(crate) fn mpsc_channel<T>(buffer: usize) -> (
    futures::channel::mpsc::Sender<T>,
    futures::channel::mpsc::Receiver<T>,
)
    requires
        buffer <= 0xFFFF,
{
    futures::channel::mpsc::channel(buffer)
}

/// Relies on `Sender::try_send`: queues the message and returns `Ok` when the
/// channel has a free slot, and returns the message in `Err` when the channel
/// is full or disconnected.  Which of the two happens depends on runtime
/// state, so the result is unconstrained.
#[verifier::external_body]
pub(crate) fn sender_try_send<T>(s: &mut futures::channel::mpsc::Sender<T>, msg: T) -> bool {
    s.try_send(msg).is_ok()
}

/// Relies on `Receiver::try_recv`: returns a queued message, or reports the
/// channel empty, or reports it closed (all senders dropped and the queue
/// drained).  What comes back depends on what other tasks sent, so the result
/// is unconstrained.
#[verifier::external_body]
pub(crate) fn receiver_try_recv<T>(r: &mut futures::channel::mpsc::Receiver<T>) -> Polled<T> {
    match r.try_recv() {
        Ok(msg) => Polled::Item(msg),
        Err(e) => match e {
            futures::channel::mpsc::TryRecvError::Empty => Polled::Empty,
            futures::channel::mpsc::TryRecvError::Closed => Polled::Closed,
        },
    }
}

/// Relies on `<Sender as Clone>::clone`: yields another transmission end of
/// the same channel.
#[verifier::external_body]
pub(crate) fn sender_clone<T>(
    s: &futures::channel::mpsc::Sender<T>,
) -> futures::channel::mpsc::Sender<T> {
    s.clone()
}

} // verus!

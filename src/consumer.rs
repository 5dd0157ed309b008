use std::sync::mpsc::{Receiver, TryRecvError};
use vstd::prelude::*;

verus! {

#[verifier::external_type_specification]
#[verifier::external_body]
#[verifier::reject_recursive_types(T)]
pub struct ExReceiver<T>(Receiver<T>);

/// What the consumer finds on its stop channel.
#[derive(Clone, Copy, Debug, PartialEq, Eq, Structural)]
pub enum StopSignal {
    /// A stop request was sent.
    Received,
    /// Nothing was sent yet.
    Empty,
    /// The sending side is gone.
    Disconnected,
}

/// Relies on std's `Receiver::try_recv`, which does not block: a message, an
/// empty channel, or a channel whose senders are gone. Which one depends on the
/// other threads, so nothing is stated.
#[verifier::external_body]
fn poll_stop_channel(rx: &Receiver<()>) -> (r: StopSignal) {
    match rx.try_recv() {
        Ok(()) => StopSignal::Received,
        Err(TryRecvError::Empty) => StopSignal::Empty,
        Err(TryRecvError::Disconnected) => StopSignal::Disconnected,
    }
}

/// Whether the consumer stops on this signal: on a stop request, and when no one
/// is left to send one.
pub fn should_stop(s: StopSignal) -> (r: bool)
    ensures
        r == (s != StopSignal::Empty),
{
    match s {
        StopSignal::Empty => false,
        _ => true,
    }
}

/// Looks at the stop channel without blocking and tells whether the consumer
/// has to stop.
pub fn stop_consumer(rx: &Receiver<()>) -> bool {
    should_stop(poll_stop_channel(rx))
}

} // verus!

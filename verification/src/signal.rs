use vstd::prelude::*;

use std::sync::mpsc::Receiver;
use std::sync::mpsc::Sender;
use std::sync::mpsc::TryRecvError;

verus! {

#[verifier::external_type_specification]
#[verifier::external_body]
#[verifier::reject_recursive_types(T)]
pub struct ExSender<T>(Sender<T>);

#[verifier::external_type_specification]
#[verifier::external_body]
#[verifier::reject_recursive_types(T)]
pub struct ExReceiver<T>(Receiver<T>);

/// Outcome of one non-blocking poll of a cancellation channel.
#[derive(Debug, Clone, Copy, PartialEq, Eq, Structural)]
pub enum SignalPoll {
    /// A cancellation signal was waiting.
    Received,
    /// No signal yet; every sender is still alive.
    Pending,
    /// Every sender has been dropped without sending.
    Disconnected,
}

/// Relies on std::sync::mpsc::channel: yields a connected sender/receiver
/// pair for the cancellation signal of one reader.
#[verifier::external_body]
pub(crate) fn signal_channel() -> (Sender<usize>, Receiver<usize>) {
    std::sync::mpsc::channel()
}

/// Relies on std::sync::mpsc::Sender::send: returns whether delivery
/// succeeded; std documents failure exactly when the receiver was dropped.
/// Whether that holds depends on the run, so nothing is promised of it.
#[verifier::external_body]
pub(crate) fn send_signal(sender: &Sender<usize>, value: usize) -> bool {
    sender.send(value).is_ok()
}

/// Relies on std::sync::mpsc::Receiver::try_recv: never blocks, and tells a
/// waiting message apart from an empty and from a disconnected channel.
/// Which of the three comes back depends on the run, so nothing is promised.
#[verifier::external_body]
pub(crate) fn poll_signal(receiver: &Receiver<usize>) -> SignalPoll {
    match receiver.try_recv() {
        Ok(_) => SignalPoll::Received,
        Err(TryRecvError::Empty) => SignalPoll::Pending,
        Err(TryRecvError::Disconnected) => SignalPoll::Disconnected,
    }
}

} // verus!

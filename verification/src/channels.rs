//! The ends of channels and the handles of tasks, as they come from other crates.
//!
//! They are used through the types in [`crate::ends`].

use vstd::prelude::*;

verus! {

/// The sending end of a crossbeam channel.
#[verifier::external_type_specification]
#[verifier::external_body]
#[verifier::reject_recursive_types(T)]
pub struct ExSender<T>(crossbeam::channel::Sender<T>);

/// The receiving end of a crossbeam channel.
#[verifier::external_type_specification]
#[verifier::external_body]
#[verifier::reject_recursive_types(T)]
pub struct ExReceiver<T>(crossbeam::channel::Receiver<T>);

/// The sending end of a tokio channel with a limit.
#[verifier::external_type_specification]
#[verifier::external_body]
#[verifier::reject_recursive_types(T)]
pub struct ExTaskSender<T>(tokio::sync::mpsc::Sender<T>);

/// The receiving end of a tokio channel with a limit.
#[verifier::external_type_specification]
#[verifier::external_body]
#[verifier::reject_recursive_types(T)]
pub struct ExTaskReceiver<T>(tokio::sync::mpsc::Receiver<T>);

/// The sending end of a tokio channel without a limit.
#[verifier::external_type_specification]
#[verifier::external_body]
#[verifier::reject_recursive_types(T)]
pub struct ExTaskUnboundedSender<T>(tokio::sync::mpsc::UnboundedSender<T>);

/// A running tokio task.
#[verifier::external_type_specification]
#[verifier::external_body]
#[verifier::reject_recursive_types(T)]
pub struct ExJoinHandle<T>(tokio::task::JoinHandle<T>);

/// Why a tokio task gave no result.
#[verifier::external_type_specification]
#[verifier::external_body]
pub struct ExJoinError(tokio::task::JoinError);

/// What ends a tokio task.
#[verifier::external_type_specification]
#[verifier::external_body]
pub struct ExAbortHandle(tokio::task::AbortHandle);

/// The sending end of an async channel.
#[verifier::external_type_specification]
#[verifier::external_body]
#[verifier::reject_recursive_types(T)]
pub struct ExAsyncSender<T>(async_channel::Sender<T>);

/// The receiving end of an async channel.
#[verifier::external_type_specification]
#[verifier::external_body]
#[verifier::reject_recursive_types(T)]
pub struct ExAsyncReceiver<T>(async_channel::Receiver<T>);

/// What became of a message that was put into a channel.
#[derive(Debug, Clone, Copy, PartialEq, Eq, Structural)]
pub enum PutOutcome {
    /// The channel took it.
    Taken,
    /// The channel is full.
    Full,
    /// Nobody is left to receive it.
    Gone,
}

/// Calls `crossbeam::channel::Sender::try_send`, which puts the message into the channel unless the
/// channel is full or every receiving end is gone. Nothing is said of which happens: it is decided by
/// whoever holds the other ends.
#[verifier::external_body]
pub(crate) fn crossbeam_try_send<T>(sender: &crossbeam::channel::Sender<T>, message: T) -> PutOutcome {
    match sender.try_send(message) {
        Ok(_) => PutOutcome::Taken,
        Err(crossbeam::channel::TrySendError::Full(_)) => PutOutcome::Full,
        Err(crossbeam::channel::TrySendError::Disconnected(_)) => PutOutcome::Gone,
    }
}

/// Calls `crossbeam::channel::Receiver::try_recv`, which takes the oldest message of the channel, if
/// there is one. Nothing is said of which message it is: it was put there through another end.
#[verifier::external_body]
pub(crate) fn crossbeam_try_recv<T>(receiver: &crossbeam::channel::Receiver<T>) -> Option<T> {
    receiver.try_recv().ok()
}

/// Calls `tokio::sync::mpsc::Sender::try_send`, which puts the message into the channel unless the
/// channel is full or its receiver is gone. Nothing is said of which happens: the receiver is held by
/// another task.
#[verifier::external_body]
pub(crate) fn tokio_try_send<T>(sender: &tokio::sync::mpsc::Sender<T>, message: T) -> PutOutcome {
    match sender.try_send(message) {
        Ok(_) => PutOutcome::Taken,
        Err(tokio::sync::mpsc::error::TrySendError::Full(_)) => PutOutcome::Full,
        Err(tokio::sync::mpsc::error::TrySendError::Closed(_)) => PutOutcome::Gone,
    }
}

/// Calls `tokio::sync::mpsc::Receiver::try_recv`, which takes the oldest message of the channel, if
/// there is one. The receiver holds no more than a handle of the channel, which stays the same.
/// Nothing is said of which message it is: it was put there by another task.
#[verifier::external_body]
pub(crate) fn tokio_try_recv<T>(receiver: &mut tokio::sync::mpsc::Receiver<T>) -> (r: Option<T>)
    ensures
        *final(receiver) == *old(receiver),
{
    receiver.try_recv().ok()
}

/// Calls `tokio::sync::mpsc::UnboundedSender::send`, which puts a signal into the channel unless its
/// receiver is gone. Nothing is said of which happens: the receiver is held by another task.
#[verifier::external_body]
pub(crate) fn tokio_signal(sender: &tokio::sync::mpsc::UnboundedSender<()>) -> PutOutcome {
    match sender.send(()) {
        Ok(_) => PutOutcome::Taken,
        Err(_) => PutOutcome::Gone,
    }
}

/// Calls `async_channel::Sender::try_send`, which puts the message into the channel unless the channel
/// is full or closed. Nothing is said of which happens: the receiver is held by another task.
#[verifier::external_body]
pub(crate) fn async_try_send<T>(sender: &async_channel::Sender<T>, message: T) -> PutOutcome {
    match sender.try_send(message) {
        Ok(_) => PutOutcome::Taken,
        Err(async_channel::TrySendError::Full(_)) => PutOutcome::Full,
        Err(async_channel::TrySendError::Closed(_)) => PutOutcome::Gone,
    }
}

/// Calls `async_channel::Receiver::try_recv`, which takes the oldest message of the channel, if there
/// is one. Nothing is said of which message it is: it was put there by another task.
#[verifier::external_body]
pub(crate) fn async_try_recv<T>(receiver: &async_channel::Receiver<T>) -> Option<T> {
    receiver.try_recv().ok()
}

/// Calls `tokio::task::JoinHandle::is_finished`, which tells whether the task is over. Nothing is said
/// of the answer: it depends on how far the task has come.
#[verifier::external_body]
pub(crate) fn task_is_finished(task: &tokio::task::JoinHandle<()>) -> bool {
    task.is_finished()
}

/// Calls `tokio::task::AbortHandle::abort`, which tells the task to stop. Nothing is said of when it
/// does: it stops when it next waits.
#[verifier::external_body]
pub(crate) fn abort_task(task: &tokio::task::AbortHandle) {
    task.abort();
}

} // verus!

//! Two-way channels between the server's threads.

use vstd::prelude::*;
use crate::server::error::ChannelError;
use vstd::std_specs::cmp::PartialEqSpec;

verus! {

/// Declares the sending end of a standard channel.
#[verifier::external_type_specification]
#[verifier::external_body]
#[verifier::reject_recursive_types(T)]
pub struct ExSender<T>(std::sync::mpsc::Sender<T>);

/// Declares the receiving end of a standard channel.
#[verifier::external_type_specification]
#[verifier::external_body]
#[verifier::reject_recursive_types(T)]
pub struct ExReceiver<T>(std::sync::mpsc::Receiver<T>);

/// Declares the blocking iterator over a receiving end.
#[verifier::external_type_specification]
#[verifier::external_body]
#[verifier::reject_recursive_types(T)]
pub struct ExIter<'a, T: 'a>(std::sync::mpsc::Iter<'a, T>);

/// Declares the non-blocking iterator over a receiving end.
#[verifier::external_type_specification]
#[verifier::external_body]
#[verifier::reject_recursive_types(T)]
pub struct ExTryIter<'a, T: 'a>(std::sync::mpsc::TryIter<'a, T>);

/// A new standard channel (`std::sync::mpsc::channel`): the sender feeds the
/// receiver. Nothing is claimed of it: both ends are opaque.
#[verifier::external_body]
fn channel_ends<T>() -> (std::sync::mpsc::Sender<T>, std::sync::mpsc::Receiver<T>) {
    std::sync::mpsc::channel::<T>()
}

/// Sends `t` (`Sender::send`). It fails when the receiving end is gone, which
/// depends on another thread: nothing is claimed of the result.
#[verifier::external_body]
fn send_on<T>(sender: &std::sync::mpsc::Sender<T>, t: T) -> Result<(), std::sync::mpsc::SendError<T>> {
    sender.send(t)
}

/// Waits for a value (`Receiver::recv`). What arrives, and whether the sending
/// end is still there, depends on another thread: nothing is claimed.
#[verifier::external_body]
fn recv_on<T>(receiver: &std::sync::mpsc::Receiver<T>) -> Result<T, std::sync::mpsc::RecvError> {
    receiver.recv()
}

/// Takes a waiting value, if any (`Receiver::try_recv`). It depends on another
/// thread: nothing is claimed of the result.
#[verifier::external_body]
fn try_recv_on<T>(receiver: &std::sync::mpsc::Receiver<T>) -> Result<T, std::sync::mpsc::TryRecvError> {
    receiver.try_recv()
}

/// Waits at most `timeout` for a value (`Receiver::recv_timeout`). It depends
/// on another thread and on time: nothing is claimed of the result.
#[verifier::external_body]
fn recv_timeout_on<T>(receiver: &std::sync::mpsc::Receiver<T>, timeout: core::time::Duration) -> Result<
    T,
    std::sync::mpsc::RecvTimeoutError,
> {
    receiver.recv_timeout(timeout)
}

/// The blocking iterator over a receiving end (`Receiver::iter`).
#[verifier::external_body]
fn iter_on<'a, T>(receiver: &'a std::sync::mpsc::Receiver<T>) -> std::sync::mpsc::Iter<'a, T> {
    receiver.iter()
}

/// The non-blocking iterator over a receiving end (`Receiver::try_iter`).
#[verifier::external_body]
fn try_iter_on<'a, T>(receiver: &'a std::sync::mpsc::Receiver<T>) -> std::sync::mpsc::TryIter<'a, T> {
    receiver.try_iter()
}

/// What a wait for one awaited value does with one outcome of receiving.
#[verifier::reject_recursive_types(T)]
pub enum WaitStep<T> {
    /// The awaited value arrived: the wait is over.
    Arrived,
    /// Another value came, or none in time: the wait goes on.
    KeepWaiting,
    /// Receiving failed otherwise: the wait ends with this error.
    Failed(ChannelError<T>),
}

/// One step of waiting for `waited`: the value that came ends the wait if
/// it equals `waited` and is dropped otherwise; a receive that timed out
/// lets the wait go on; any other failure ends it.
pub fn wait_step<T: PartialEq>(outcome: Result<T, ChannelError<T>>, waited: &T) -> (r: WaitStep<T>)
    ensures
        outcome matches Ok(v) ==> {
            &&& r is Arrived || r is KeepWaiting
            &&& T::obeys_eq_spec() ==> (r is Arrived <==> v.eq_spec(waited))
        },
        outcome matches Err(e) ==> {
            &&& e is RecvTimeout ==> r is KeepWaiting
            &&& !(e is RecvTimeout) ==> r == WaitStep::Failed(e)
        },
{
    match outcome {
        Ok(message) => {
            if message == *waited {
                WaitStep::Arrived
            } else {
                WaitStep::KeepWaiting
            }
        },
        Err(ChannelError::RecvTimeout(_)) => WaitStep::KeepWaiting,
        Err(e) => WaitStep::Failed(e),
    }
}

/// One end of a two-way channel: it sends to the other end and receives what
/// the other end sends.
#[verifier::reject_recursive_types(T)]
pub struct Channel<T> {
    sender: std::sync::mpsc::Sender<T>,
    receiver: std::sync::mpsc::Receiver<T>,
}

impl<T> Channel<T> {
    /// Two ends of a two-way channel: what one sends, the other receives.
    pub fn new_pair() -> (Channel<T>, Channel<T>) {
        let (sender1, receiver1) = channel_ends::<T>();
        let (sender2, receiver2) = channel_ends::<T>();
        let com1 = Channel { sender: sender1, receiver: receiver2 };
        let com2 = Channel { sender: sender2, receiver: receiver1 };
        (com1, com2)
    }

    /// Sends `t` to the other end; fails, giving `t` back, if it is gone.
    pub fn send(&self, t: T) -> (r: Result<(), ChannelError<T>>)
        ensures
            r matches Err(e) ==> e is Send,
    {
        match send_on(&self.sender, t) {
            Ok(()) => Ok(()),
            Err(e) => Err(ChannelError::Send(e)),
        }
    }

    /// The values sent by the other end, waiting for each.
    pub fn iter(&self) -> std::sync::mpsc::Iter<'_, T> {
        iter_on(&self.receiver)
    }

    /// The values sent by the other end that are already waiting.
    pub fn try_iter(&self) -> std::sync::mpsc::TryIter<'_, T> {
        try_iter_on(&self.receiver)
    }

    /// Waits for a value from the other end; fails if it is gone.
    pub fn recv(&self) -> (r: Result<T, ChannelError<T>>)
        ensures
            r matches Err(e) ==> e is Recv,
    {
        match recv_on(&self.receiver) {
            Ok(t) => Ok(t),
            Err(e) => Err(ChannelError::Recv(e)),
        }
    }

    /// Takes a value already sent by the other end; fails if none is
    /// waiting or the other end is gone.
    pub fn try_recv(&self) -> (r: Result<T, ChannelError<T>>)
        ensures
            r matches Err(e) ==> e is TryRecv,
    {
        match try_recv_on(&self.receiver) {
            Ok(t) => Ok(t),
            Err(e) => Err(ChannelError::TryRecv(e)),
        }
    }

    /// Waits at most `timeout` for a value from the other end.
    pub fn recv_timeout(&self, timeout: core::time::Duration) -> (r: Result<T, ChannelError<T>>)
        ensures
            r matches Err(e) ==> e is RecvTimeout,
    {
        match recv_timeout_on(&self.receiver, timeout) {
            Ok(t) => Ok(t),
            Err(e) => Err(ChannelError::RecvTimeout(e)),
        }
    }
}

} // verus!

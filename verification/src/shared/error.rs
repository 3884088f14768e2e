//! Errors of the channels between the server's threads.

use vstd::prelude::*;

verus! {

/// Declares the error of a send on a closed channel; it gives the value back.
#[verifier::external_type_specification]
#[verifier::external_body]
#[verifier::reject_recursive_types(T)]
pub struct ExSendError<T>(std::sync::mpsc::SendError<T>);

/// Declares the error of a non-blocking send.
#[verifier::external_type_specification]
#[verifier::external_body]
#[verifier::reject_recursive_types(T)]
pub struct ExTrySendError<T>(std::sync::mpsc::TrySendError<T>);

/// Declares the error of a receive on a closed channel.
#[verifier::external_type_specification]
#[verifier::external_body]
pub struct ExRecvError(std::sync::mpsc::RecvError);

/// Declares the error of a non-blocking receive.
#[verifier::external_type_specification]
#[verifier::external_body]
pub struct ExTryRecvError(std::sync::mpsc::TryRecvError);

/// Declares the error of a receive with a time limit.
#[verifier::external_type_specification]
#[verifier::external_body]
pub struct ExRecvTimeoutError(std::sync::mpsc::RecvTimeoutError);

/// Why an operation on a channel failed.
#[derive(Debug)]
#[verifier::reject_recursive_types(T)]
pub enum ChannelError<T> {
    Send(std::sync::mpsc::SendError<T>),
    TrySend(std::sync::mpsc::TrySendError<T>),
    Recv(std::sync::mpsc::RecvError),
    TryRecv(std::sync::mpsc::TryRecvError),
    RecvTimeout(std::sync::mpsc::RecvTimeoutError),
    Other(&'static str),
}

/// Any error of the threads' communication.
#[derive(Debug)]
#[verifier::reject_recursive_types(T)]
pub enum Error<T> {
    Channel(ChannelError<T>),
}

} // verus!

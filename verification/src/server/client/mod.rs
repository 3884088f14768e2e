//! A client's session on the server: the messages between a client's thread
//! and the main thread, and what the client's thread does on each event.

pub mod filesystem;
pub mod handler;

use vstd::prelude::*;
use crate::server::client::filesystem::FileSystem;
use crate::server::error::{
    AccountLoginError, AccountLogoutError, login_error_text, logout_error_text,
};
use crate::shared::networking::{ClientMessage, ReadFailure, ServerMessage};

verus! {

/// What a client's thread and the main thread tell each other: requests go
/// to the main thread, which owns the accounts, and responses come back.
#[derive(Debug)]
pub enum Message {
    LoginRequest { username: String, password: String },
    LoginResponse(Result<u128, AccountLoginError>),
    LogoutRequest { id: u128 },
    LogoutResponse(Result<(), AccountLogoutError>),
}

/// The session of a logged-in account: its id and where it is in its files.
#[derive(Debug)]
pub struct AccountState {
    pub id: u128,
    pub fs: FileSystem,
}

impl AccountState {
    /// The session of the account `user_id`, at its root directory, not
    /// scanned yet.
    pub fn new(user_id: u128) -> (r: AccountState)
        ensures
            r.id == user_id,
            r.fs@.current.id == crate::shared::id::hyphenated_spec(user_id),
            r.fs@.current.bits.len() == 0,
    {
        AccountState { id: user_id, fs: FileSystem::new(user_id) }
    }
}

/// What a client's thread does next.
#[derive(Debug)]
pub enum Action {
    /// Nothing to do.
    Nothing,
    /// Log the text the client sent.
    Show(String),
    /// Pass a request to the main thread.
    Forward(Message),
    /// Open the session of the account `id`: scan its root directory, send
    /// `reply`, then send the scan.
    OpenSession { id: u128, reply: ServerMessage },
    /// Send `reply` to the client.
    Reply(ServerMessage),
    /// Close the session if `clear`, send `reply`, and stop serving the
    /// client.
    CloseSession { clear: bool, reply: ServerMessage },
    /// Walk the session's files along these `/`-separated steps, then send
    /// the new scan.
    ChangeDirectory(String),
    /// Stop serving the client.
    Stop,
}

/// The login answer sent to the client, with a refusal given as its text.
pub fn login_reply(result: Result<u128, AccountLoginError>) -> (r: ServerMessage)
    ensures
        r matches ServerMessage::LoginResponse(res) && match result {
            Ok(id) => res == Ok::<u128, String>(id),
            Err(e) => res matches Err(text) && text@ == login_error_text(e),
        },
{
    match result {
        Ok(id) => ServerMessage::LoginResponse(Ok(id)),
        Err(e) => ServerMessage::LoginResponse(Err(e.message())),
    }
}

/// The logout answer sent to the client, with a refusal given as its text.
pub fn logout_reply(result: Result<(), AccountLogoutError>) -> (r: ServerMessage)
    ensures
        r matches ServerMessage::LogoutResponse(res) && match result {
            Ok(()) => res is Ok,
            Err(e) => res matches Err(text) && text@ == logout_error_text(e),
        },
{
    match result {
        Ok(()) => ServerMessage::LogoutResponse(Ok(())),
        Err(e) => ServerMessage::LogoutResponse(Err(e.message())),
    }
}

/// What a client's thread does with a message from the main thread: a
/// granted login opens the session; a refused login is reported; a logout
/// answer is reported, closes the session if granted, and ends the thread.
/// Only answers come this way: requests go the other way.
pub fn on_main_thread_message(msg: Message) -> (r: Action)
    requires
        msg is LoginResponse || msg is LogoutResponse,
    ensures
        msg matches Message::LoginResponse(Ok(id)) ==> (r matches Action::OpenSession {
            id: i,
            reply: ServerMessage::LoginResponse(Ok(j)),
        } && i == id && j == id),
        msg matches Message::LoginResponse(Err(e)) ==> (r matches Action::Reply(
            ServerMessage::LoginResponse(Err(text)),
        ) && text@ == login_error_text(e)),
        msg matches Message::LogoutResponse(res) ==> (r matches Action::CloseSession {
            clear,
            reply: ServerMessage::LogoutResponse(sent),
        } && clear == res is Ok && match res {
            Ok(()) => sent is Ok,
            Err(e) => sent matches Err(text) && text@ == logout_error_text(e),
        }),
{
    match msg {
        Message::LoginResponse(result) => {
            match result {
                Ok(id) => Action::OpenSession { id, reply: login_reply(Ok(id)) },
                Err(e) => Action::Reply(login_reply(Err(e))),
            }
        },
        Message::LogoutResponse(result) => {
            let clear = result.is_ok();
            Action::CloseSession { clear, reply: logout_reply(result) }
        },
        Message::LoginRequest { .. } | Message::LogoutRequest { .. } => {
            assert(false);
            Action::Nothing
        },
    }
}

/// What a client's thread does with a message from its client: text is
/// logged; login and logout requests go to the main thread; a change of
/// directory is followed only within an open session.
pub fn on_client_message(msg: ClientMessage, logged_in: bool) -> (r: Action)
    ensures
        msg matches ClientMessage::Text(t) ==> (r matches Action::Show(s) && s@ == t@),
        msg matches ClientMessage::LoginRequest { username, password } ==> (r matches Action::Forward(
            Message::LoginRequest { username: u, password: p },
        ) && u@ == username@ && p@ == password@),
        msg matches ClientMessage::LogoutRequest { id } ==> (r matches Action::Forward(
            Message::LogoutRequest { id: i },
        ) && i == id),
        msg matches ClientMessage::ChangeDirectory(d) ==> (logged_in ==> (r matches Action::ChangeDirectory(
            s,
        ) && s@ == d@)) && (!logged_in ==> r is Nothing),
{
    match msg {
        ClientMessage::Text(txt) => Action::Show(txt),
        ClientMessage::LoginRequest { username, password } => Action::Forward(
            Message::LoginRequest { username, password },
        ),
        ClientMessage::LogoutRequest { id } => Action::Forward(Message::LogoutRequest { id }),
        ClientMessage::ChangeDirectory(new_dir) => {
            if logged_in {
                Action::ChangeDirectory(new_dir)
            } else {
                Action::Nothing
            }
        },
    }
}

/// What a client's thread does when reading from its client fails: it
/// keeps going only when the connection had nothing yet, and stops on any
/// other failure (the client left, too few bytes, a decoding error).
pub fn on_read_failure(failure: ReadFailure) -> (r: Action)
    ensures
        failure == ReadFailure::WouldBlock ==> r is Nothing,
        failure != ReadFailure::WouldBlock ==> r is Stop,
{
    match failure {
        ReadFailure::WouldBlock => Action::Nothing,
        ReadFailure::ConnectionReset | ReadFailure::NotEnoughData | ReadFailure::Other => {
            Action::Stop
        },
    }
}

} // verus!

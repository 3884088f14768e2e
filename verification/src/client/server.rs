//! The client's link to the server: what goes between the user interface,
//! the client's network thread and the server.

use vstd::prelude::*;
use crate::shared::filesystem::FileScan;
use crate::shared::networking::{ClientMessage, ReadFailure, ServerMessage};

verus! {

/// What the user interface and the client's network thread tell each other.
#[derive(Debug)]
pub enum Message {
    LoginRequest { username: String, password: String },
    LoginResponse(Result<u128, String>),
    LogoutRequest { id: u128 },
    LogoutResponse(Result<(), String>),
    FileScanUpdate(FileScan),
    ChangeDirectory(String),
}

/// The logged-in account, as the user interface knows it: its id and the
/// last scan of the directory the user is in, once one has arrived.
#[derive(Debug)]
pub struct AccountState {
    pub id: u128,
    pub fs: Option<FileScan>,
}

/// Where the network thread sends a message.
#[derive(Debug)]
pub enum Route {
    /// To the server.
    ToServer(ClientMessage),
    /// Back to the user interface.
    ToUi(Message),
    /// Nowhere: only logged.
    Show(String),
}

/// Where the network thread sends a message from the user interface:
/// requests go to the server, anything else back to the interface.
pub fn route_ui_message(msg: Message) -> (r: Route)
    ensures
        msg matches Message::LoginRequest { username, password } ==> (r matches Route::ToServer(
            ClientMessage::LoginRequest { username: u, password: p },
        ) && u@ == username@ && p@ == password@),
        msg matches Message::LogoutRequest { id } ==> (r matches Route::ToServer(
            ClientMessage::LogoutRequest { id: i },
        ) && i == id),
        msg matches Message::ChangeDirectory(d) ==> (r matches Route::ToServer(
            ClientMessage::ChangeDirectory(e),
        ) && e@ == d@),
        msg matches Message::LoginResponse(res) ==> (r matches Route::ToUi(
            Message::LoginResponse(s),
        ) && s == res),
        msg matches Message::LogoutResponse(res) ==> (r matches Route::ToUi(
            Message::LogoutResponse(s),
        ) && s == res),
        msg matches Message::FileScanUpdate(scan) ==> (r matches Route::ToUi(
            Message::FileScanUpdate(s),
        ) && s@ == scan@),
{
    match msg {
        Message::LoginRequest { username, password } => Route::ToServer(
            ClientMessage::LoginRequest { username, password },
        ),
        Message::LoginResponse(resp) => Route::ToUi(Message::LoginResponse(resp)),
        Message::LogoutRequest { id } => Route::ToServer(ClientMessage::LogoutRequest { id }),
        Message::LogoutResponse(resp) => Route::ToUi(Message::LogoutResponse(resp)),
        Message::FileScanUpdate(scan) => Route::ToUi(Message::FileScanUpdate(scan)),
        Message::ChangeDirectory(new_dir) => Route::ToServer(ClientMessage::ChangeDirectory(new_dir)),
    }
}

/// Where the network thread sends a message from the server: text is only
/// logged, answers and scans go to the user interface.
pub fn route_server_message(msg: ServerMessage) -> (r: Route)
    ensures
        msg matches ServerMessage::Text(t) ==> (r matches Route::Show(s) && s@ == t@),
        msg matches ServerMessage::LoginResponse(res) ==> (r matches Route::ToUi(
            Message::LoginResponse(s),
        ) && s == res),
        msg matches ServerMessage::LogoutResponse(res) ==> (r matches Route::ToUi(
            Message::LogoutResponse(s),
        ) && s == res),
        msg matches ServerMessage::FileScanUpdate(scan) ==> (r matches Route::ToUi(
            Message::FileScanUpdate(s),
        ) && s@ == scan@),
{
    match msg {
        ServerMessage::Text(t) => Route::Show(t),
        ServerMessage::LoginResponse(resp) => Route::ToUi(Message::LoginResponse(resp)),
        ServerMessage::LogoutResponse(resp) => Route::ToUi(Message::LogoutResponse(resp)),
        ServerMessage::FileScanUpdate(scan) => Route::ToUi(Message::FileScanUpdate(scan)),
    }
}

/// Whether the network thread stays connected after a failed read from the
/// server: a connection that has nothing yet, or that the server reset, is
/// not fatal; anything else (too few bytes, a decoding error, another
/// connection error) takes the link offline.
pub fn stays_connected(failure: ReadFailure) -> (r: bool)
    ensures
        r == (failure == ReadFailure::WouldBlock || failure == ReadFailure::ConnectionReset),
{
    match failure {
        ReadFailure::ConnectionReset => true,
        ReadFailure::WouldBlock => true,
        ReadFailure::NotEnoughData => false,
        ReadFailure::Other => false,
    }
}

} // verus!

//! The datagram client's connection state: which messages it may send, and
//! how the server's answers move it along. The server's key is kept as the
//! PEM text the server sent, and what is sent once connected is encrypted
//! with it.

use vstd::prelude::*;
use crate::shared::{ClientMessage, ServerMessage, description_spec};
use crate::shared::crypto::{encrypt_for, fits, pem_is_public_key, pem_modulus_bytes, pkcs1v15_encrypts};

verus! {

/// Where the client stands with the server.
#[derive(Debug)]
pub enum ClientState {
    Disconnected,
    /// Connected; holds the server's public key (PEM).
    Connected(String),
    /// A connection was asked for; the server's key has not come yet.
    WaitingForServerPublicKey,
}

/// Abstract view of the connection state.
pub enum ClientStateView {
    Disconnected,
    Connected(Seq<char>),
    WaitingForServerPublicKey,
}

impl View for ClientState {
    type V = ClientStateView;

    open spec fn view(&self) -> ClientStateView {
        match self {
            ClientState::Disconnected => ClientStateView::Disconnected,
            ClientState::Connected(k) => ClientStateView::Connected(k@),
            ClientState::WaitingForServerPublicKey => ClientStateView::WaitingForServerPublicKey,
        }
    }
}

/// The state after a message from the server: a waiting client adopts the
/// key of a `Connected` answer; a connected client is dropped by a
/// `Disconnected` message; anything else changes nothing.
pub open spec fn after_server_message(s: ClientStateView, message: ServerMessage) -> ClientStateView {
    match s {
        ClientStateView::Disconnected => s,
        ClientStateView::Connected(_) => if message is Disconnected {
            ClientStateView::Disconnected
        } else {
            s
        },
        ClientStateView::WaitingForServerPublicKey => match message {
            ServerMessage::Connected(key) => ClientStateView::Connected(key@),
            _ => s,
        },
    }
}

/// Whether the client may send `message` in state `s`: a disconnected
/// client may only ask to connect, and a client that is connected or
/// waiting may not ask again.
pub open spec fn may_send(s: ClientStateView, message: ClientMessage) -> bool {
    match s {
        ClientStateView::Disconnected => message is ConnectionRequest,
        _ => !(message is ConnectionRequest),
    }
}

impl ClientState {
    /// Checks that `message` may be sent now; if not, says why.
    pub fn verify_client_message(&self, message: &ClientMessage) -> (r: Result<(), String>)
        ensures
            r is Ok <==> may_send(self@, *message),
            self@ is Disconnected ==> (r is Ok <==> message is ConnectionRequest),
            !(self@ is Disconnected) ==> (r is Ok <==> !(message is ConnectionRequest)),
            self is Disconnected && r is Err ==> r->Err_0@
                == "Client is disconnected and the message is not a connection request: "@
                + description_spec(*message),
            self is Connected && r is Err ==> r->Err_0@ == "Client id connected and we're asking to be connected"@,
            self is WaitingForServerPublicKey && r is Err ==> r->Err_0@
                == "Client is waiting for the server's public key and is re-asking for it"@,
    {
        let is_request = match message {
            ClientMessage::ConnectionRequest(_) => true,
            _ => false,
        };
        match self {
            ClientState::Disconnected => {
                if !is_request {
                    let prefix = String::from_str(
                        "Client is disconnected and the message is not a connection request: ",
                    );
                    let text = message.description();
                    return Err(prefix.concat(text.as_str()));
                }
            },
            ClientState::Connected(_) => {
                if is_request {
                    return Err(String::from_str("Client id connected and we're asking to be connected"));
                }
            },
            ClientState::WaitingForServerPublicKey => {
                if is_request {
                    return Err(
                        String::from_str(
                            "Client is waiting for the server's public key and is re-asking for it",
                        ),
                    );
                }
            },
        }
        Ok(())
    }

    /// A connection request has been sent: the client now waits for the
    /// server's key.
    pub fn connect(&mut self)
        ensures
            final(self)@ == ClientStateView::WaitingForServerPublicKey,
    {
        *self = ClientState::WaitingForServerPublicKey;
    }

    /// Moves along on a message from the server.
    pub fn on_server_message(&mut self, message: &ServerMessage)
        ensures
            final(self)@ == after_server_message(old(self)@, *message),
    {
        match self {
            ClientState::Disconnected => {},
            ClientState::Connected(_) => {
                if let ServerMessage::Disconnected = message {
                    *self = ClientState::Disconnected;
                }
            },
            ClientState::WaitingForServerPublicKey => {
                if let ServerMessage::Connected(server_public_key) = message {
                    *self = ClientState::Connected(server_public_key.clone());
                }
            },
        }
    }

    /// The bytes to send for an encoded message: encrypted with the
    /// server's key once connected, in clear before; none if the server's
    /// text is no key or the message is too long for it.
    pub fn seal(&self, bytes: Vec<u8>) -> (r: Option<Vec<u8>>)
        ensures
            !(self@ is Connected) ==> (r matches Some(out) && out@ == bytes@),
            self@ matches ClientStateView::Connected(k) ==> {
                &&& r is Some <==> (pem_is_public_key(k) && fits(bytes@.len(), pem_modulus_bytes(k)))
                &&& r matches Some(c) ==> pkcs1v15_encrypts(k, bytes@, c@)
                &&& r matches Some(c) ==> c@.len() == pem_modulus_bytes(k)
            },
    {
        match self {
            ClientState::Connected(key) => encrypt_for(key.as_str(), bytes.as_slice()),
            _ => Some(bytes),
        }
    }

    /// The server's key, once connected: messages are then encrypted with it.
    pub fn server_key(&self) -> (r: Option<&String>)
        ensures
            self@ matches ClientStateView::Connected(k) ==> (r matches Some(s) && s@ == k),
            !(self@ is Connected) ==> r is None,
    {
        match self {
            ClientState::Connected(k) => Some(k),
            _ => None,
        }
    }
}

/// The handshake: a disconnected client that asks to connect waits for the
/// server's key; the server's `Connected` answer connects it with that key;
/// the server's `Disconnected` message brings it back to the start.
pub proof fn lemma_handshake(key: String)
    ensures
        after_server_message(ClientStateView::WaitingForServerPublicKey, ServerMessage::Connected(key))
            == ClientStateView::Connected(key@),
        after_server_message(ClientStateView::Connected(key@), ServerMessage::Disconnected)
            == ClientStateView::Disconnected,
{
}

/// Which messages may be sent: a disconnected client may send a connection
/// request and nothing else; a connected or waiting client may send
/// anything but a connection request (text, a disconnection request, the
/// empty message).
pub proof fn lemma_may_send_exactly(s: ClientStateView, message: ClientMessage)
    ensures
        s is Disconnected ==> (may_send(s, message) <==> message is ConnectionRequest),
        !(s is Disconnected) ==> (may_send(s, message) <==> !(message is ConnectionRequest)),
        s is Connected && message is Text ==> may_send(s, message),
        !(s is Disconnected) && (message is DisconnectionRequest || message is Empty) ==> may_send(s, message),
{
}

/// Only a connection request may leave a disconnected client, and a
/// connected or waiting client never asks to connect again.
pub proof fn lemma_one_request(s: ClientStateView, message: ClientMessage)
    ensures
        may_send(ClientStateView::Disconnected, message) <==> message is ConnectionRequest,
        !(s is Disconnected) && message is ConnectionRequest ==> !may_send(s, message),
{
}

} // verus!

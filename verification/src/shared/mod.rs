//! Items shared by the server and its clients.

pub mod crypto;
pub mod error;
pub mod filesystem;
pub mod id;
pub mod networking;

use vstd::prelude::*;
use crate::text::{chars_of, push_char};

verus! {

/// What a client sends to the server over the datagram transport.
#[derive(Debug, PartialEq, Eq)]
pub enum ClientMessage {
    /// Asks to connect, giving the client's public key (PEM).
    ConnectionRequest(String),
    DisconnectionRequest,
    Text(String),
    /// An empty message.
    Empty,
}

/// A character as it is written inside a quoted text: `\` and `"` behind a
/// backslash, tab, newline, carriage return and NUL as `\t`, `\n`, `\r`,
/// `\0`, any other character as itself.
pub open spec fn escaped_char(c: char) -> Seq<char> {
    if c == '"' {
        seq!['\\', '"']
    } else if c == '\\' {
        seq!['\\', '\\']
    } else if c == '\t' {
        seq!['\\', 't']
    } else if c == '\n' {
        seq!['\\', 'n']
    } else if c == '\r' {
        seq!['\\', 'r']
    } else if c == '\0' {
        seq!['\\', '0']
    } else {
        seq![c]
    }
}

/// A text with each character written as `escaped_char` writes it.
pub open spec fn escaped(s: Seq<char>) -> Seq<char>
    decreases s.len(),
{
    if s.len() == 0 {
        Seq::empty()
    } else {
        escaped(s.drop_last()) + escaped_char(s.last())
    }
}

/// A text between double quotes, escaped.
pub open spec fn quoted(s: Seq<char>) -> Seq<char> {
    seq!['"'] + escaped(s) + seq!['"']
}

/// How a client message is described in a message to the user: the
/// variant's name, followed by its text quoted in brackets when it has one;
/// the empty message is described as `None`.
pub open spec fn description_spec(m: ClientMessage) -> Seq<char> {
    match m {
        ClientMessage::ConnectionRequest(k) => "ConnectionRequest("@ + quoted(k@) + seq![')'],
        ClientMessage::DisconnectionRequest => "DisconnectionRequest"@,
        ClientMessage::Text(t) => "Text("@ + quoted(t@) + seq![')'],
        ClientMessage::Empty => "None"@,
    }
}

/// Appends `s` to `out`, quoted and escaped.
fn push_quoted(out: &mut String, s: &str)
    ensures
        final(out)@ == old(out)@ + quoted(s@),
{
    let cs = chars_of(s);
    push_char(out, '"');
    let ghost head = out@;
    let mut i: usize = 0;
    while i < cs.len()
        invariant
            cs@ == s@,
            i <= cs@.len(),
            out@ == head + escaped(s@.take(i as int)),
        decreases cs.len() - i,
    {
        let c = cs[i];
        proof {
            assert(s@.take(i + 1).drop_last() =~= s@.take(i as int));
            assert(s@.take(i + 1).last() == c);
        }
        if c == '"' || c == '\\' {
            push_char(out, '\\');
            push_char(out, c);
        } else if c == '\t' {
            push_char(out, '\\');
            push_char(out, 't');
        } else if c == '\n' {
            push_char(out, '\\');
            push_char(out, 'n');
        } else if c == '\r' {
            push_char(out, '\\');
            push_char(out, 'r');
        } else if c == '\0' {
            push_char(out, '\\');
            push_char(out, '0');
        } else {
            push_char(out, c);
        }
        i = i + 1;
        assert(out@ =~= head + escaped(s@.take(i as int)));
    }
    assert(s@.take(cs@.len() as int) =~= s@);
    push_char(out, '"');
    assert(out@ =~= old(out)@ + quoted(s@));
}

impl ClientMessage {
    /// The description of this message, as shown to the user.
    pub fn description(&self) -> (r: String)
        ensures
            r@ == description_spec(*self),
    {
        match self {
            ClientMessage::ConnectionRequest(k) => {
                let mut out = String::from_str("ConnectionRequest(");
                push_quoted(&mut out, k.as_str());
                push_char(&mut out, ')');
                out
            },
            ClientMessage::DisconnectionRequest => String::from_str("DisconnectionRequest"),
            ClientMessage::Text(t) => {
                let mut out = String::from_str("Text(");
                push_quoted(&mut out, t.as_str());
                push_char(&mut out, ')');
                out
            },
            ClientMessage::Empty => String::from_str("None"),
        }
    }
}

/// What the server sends to a client over the datagram transport.
#[derive(Debug, PartialEq, Eq)]
pub enum ServerMessage {
    /// The connection is accepted; gives the server's public key (PEM).
    Connected(String),
    AlreadyConnected,
    Disconnected,
    /// An empty message.
    Empty,
}

} // verus!

//! The wire format between the server and its clients: every message is
//! sent as an 8-byte header holding the message's length, then the message.

use vstd::prelude::*;
use crate::shared::filesystem::FileScan;

verus! {

/// Declares `bincode`'s error kind, carried opaque in errors.
#[verifier::external_type_specification]
#[verifier::external_body]
pub struct ExBincodeErrorKind(bincode::ErrorKind);

/// Declares the standard I/O error, carried opaque in errors.
#[verifier::external_type_specification]
#[verifier::external_body]
pub struct ExIoError(std::io::Error);

/// An IP address, by its numeric value.
#[derive(Debug, Clone, Copy, PartialEq, Eq, Structural)]
pub enum IpAddress {
    V4(u32),
    V6(u128),
}

/// An IP address and a port.
#[derive(Debug, Clone, Copy, PartialEq, Eq, Structural)]
pub struct SocketAddress {
    pub ip: IpAddress,
    pub port: u16,
}

/// The server's address: 127.0.0.1, port 44415.
pub fn default_address() -> (r: SocketAddress)
    ensures
        r == (SocketAddress { ip: IpAddress::V4(0x7f00_0001), port: 44415 }),
{
    SocketAddress { ip: IpAddress::V4(0x7f00_0001), port: 44415 }
}

/// What a client sends to the server.
#[derive(Debug)]
pub enum ClientMessage {
    Text(String),
    LoginRequest { username: String, password: String },
    LogoutRequest { id: u128 },
    /// Move through the user's files, as `/`-separated steps.
    ChangeDirectory(String),
}

/// What the server sends to a client.
#[derive(Debug)]
pub enum ServerMessage {
    Text(String),
    /// The logged-in account's id, or why the login was refused.
    LoginResponse(Result<u128, String>),
    LogoutResponse(Result<(), String>),
    /// The content of the directory the user is in.
    FileScanUpdate(FileScan),
}

/// How a read from a connection failed.
#[derive(Debug, Clone, Copy, PartialEq, Eq, Structural)]
pub enum ReadFailure {
    /// The other side closed the connection.
    ConnectionReset,
    /// The connection has nothing to hand out yet.
    WouldBlock,
    /// Fewer bytes are waiting than the message needs (none at all after
    /// the other side closed the connection).
    NotEnoughData,
    /// Anything else.
    Other,
}

/// The size of an encoded header, in bytes.
pub const HEADER_SIZE: usize = 8;

/// The little-endian bytes of `v`, least significant first.
pub open spec fn le_bytes(v: u64) -> Seq<u8> {
    seq![
        v as u8,
        (v >> 8u64) as u8,
        (v >> 16u64) as u8,
        (v >> 24u64) as u8,
        (v >> 32u64) as u8,
        (v >> 40u64) as u8,
        (v >> 48u64) as u8,
        (v >> 56u64) as u8,
    ]
}

/// The value of the first 8 bytes of `b`, read little-endian.
pub open spec fn le_value(b: Seq<u8>) -> u64
    recommends
        b.len() >= 8,
{
    (b[0] as u64) | ((b[1] as u64) << 8u64) | ((b[2] as u64) << 16u64) | ((b[3] as u64) << 24u64)
        | ((b[4] as u64) << 32u64) | ((b[5] as u64) << 40u64) | ((b[6] as u64) << 48u64) | ((
    b[7] as u64) << 56u64)
}

/// Reading back the bytes of a value gives the value.
pub proof fn lemma_le_roundtrip(v: u64)
    ensures
        le_bytes(v).len() == 8,
        le_value(le_bytes(v)) == v,
{
    let b = le_bytes(v);
    let (b0, b1, b2, b3, b4, b5, b6, b7) = (b[0], b[1], b[2], b[3], b[4], b[5], b[6], b[7]);
    assert(b0 == v as u8 && b1 == (v >> 8u64) as u8 && b2 == (v >> 16u64) as u8 && b3 == (v
        >> 24u64) as u8 && b4 == (v >> 32u64) as u8 && b5 == (v >> 40u64) as u8 && b6 == (v
        >> 48u64) as u8 && b7 == (v >> 56u64) as u8);
    assert((b0 as u64) | ((b1 as u64) << 8u64) | ((b2 as u64) << 16u64) | ((b3 as u64) << 24u64)
        | ((b4 as u64) << 32u64) | ((b5 as u64) << 40u64) | ((b6 as u64) << 48u64) | ((
    b7 as u64) << 56u64) == v) by (bit_vector)
        requires
            b0 == v as u8,
            b1 == (v >> 8u64) as u8,
            b2 == (v >> 16u64) as u8,
            b3 == (v >> 24u64) as u8,
            b4 == (v >> 32u64) as u8,
            b5 == (v >> 40u64) as u8,
            b6 == (v >> 48u64) as u8,
            b7 == (v >> 56u64) as u8,
    ;
}

/// Encodes a length (`bincode::serialize` of a `usize`). The contract claims
/// bincode's fixed-width little-endian encoding: the 8 bytes of the value as
/// a `u64`, least significant first; serializing into memory does not fail.
#[verifier::external_body]
fn serialize_size(size: usize) -> (r: Result<Vec<u8>, bincode::Error>)
    ensures
        r is Ok,
        r.unwrap()@ == le_bytes(size as u64),
{
    bincode::serialize(&size)
}

/// Decodes a length (`bincode::deserialize` of a `usize`). The contract
/// claims: it reads the first 8 bytes little-endian (later bytes are
/// ignored), fails on fewer than 8 bytes, and fails when the value does not
/// fit in a `usize`.
#[verifier::external_body]
fn deserialize_size(bytes: &[u8]) -> (r: Result<usize, bincode::Error>)
    ensures
        r is Ok <==> (bytes@.len() >= 8 && le_value(bytes@) <= usize::MAX),
        r matches Ok(v) ==> v == le_value(bytes@),
{
    bincode::deserialize::<usize>(bytes)
}

/// What can go wrong while sending or receiving a message.
#[derive(Debug)]
pub enum SocketError {
    TestError,
    /// The bytes could not be encoded or decoded.
    DeSerialization(bincode::Error),
    /// The connection failed.
    Io(std::io::Error),
    /// Fewer bytes than needed are waiting: (needed, waiting).
    NotEnoughData(usize, usize),
}

/// How a failed connection reports itself (`std::io::Error::kind`), one
/// arm per kind the logic tells apart. Which kind a given error has is not
/// claimed (the error is opaque here); only that a connection error is never
/// taken for too few bytes.
#[verifier::external_body]
fn io_failure(e: &std::io::Error) -> (r: ReadFailure)
    ensures
        r != ReadFailure::NotEnoughData,
{
    match e.kind() {
        std::io::ErrorKind::ConnectionReset => ReadFailure::ConnectionReset,
        std::io::ErrorKind::WouldBlock => ReadFailure::WouldBlock,
        _ => ReadFailure::Other,
    }
}

impl SocketError {
    /// How a failed read is taken: too few bytes waiting is a kind of its
    /// own; a connection error goes by its kind (reset, would block, or
    /// other); a decoding error is another failure.
    pub fn read_failure(&self) -> (r: ReadFailure)
        ensures
            self is NotEnoughData ==> r == ReadFailure::NotEnoughData,
            self is Io ==> r != ReadFailure::NotEnoughData,
            self is DeSerialization || self is TestError ==> r == ReadFailure::Other,
    {
        match self {
            SocketError::NotEnoughData(_, _) => ReadFailure::NotEnoughData,
            SocketError::Io(e) => io_failure(e),
            SocketError::DeSerialization(_) | SocketError::TestError => ReadFailure::Other,
        }
    }
}

/// The header sent before each message: the message's length in bytes.
#[derive(Debug, Clone, Copy, PartialEq, Eq, Structural)]
pub struct PacketHeader {
    size: usize,
}

impl PacketHeader {
    /// The header of a message of `size` bytes.
    pub fn new(size: usize) -> (r: PacketHeader)
        ensures
            r.spec_size() == size,
    {
        PacketHeader { size }
    }

    /// The message length that this header announces.
    pub closed spec fn spec_size(self) -> usize {
        self.size
    }

    /// The message length that this header announces.
    pub fn size(&self) -> (r: usize)
        ensures
            r == self.spec_size(),
    {
        self.size
    }
}

/// The bytes sent for a message: its header, then the message.
pub open spec fn frame_spec(message: Seq<u8>) -> Seq<u8> {
    le_bytes(message.len() as u64) + message
}

/// The bytes to send for the encoded message `message_bytes`: its header
/// (always `HEADER_SIZE` bytes), then the message.
pub fn frame(message_bytes: &[u8]) -> (r: Result<Vec<u8>, SocketError>)
    ensures
        r matches Ok(f) && f@ == frame_spec(message_bytes@),
{
    let header = PacketHeader::new(message_bytes.len());
    let header_bytes = match serialize_size(header.size) {
        Ok(b) => b,
        Err(e) => return Err(SocketError::DeSerialization(e)),
    };
    let mut out = header_bytes;
    let ghost head = out@;
    let mut i: usize = 0;
    while i < message_bytes.len()
        invariant
            i <= message_bytes@.len(),
            out@ == head + message_bytes@.take(i as int),
        decreases message_bytes.len() - i,
    {
        out.push(message_bytes[i]);
        i = i + 1;
        assert(out@ =~= head + message_bytes@.take(i as int));
    }
    assert(message_bytes@.take(message_bytes@.len() as int) =~= message_bytes@);
    Ok(out)
}

/// One read of a receiver whose saved header announces `state` (none before
/// a header): the bytes read are a header, which is then saved, or the
/// message the saved header announced, which is then handed out while the
/// header stays saved until the message is decoded. A header whose length
/// does not fit in memory cannot be decoded (`None`).
pub open spec fn read_step(state: Option<usize>, bytes: Seq<u8>) -> Option<(Option<usize>, Option<Seq<u8>>)> {
    match state {
        None => if le_value(bytes) <= usize::MAX {
            Some((Some(le_value(bytes) as usize), None))
        } else {
            None
        },
        Some(n) => Some((Some(n), Some(bytes))),
    }
}

/// The receiving side of the wire format: the header read so far, if its
/// message has not been read yet.
#[derive(Debug)]
pub struct FrameReader {
    last_header: Option<PacketHeader>,
}

impl View for FrameReader {
    type V = Option<usize>;

    closed spec fn view(&self) -> Option<usize> {
        match self.last_header {
            Some(h) => Some(h.size),
            None => None,
        }
    }
}

/// How many bytes a receiver whose saved header announces `state` reads next.
pub open spec fn wanted_spec(state: Option<usize>) -> usize {
    match state {
        Some(n) => n,
        None => HEADER_SIZE,
    }
}

impl FrameReader {
    /// A receiver waiting for a header.
    pub fn new() -> (r: FrameReader)
        ensures
            r@ is None,
    {
        FrameReader { last_header: None }
    }

    /// How many bytes are read next: a header, or the message of the saved
    /// header.
    pub fn wanted(&self) -> (r: usize)
        ensures
            r == wanted_spec(self@),
    {
        match self.last_header {
            Some(h) => h.size,
            None => HEADER_SIZE,
        }
    }

    /// Whether the `available` waiting bytes are exactly what is read next;
    /// if not, the error names both counts.
    pub fn check_available(&self, available: usize) -> (r: Result<(), SocketError>)
        ensures
            available == wanted_spec(self@) ==> r is Ok,
            available != wanted_spec(self@) ==> (r matches Err(SocketError::NotEnoughData(w, a))
                && w == wanted_spec(self@) && a == available),
    {
        let target = self.wanted();
        if available != target {
            return Err(SocketError::NotEnoughData(target, available));
        }
        Ok(())
    }

    /// Takes the bytes just read, exactly as many as `wanted`: a header is
    /// decoded and saved, and nothing is handed out yet; a message is handed
    /// out, and its header stays saved until `message_decoded` is called. A
    /// header that cannot be decoded is an error and leaves the receiver as
    /// it was.
    pub fn accept(&mut self, bytes: &[u8]) -> (r: Result<Option<Vec<u8>>, SocketError>)
        requires
            bytes@.len() == wanted_spec(old(self)@),
        ensures
            read_step(old(self)@, bytes@) matches Some((s, out)) ==> {
                &&& final(self)@ == s
                &&& r is Ok
                &&& match out {
                    Some(m) => (r->Ok_0 matches Some(v) && v@ == m),
                    None => r->Ok_0 is None,
                }
            },
            read_step(old(self)@, bytes@) is None ==> {
                &&& final(self)@ == old(self)@
                &&& r matches Err(SocketError::DeSerialization(_))
            },
    {
        match self.last_header {
            None => {
                match deserialize_size(bytes) {
                    Ok(size) => {
                        self.last_header = Some(PacketHeader::new(size));
                        Ok(None)
                    },
                    Err(e) => Err(SocketError::DeSerialization(e)),
                }
            },
            Some(_) => {
                let mut out: Vec<u8> = Vec::new();
                let mut i: usize = 0;
                while i < bytes.len()
                    invariant
                        i <= bytes@.len(),
                        out@ == bytes@.take(i as int),
                    decreases bytes.len() - i,
                {
                    out.push(bytes[i]);
                    i = i + 1;
                    assert(out@ =~= bytes@.take(i as int));
                }
                assert(bytes@.take(bytes@.len() as int) =~= bytes@);
                Ok(Some(out))
            },
        }
    }

    /// The message handed out has been decoded: its header is dropped, and
    /// the next read is a header.
    pub fn message_decoded(&mut self)
        ensures
            final(self)@ is None,
    {
        self.last_header = None;
    }
}

/// Reading back a framed message: a fresh receiver first takes the header
/// and saves the message's length, then takes the message and hands it out
/// unchanged, keeping the length until the message is decoded.
pub proof fn lemma_read_back_frame(message: Seq<u8>)
    requires
        message.len() <= usize::MAX,
    ensures
        frame_spec(message).take(HEADER_SIZE as int).len() == wanted_spec(None),
        read_step(None, frame_spec(message).take(HEADER_SIZE as int)) == Some(
            (Some(message.len() as usize), None::<Seq<u8>>),
        ),
        frame_spec(message).skip(HEADER_SIZE as int).len() == wanted_spec(
            Some(message.len() as usize),
        ),
        read_step(Some(message.len() as usize), frame_spec(message).skip(HEADER_SIZE as int))
            == Some((Some(message.len() as usize), Some(message))),
{
    lemma_le_roundtrip(message.len() as u64);
    let f = frame_spec(message);
    let h = le_bytes(message.len() as u64);
    assert(f.take(8) =~= h);
    assert(f.skip(8) =~= message);
}

} // verus!

use muc::shared::networking::{
    default_address, frame, FrameReader, IpAddress, PacketHeader, ReadFailure, SocketError,
    HEADER_SIZE,
};

#[test]
fn header_and_frame_layout() {
    let h = PacketHeader::new(300);
    assert_eq!(h.size(), 300);
    let f = frame(&[7, 8, 9]).unwrap();
    assert_eq!(f, vec![3, 0, 0, 0, 0, 0, 0, 0, 7, 8, 9]);
    let f = frame(&vec![1u8; 258]).unwrap();
    assert_eq!(&f[..HEADER_SIZE], &[2, 1, 0, 0, 0, 0, 0, 0]);
    assert_eq!(f.len(), HEADER_SIZE + 258);
    assert_eq!(frame(&[]).unwrap(), vec![0; 8]);
}

#[test]
fn read_back_a_frame() {
    let message = b"hello".to_vec();
    let f = frame(&message).unwrap();
    let mut r = FrameReader::new();
    assert_eq!(r.wanted(), HEADER_SIZE);
    assert!(r.check_available(HEADER_SIZE).is_ok());
    assert!(matches!(r.accept(&f[..HEADER_SIZE]), Ok(None)));
    assert_eq!(r.wanted(), 5);
    assert!(matches!(r.check_available(2), Err(SocketError::NotEnoughData(5, 2))));
    match r.accept(&f[HEADER_SIZE..]) {
        Ok(Some(m)) => assert_eq!(m, message),
        other => panic!("unexpected {other:?}"),
    }
    // The header is kept until the message has been decoded.
    assert_eq!(r.wanted(), 5);
    r.message_decoded();
    assert_eq!(r.wanted(), HEADER_SIZE);
}

#[test]
fn undecoded_message_is_read_again() {
    let f = frame(b"abc").unwrap();
    let mut r = FrameReader::new();
    assert!(matches!(r.accept(&f[..HEADER_SIZE]), Ok(None)));
    // The message bytes came but did not decode: the same length is read next.
    assert!(matches!(r.accept(b"xyz"), Ok(Some(_))));
    assert_eq!(r.wanted(), 3);
    match r.accept(&f[HEADER_SIZE..]) {
        Ok(Some(m)) => assert_eq!(m, b"abc".to_vec()),
        other => panic!("unexpected {other:?}"),
    }
}

#[test]
fn not_enough_header_bytes() {
    let r = FrameReader::new();
    assert!(matches!(r.check_available(3), Err(SocketError::NotEnoughData(8, 3))));
    assert!(matches!(r.check_available(0), Err(SocketError::NotEnoughData(8, 0))));
}

#[test]
fn server_address() {
    let a = default_address();
    assert_eq!(a.ip, IpAddress::V4((127 << 24) | 1));
    assert_eq!(a.port, 44415);
}

#[test]
fn read_failures_by_kind() {
    let reset = SocketError::Io(std::io::Error::from(std::io::ErrorKind::ConnectionReset));
    assert_eq!(reset.read_failure(), ReadFailure::ConnectionReset);
    let block = SocketError::Io(std::io::Error::from(std::io::ErrorKind::WouldBlock));
    assert_eq!(block.read_failure(), ReadFailure::WouldBlock);
    let other = SocketError::Io(std::io::Error::from(std::io::ErrorKind::BrokenPipe));
    assert_eq!(other.read_failure(), ReadFailure::Other);
    assert_eq!(SocketError::NotEnoughData(8, 2).read_failure(), ReadFailure::NotEnoughData);
    assert_eq!(SocketError::NotEnoughData(8, 0).read_failure(), ReadFailure::NotEnoughData);
    assert_eq!(SocketError::TestError.read_failure(), ReadFailure::Other);
}

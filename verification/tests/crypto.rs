use muc::client::connection::ClientState;
use muc::server::server::Server;
use muc::shared::crypto::{encrypt_for, is_public_key, KeyPair};
use muc::shared::networking::{IpAddress, SocketAddress};
use muc::shared::{ClientMessage, ServerMessage};

#[test]
fn sealed_messages_open_with_the_key() {
    let keys = KeyPair::generate().unwrap();
    assert!(is_public_key(keys.public_pem()));
    assert!(!is_public_key("not a key"));
    assert!(encrypt_for("not a key", b"x").is_none());

    let sealed = encrypt_for(keys.public_pem(), b"secret").unwrap();
    assert_ne!(sealed, b"secret".to_vec());
    assert_eq!(keys.decrypt(&sealed).unwrap(), b"secret".to_vec());
    assert!(keys.decrypt(b"garbage").is_none());

    // The client seals with the server's key once connected, not before.
    let mut state = ClientState::Disconnected;
    assert_eq!(state.seal(b"hi".to_vec()).unwrap(), b"hi".to_vec());
    state.connect();
    state.on_server_message(&ServerMessage::Connected(keys.public_pem().clone()));
    let sealed = state.seal(b"hi".to_vec()).unwrap();
    assert_eq!(keys.decrypt(&sealed).unwrap(), b"hi".to_vec());

    // The server greets in clear and seals everything else.
    let addr = SocketAddress { ip: IpAddress::V4(3), port: 9 };
    let mut server = Server::new("SERVER".to_string());
    let (id, greeting) = server
        .handle_packet(addr, ClientMessage::ConnectionRequest(keys.public_pem().clone()))
        .unwrap();
    let (to, out) = server.seal_for(id, &greeting, b"plain".to_vec()).unwrap();
    assert_eq!((to, out), (addr, b"plain".to_vec()));
    let (_, out) = server.seal_for(id, &ServerMessage::Disconnected, b"bye".to_vec()).unwrap();
    assert_eq!(keys.decrypt(&out).unwrap(), b"bye".to_vec());
    assert!(server.seal_for(id + 1, &ServerMessage::Disconnected, b"x".to_vec()).is_none());
}

#[test]
fn message_size_limit_follows_the_modulus() {
    let keys = KeyPair::generate().unwrap();
    // A 2048-bit key has a 256-byte modulus; padding takes 11 of them.
    let longest = vec![7u8; 245];
    let sealed = encrypt_for(keys.public_pem(), &longest).unwrap();
    assert_eq!(sealed.len(), 256);
    assert_eq!(keys.decrypt(&sealed).unwrap(), longest);
    assert!(encrypt_for(keys.public_pem(), &vec![7u8; 246]).is_none());
    let empty = encrypt_for(keys.public_pem(), b"").unwrap();
    assert_eq!(empty.len(), 256);
    assert_eq!(keys.decrypt(&empty).unwrap(), Vec::<u8>::new());

    // A connected client whose message is too long for the key sends nothing.
    let mut state = ClientState::Disconnected;
    state.connect();
    state.on_server_message(&ServerMessage::Connected(keys.public_pem().clone()));
    assert!(state.seal(vec![0u8; 300]).is_none());
    // A server key that is no key gives nothing either.
    let mut broken = ClientState::Disconnected;
    broken.connect();
    broken.on_server_message(&ServerMessage::Connected("PEM".to_string()));
    assert!(broken.seal(b"hi".to_vec()).is_none());
}


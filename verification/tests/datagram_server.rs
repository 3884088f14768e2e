use muc::server::server::{needs_encryption, Client, ClientConnection, Server};
use muc::shared::networking::{IpAddress, SocketAddress};
use muc::shared::{ClientMessage, ServerMessage};

fn addr(port: u16) -> SocketAddress {
    SocketAddress { ip: IpAddress::V4(10), port }
}

#[test]
fn connection_and_disconnection() {
    let mut s = Server::new("SERVER-PEM".to_string());
    let reply = s.handle_packet(addr(1), ClientMessage::ConnectionRequest("K1".to_string()));
    let id1 = match reply {
        Some((id, ServerMessage::Connected(k))) => {
            assert_eq!(k, "SERVER-PEM");
            id
        }
        other => panic!("{other:?}"),
    };
    assert_eq!(s.clients().len(), 1);
    assert_eq!(s.find_client_by_addr(addr(1)).unwrap().public_key, "K1");
    assert_eq!(s.find_client_by_id(id1).unwrap().addr, addr(1));
    // A second request from the same address is told it is connected already.
    let again = s.handle_packet(addr(1), ClientMessage::ConnectionRequest("K2".to_string()));
    assert!(matches!(again, Some((id, ServerMessage::AlreadyConnected)) if id == id1));
    assert_eq!(s.clients().len(), 1);
    s.handle_packet(addr(2), ClientMessage::ConnectionRequest("K2".to_string()));
    assert_eq!(s.clients().len(), 2);
    assert!(s.handle_packet(addr(1), ClientMessage::Text("x".to_string())).is_none());
    assert!(s.handle_packet(addr(1), ClientMessage::Empty).is_none());
    assert!(s.handle_packet(addr(1), ClientMessage::DisconnectionRequest).is_none());
    assert!(s.find_client_by_addr(addr(1)).is_none());
    assert!(s.find_client_by_id(id1).is_none());
    assert_eq!(s.clients().len(), 1);
    // Unknown addresses change nothing.
    assert!(s.handle_packet(addr(9), ClientMessage::DisconnectionRequest).is_none());
    assert_eq!(s.clients().len(), 1);
}

#[test]
fn registration_and_removal() {
    let mut s = Server::new("P".to_string());
    assert!(s.register_client(addr(3), "K".to_string()).is_some());
    assert!(s.register_client(addr(3), "K".to_string()).is_none());
    let id = s.clients()[0].id;
    s.remove_client(id + 1);
    assert_eq!(s.clients().len(), 1);
    s.remove_client(id);
    assert!(s.clients().is_empty());
}

#[test]
fn gone_peers_are_told_and_removed() {
    let mut s = Server::new("P".to_string());
    s.register_client(addr(4), "K".to_string());
    let id = s.clients()[0].id;
    assert!(matches!(s.on_peer_gone(addr(4)), Some((i, ServerMessage::Disconnected)) if i == id));
    assert!(s.clients().is_empty());
    assert!(s.on_peer_gone(addr(4)).is_none());
}

#[test]
fn only_the_greeting_is_clear() {
    assert!(!needs_encryption(&ServerMessage::Connected("k".to_string())));
    assert!(needs_encryption(&ServerMessage::Disconnected));
    assert!(needs_encryption(&ServerMessage::AlreadyConnected));
    let c = Client::new(addr(5), "key".to_string());
    let d = c.clone();
    assert_eq!((d.addr, d.id, d.public_key.as_str()), (c.addr, c.id, "key"));
    let t = ClientConnection { token: "tok".to_string() };
    assert_eq!(t.clone().token, "tok");
}

use muc::client::connection::ClientState;
use muc::client::server::{route_server_message, route_ui_message, stays_connected, Message, Route};
use muc::shared::filesystem::{EntryKind, FileScan, ScanEntry};
use muc::shared::networking::{ClientMessage, ReadFailure, ServerMessage};
use muc::shared::{ClientMessage as DatagramRequest, ServerMessage as DatagramAnswer};

#[test]
fn ui_messages_are_routed() {
    assert!(matches!(
        route_ui_message(Message::LoginRequest { username: "a".to_string(), password: "b".to_string() }),
        Route::ToServer(ClientMessage::LoginRequest { username, password }) if username == "a" && password == "b"
    ));
    assert!(matches!(route_ui_message(Message::LogoutRequest { id: 2 }), Route::ToServer(ClientMessage::LogoutRequest { id: 2 })));
    assert!(matches!(
        route_ui_message(Message::ChangeDirectory("x".to_string())),
        Route::ToServer(ClientMessage::ChangeDirectory(d)) if d == "x"
    ));
    assert!(matches!(route_ui_message(Message::LoginResponse(Ok(1))), Route::ToUi(Message::LoginResponse(Ok(1)))));
    assert!(matches!(route_ui_message(Message::LogoutResponse(Ok(()))), Route::ToUi(Message::LogoutResponse(Ok(())))));
}

#[test]
fn server_messages_are_routed() {
    assert!(matches!(route_server_message(ServerMessage::Text("t".to_string())), Route::Show(t) if t == "t"));
    assert!(matches!(
        route_server_message(ServerMessage::LoginResponse(Err("no".to_string()))),
        Route::ToUi(Message::LoginResponse(Err(e))) if e == "no"
    ));
    let scan = FileScan::new(Some(vec![ScanEntry { name: "d".to_string(), kind: EntryKind::Directory }])).unwrap();
    match route_server_message(ServerMessage::FileScanUpdate(scan)) {
        Route::ToUi(Message::FileScanUpdate(s)) => assert!(s.has_dir("d")),
        other => panic!("{other:?}"),
    }
    assert!(stays_connected(ReadFailure::WouldBlock));
    assert!(stays_connected(ReadFailure::ConnectionReset));
    assert!(!stays_connected(ReadFailure::Other));
    assert!(!stays_connected(ReadFailure::NotEnoughData));
}

#[test]
fn connection_handshake() {
    let mut s = ClientState::Disconnected;
    let err = s.verify_client_message(&DatagramRequest::Text("hi".to_string())).unwrap_err();
    assert_eq!(err, "Client is disconnected and the message is not a connection request: Text(\"hi\")");
    assert!(s.verify_client_message(&DatagramRequest::ConnectionRequest("k".to_string())).is_ok());
    s.connect();
    assert_eq!(
        s.verify_client_message(&DatagramRequest::ConnectionRequest("k".to_string())).unwrap_err(),
        "Client is waiting for the server's public key and is re-asking for it"
    );
    assert!(s.server_key().is_none());
    s.on_server_message(&DatagramAnswer::AlreadyConnected);
    assert!(matches!(s, ClientState::WaitingForServerPublicKey));
    s.on_server_message(&DatagramAnswer::Connected("PEM".to_string()));
    assert_eq!(s.server_key().unwrap(), "PEM");
    assert_eq!(
        s.verify_client_message(&DatagramRequest::ConnectionRequest("k".to_string())).unwrap_err(),
        "Client id connected and we're asking to be connected"
    );
    assert!(s.verify_client_message(&DatagramRequest::DisconnectionRequest).is_ok());
    s.on_server_message(&DatagramAnswer::Disconnected);
    assert!(matches!(s, ClientState::Disconnected));
    s.on_server_message(&DatagramAnswer::Connected("late".to_string()));
    assert!(matches!(s, ClientState::Disconnected));
}

#[test]
fn messages_are_described_as_written() {
    assert_eq!(DatagramRequest::Empty.description(), "None");
    assert_eq!(DatagramRequest::DisconnectionRequest.description(), "DisconnectionRequest");
    assert_eq!(DatagramRequest::Text("a\"b\\c\n".to_string()).description(), "Text(\"a\\\"b\\\\c\\n\")");
    // The same text as the standard `Debug` form for these messages.
    let t = "tab\there \"q\"".to_string();
    assert_eq!(DatagramRequest::Text(t.clone()).description(), format!("Text({t:?})"));
    let s = ClientState::Disconnected;
    assert_eq!(
        s.verify_client_message(&DatagramRequest::Empty).unwrap_err(),
        "Client is disconnected and the message is not a connection request: None"
    );
}

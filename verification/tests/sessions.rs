use muc::server::account_manager::{Account, AccountManager};
use muc::server::client::handler::{respond, ClientHandle};
use muc::server::client::{
    login_reply, logout_reply, on_client_message, on_main_thread_message, on_read_failure, Action,
    AccountState, Message,
};
use muc::server::error::{AccountLoginError, AccountLogoutError, ChannelError};
use muc::server::threading::Channel;
use muc::shared::networking::{ClientMessage, IpAddress, ReadFailure, ServerMessage, SocketAddress};

const ADDR: SocketAddress = SocketAddress { ip: IpAddress::V4(1), port: 2 };

#[test]
fn replies_carry_error_texts() {
    match login_reply(Err(AccountLoginError::InvalidPassword)) {
        ServerMessage::LoginResponse(Err(t)) => assert_eq!(t, "Invalid password"),
        other => panic!("{other:?}"),
    }
    assert!(matches!(login_reply(Ok(9)), ServerMessage::LoginResponse(Ok(9))));
    match logout_reply(Err(AccountLogoutError::NotLoggedIn)) {
        ServerMessage::LogoutResponse(Err(t)) => assert_eq!(t, "The user is not logged in"),
        other => panic!("{other:?}"),
    }
    assert!(matches!(logout_reply(Ok(())), ServerMessage::LogoutResponse(Ok(()))));
}

#[test]
fn main_thread_answers() {
    assert!(matches!(
        on_main_thread_message(Message::LoginResponse(Ok(4))),
        Action::OpenSession { id: 4, reply: ServerMessage::LoginResponse(Ok(4)) }
    ));
    match on_main_thread_message(Message::LoginResponse(Err(AccountLoginError::UnknownUsername))) {
        Action::Reply(ServerMessage::LoginResponse(Err(t))) => assert_eq!(t, "This username doens't exist"),
        other => panic!("{other:?}"),
    }
    assert!(matches!(
        on_main_thread_message(Message::LogoutResponse(Ok(()))),
        Action::CloseSession { clear: true, reply: ServerMessage::LogoutResponse(Ok(())) }
    ));
    assert!(matches!(
        on_main_thread_message(Message::LogoutResponse(Err(AccountLogoutError::UnknownAccount))),
        Action::CloseSession { clear: false, reply: ServerMessage::LogoutResponse(Err(_)) }
    ));
}

#[test]
fn client_messages() {
    assert!(matches!(on_client_message(ClientMessage::Text("hi".to_string()), false), Action::Show(t) if t == "hi"));
    assert!(matches!(
        on_client_message(ClientMessage::LoginRequest { username: "u".to_string(), password: "p".to_string() }, false),
        Action::Forward(Message::LoginRequest { username, password }) if username == "u" && password == "p"
    ));
    assert!(matches!(
        on_client_message(ClientMessage::LogoutRequest { id: 3 }, true),
        Action::Forward(Message::LogoutRequest { id: 3 })
    ));
    assert!(matches!(
        on_client_message(ClientMessage::ChangeDirectory("a/..".to_string()), true),
        Action::ChangeDirectory(d) if d == "a/.."
    ));
    assert!(matches!(on_client_message(ClientMessage::ChangeDirectory("a".to_string()), false), Action::Nothing));
}

#[test]
fn read_failures() {
    assert!(matches!(on_read_failure(ReadFailure::WouldBlock), Action::Nothing));
    assert!(matches!(on_read_failure(ReadFailure::ConnectionReset), Action::Stop));
    assert!(matches!(on_read_failure(ReadFailure::Other), Action::Stop));
    assert!(matches!(on_read_failure(ReadFailure::NotEnoughData), Action::Stop));
}

#[test]
fn account_state_starts_at_root() {
    let s = AccountState::new(0xabc);
    assert_eq!(s.id, 0xabc);
    assert!(s.fs.is_root());
    assert_eq!(s.fs.user_id(), "00000000-0000-0000-0000-000000000abc");
}

#[test]
fn main_thread_responds_to_requests() {
    let mut m = AccountManager::new_empty();
    let acc = Account::new("u".to_string(), "p".to_string());
    let id = acc.id();
    m.register(acc).unwrap();
    let r = respond(&mut m, ADDR, Message::LoginRequest { username: "u".to_string(), password: "p".to_string() });
    assert!(matches!(r, Some(Message::LoginResponse(Ok(i))) if i == id));
    let r = respond(&mut m, ADDR, Message::LogoutRequest { id });
    assert!(matches!(r, Some(Message::LogoutResponse(Ok(())))));
    let r = respond(&mut m, ADDR, Message::LogoutRequest { id });
    assert!(matches!(r, Some(Message::LogoutResponse(Err(AccountLogoutError::NotLoggedIn)))));
    assert!(respond(&mut m, ADDR, Message::LoginResponse(Ok(1))).is_none());
}

#[test]
fn client_handle_update() {
    let mut m = AccountManager::new_empty();
    m.register(Account::new("u".to_string(), "p".to_string())).unwrap();
    let (thread_end, main_end) = Channel::new_pair();
    let running = std::sync::Arc::new(std::sync::atomic::AtomicBool::new(true));
    let mut handle = ClientHandle::from_parts(main_end, ADDR, running.clone());
    assert!(handle.update(&mut m).is_ok());
    thread_end.send(Message::LoginRequest { username: "u".to_string(), password: "bad".to_string() }).unwrap();
    assert!(handle.update(&mut m).is_ok());
    assert!(matches!(
        thread_end.recv().unwrap(),
        Message::LoginResponse(Err(AccountLoginError::InvalidPassword))
    ));
    thread_end.send(Message::LogoutResponse(Ok(()))).unwrap();
    assert!(matches!(handle.update(&mut m), Err(ChannelError::Other(_))));
    running.store(false, std::sync::atomic::Ordering::Relaxed);
    assert!(matches!(handle.update(&mut m), Err(ChannelError::Other("Target thread has exited"))));
}

use muc::server::account_manager::{account_file_path, Account, AccountLog, AccountManager, IpAddress};
use muc::server::error::{AccountLoginError, AccountLogoutError};
use muc::server::file::Path;

const IP: IpAddress = IpAddress::V4(0x7f00_0001);

fn manager() -> (AccountManager, u128, u128) {
    let mut m = AccountManager::new_empty();
    let a = Account::new("Bowarc".to_string(), "Password1".to_string());
    let b = Account::new("Other".to_string(), "pw".to_string());
    let (ia, ib) = (a.id(), b.id());
    assert!(m.register(a).is_ok());
    assert!(m.register(b).is_ok());
    (m, ia, ib)
}

#[test]
fn login_logout_round_trip() {
    let (mut m, ia, _) = manager();
    assert_eq!(m.login("Bowarc".to_string(), "Password1".to_string(), IP), Ok(ia));
    assert_eq!(m.connected_accounts(), &vec![ia]);
    let logs = m.accounts()[0].logs();
    assert_eq!(logs.len(), 1);
    assert_eq!(logs[0].1, AccountLog::Connection(IP));
    assert_eq!(m.logout(ia), Ok(()));
    assert!(m.connected_accounts().is_empty());
    let logs = m.accounts()[0].logs();
    assert_eq!(logs.len(), 2);
    assert_eq!(logs[1].1, AccountLog::Disconnection);
    assert!(logs[0].0 <= logs[1].0);
    // Logging in again works once logged out.
    assert_eq!(m.login("Bowarc".to_string(), "Password1".to_string(), IP), Ok(ia));
}

#[test]
fn login_refusals() {
    let (mut m, ia, _) = manager();
    assert_eq!(
        m.login("Nobody".to_string(), "x".to_string(), IP),
        Err(AccountLoginError::UnknownUsername)
    );
    assert_eq!(
        m.login("Bowarc".to_string(), "wrong".to_string(), IP),
        Err(AccountLoginError::InvalidPassword)
    );
    assert!(m.connected_accounts().is_empty());
    assert!(m.accounts()[0].logs().is_empty());
    assert_eq!(m.login("Bowarc".to_string(), "Password1".to_string(), IP), Ok(ia));
    assert_eq!(
        m.login("Bowarc".to_string(), "Password1".to_string(), IpAddress::V6(1)),
        Err(AccountLoginError::AlreadyLoggedIn)
    );
    assert_eq!(m.connected_accounts().len(), 1);
    assert_eq!(m.accounts()[0].logs().len(), 1);
}

#[test]
fn first_account_with_a_name_decides() {
    let first = Account::new("same".to_string(), "one".to_string());
    let second = Account::new("same".to_string(), "two".to_string());
    let i2 = second.id();
    // A saved list may hold two accounts with one name.
    let mut m = AccountManager::load(Some(vec![first, second]));
    // The second account's password is refused: only the first is looked at.
    assert_eq!(
        m.login("same".to_string(), "two".to_string(), IP),
        Err(AccountLoginError::InvalidPassword)
    );
    assert!(m.logout(i2).is_err());
}

#[test]
fn duplicate_name_is_refused() {
    let (mut m, ia, _) = manager();
    let again = Account::new("Bowarc".to_string(), "other".to_string());
    assert_eq!(m.register(again), Err(()));
    assert_eq!(m.accounts().len(), 2);
    assert_eq!(m.accounts()[0].id(), ia);
    assert_eq!(m.accounts()[0].password(), "Password1");
    let fresh = Account::new("bowarc".to_string(), "x".to_string());
    assert_eq!(m.register(fresh), Ok(()));
    assert_eq!(m.accounts().len(), 3);
}

#[test]
fn logout_refusals() {
    let (mut m, ia, ib) = manager();
    assert_eq!(m.logout(ia), Err(AccountLogoutError::NotLoggedIn));
    assert_eq!(m.logout(12345), Err(AccountLogoutError::NotLoggedIn));
    m.login("Other".to_string(), "pw".to_string(), IP).unwrap();
    assert_eq!(m.logout(ia), Err(AccountLogoutError::NotLoggedIn));
    assert_eq!(m.logout(ib), Ok(()));
    assert_eq!(m.logout(ib), Err(AccountLogoutError::NotLoggedIn));
}

#[test]
fn logout_keeps_other_sessions_in_order() {
    let mut m = AccountManager::new_empty();
    let mut ids = Vec::new();
    for n in ["a", "b", "c"] {
        let acc = Account::new(n.to_string(), "p".to_string());
        ids.push(acc.id());
        m.register(acc).unwrap();
    }
    for n in ["a", "b", "c"] {
        m.login(n.to_string(), "p".to_string(), IP).unwrap();
    }
    m.logout(ids[1]).unwrap();
    assert_eq!(m.connected_accounts(), &vec![ids[0], ids[2]]);
}

#[test]
fn load_saved_accounts() {
    let saved = vec![Account::from_parts(5, "u".to_string(), "p".to_string(), vec![(10, AccountLog::Disconnection)])];
    let mut m = AccountManager::load(Some(saved));
    assert_eq!(m.accounts().len(), 1);
    assert_eq!(m.accounts()[0].id(), 5);
    assert_eq!(m.accounts()[0].username(), "u");
    assert_eq!(m.accounts()[0].password(), "p");
    assert!(m.connected_accounts().is_empty());
    assert_eq!(m.login("u".to_string(), "p".to_string(), IP), Ok(5));
    let empty = AccountManager::load(None);
    assert!(empty.accounts().is_empty());
}

#[test]
fn new_accounts_get_v4_ids() {
    let a = Account::new("x".to_string(), "y".to_string());
    assert_eq!((a.id() >> 76) & 0xf, 4);
    assert_eq!((a.id() >> 62) & 0x3, 2);
    assert!(a.logs().is_empty());
    assert_eq!(a.username(), "x");
}

#[test]
fn account_file_path_name() {
    let p = Path::from(account_file_path());
    assert_eq!(p.build("S"), "S\\files\\accounts.ron");
}

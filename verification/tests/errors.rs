use muc::server::error::{
    AccountError, AccountLoginError, AccountLogoutError, AccountRegistrationError,
};

#[test]
fn error_texts() {
    assert_eq!(AccountLoginError::InvalidPassword.message(), "Invalid password");
    assert_eq!(AccountLoginError::UnknownUsername.message(), "This username doens't exist");
    assert_eq!(
        AccountLoginError::AlreadyLoggedIn.message(),
        "This account is already being used by another machine"
    );
    assert_eq!(AccountLogoutError::NotLoggedIn.message(), "The user is not logged in");
    assert_eq!(
        AccountLogoutError::UnknownAccount.message(),
        "The given id does not correspond to any account"
    );
    assert_eq!(
        AccountRegistrationError::NameAlreadyInUse("x").message(),
        "The chosen name is already used by another user"
    );
    assert_eq!(AccountError::Login(AccountLoginError::InvalidPassword).message(), "Invalid password");
    assert_eq!(
        AccountError::Logout(AccountLogoutError::NotLoggedIn).message(),
        "The user is not logged in"
    );
}

//! Errors of the server's account operations.

use vstd::prelude::*;

verus! {

/// Why a login was refused.
#[derive(Debug, Clone, Copy, PartialEq, Eq, Structural)]
pub enum AccountLoginError {
    InvalidPassword,
    UnknownUsername,
    AlreadyLoggedIn,
}

/// Why a logout was refused.
#[derive(Debug, Clone, Copy, PartialEq, Eq, Structural)]
pub enum AccountLogoutError {
    NotLoggedIn,
    UnknownAccount,
}

/// Why a registration was refused.
#[derive(Debug, Clone, Copy)]
pub enum AccountRegistrationError {
    NameAlreadyInUse(&'static str),
}

/// Any refused account operation.
#[derive(Debug, Clone, Copy)]
pub enum AccountError {
    Login(AccountLoginError),
    Logout(AccountLogoutError),
    Registration(AccountRegistrationError),
}

pub use crate::shared::error::ChannelError;

/// Any error of the server: of its threads' communication or of an account
/// operation.
#[derive(Debug)]
#[verifier::reject_recursive_types(T)]
pub enum Error<T> {
    Channel(ChannelError<T>),
    Account(AccountError),
}

/// The text shown to a user for a refused login.
pub open spec fn login_error_text(e: AccountLoginError) -> Seq<char> {
    match e {
        AccountLoginError::InvalidPassword => "Invalid password"@,
        AccountLoginError::UnknownUsername => "This username doens't exist"@,
        AccountLoginError::AlreadyLoggedIn => "This account is already being used by another machine"@,
    }
}

/// The text shown to a user for a refused logout.
pub open spec fn logout_error_text(e: AccountLogoutError) -> Seq<char> {
    match e {
        AccountLogoutError::NotLoggedIn => "The user is not logged in"@,
        AccountLogoutError::UnknownAccount => "The given id does not correspond to any account"@,
    }
}

impl AccountLoginError {
    /// The text shown to a user for this refusal.
    pub fn message(&self) -> (r: String)
        ensures
            r@ == login_error_text(*self),
    {
        match self {
            AccountLoginError::InvalidPassword => String::from_str("Invalid password"),
            AccountLoginError::UnknownUsername => String::from_str("This username doens't exist"),
            AccountLoginError::AlreadyLoggedIn => String::from_str(
                "This account is already being used by another machine",
            ),
        }
    }
}

impl AccountLogoutError {
    /// The text shown to a user for this refusal.
    pub fn message(&self) -> (r: String)
        ensures
            r@ == logout_error_text(*self),
    {
        match self {
            AccountLogoutError::NotLoggedIn => String::from_str("The user is not logged in"),
            AccountLogoutError::UnknownAccount => String::from_str(
                "The given id does not correspond to any account",
            ),
        }
    }
}

impl AccountRegistrationError {
    /// The text shown to a user for this refusal.
    pub fn message(&self) -> (r: String)
        ensures
            r@ == "The chosen name is already used by another user"@,
    {
        String::from_str("The chosen name is already used by another user")
    }
}

impl AccountError {
    /// The text of the underlying refusal.
    pub fn message(&self) -> (r: String)
        ensures
            self matches AccountError::Login(e) ==> r@ == login_error_text(*e),
            self matches AccountError::Logout(e) ==> r@ == logout_error_text(*e),
            self is Registration ==> r@ == "The chosen name is already used by another user"@,
    {
        match self {
            AccountError::Login(e) => e.message(),
            AccountError::Logout(e) => e.message(),
            AccountError::Registration(e) => e.message(),
        }
    }
}

} // verus!

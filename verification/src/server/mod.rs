//! The server's logic: accounts, per-user files and client sessions.

pub mod account_manager;
pub mod error;
pub mod file;
pub mod server;
pub mod threading;
pub mod client;

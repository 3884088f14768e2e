//! Multi-user file container: the account, path, file-scan, framing and
//! message-handling logic shared by the server and its clients.

pub mod text;
pub mod shared;
pub mod server;
pub mod client;
pub mod front;

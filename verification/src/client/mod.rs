//! The desktop client's logic: its link to the server and its connection
//! state.

pub mod connection;
pub mod server;

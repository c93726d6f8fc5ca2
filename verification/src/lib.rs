//! Decisions of a small UDP chat: the server keeps the table of joined peers
//! and decides, for every event it sees, what to deliver to whom; the client
//! decides how to answer what it reads from the keyboard and from the server.
//! The sockets, channels and timers that carry these decisions out live in
//! the application around this library.

pub mod common;
pub mod server;
pub mod client;

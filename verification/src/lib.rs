//! Reliable streams over UDP: framing, sessions, and the decisions of the tasks that run them.
pub mod listener;
pub mod protocol;
pub mod sockets;
pub mod stream;
pub mod streams;
pub mod transfer;
pub mod utils;

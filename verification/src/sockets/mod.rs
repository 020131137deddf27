pub mod connection;
pub mod listener;
pub mod runs;

pub use connection::{ConnectConfig, ConnectError};
pub use listener::{AcceptError, BindConfig};

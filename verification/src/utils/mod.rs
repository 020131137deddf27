pub mod addr;
pub mod addr_map;
pub mod buf;
pub mod channel;
pub mod io;
pub mod time;

pub use addr::{SocketAddr, UdpEndpoint};

//! What the server decides, apart from how it talks to the network.

pub mod error;
pub mod route;
pub mod tls;

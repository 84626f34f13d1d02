//! The `quinn-proto` QUIC implementation provider.
//!
//! [Quinn Project](https://github.com/quinn-rs/quinn)

pub mod backend;
pub mod config;
pub mod connection;
pub mod connections;
pub mod io;
pub mod proto;

pub use backend::QuinnBackend;
pub use config::{ClientConfig, Config, ServerConfig};
pub use connection::{Connection, QuinnConnectionId};

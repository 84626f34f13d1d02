//! The logic of the `quiche` QUIC implementation provider.

pub mod backend;
pub mod config;
pub mod connection;
pub mod connections;
pub mod error;
pub mod initial;
pub mod io;
pub mod model;
pub mod session;

pub use backend::QuicheBackend;
pub use config::{ClientConfig, Config, ServerConfig};
pub use connection::{Connection, ConnectionKey, QuicheConnectionId};
pub use connections::Connections;
pub use error::{QuicheError, QuicheErrorKind};

//! QUIC protocol implementation providers and what they share.

pub mod cid;
pub mod error;
pub mod event;
pub mod firewall;
pub mod quiche;
pub mod quinn;
pub mod token;
pub mod util;

pub use cid::{ConnectionId, ConnectionIdGenerator, IdError, MAX_CID_LEN};
pub use error::Error;
pub use event::{
    BackendEvents, ConnectionEvent, DatagramEvent, Event, HaltKind, OutEvents, StreamEvent,
};
pub use firewall::{Firewall, StrictFirewall};
pub use token::{Token, TokenError, TokenGenerator, TokenKind};

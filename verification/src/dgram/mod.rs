//! [An Unreliable Datagram Extension to QUIC](https://datatracker.ietf.org/doc/html/rfc9221)

pub mod codec;
pub mod error;
pub mod incoming;
pub mod outgoing;

pub use codec::{Decoder, Encoder};
pub use error::{DgramClosePlan, Error};
pub use incoming::{Batch, Incoming};
pub use outgoing::Outgoing;

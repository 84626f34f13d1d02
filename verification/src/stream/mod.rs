//! QUIC streams: identifiers, payloads and priorities, and what stands between a QUIC backend
//! and an application for a single stream direction.

pub mod close;
pub mod codec;
pub mod error;
pub mod id;
pub mod incoming;
pub mod outgoing;
pub mod payload;
pub mod priority;

pub use close::{AppNotice, BackendNotice, ClosePlan, Level, SpanNotice};
pub use codec::{Decoder, Encoder};
pub use error::Error;
pub use id::{StreamId, StreamIdError};
pub use incoming::{InStep, Incoming};
pub use outgoing::Outgoing;
pub use payload::Payload;
pub use priority::Priority;

//! The states of channels.
//!
//! Each half of a channel shares a state with the other one, and is woken up when it changes.

pub mod dgram;
pub mod oneshot;
pub mod rpc;

pub use oneshot::{SendError, TryRecvError, TrySendError};

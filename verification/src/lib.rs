//! `aquic`, Adapter QUIC: the state machines, buffers and rules of a QUIC
//! protocol library that is agnostic of the QUIC implementation, of the
//! asynchronous runtime and of the platform.
//!
//! Nothing in this crate performs I/O, sleeps or spawns a task: each state
//! machine is driven by an I/O loop outside of it.

pub mod backend;
pub mod dgram;
pub mod estimate;
pub mod net;
pub mod stream;
pub mod support;
pub mod sync;
pub mod time;
pub mod util;

pub use estimate::Estimate;

//! Utilities.

pub mod crypto;
pub mod data;
pub mod describe;
pub mod octets;
pub(crate) mod random;
pub mod text;
pub mod trace;

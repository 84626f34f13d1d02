//! QUIC tokens: `Retry`, identity and `Stateless Reset` ones.

pub mod padded;
pub mod reset;
pub mod types;

pub use padded::{PaddedTokenGenerator, TokenAead, TokenHmac};
pub use reset::write_stateless_reset_packet;
pub use types::{Token, TokenError, TokenGenerator, TokenKind, TokenModel};

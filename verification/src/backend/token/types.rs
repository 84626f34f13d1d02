use crate::backend::cid::{ConnectionId, MAX_CID_LEN};
use crate::net::IpAddr;
use crate::time::{SystemTime, NANOS_PER_MILLI};
use crate::util::text;
use vstd::prelude::*;
use vstd::string::StringExecFns;

verus! {

/// A QUIC tokens generator, that is able to generate and verify:
/// - `Initial` tokens.
/// - `Stateless Reset` tokens.
pub trait TokenGenerator: Sized {
    /// [`generate_retry_token()`][TokenGenerator::generate_retry_token] may return `token`,
    /// and turn `before` into `after`.
    open spec fn may_generate_retry(
        before: Self,
        peer_addr: IpAddr,
        peer_scid: Seq<u8>,
        peer_dcid: Seq<u8>,
        server_new_scid: Seq<u8>,
        expires_at: SystemTime,
        token: Option<Seq<u8>>,
        after: Self,
    ) -> bool {
        true
    }

    /// [`generate_identity_token()`][TokenGenerator::generate_identity_token] may return `token`,
    /// and turn `before` into `after`.
    open spec fn may_generate_identity(
        before: Self,
        peer_addr: IpAddr,
        expires_at: SystemTime,
        token: Seq<u8>,
        after: Self,
    ) -> bool {
        true
    }

    /// [`generate_reset_token()`][TokenGenerator::generate_reset_token] may return `token`,
    /// and turn `before` into `after`.
    open spec fn may_generate_reset(
        before: Self,
        server_scid: Seq<u8>,
        token: Seq<u8>,
        after: Self,
    ) -> bool {
        true
    }

    /// [`verify_token()`][TokenGenerator::verify_token] may say `said` of a token,
    /// and turn `before` into `after`.
    open spec fn may_verify(
        before: Self,
        peer_addr: IpAddr,
        peer_scid: Seq<u8>,
        peer_dcid: Seq<u8>,
        token: Seq<u8>,
        now: SystemTime,
        said: Result<TokenModel, TokenError>,
        after: Self,
    ) -> bool {
        true
    }

    /// Generates a unique, random `Retry` token.
    ///
    /// This token is going to be used to craft a `Retry` packet with it,
    /// and also to verify peer's identity receiving this token back.
    ///
    /// Generated token must follow the [RFC 9000](https://datatracker.ietf.org/doc/html/rfc9000) requirements.
    ///
    /// Returns `None` if any of the provided connection IDs is longer than [MAX_CID_LEN].
    fn generate_retry_token(
        &mut self,
        peer_addr: IpAddr,
        peer_scid: &[u8],
        peer_dcid: &[u8],
        server_new_scid: &[u8],
        expires_at: SystemTime,
    ) -> (r: Option<&[u8]>)
        ensures
            r is Some <==> peer_scid@.len() <= MAX_CID_LEN && peer_dcid@.len() <= MAX_CID_LEN
                && server_new_scid@.len() <= MAX_CID_LEN,
            Self::may_generate_retry(
                *old(self),
                peer_addr,
                peer_scid@,
                peer_dcid@,
                server_new_scid@,
                expires_at,
                match r {
                    Some(token) => Some(token@),
                    None => None,
                },
                *final(self),
            ),
    ;

    /// Generates a unique, random Identity token.
    ///
    /// This token is going to be used to craft a `NEW_TOKEN` frame with it,
    /// and also to verify peer's identity receiving this token back.
    ///
    /// Generated token must follow the [RFC 9000](https://datatracker.ietf.org/doc/html/rfc9000) requirements.
    fn generate_identity_token(&mut self, peer_addr: IpAddr, expires_at: SystemTime) -> (r: &[u8])
        ensures
            Self::may_generate_identity(*old(self), peer_addr, expires_at, r@, *final(self)),
    ;

    /// Generates a [Stateless Reset](https://datatracker.ietf.org/doc/html/rfc9000#stateless-reset).
    ///
    /// Generated token must follow the [RFC 9000](https://datatracker.ietf.org/doc/html/rfc9000) requirements.
    fn generate_reset_token(&mut self, server_scid: &[u8]) -> (r: [u8; 16])
        ensures
            Self::may_generate_reset(*old(self), server_scid@, r@, *final(self)),
    ;

    /// Verifies a token that was attached to an `Initial` packet.
    ///
    /// It may be one of the `Retry` or `Identity` tokens.
    fn verify_token(
        &mut self,
        peer_addr: IpAddr,
        peer_scid: &[u8],
        peer_dcid: &[u8],
        token: &[u8],
        now: SystemTime,
    ) -> (r: Result<Token, TokenError>)
        ensures
            Self::may_verify(
                *old(self),
                peer_addr,
                peer_scid@,
                peer_dcid@,
                token@,
                now,
                verdict(r),
                *final(self),
            ),
    ;
}

/// `Initial` packet token kind.
#[derive(Debug, Clone, Copy, PartialEq, Eq, Structural)]
pub enum TokenKind {
    /// Single-use `Retry` token.
    Retry,
    /// General use token for peer's identity verification.
    Identity,
}

impl TokenKind {
    /// The name of the kind.
    pub open spec fn spec_name(self) -> Seq<char> {
        match self {
            TokenKind::Retry => "retry token"@,
            TokenKind::Identity => "identity token"@,
        }
    }

    /// Returns the name of the kind.
    pub fn name(self) -> (r: &'static str)
        ensures
            r@ == self.spec_name(),
    {
        match self {
            TokenKind::Retry => "retry token",
            TokenKind::Identity => "identity token",
        }
    }
}

/// An `Initial` token verification error.
#[derive(Debug, Clone, Copy, PartialEq, Eq, Structural)]
pub enum TokenError {
    /// Provided token is invalid, and may be malicious.
    Invalid,
    /// Provided token is valid, but expired.
    ///
    /// Contains token kind and expiration time.
    Expired(TokenKind, SystemTime),
}

/// Whole milliseconds since the Unix epoch, zero before it.
pub open spec fn millis_since_epoch(time: SystemTime) -> nat {
    if time.nanos < 0 {
        0
    } else {
        time.nanos as nat / NANOS_PER_MILLI as nat
    }
}

impl TokenError {
    /// The description of the error.
    pub open spec fn spec_message(self) -> Seq<char> {
        match self {
            TokenError::Invalid => "token is invalid"@,
            TokenError::Expired(kind, expired_at) => "token "@ + kind.spec_name()
                + " was expired at "@ + text::decimal(millis_since_epoch(expired_at)),
        }
    }

    /// Returns the description of the error.
    pub fn message(&self) -> (r: String)
        ensures
            r@ == self.spec_message(),
    {
        let mut out = String::new();
        match *self {
            TokenError::Invalid => {
                out.append("token is invalid");
                assert(out@ =~= self.spec_message());
            },
            TokenError::Expired(kind, expired_at) => {
                let millis: u128 = if expired_at.nanos < 0 {
                    0
                } else {
                    expired_at.nanos as u128 / NANOS_PER_MILLI
                };
                out.append("token ");
                out.append(kind.name());
                out.append(" was expired at ");
                text::push_decimal(&mut out, millis);
                assert(out@ =~= self.spec_message());
            },
        }
        out
    }
}

/// A decrypted and verified `Initial` token.
#[derive(Debug, Clone, PartialEq, Eq)]
pub enum Token {
    /// Retry token.
    Retry {
        /// The destination connection ID of the peer's first packet.
        peer_original_dcid: ConnectionId,
        /// Expiration time.
        expires_at: SystemTime,
    },
    /// Token, that client might use to start a new QUIC connection
    /// without verifying its identity (source address) with `Retry` again.
    ///
    /// This token **may** be [reused multiple times](https://datatracker.ietf.org/doc/html/rfc9000#section-8.1.3-8).
    ///
    /// **Security Note**: it doesn't provide 100% guarantee of peer's identity.
    Identity {
        /// Expiration time.
        expires_at: SystemTime,
    },
}

/// What a verified token says.
#[verifier::ext_equal]
pub enum TokenModel {
    Retry { peer_original_dcid: Seq<u8>, expires_at: SystemTime },
    Identity { expires_at: SystemTime },
}

impl Token {
    /// What the token says.
    pub open spec fn model(&self) -> TokenModel {
        match *self {
            Token::Retry { peer_original_dcid, expires_at } => TokenModel::Retry {
                peer_original_dcid: peer_original_dcid@,
                expires_at,
            },
            Token::Identity { expires_at } => TokenModel::Identity { expires_at },
        }
    }

    /// The expiration time.
    pub open spec fn spec_expires_at(&self) -> SystemTime {
        match *self {
            Token::Retry { expires_at, .. } => expires_at,
            Token::Identity { expires_at } => expires_at,
        }
    }

    /// Returns token's expiration time.
    pub fn expires_at(&self) -> (r: SystemTime)
        ensures
            r == self.spec_expires_at(),
    {
        match self {
            Token::Retry { expires_at, .. } => *expires_at,
            Token::Identity { expires_at } => *expires_at,
        }
    }
}

/// What a verification says.
pub open spec fn verdict(r: Result<Token, TokenError>) -> Result<TokenModel, TokenError> {
    match r {
        Ok(token) => Ok(token.model()),
        Err(error) => Err(error),
    }
}

/// What is said of a token is what the token holds: the time at which it expires, and the
/// connection ID that the peer has used at first.
pub proof fn law_tokens_say_what_they_hold(token: Token, error: TokenError)
    ensures
        verdict(Err(error)) == Err::<TokenModel, TokenError>(error),
        verdict(Ok(token)) is Ok,
        verdict(Ok(token)) matches Ok(TokenModel::Retry { peer_original_dcid, expires_at }) ==> (
        token matches Token::Retry { peer_original_dcid: dcid, expires_at: at }
            && peer_original_dcid == dcid@ && expires_at == at && token.spec_expires_at() == at),
        verdict(Ok(token)) matches Ok(TokenModel::Identity { expires_at }) ==> (
        token matches Token::Identity { expires_at: at } && expires_at == at
            && token.spec_expires_at() == at),
{
}

/// The description of an error tells when a token has expired, in milliseconds since
/// the Unix epoch.
pub proof fn law_descriptions_tell_the_token(kind: TokenKind, expired_at: SystemTime)
    ensures
        TokenError::Invalid.spec_message() == "token is invalid"@,
        TokenError::Expired(kind, expired_at).spec_message() == "token "@ + (match kind {
            TokenKind::Retry => "retry token"@,
            TokenKind::Identity => "identity token"@,
        }) + " was expired at "@ + text::decimal(millis_since_epoch(expired_at)),
        expired_at.nanos < 0 ==> millis_since_epoch(expired_at) == 0,
        expired_at.nanos >= 0 ==> millis_since_epoch(expired_at) * 1_000_000 <= expired_at.nanos < (
        millis_since_epoch(expired_at) + 1) * 1_000_000,
{
}

} // verus!

use crate::backend::cid::{ConnectionId, MAX_CID_LEN};
use crate::backend::token::types;
use crate::backend::token::{Token, TokenError, TokenGenerator, TokenKind, TokenModel};
use crate::net::addr;
use crate::net::IpAddr;
use crate::time::{SystemTime, NANOS_PER_MILLI};
use crate::util::{octets, random};
use vstd::prelude::*;

verus! {

/// An AEAD algorithm with its keys.
///
/// The nonce and the authentication tag travel with the ciphertext.
pub trait TokenAead: Sized {
    /// [`encrypt_and_pack()`][TokenAead::encrypt_and_pack] may turn `plaintext` into `packed`,
    /// and `before` into `after`.
    open spec fn may_pack(
        before: Self,
        associated_data: Seq<u8>,
        plaintext: Seq<u8>,
        packed: Seq<u8>,
        after: Self,
    ) -> bool {
        true
    }

    /// [`unpack_and_decrypt()`][TokenAead::unpack_and_decrypt] may turn `packed` into `plaintext`,
    /// `None` if it fails, and `before` into `after`.
    open spec fn may_unpack(
        before: Self,
        associated_data: Seq<u8>,
        packed: Seq<u8>,
        plaintext: Option<Seq<u8>>,
        after: Self,
    ) -> bool {
        true
    }

    /// Encrypts `plaintext` in place and packs it with its nonce and its authentication tag,
    /// which covers `associated_data` too.
    fn encrypt_and_pack(&mut self, associated_data: &[u8], plaintext: &mut Vec<u8>)
        ensures
            Self::may_pack(
                *old(self),
                associated_data@,
                old(plaintext)@,
                final(plaintext)@,
                *final(self),
            ),
    ;

    /// Unpacks and decrypts `packed` in place.
    ///
    /// Returns `false` if the authentication tag does not fit it and `associated_data`.
    fn unpack_and_decrypt(&mut self, associated_data: &[u8], packed: &mut Vec<u8>) -> (r: bool)
        ensures
            Self::may_unpack(
                *old(self),
                associated_data@,
                old(packed)@,
                if r {
                    Some(final(packed)@)
                } else {
                    None
                },
                *final(self),
            ),
    ;
}

/// A HMAC algorithm with its keys, the outputs of which have at least sixteen bytes.
pub trait TokenHmac: Sized {
    /// [`compute()`][TokenHmac::compute] may return `hash`, and turn `before` into `after`.
    open spec fn may_compute(before: Self, data: Seq<u8>, hash: Seq<u8>, after: Self) -> bool {
        true
    }

    /// [`verify()`][TokenHmac::verify] may return `is_valid`, and turn `before` into `after`.
    open spec fn may_confirm(
        before: Self,
        data: Seq<u8>,
        hash: Seq<u8>,
        is_valid: bool,
        after: Self,
    ) -> bool {
        true
    }

    /// Returns the first sixteen bytes of the HMAC of `data`.
    fn compute(&mut self, data: &[u8]) -> (r: [u8; 16])
        ensures
            Self::may_compute(*old(self), data@, r@, *final(self)),
    ;

    /// Returns `true` if `hash` is the first sixteen bytes of a HMAC of `data`,
    /// with the active key or with a passive one.
    fn verify(&mut self, data: &[u8], hash: &[u8; 16]) -> (r: bool)
        ensures
            Self::may_confirm(*old(self), data@, hash@, r, *final(self)),
    ;
}

/// A padded QUIC token generator: all resulting tokens have the same length
/// and are highly obscure.
///
/// # Retry token
///
/// Structure:
/// ```text
/// Retry {
///   Peer Original DCID (0..160),
///   Padding (0..160),
///   Padding Length (8),
///   Expires At (64),
///   Auth Tag (?),
///   Nonce (?)
/// }
/// ```
///
/// `Auth Tag` also covers the next associated data fields:
/// - `Kind (Retry)`,
/// - `Peer Address`,
/// - `Peer Source Connection ID`,
/// - `Server New Source Connection ID`.
///
/// # Identity token
///
/// Structure:
/// ```text
/// Identity {
///   Padding (160),
///   Padding Length (8),
///   Expires At (64),
///   Auth Tag (?),
///   Nonce (?)
/// }
/// ```
///
/// `Auth Tag` also covers the next associated data fields:
/// - `Kind (Identity)`,
/// - `Peer Address`.
///
/// # Stateless Reset token
///
/// Uses HMAC function on server SCID.
pub struct PaddedTokenGenerator<A, M> {
    plaintext_buffer: Vec<u8>,
    associated_data_buffer: Vec<u8>,
    aead: A,
    hmac: M,
}

/// The byte that stands for a token kind.
pub open spec fn kind_byte(kind: TokenKind) -> u8 {
    match kind {
        TokenKind::Retry => 0,
        TokenKind::Identity => 255,
    }
}

/// `n` zero bytes.
pub open spec fn zeros(n: nat) -> Seq<u8> {
    Seq::new(n, |i: int| 0u8)
}

/// Padding, with its length behind it.
pub open spec fn padding_field(padding: Seq<u8>) -> Seq<u8> {
    padding.push(padding.len() as u8)
}

/// `data`, padded with zeros to `width` bytes.
pub open spec fn padded(data: Seq<u8>, width: nat) -> Seq<u8> {
    data + padding_field(zeros((width - data.len()) as nat))
}

/// The associated data of a `Retry` token.
pub open spec fn retry_associated_data(peer_addr: IpAddr, scid: Seq<u8>, dcid: Seq<u8>) -> Seq<u8> {
    seq![kind_byte(TokenKind::Retry)] + padded(peer_addr.octets(), 16) + padded(
        scid,
        MAX_CID_LEN as nat,
    ) + dcid
}

/// The associated data of an identity token.
pub open spec fn identity_associated_data(peer_addr: IpAddr) -> Seq<u8> {
    seq![kind_byte(TokenKind::Identity)] + peer_addr.octets()
}

/// The milliseconds that a token holds for an expiration time:
/// zero if they are before the Unix epoch or too many.
pub open spec fn token_millis(time: SystemTime) -> nat {
    if time.nanos >= 0 && time.nanos as int / NANOS_PER_MILLI as int <= u64::MAX {
        (time.nanos as int / NANOS_PER_MILLI as int) as nat
    } else {
        0
    }
}

/// The time that milliseconds since the Unix epoch stand for.
pub open spec fn time_of_millis(millis: nat) -> SystemTime {
    SystemTime { nanos: (millis * NANOS_PER_MILLI) as i128 }
}

/// The plaintext of a token: a connection ID, padding and the expiration time.
pub open spec fn token_plaintext(dcid: Seq<u8>, padding: Seq<u8>, millis: nat) -> Seq<u8> {
    dcid + padding_field(padding) + octets::be_bytes(millis, 8)
}

/// The expiration time of a plaintext, `None` if it is too short.
pub open spec fn plaintext_expiry(plaintext: Seq<u8>) -> Option<SystemTime> {
    if plaintext.len() < 8 {
        None
    } else {
        Some(time_of_millis(octets::be_value(plaintext.skip(plaintext.len() - 8))))
    }
}

/// What is in front of the padding at the end of data, `None` if there is no such padding.
pub open spec fn unpadded(data: Seq<u8>) -> Option<Seq<u8>> {
    if data.len() == 0 || data.len() - 1 < data.last() {
        None
    } else {
        Some(data.take(data.len() - 1 - data.last()))
    }
}

/// What is in front of the padding of a plaintext, `None` if there is no such padding.
pub open spec fn plaintext_body(plaintext: Seq<u8>) -> Option<Seq<u8>> {
    if plaintext.len() < 8 {
        None
    } else {
        unpadded(plaintext.take(plaintext.len() - 8))
    }
}

/// What a decrypted `Retry` token says at a time.
pub open spec fn read_retry(plaintext: Seq<u8>, now: SystemTime) -> Result<TokenModel, TokenError> {
    match plaintext_expiry(plaintext) {
        None => Err(TokenError::Invalid),
        Some(expires_at) => if expires_at.nanos < now.nanos {
            Err(TokenError::Expired(TokenKind::Retry, expires_at))
        } else {
            match plaintext_body(plaintext) {
                Some(peer_original_dcid) if peer_original_dcid.len() <= MAX_CID_LEN => Ok(
                    TokenModel::Retry { peer_original_dcid, expires_at },
                ),
                _ => Err(TokenError::Invalid),
            }
        },
    }
}

/// What a decrypted identity token says at a time.
pub open spec fn read_identity(plaintext: Seq<u8>, now: SystemTime) -> Result<
    TokenModel,
    TokenError,
> {
    match plaintext_expiry(plaintext) {
        None => Err(TokenError::Invalid),
        Some(expires_at) => if expires_at.nanos < now.nanos {
            Err(TokenError::Expired(TokenKind::Identity, expires_at))
        } else {
            match plaintext_body(plaintext) {
                Some(body) if body.len() == 0 => Ok(TokenModel::Identity { expires_at }),
                _ => Err(TokenError::Invalid),
            }
        },
    }
}

/// What is said of a token, given its plaintext as an identity token and as a `Retry` token,
/// `None` where the token could not be decrypted as such.
pub open spec fn read_token(
    identity: Option<Seq<u8>>,
    retry: Option<Seq<u8>>,
    now: SystemTime,
) -> Result<TokenModel, TokenError> {
    let as_identity = match identity {
        Some(plaintext) => read_identity(plaintext, now),
        None => Err(TokenError::Invalid),
    };
    if as_identity != Err::<TokenModel, TokenError>(TokenError::Invalid) {
        as_identity
    } else {
        match retry {
            Some(plaintext) => read_retry(plaintext, now),
            None => Err(TokenError::Invalid),
        }
    }
}

/// A verification of `token` may say `said`, and turn `before` into `after`.
///
/// The token is tried as an identity token first, and then as a `Retry` token.
pub open spec fn may_verify<A: TokenAead>(
    before: A,
    peer_addr: IpAddr,
    peer_scid: Seq<u8>,
    peer_dcid: Seq<u8>,
    token: Seq<u8>,
    now: SystemTime,
    said: Result<TokenModel, TokenError>,
    after: A,
) -> bool {
    if token.len() == 0 || peer_scid.len() > MAX_CID_LEN || peer_dcid.len() > MAX_CID_LEN {
        said == Err::<TokenModel, TokenError>(TokenError::Invalid) && after == before
    } else {
        exists|identity: Option<Seq<u8>>, retry: Option<Seq<u8>>, between: A|
            {
                &&& #[trigger] A::may_unpack(
                    before,
                    identity_associated_data(peer_addr),
                    token,
                    identity,
                    between,
                )
                &&& #[trigger] may_verify_retry(
                    between,
                    retry_associated_data(peer_addr, peer_scid, peer_dcid),
                    token,
                    read_token(identity, None, now),
                    retry,
                    after,
                )
                &&& said == read_token(identity, retry, now)
            }
    }
}

/// A token that was tried as an identity token, with the result `as_identity`, may be decrypted
/// as a `Retry` token, if it was invalid.
pub open spec fn may_verify_retry<A: TokenAead>(
    before: A,
    associated_data: Seq<u8>,
    token: Seq<u8>,
    as_identity: Result<TokenModel, TokenError>,
    retry: Option<Seq<u8>>,
    after: A,
) -> bool {
    if as_identity == Err::<TokenModel, TokenError>(TokenError::Invalid) {
        A::may_unpack(before, associated_data, token, retry, after)
    } else {
        retry is None && after == before
    }
}

fn write_kind(kind: TokenKind, out: &mut Vec<u8>)
    ensures
        final(out)@ == old(out)@.push(kind_byte(kind)),
{
    let byte: u8 = match kind {
        TokenKind::Retry => 0,
        TokenKind::Identity => 255,
    };
    out.push(byte);
}

/// Writes padding, and how long it is.
pub fn write_padding(padding: &[u8], out: &mut Vec<u8>)
    requires
        padding@.len() <= 255,
    ensures
        final(out)@ == old(out)@ + padding_field(padding@),
{
    out.extend_from_slice(padding);
    out.push(padding.len() as u8);
    assert(out@ =~= old(out)@ + padding_field(padding@));
}

fn write_zero_padding(length: usize, out: &mut Vec<u8>)
    requires
        length <= 255,
    ensures
        final(out)@ == old(out)@ + padding_field(zeros(length as nat)),
{
    let mut padding: Vec<u8> = Vec::new();
    padding.resize(length, 0);
    assert(padding@ =~= zeros(length as nat));
    write_padding(padding.as_slice(), out);
}

/// Writes the associated data of a `Retry` token.
pub fn write_retry_associated_data(peer_addr: IpAddr, scid: &[u8], dcid: &[u8], out: &mut Vec<u8>)
    requires
        scid@.len() <= MAX_CID_LEN,
    ensures
        final(out)@ == retry_associated_data(peer_addr, scid@, dcid@),
{
    out.clear();
    write_kind(TokenKind::Retry, out);
    peer_addr.write_octets(out);
    proof {
        lemma_octets_len(peer_addr);
    }
    write_zero_padding(16 - length_of_ip_addr(peer_addr), out);
    out.extend_from_slice(scid);
    write_zero_padding(MAX_CID_LEN - scid.len(), out);
    // No need for padding behind the last field.
    //
    // Padding is used here to not let the attacker to do something like this:
    // - token data: [scid: empty, dcid: 12345]
    // - QUIC packet: [scid: 123, dcid: 45]
    out.extend_from_slice(dcid);
    assert(out@ =~= retry_associated_data(peer_addr, scid@, dcid@));
}

/// Writes the associated data of an identity token.
pub fn write_identity_associated_data(peer_addr: IpAddr, out: &mut Vec<u8>)
    ensures
        final(out)@ == identity_associated_data(peer_addr),
{
    out.clear();
    write_kind(TokenKind::Identity, out);
    peer_addr.write_octets(out);
    assert(out@ =~= identity_associated_data(peer_addr));
}

/// Writes the plaintext of a token, with the given padding.
pub fn write_plaintext_data(
    original_peer_dcid: &[u8],
    padding: &[u8],
    expires_at: SystemTime,
    out: &mut Vec<u8>,
)
    requires
        padding@.len() <= 255,
    ensures
        final(out)@ == token_plaintext(original_peer_dcid@, padding@, token_millis(expires_at)),
{
    out.clear();
    out.extend_from_slice(original_peer_dcid);
    write_padding(padding, out);
    let millis: u64 = match to_millis(expires_at) {
        Some(millis) => millis,
        None => 0,
    };
    octets::push_be(out, millis as u128, 8);
    assert(out@ =~= token_plaintext(original_peer_dcid@, padding@, token_millis(expires_at)));
}

fn drain_millis(token: &mut Vec<u8>) -> (r: Result<u64, TokenError>)
    ensures
        r is Ok <==> old(token)@.len() >= 8,
        r matches Ok(millis) ==> millis == octets::be_value(
            old(token)@.skip(old(token)@.len() - 8),
        ) && final(token)@ == old(token)@.take(old(token)@.len() - 8),
        r matches Err(error) ==> error == TokenError::Invalid,
{
    if token.len() < 8 {
        return Err(TokenError::Invalid);
    }
    let start: usize = token.len() - 8;
    let tail: Vec<u8> = token.split_off(start);
    assert(tail@ =~= old(token)@.skip(start as int));
    assert(token@ =~= old(token)@.take(start as int));
    proof {
        octets::lemma_be_value_u64(tail@);
    }
    Ok(octets::read_be(tail.as_slice()) as u64)
}

/// Removes the padding at the end of data.
///
/// Returns [TokenError::Invalid] if there is no such padding.
pub fn drain_padding(token: &mut Vec<u8>) -> (r: Result<(), TokenError>)
    ensures
        r is Ok <==> unpadded(old(token)@) is Some,
        r is Ok ==> unpadded(old(token)@) == Some(final(token)@),
        r matches Err(error) ==> error == TokenError::Invalid,
{
    let Some(length) = token.pop() else {
        return Err(TokenError::Invalid);
    };
    if token.len() < length as usize {
        return Err(TokenError::Invalid);
    }
    let rest: usize = token.len() - length as usize;
    token.truncate(rest);
    assert(token@ =~= old(token)@.take(rest as int));
    Ok(())
}

fn to_millis(sys_time: SystemTime) -> (r: Option<u64>)
    ensures
        token_millis(sys_time) == (match r {
            Some(millis) => millis as nat,
            None => 0,
        }),
{
    if sys_time.nanos < 0 {
        return None;
    }
    let millis: u128 = sys_time.nanos as u128 / NANOS_PER_MILLI;
    if millis <= u64::MAX as u128 {
        Some(millis as u64)
    } else {
        None
    }
}

fn to_systime(timestamp: u64) -> (r: SystemTime)
    ensures
        r == time_of_millis(timestamp as nat),
        r.nanos == timestamp * NANOS_PER_MILLI,
{
    SystemTime { nanos: (timestamp as u128 * NANOS_PER_MILLI) as i128 }
}

fn length_of_ip_addr(addr: IpAddr) -> (r: usize)
    ensures
        r == addr.octets().len(),
{
    proof {
        lemma_octets_len(addr);
    }
    if addr.is_ipv4() {
        4
    } else {
        16
    }
}

/// Reads a decrypted `Retry` token.
pub fn extract_retry_plaintext_data(plaintext: Vec<u8>, now: SystemTime) -> (r: Result<
    Token,
    TokenError,
>)
    ensures
        types::verdict(r) == read_retry(plaintext@, now),
{
    let mut buf = plaintext;
    let expires_at: SystemTime = match drain_millis(&mut buf) {
        Ok(millis) => to_systime(millis),
        Err(error) => {
            return Err(error);
        },
    };
    if expires_at.nanos < now.nanos {
        return Err(TokenError::Expired(TokenKind::Retry, expires_at));
    }
    if let Err(error) = drain_padding(&mut buf) {
        return Err(error);
    }
    let Some(peer_original_dcid) = ConnectionId::try_from_iter(buf.into_iter()) else {
        return Err(TokenError::Invalid);
    };
    Ok(Token::Retry { peer_original_dcid, expires_at })
}

/// Reads a decrypted identity token.
pub fn extract_identity_plaintext_data(plaintext: Vec<u8>, now: SystemTime) -> (r: Result<
    Token,
    TokenError,
>)
    ensures
        types::verdict(r) == read_identity(plaintext@, now),
{
    let mut buf = plaintext;
    let expires_at: SystemTime = match drain_millis(&mut buf) {
        Ok(millis) => to_systime(millis),
        Err(error) => {
            return Err(error);
        },
    };
    if expires_at.nanos < now.nanos {
        return Err(TokenError::Expired(TokenKind::Identity, expires_at));
    }
    if let Err(error) = drain_padding(&mut buf) {
        return Err(error);
    }
    if buf.len() != 0 {
        return Err(TokenError::Invalid);
    }
    Ok(Token::Identity { expires_at })
}

proof fn lemma_octets_len(addr: IpAddr)
    ensures
        addr.octets().len() == if addr is V4 {
            4nat
        } else {
            16
        },
{
    match addr {
        IpAddr::V4(ip) => octets::lemma_be_bytes_len(ip as nat, 4),
        IpAddr::V6(ip) => octets::lemma_be_bytes_len(ip as nat, 16),
    }
}

impl<A: TokenAead, M: TokenHmac> PaddedTokenGenerator<A, M> {
    /// Creates a new instance of `PaddedTokenGenerator`.
    /// - AEAD is used for `Retry` packet and `NEW_TOKEN` frame tokens.
    /// - HMAC is used for reset tokens.
    pub fn new(aead: A, hmac: M) -> (r: Self)
        ensures
            r.algorithms() == (aead, hmac),
    {
        Self { plaintext_buffer: Vec::new(), associated_data_buffer: Vec::new(), aead, hmac }
    }

    /// The algorithms of the generator.
    pub closed spec fn algorithms(&self) -> (A, M) {
        (self.aead, self.hmac)
    }

    /// Verifies a `Stateless Reset` token of a connection ID.
    pub fn verify_reset_token(&mut self, server_scid: &[u8], token: &[u8; 16]) -> (r: Result<
        (),
        TokenError,
    >)
        ensures
            may_verify_reset(
                old(self).algorithms().1,
                server_scid@,
                token@,
                r,
                final(self).algorithms().1,
            ),
            final(self).algorithms().0 == old(self).algorithms().0,
    {
        if self.hmac.verify(server_scid, token) {
            Ok(())
        } else {
            Err(TokenError::Invalid)
        }
    }

    /// Decrypts what is in the plaintext buffer, with what is in the associated data buffer.
    fn decrypt(&mut self) -> (r: Option<Vec<u8>>)
        ensures
            A::may_unpack(
                old(self).aead,
                old(self).associated_data_buffer@,
                old(self).plaintext_buffer@,
                match r {
                    Some(plaintext) => Some(plaintext@),
                    None => None,
                },
                final(self).aead,
            ),
            final(self).hmac == old(self).hmac,
    {
        let mut plaintext: Vec<u8> = Vec::new();
        core::mem::swap(&mut plaintext, &mut self.plaintext_buffer);
        if self.aead.unpack_and_decrypt(self.associated_data_buffer.as_slice(), &mut plaintext) {
            Some(plaintext)
        } else {
            None
        }
    }

    fn verify_retry_token(
        &mut self,
        peer_addr: IpAddr,
        peer_scid: &[u8],
        peer_dcid: &[u8],
        now: SystemTime,
    ) -> (r: Result<Token, TokenError>)
        requires
            peer_scid@.len() <= MAX_CID_LEN,
        ensures
            exists|retry: Option<Seq<u8>>|
                {
                    &&& #[trigger] A::may_unpack(
                        old(self).aead,
                        retry_associated_data(peer_addr, peer_scid@, peer_dcid@),
                        old(self).plaintext_buffer@,
                        retry,
                        final(self).aead,
                    )
                    &&& types::verdict(r) == read_token(None, retry, now)
                },
            final(self).hmac == old(self).hmac,
    {
        write_retry_associated_data(
            peer_addr,
            peer_scid,
            peer_dcid,
            &mut self.associated_data_buffer,
        );
        match self.decrypt() {
            Some(plaintext) => extract_retry_plaintext_data(plaintext, now),
            None => Err(TokenError::Invalid),
        }
    }

    fn verify_identity_token(&mut self, peer_addr: IpAddr, now: SystemTime) -> (r: Result<
        Token,
        TokenError,
    >)
        ensures
            exists|identity: Option<Seq<u8>>|
                {
                    &&& #[trigger] A::may_unpack(
                        old(self).aead,
                        identity_associated_data(peer_addr),
                        old(self).plaintext_buffer@,
                        identity,
                        final(self).aead,
                    )
                    &&& types::verdict(r) == read_token(identity, None, now)
                },
            final(self).hmac == old(self).hmac,
    {
        write_identity_associated_data(peer_addr, &mut self.associated_data_buffer);
        match self.decrypt() {
            Some(plaintext) => extract_identity_plaintext_data(plaintext, now),
            None => Err(TokenError::Invalid),
        }
    }
}

impl<A: TokenAead, M: TokenHmac> TokenGenerator for PaddedTokenGenerator<A, M> {
    /// The plaintext of the token is encrypted together with its associated data.
    open spec fn may_generate_retry(
        before: Self,
        peer_addr: IpAddr,
        peer_scid: Seq<u8>,
        peer_dcid: Seq<u8>,
        server_new_scid: Seq<u8>,
        expires_at: SystemTime,
        token: Option<Seq<u8>>,
        after: Self,
    ) -> bool {
        &&& after.algorithms().1 == before.algorithms().1
        &&& match token {
            Some(token) => exists|padding: Seq<u8>|
                {
                    &&& peer_dcid.len() + padding.len() == MAX_CID_LEN
                    &&& A::may_pack(
                        before.algorithms().0,
                        retry_associated_data(peer_addr, peer_scid, server_new_scid),
                        #[trigger] token_plaintext(peer_dcid, padding, token_millis(expires_at)),
                        token,
                        after.algorithms().0,
                    )
                },
            None => after.algorithms() == before.algorithms(),
        }
    }

    /// The plaintext of the token is encrypted together with its associated data.
    open spec fn may_generate_identity(
        before: Self,
        peer_addr: IpAddr,
        expires_at: SystemTime,
        token: Seq<u8>,
        after: Self,
    ) -> bool {
        &&& after.algorithms().1 == before.algorithms().1
        &&& exists|padding: Seq<u8>|
            {
                &&& padding.len() == MAX_CID_LEN
                &&& A::may_pack(
                    before.algorithms().0,
                    identity_associated_data(peer_addr),
                    #[trigger] token_plaintext(Seq::empty(), padding, token_millis(expires_at)),
                    token,
                    after.algorithms().0,
                )
            }
    }

    /// The token is a HMAC of the connection ID.
    open spec fn may_generate_reset(
        before: Self,
        server_scid: Seq<u8>,
        token: Seq<u8>,
        after: Self,
    ) -> bool {
        &&& M::may_compute(before.algorithms().1, server_scid, token, after.algorithms().1)
        &&& after.algorithms().0 == before.algorithms().0
    }

    /// The token is decrypted with the associated data that it was generated with.
    open spec fn may_verify(
        before: Self,
        peer_addr: IpAddr,
        peer_scid: Seq<u8>,
        peer_dcid: Seq<u8>,
        token: Seq<u8>,
        now: SystemTime,
        said: Result<TokenModel, TokenError>,
        after: Self,
    ) -> bool {
        &&& may_verify(
            before.algorithms().0,
            peer_addr,
            peer_scid,
            peer_dcid,
            token,
            now,
            said,
            after.algorithms().0,
        )
        &&& after.algorithms().1 == before.algorithms().1
    }

    fn generate_retry_token(
        &mut self,
        peer_addr: IpAddr,
        peer_scid: &[u8],
        peer_dcid: &[u8],
        server_new_scid: &[u8],
        expires_at: SystemTime,
    ) -> (r: Option<&[u8]>) {
        if peer_scid.len() > MAX_CID_LEN || peer_dcid.len() > MAX_CID_LEN || server_new_scid.len()
            > MAX_CID_LEN {
            return None;
        }
        write_retry_associated_data(
            peer_addr,
            peer_scid,
            server_new_scid,
            &mut self.associated_data_buffer,
        );
        let padding: Vec<u8> = random::octets(MAX_CID_LEN - peer_dcid.len());
        write_plaintext_data(
            peer_dcid,
            padding.as_slice(),
            expires_at,
            &mut self.plaintext_buffer,
        );
        self.aead.encrypt_and_pack(
            self.associated_data_buffer.as_slice(),
            &mut self.plaintext_buffer,
        );
        Some(self.plaintext_buffer.as_slice())
    }

    fn generate_identity_token(&mut self, peer_addr: IpAddr, expires_at: SystemTime) -> (r: &[u8]) {
        write_identity_associated_data(peer_addr, &mut self.associated_data_buffer);
        let padding: Vec<u8> = random::octets(MAX_CID_LEN);
        let no_dcid: [u8; 0] = [];
        write_plaintext_data(
            no_dcid.as_slice(),
            padding.as_slice(),
            expires_at,
            &mut self.plaintext_buffer,
        );
        assert(no_dcid@ =~= Seq::empty());
        self.aead.encrypt_and_pack(
            self.associated_data_buffer.as_slice(),
            &mut self.plaintext_buffer,
        );
        self.plaintext_buffer.as_slice()
    }

    fn generate_reset_token(&mut self, server_scid: &[u8]) -> (r: [u8; 16]) {
        self.hmac.compute(server_scid)
    }

    fn verify_token(
        &mut self,
        peer_addr: IpAddr,
        peer_scid: &[u8],
        peer_dcid: &[u8],
        token: &[u8],
        now: SystemTime,
    ) -> (r: Result<Token, TokenError>) {
        if token.len() == 0 || peer_scid.len() > MAX_CID_LEN || peer_dcid.len() > MAX_CID_LEN {
            return Err(TokenError::Invalid);
        }
        self.plaintext_buffer.clear();
        self.plaintext_buffer.extend_from_slice(token);
        assert(self.plaintext_buffer@ =~= token@);
        let result = self.verify_identity_token(peer_addr, now);
        let ghost between = self.aead;
        let ghost identity = choose|identity: Option<Seq<u8>>|
            {
                &&& #[trigger] A::may_unpack(
                    old(self).aead,
                    identity_associated_data(peer_addr),
                    token@,
                    identity,
                    between,
                )
                &&& types::verdict(result) == read_token(identity, None, now)
            };
        let ghost retry_data = retry_associated_data(peer_addr, peer_scid@, peer_dcid@);
        let ghost as_identity = read_token(identity, None, now);
        let is_invalid = match &result {
            Err(TokenError::Invalid) => true,
            _ => false,
        };
        if !is_invalid {
            assert(may_verify_retry(between, retry_data, token@, as_identity, None, between));
            return result;
        }
        self.plaintext_buffer.clear();
        self.plaintext_buffer.extend_from_slice(token);
        assert(self.plaintext_buffer@ =~= token@);
        let result = self.verify_retry_token(peer_addr, peer_scid, peer_dcid, now);
        proof {
            let retry = choose|retry: Option<Seq<u8>>|
                {
                    &&& #[trigger] A::may_unpack(between, retry_data, token@, retry, self.aead)
                    &&& types::verdict(result) == read_token(None, retry, now)
                };
            assert(may_verify_retry(between, retry_data, token@, as_identity, retry, self.aead));
            assert(read_token(identity, retry, now) == read_token(None, retry, now));
        }
        result
    }
}

/// Padding that was written behind data is drained again, whatever its bytes are,
/// and the data is left.
pub proof fn law_padding_is_drained(data: Seq<u8>, padding: Seq<u8>)
    requires
        padding.len() <= 255,
    ensures
        unpadded(data + padding_field(padding)) == Some(data),
{
    let all = data + padding_field(padding);
    assert(all.last() == padding.len());
    assert(all.take(all.len() - 1 - all.last()) =~= data);
}

proof fn lemma_plaintext_parts(dcid: Seq<u8>, padding: Seq<u8>, millis: nat)
    requires
        padding.len() <= 255,
        millis <= u64::MAX,
    ensures
        plaintext_expiry(token_plaintext(dcid, padding, millis)) == Some(time_of_millis(millis)),
        plaintext_body(token_plaintext(dcid, padding, millis)) == Some(dcid),
{
    let plaintext = token_plaintext(dcid, padding, millis);
    octets::lemma_widths(0, millis as u64, 0);
    octets::law_be_round_trip(millis, 8);
    assert(plaintext.skip(plaintext.len() - 8) =~= octets::be_bytes(millis, 8));
    assert(plaintext.take(plaintext.len() - 8) =~= dcid + padding_field(padding));
    law_padding_is_drained(dcid, padding);
}

/// A `Retry` token gives back the connection ID and the expiration time, in whole milliseconds,
/// that it was generated with, until it expires.
pub proof fn law_retry_token_gives_back(
    dcid: Seq<u8>,
    padding: Seq<u8>,
    expires_at: SystemTime,
    now: SystemTime,
)
    requires
        dcid.len() + padding.len() == MAX_CID_LEN,
    ensures
        ({
            let kept = time_of_millis(token_millis(expires_at));
            read_retry(token_plaintext(dcid, padding, token_millis(expires_at)), now)
                == if kept.nanos < now.nanos {
                Err(TokenError::Expired(TokenKind::Retry, kept))
            } else {
                Ok(TokenModel::Retry { peer_original_dcid: dcid, expires_at: kept })
            }
        }),
{
    lemma_plaintext_parts(dcid, padding, token_millis(expires_at));
}

/// An identity token gives back the expiration time, in whole milliseconds, that it was generated
/// with, until it expires.
pub proof fn law_identity_token_gives_back(
    padding: Seq<u8>,
    expires_at: SystemTime,
    now: SystemTime,
)
    requires
        padding.len() == MAX_CID_LEN,
    ensures
        ({
            let kept = time_of_millis(token_millis(expires_at));
            read_identity(token_plaintext(Seq::empty(), padding, token_millis(expires_at)), now)
                == if kept.nanos < now.nanos {
                Err(TokenError::Expired(TokenKind::Identity, kept))
            } else {
                Ok(TokenModel::Identity { expires_at: kept })
            }
        }),
{
    lemma_plaintext_parts(Seq::empty(), padding, token_millis(expires_at));
}

/// All plaintexts of generated tokens have the same length.
pub proof fn law_tokens_have_one_length(dcid: Seq<u8>, padding: Seq<u8>, millis: nat)
    requires
        dcid.len() + padding.len() == MAX_CID_LEN,
    ensures
        token_plaintext(dcid, padding, millis).len() == 29,
{
    octets::lemma_be_bytes_len(millis, 8);
}

/// A time that a token holds is at most a millisecond before the one it was generated with,
/// and never after it, for times from the Unix epoch on that it can hold.
pub proof fn law_token_keeps_expiration(expires_at: SystemTime)
    requires
        0 <= expires_at.nanos,
        expires_at.nanos as int / NANOS_PER_MILLI as int <= u64::MAX,
    ensures
        ({
            let kept = time_of_millis(token_millis(expires_at));
            kept.nanos <= expires_at.nanos < kept.nanos + NANOS_PER_MILLI
        }),
{
}

proof fn lemma_padded(a: Seq<u8>, b: Seq<u8>, rest_a: Seq<u8>, rest_b: Seq<u8>, width: nat)
    requires
        a.len() <= width <= 255,
        b.len() <= width,
        padded(a, width) + rest_a == padded(b, width) + rest_b,
    ensures
        a == b,
        rest_a == rest_b,
{
    let (x, y) = (padded(a, width) + rest_a, padded(b, width) + rest_b);
    assert(x[width as int] == (width - a.len()) as u8);
    assert(y[width as int] == (width - b.len()) as u8);
    assert(a.len() == b.len());
    assert(a =~= x.take(a.len() as int));
    assert(b =~= y.take(a.len() as int));
    assert(rest_a =~= x.skip(width as int + 1));
    assert(rest_b =~= y.skip(width as int + 1));
}

/// The associated data of a `Retry` token tells apart all addresses and connection IDs:
/// what was authenticated for one peer is not accepted for another.
pub proof fn law_retry_associated_data_is_unambiguous(
    addr_a: IpAddr,
    scid_a: Seq<u8>,
    dcid_a: Seq<u8>,
    addr_b: IpAddr,
    scid_b: Seq<u8>,
    dcid_b: Seq<u8>,
)
    requires
        scid_a.len() <= MAX_CID_LEN,
        scid_b.len() <= MAX_CID_LEN,
        retry_associated_data(addr_a, scid_a, dcid_a) == retry_associated_data(
            addr_b,
            scid_b,
            dcid_b,
        ),
    ensures
        addr_a == addr_b,
        scid_a == scid_b,
        dcid_a == dcid_b,
{
    let (a, b) = (
        retry_associated_data(addr_a, scid_a, dcid_a),
        retry_associated_data(addr_b, scid_b, dcid_b),
    );
    lemma_octets_len(addr_a);
    lemma_octets_len(addr_b);
    let rest_a = padded(scid_a, 20) + dcid_a;
    let rest_b = padded(scid_b, 20) + dcid_b;
    assert(a.skip(1) =~= padded(addr_a.octets(), 16) + rest_a);
    assert(b.skip(1) =~= padded(addr_b.octets(), 16) + rest_b);
    lemma_padded(addr_a.octets(), addr_b.octets(), rest_a, rest_b, 16);
    lemma_padded(scid_a, scid_b, dcid_a, dcid_b, 20);
    addr::law_octets_tell_addresses_apart(addr_a, addr_b);
}

/// The associated data of an identity token tells apart all addresses.
pub proof fn law_identity_associated_data_is_unambiguous(addr_a: IpAddr, addr_b: IpAddr)
    requires
        identity_associated_data(addr_a) == identity_associated_data(addr_b),
    ensures
        addr_a == addr_b,
{
    assert(identity_associated_data(addr_a).skip(1) =~= addr_a.octets());
    assert(identity_associated_data(addr_b).skip(1) =~= addr_b.octets());
    addr::law_octets_tell_addresses_apart(addr_a, addr_b);
}

/// The associated data of a `Retry` token is never that of an identity token.
pub proof fn law_token_kinds_are_told_apart(
    addr_a: IpAddr,
    scid: Seq<u8>,
    dcid: Seq<u8>,
    addr_b: IpAddr,
)
    ensures
        retry_associated_data(addr_a, scid, dcid) != identity_associated_data(addr_b),
{
    assert(retry_associated_data(addr_a, scid, dcid)[0] == 0);
    assert(identity_associated_data(addr_b)[0] == 255);
}

/// An algorithm decrypts `packed` into `plaintext` with `associated_data`, and with nothing else.
pub open spec fn only_opens<A: TokenAead>(
    aead: A,
    associated_data: Seq<u8>,
    packed: Seq<u8>,
    plaintext: Seq<u8>,
) -> bool {
    forall|other: Seq<u8>, result: Option<Seq<u8>>, after: A|
        #[trigger] A::may_unpack(aead, other, packed, result, after) ==> result == if other
            == associated_data {
            Some(plaintext)
        } else {
            None
        }
}

/// An algorithm keeps its keys while it tries to decrypt `packed`: it [only_opens] it.
pub open spec fn keeps_opening<A: TokenAead>(
    aead: A,
    associated_data: Seq<u8>,
    packed: Seq<u8>,
    plaintext: Seq<u8>,
) -> bool {
    &&& only_opens(aead, associated_data, packed, plaintext)
    &&& forall|other: Seq<u8>, result: Option<Seq<u8>>, after: A|
        #[trigger] A::may_unpack(aead, other, packed, result, after) ==> only_opens(
            after,
            associated_data,
            packed,
            plaintext,
        )
}

/// This may be said of a `Stateless Reset` token: it is valid if the HMAC algorithm confirms it.
pub open spec fn may_verify_reset<M: TokenHmac>(
    before: M,
    server_scid: Seq<u8>,
    token: Seq<u8>,
    said: Result<(), TokenError>,
    after: M,
) -> bool {
    &&& M::may_confirm(before, server_scid, token, said is Ok, after)
    &&& said matches Err(error) ==> error == TokenError::Invalid
}

/// A `Stateless Reset` token is valid for the connection ID that it was generated for,
/// and for no other one.
///
/// The algorithm is one that has not lost its key, and gives no two connection IDs the same hash.
pub proof fn law_reset_token_is_verified<M: TokenHmac>(
    hmac: M,
    server_scid: Seq<u8>,
    token: Seq<u8>,
    other_scid: Seq<u8>,
    said: Result<(), TokenError>,
    after: M,
)
    requires
        forall|data: Seq<u8>, is_valid: bool, next: M| #[trigger]
            M::may_confirm(hmac, data, token, is_valid, next) ==> is_valid == (data == server_scid),
        may_verify_reset(hmac, other_scid, token, said, after),
    ensures
        said is Ok <==> other_scid == server_scid,
        said matches Err(error) ==> error == TokenError::Invalid,
{
    assert(M::may_confirm(hmac, other_scid, token, said is Ok, after));
}

/// A `Retry` token that comes back from the peer it was generated for, in a packet for the
/// connection ID that it was told, says what the token was generated with.
///
/// The algorithm is one that authenticates what it decrypts and has not lost its key.
pub proof fn law_retry_token_is_verified<A: TokenAead>(
    aead: A,
    peer_addr: IpAddr,
    peer_scid: Seq<u8>,
    peer_dcid: Seq<u8>,
    server_new_scid: Seq<u8>,
    padding: Seq<u8>,
    expires_at: SystemTime,
    token: Seq<u8>,
    now: SystemTime,
    said: Result<TokenModel, TokenError>,
    after: A,
)
    requires
        token.len() > 0,
        peer_scid.len() <= MAX_CID_LEN,
        server_new_scid.len() <= MAX_CID_LEN,
        peer_dcid.len() + padding.len() == MAX_CID_LEN,
        keeps_opening(
            aead,
            retry_associated_data(peer_addr, peer_scid, server_new_scid),
            token,
            token_plaintext(peer_dcid, padding, token_millis(expires_at)),
        ),
        may_verify(aead, peer_addr, peer_scid, server_new_scid, token, now, said, after),
    ensures
        ({
            let kept = time_of_millis(token_millis(expires_at));
            said == if kept.nanos < now.nanos {
                Err(TokenError::Expired(TokenKind::Retry, kept))
            } else {
                Ok(TokenModel::Retry { peer_original_dcid: peer_dcid, expires_at: kept })
            }
        }),
{
    law_retry_token_gives_back(peer_dcid, padding, expires_at, now);
    law_token_kinds_are_told_apart(peer_addr, peer_scid, server_new_scid, peer_addr);
}

/// An identity token that comes back from the address it was generated for, whatever the
/// connection IDs are, says what the token was generated with.
///
/// The algorithm is one that authenticates what it decrypts and has not lost its key.
pub proof fn law_identity_token_is_verified<A: TokenAead>(
    aead: A,
    peer_addr: IpAddr,
    peer_scid: Seq<u8>,
    peer_dcid: Seq<u8>,
    padding: Seq<u8>,
    expires_at: SystemTime,
    token: Seq<u8>,
    now: SystemTime,
    said: Result<TokenModel, TokenError>,
    after: A,
)
    requires
        token.len() > 0,
        peer_scid.len() <= MAX_CID_LEN,
        peer_dcid.len() <= MAX_CID_LEN,
        padding.len() == MAX_CID_LEN,
        keeps_opening(
            aead,
            identity_associated_data(peer_addr),
            token,
            token_plaintext(Seq::empty(), padding, token_millis(expires_at)),
        ),
        may_verify(aead, peer_addr, peer_scid, peer_dcid, token, now, said, after),
    ensures
        ({
            let kept = time_of_millis(token_millis(expires_at));
            said == if kept.nanos < now.nanos {
                Err(TokenError::Expired(TokenKind::Identity, kept))
            } else {
                Ok(TokenModel::Identity { expires_at: kept })
            }
        }),
{
    law_identity_token_gives_back(padding, expires_at, now);
}

/// A `Retry` token is invalid from another address, or with other connection IDs.
pub proof fn law_retry_token_of_another_peer_is_refused<A: TokenAead>(
    aead: A,
    owner_addr: IpAddr,
    owner_scid: Seq<u8>,
    server_new_scid: Seq<u8>,
    plaintext: Seq<u8>,
    peer_addr: IpAddr,
    peer_scid: Seq<u8>,
    peer_dcid: Seq<u8>,
    token: Seq<u8>,
    now: SystemTime,
    said: Result<TokenModel, TokenError>,
    after: A,
)
    requires
        owner_scid.len() <= MAX_CID_LEN,
        keeps_opening(
            aead,
            retry_associated_data(owner_addr, owner_scid, server_new_scid),
            token,
            plaintext,
        ),
        (peer_addr, peer_scid, peer_dcid) != (owner_addr, owner_scid, server_new_scid),
        may_verify(aead, peer_addr, peer_scid, peer_dcid, token, now, said, after),
    ensures
        said == Err::<TokenModel, TokenError>(TokenError::Invalid),
{
    law_token_kinds_are_told_apart(owner_addr, owner_scid, server_new_scid, peer_addr);
    if peer_scid.len() <= MAX_CID_LEN && retry_associated_data(peer_addr, peer_scid, peer_dcid)
        == retry_associated_data(owner_addr, owner_scid, server_new_scid) {
        law_retry_associated_data_is_unambiguous(
            peer_addr,
            peer_scid,
            peer_dcid,
            owner_addr,
            owner_scid,
            server_new_scid,
        );
    }
}

/// An identity token is invalid from another address.
pub proof fn law_identity_token_of_another_address_is_refused<A: TokenAead>(
    aead: A,
    owner_addr: IpAddr,
    plaintext: Seq<u8>,
    peer_addr: IpAddr,
    peer_scid: Seq<u8>,
    peer_dcid: Seq<u8>,
    token: Seq<u8>,
    now: SystemTime,
    said: Result<TokenModel, TokenError>,
    after: A,
)
    requires
        keeps_opening(aead, identity_associated_data(owner_addr), token, plaintext),
        peer_addr != owner_addr,
        may_verify(aead, peer_addr, peer_scid, peer_dcid, token, now, said, after),
    ensures
        said == Err::<TokenModel, TokenError>(TokenError::Invalid),
{
    law_token_kinds_are_told_apart(peer_addr, peer_scid, peer_dcid, owner_addr);
    if identity_associated_data(peer_addr) == identity_associated_data(owner_addr) {
        law_identity_associated_data_is_unambiguous(peer_addr, owner_addr);
    }
}

/// A token holds whole milliseconds since the Unix epoch, in eight bytes,
/// and zero for times that it cannot hold.
pub proof fn law_tokens_hold_milliseconds(time: SystemTime)
    ensures
        time.nanos < 0 ==> token_millis(time) == 0,
        0 <= time.nanos < 0x1_0000_0000_0000_0000 * 1_000_000 ==> token_millis(time) * 1_000_000
            <= time.nanos < (token_millis(time) + 1) * 1_000_000,
        time.nanos >= 0x1_0000_0000_0000_0000 * 1_000_000 ==> token_millis(time) == 0,
        token_millis(time) < 0x1_0000_0000_0000_0000,
        time_of_millis(token_millis(time)).nanos == token_millis(time) * 1_000_000,
{
}

/// A token has expired once the time that it holds has passed, and not before.
/// What holds no time, or no padding, is no token.
pub proof fn law_tokens_expire_at_their_time(plaintext: Seq<u8>, now: SystemTime)
    requires
        octets::be_value(plaintext.skip(plaintext.len() - 8)) < 0x1_0000_0000_0000_0000,
    ensures
        ({
            let millis = octets::be_value(plaintext.skip(plaintext.len() - 8));
            let retry = read_retry(plaintext, now);
            let identity = read_identity(plaintext, now);
            let is_expired = plaintext.len() >= 8 && millis * 1_000_000 < now.nanos;
            &&& is_expired <==> (retry matches Err(TokenError::Expired(kind, at)) && kind is Retry
                && at.nanos == millis * 1_000_000)
            &&& is_expired <==> (identity matches Err(TokenError::Expired(kind, at))
                && kind is Identity && at.nanos == millis * 1_000_000)
            &&& retry matches Ok(said) ==> (said matches TokenModel::Retry {
                peer_original_dcid,
                expires_at,
            } && expires_at.nanos == millis * 1_000_000 && peer_original_dcid.len() <= 20
                && expires_at.nanos >= now.nanos)
            &&& identity matches Ok(said) ==> (said matches TokenModel::Identity { expires_at }
                && expires_at.nanos == millis * 1_000_000 && expires_at.nanos >= now.nanos)
            &&& plaintext.len() < 9 && !is_expired ==> retry == Err::<TokenModel, TokenError>(
                TokenError::Invalid,
            ) && identity == Err::<TokenModel, TokenError>(TokenError::Invalid)
        }),
{
}

/// The plaintext of a token begins with the connection ID and ends with the milliseconds,
/// the most significant byte first. The length of the padding stands in front of those.
pub proof fn law_plaintext_has_its_parts(dcid: Seq<u8>, padding: Seq<u8>, millis: nat)
    requires
        dcid.len() + padding.len() == 20,
    ensures
        ({
            let plaintext = token_plaintext(dcid, padding, millis);
            &&& plaintext.len() == 29
            &&& plaintext.take(dcid.len() as int) == dcid
            &&& plaintext.subrange(dcid.len() as int, 20) == padding
            &&& plaintext[20] == padding.len()
            &&& plaintext.skip(21) == octets::be_bytes(millis, 8)
        }),
{
    octets::lemma_be_bytes_len(millis, 8);
    let plaintext = token_plaintext(dcid, padding, millis);
    assert(plaintext.take(dcid.len() as int) =~= dcid);
    assert(plaintext.subrange(dcid.len() as int, 20) =~= padding);
    assert(plaintext.skip(21) =~= octets::be_bytes(millis, 8));
}

/// What is authenticated with a token begins with its kind, and holds the address of the peer,
/// and the connection IDs of a `Retry` token, each in its place.
pub proof fn law_associated_data_has_its_parts(peer_addr: IpAddr, scid: Seq<u8>, dcid: Seq<u8>)
    requires
        scid.len() <= 20,
    ensures
        ({
            let retry = retry_associated_data(peer_addr, scid, dcid);
            let identity = identity_associated_data(peer_addr);
            let octets = peer_addr.octets();
            &&& retry.len() == 39 + dcid.len()
            &&& retry[0] == 0
            &&& retry.subrange(1, 1 + octets.len() as int) == octets
            &&& retry[17] == 16 - octets.len()
            &&& retry.subrange(18, 18 + scid.len() as int) == scid
            &&& retry[38] == 20 - scid.len()
            &&& retry.skip(39) == dcid
            &&& identity[0] == 255
            &&& identity.skip(1) == octets
        }),
{
    lemma_octets_len(peer_addr);
    let retry = retry_associated_data(peer_addr, scid, dcid);
    let octets = peer_addr.octets();
    assert(padded(octets, 16).len() == 17);
    assert(padded(scid, 20).len() == 21);
    assert(retry.subrange(1, 1 + octets.len() as int) =~= octets);
    assert(retry.subrange(18, 18 + scid.len() as int) =~= scid);
    assert(retry.skip(39) =~= dcid);
    assert(identity_associated_data(peer_addr).skip(1) =~= octets);
}

/// A token is tried as an identity token first, and as a `Retry` token only if it is not one.
pub proof fn law_identity_comes_first(
    identity: Option<Seq<u8>>,
    retry: Option<Seq<u8>>,
    now: SystemTime,
)
    ensures
        identity matches Some(plaintext) ==> read_identity(plaintext, now) is Ok ==> read_token(
            identity,
            retry,
            now,
        ) == read_identity(plaintext, now),
        identity matches Some(plaintext) ==> (read_identity(plaintext, now) matches Err(
            TokenError::Expired(_, _),
        )) ==> read_token(identity, retry, now) == read_identity(plaintext, now),
        identity is None ==> (retry matches Some(plaintext) ==> read_token(identity, retry, now)
            == read_retry(plaintext, now)),
        identity is None && retry is None ==> read_token(identity, retry, now) == Err::<
            TokenModel,
            TokenError,
        >(TokenError::Invalid),
{
}

/// A `Retry` token holds the connection ID that the peer has used at first and the time at which
/// it expires. It is authenticated with the address of the peer, the peer's connection ID,
/// and the one that the peer is told.
pub proof fn law_retry_token_is_made_of_its_parts<A: TokenAead, M: TokenHmac>(
    before: PaddedTokenGenerator<A, M>,
    peer_addr: IpAddr,
    peer_scid: Seq<u8>,
    peer_dcid: Seq<u8>,
    server_new_scid: Seq<u8>,
    expires_at: SystemTime,
    token: Seq<u8>,
    after: PaddedTokenGenerator<A, M>,
)
    requires
        PaddedTokenGenerator::<A, M>::may_generate_retry(
            before,
            peer_addr,
            peer_scid,
            peer_dcid,
            server_new_scid,
            expires_at,
            Some(token),
            after,
        ),
    ensures
        after.algorithms().1 == before.algorithms().1,
        peer_dcid.len() <= 20,
        exists|padding: Seq<u8>|
            padding.len() == 20 - peer_dcid.len() && A::may_pack(
                before.algorithms().0,
                retry_associated_data(peer_addr, peer_scid, server_new_scid),
                #[trigger] token_plaintext(peer_dcid, padding, token_millis(expires_at)),
                token,
                after.algorithms().0,
            ),
{
    let padding = choose|padding: Seq<u8>|
        {
            &&& peer_dcid.len() + padding.len() == MAX_CID_LEN
            &&& A::may_pack(
                before.algorithms().0,
                retry_associated_data(peer_addr, peer_scid, server_new_scid),
                #[trigger] token_plaintext(peer_dcid, padding, token_millis(expires_at)),
                token,
                after.algorithms().0,
            )
        };
    assert(padding.len() == 20 - peer_dcid.len());
}

/// An identity token holds the time at which it expires, and is authenticated with the address
/// of the peer. It is as long as a `Retry` token.
pub proof fn law_identity_token_is_made_of_its_parts<A: TokenAead, M: TokenHmac>(
    before: PaddedTokenGenerator<A, M>,
    peer_addr: IpAddr,
    expires_at: SystemTime,
    token: Seq<u8>,
    after: PaddedTokenGenerator<A, M>,
)
    requires
        PaddedTokenGenerator::<A, M>::may_generate_identity(
            before,
            peer_addr,
            expires_at,
            token,
            after,
        ),
    ensures
        after.algorithms().1 == before.algorithms().1,
        exists|padding: Seq<u8>|
            padding.len() == 20 && A::may_pack(
                before.algorithms().0,
                identity_associated_data(peer_addr),
                #[trigger] token_plaintext(Seq::empty(), padding, token_millis(expires_at)),
                token,
                after.algorithms().0,
            ),
{
}

/// A reset token is a HMAC of the connection ID, and nothing else is made of it.
pub proof fn law_reset_token_is_made_of_the_connection_id<A: TokenAead, M: TokenHmac>(
    before: PaddedTokenGenerator<A, M>,
    server_scid: Seq<u8>,
    token: Seq<u8>,
    after: PaddedTokenGenerator<A, M>,
)
    requires
        PaddedTokenGenerator::<A, M>::may_generate_reset(before, server_scid, token, after),
    ensures
        M::may_compute(before.algorithms().1, server_scid, token, after.algorithms().1),
        after.algorithms().0 == before.algorithms().0,
{
}

/// What is no token at all, or comes with connection IDs of more than twenty bytes, is invalid
/// without being decrypted. Everything else is decrypted for the address and the connection IDs
/// that it comes with.
pub proof fn law_token_is_decrypted_for_the_peer<A: TokenAead>(
    before: A,
    peer_addr: IpAddr,
    peer_scid: Seq<u8>,
    peer_dcid: Seq<u8>,
    token: Seq<u8>,
    now: SystemTime,
    said: Result<TokenModel, TokenError>,
    after: A,
)
    requires
        may_verify(before, peer_addr, peer_scid, peer_dcid, token, now, said, after),
    ensures
        token.len() == 0 || peer_scid.len() > 20 || peer_dcid.len() > 20 ==> said == Err::<
            TokenModel,
            TokenError,
        >(TokenError::Invalid) && after == before,
        token.len() > 0 && peer_scid.len() <= 20 && peer_dcid.len() <= 20 ==> exists|
            identity: Option<Seq<u8>>,
            retry: Option<Seq<u8>>,
            between: A,
        |
            {
                &&& #[trigger] A::may_unpack(
                    before,
                    identity_associated_data(peer_addr),
                    token,
                    identity,
                    between,
                )
                &&& #[trigger] may_verify_retry(
                    between,
                    retry_associated_data(peer_addr, peer_scid, peer_dcid),
                    token,
                    read_token(identity, None, now),
                    retry,
                    after,
                )
                &&& said == read_token(identity, retry, now)
                &&& said matches Ok(TokenModel::Retry { .. }) ==> A::may_unpack(
                    between,
                    retry_associated_data(peer_addr, peer_scid, peer_dcid),
                    token,
                    retry,
                    after,
                )
            },
{
}

} // verus!

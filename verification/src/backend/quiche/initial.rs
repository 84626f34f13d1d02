use crate::backend::cid::{ConnectionId, MAX_CID_LEN};
use crate::backend::firewall::Firewall;
use crate::backend::quiche::error::QuicheError;
use crate::backend::quiche::io::ForceWrite;
use crate::backend::token::types;
use crate::backend::token::{Token, TokenError, TokenGenerator, TokenKind, TokenModel};
use crate::net::SocketAddr;
use crate::time::SystemTime;
use vstd::prelude::*;

verus! {

/// The header of an `Initial` packet, as `quiche` says.
pub struct InitialHeader {
    /// The QUIC version is supported.
    pub is_version_supported: bool,
    /// The peer's source connection ID.
    pub scid: Vec<u8>,
    /// The peer's destination connection ID.
    pub dcid: Vec<u8>,
    /// The token, if there is one.
    pub token: Option<Vec<u8>>,
}

/// What is to be done with an `Initial` packet.
pub enum InitialAction {
    /// Silently drop the packet.
    Drop,
    /// Respond with a `Version Negotiation` packet.
    NegotiateVersion,
    /// Respond with a `Retry` packet.
    Retry {
        /// A new source connection ID.
        new_scid: ConnectionId,
        /// The token of the `Retry` packet.
        token: Vec<u8>,
    },
    /// Accept a new connection.
    Accept {
        /// A new source connection ID.
        new_scid: ConnectionId,
        /// The destination connection ID of the peer's first packet, if this one follows a `Retry`.
        peer_original_dcid: Option<ConnectionId>,
        /// The peer has verified its address.
        peer_address_verified: bool,
    },
}

/// What is decided on an `Initial` packet.
#[verifier::ext_equal]
pub enum InitialDecision {
    Drop,
    NegotiateVersion,
    Retry,
    Accept { peer_original_dcid: Option<Seq<u8>>, peer_address_verified: bool },
}

/// What is decided on an `Initial` packet.
///
/// * `verdict`: what is said of its token, `None` if it has none.
/// * `allowed`: connections of unverified peers are accepted.
pub open spec fn decision(
    has_server: bool,
    is_version_supported: bool,
    scid_len: nat,
    dcid_len: nat,
    verdict: Option<Result<TokenModel, TokenError>>,
    allowed: bool,
) -> InitialDecision {
    if !has_server {
        InitialDecision::Drop
    } else if !is_version_supported {
        InitialDecision::NegotiateVersion
    } else if scid_len > MAX_CID_LEN || dcid_len > MAX_CID_LEN {
        InitialDecision::Drop
    } else {
        match verdict {
            Some(Err(TokenError::Expired(TokenKind::Retry, _))) => InitialDecision::Drop,
            Some(Ok(TokenModel::Retry { peer_original_dcid, .. })) => InitialDecision::Accept {
                peer_original_dcid: Some(peer_original_dcid),
                peer_address_verified: true,
            },
            Some(Ok(TokenModel::Identity { .. })) => InitialDecision::Accept {
                peer_original_dcid: None,
                peer_address_verified: true,
            },
            _ => if allowed {
                InitialDecision::Accept { peer_original_dcid: None, peer_address_verified: false }
            } else {
                InitialDecision::Retry
            },
        }
    }
}

/// The action carries out the decision.
pub open spec fn carries_out(
    action: InitialAction,
    decision: InitialDecision,
    cid_len: nat,
) -> bool {
    match action {
        InitialAction::Drop => decision == InitialDecision::Drop,
        InitialAction::NegotiateVersion => decision == InitialDecision::NegotiateVersion,
        InitialAction::Retry { new_scid, .. } => decision == InitialDecision::Retry
            && new_scid@.len() == cid_len,
        InitialAction::Accept { new_scid, peer_original_dcid, peer_address_verified } => {
            &&& new_scid@.len() == cid_len
            &&& decision == (InitialDecision::Accept {
                peer_original_dcid: match peer_original_dcid {
                    Some(dcid) => Some(dcid@),
                    None => None,
                },
                peer_address_verified,
            })
        },
    }
}

/// A server may take the action on an `Initial` packet, and turn its token generator from `before`
/// into `after`.
///
/// The token is verified for the address and the connection IDs of the packet; a firewall
/// is asked whether the connection of an unverified peer is accepted; a `Retry` is answered with
/// a token for the same address and connection IDs.
///
/// * `total`, `unverified`: how many connections, and unverified ones, the server has.
/// * `expires_at`: when a token of a `Retry` packet expires.
pub open spec fn may_act<F: Firewall, T: TokenGenerator>(
    firewall: F,
    before: T,
    header: InitialHeader,
    from: SocketAddr,
    total: usize,
    unverified: usize,
    now: SystemTime,
    expires_at: SystemTime,
    action: InitialAction,
    cid_len: nat,
    after: T,
) -> bool {
    if !header.is_version_supported {
        action is NegotiateVersion && after == before
    } else if header.scid@.len() > MAX_CID_LEN || header.dcid@.len() > MAX_CID_LEN {
        action is Drop && after == before
    } else {
        exists|verdict: Option<Result<TokenModel, TokenError>>, allowed: bool, verified: T|
            {
                &&& may_say(before, header, from, now, verdict, verified)
                &&& firewall.may_allow(from, total, unverified, allowed) || !is_asked(verdict)
                &&& #[trigger] may_follow(
                    verdict,
                    allowed,
                    verified,
                    header,
                    from,
                    expires_at,
                    action,
                    cid_len,
                    after,
                )
            }
    }
}

/// What may be done with an `Initial` packet of a supported version.
///
/// * `verdict`: what was said of its token.
/// * `allowed`: the firewall accepts the connection.
/// * `verified`: the token generator, once the token was verified.
pub open spec fn may_follow<T: TokenGenerator>(
    verdict: Option<Result<TokenModel, TokenError>>,
    allowed: bool,
    verified: T,
    header: InitialHeader,
    from: SocketAddr,
    expires_at: SystemTime,
    action: InitialAction,
    cid_len: nat,
    after: T,
) -> bool {
    &&& carries_out(
        action,
        decision(true, true, header.scid@.len(), header.dcid@.len(), verdict, allowed),
        cid_len,
    )
    &&& match action {
        InitialAction::Retry { new_scid, token } => T::may_generate_retry(
            verified,
            from.spec_ip(),
            header.scid@,
            header.dcid@,
            new_scid@,
            expires_at,
            Some(token@),
            after,
        ),
        _ => after == verified,
    }
}

/// What may be said of the token of an `Initial` packet, `None` if it has none.
pub open spec fn may_say<T: TokenGenerator>(
    before: T,
    header: InitialHeader,
    from: SocketAddr,
    now: SystemTime,
    verdict: Option<Result<TokenModel, TokenError>>,
    after: T,
) -> bool {
    match header.token {
        Some(token) => verdict is Some && T::may_verify(
            before,
            from.spec_ip(),
            header.scid@,
            header.dcid@,
            token@,
            now,
            verdict->0,
            after,
        ),
        None => verdict is None && after == before,
    }
}

/// The firewall is asked whether to accept the connection: the token verifies nothing.
pub open spec fn is_asked(verdict: Option<Result<TokenModel, TokenError>>) -> bool {
    match verdict {
        Some(Ok(_)) => false,
        Some(Err(TokenError::Expired(TokenKind::Retry, _))) => false,
        _ => true,
    }
}

/// What the token of an `Initial` packet is worth.
pub enum TokenWorth {
    /// The packet is to be dropped.
    Drop,
    /// The peer has verified its address.
    Verified {
        /// The destination connection ID of the peer's first packet, if this one follows a `Retry`.
        peer_original_dcid: Option<ConnectionId>,
    },
    /// The peer has not verified its address.
    Unverified,
}

/// What a verdict on a token is worth.
pub open spec fn is_worth(
    verdict: Option<Result<TokenModel, TokenError>>,
    worth: TokenWorth,
) -> bool {
    match verdict {
        Some(Err(TokenError::Expired(TokenKind::Retry, _))) => worth is Drop,
        Some(Ok(TokenModel::Retry { peer_original_dcid, .. })) => worth matches TokenWorth::Verified {
            peer_original_dcid: Some(dcid),
        } && dcid@ == peer_original_dcid,
        Some(Ok(TokenModel::Identity { .. })) => worth matches TokenWorth::Verified {
            peer_original_dcid: None,
        },
        _ => worth is Unverified,
    }
}

/// The verdict on a token, if there is one.
pub open spec fn verdict_of(verdict: Option<Result<Token, TokenError>>) -> Option<
    Result<TokenModel, TokenError>,
> {
    match verdict {
        Some(verdict) => Some(types::verdict(verdict)),
        None => None,
    }
}

/// Returns what the token of an `Initial` packet is worth.
///
/// * `verdict`: what is said of the token, `None` if there is none.
pub fn weigh_token(verdict: Option<Result<Token, TokenError>>) -> (r: TokenWorth)
    ensures
        is_worth(verdict_of(verdict), r),
{
    match verdict {
        Some(Ok(Token::Retry { peer_original_dcid, .. })) => TokenWorth::Verified {
            peer_original_dcid: Some(peer_original_dcid),
        },
        Some(Ok(Token::Identity { .. })) => TokenWorth::Verified { peer_original_dcid: None },
        // https://datatracker.ietf.org/doc/html/rfc9000#section-8.1.2-5
        //
        // Clients should use retry tokens as soon as they receive them,
        // so a scenario of expired `Retry` should be highly unprobable in practice,
        // unless it's malicious.
        Some(Err(TokenError::Expired(TokenKind::Retry, _))) => TokenWorth::Drop,
        // https://datatracker.ietf.org/doc/html/rfc9000#section-8.1.3-10
        Some(Err(TokenError::Expired(TokenKind::Identity, _))) => TokenWorth::Unverified,
        Some(Err(TokenError::Invalid)) => TokenWorth::Unverified,
        None => TokenWorth::Unverified,
    }
}

/// Returns `true` if a packet was processed,
/// `false` if it needs to be retried when internal I/O buffer becomes available again.
///
/// * `written`: what became of the response to the packet, `None` if there was no memory for it.
pub fn is_processed(written: &Option<Result<ForceWrite, QuicheError>>) -> (r: bool)
    ensures
        r == !(*written is None || (*written matches Some(Ok(write)) && write
            == ForceWrite::BufferTooShort)),
{
    match written {
        None => false,
        Some(Ok(ForceWrite::BufferTooShort)) => false,
        Some(Ok(ForceWrite::Complete)) => true,
        Some(Err(_)) => true,
    }
}

/// A peer that has not verified its address is answered with a `Retry`,
/// as long as connections of unverified peers are not accepted.
pub proof fn law_unverified_peer_is_answered_with_retry(
    scid_len: nat,
    dcid_len: nat,
    verdict: Option<Result<TokenModel, TokenError>>,
)
    requires
        scid_len <= MAX_CID_LEN,
        dcid_len <= MAX_CID_LEN,
        verdict is None || verdict == Some(Err::<TokenModel, TokenError>(TokenError::Invalid)),
    ensures
        decision(true, true, scid_len, dcid_len, verdict, false) == InitialDecision::Retry,
{
}

/// A connection is accepted as verified only for a token that was verified.
pub proof fn law_only_tokens_verify(
    has_server: bool,
    is_version_supported: bool,
    scid_len: nat,
    dcid_len: nat,
    verdict: Option<Result<TokenModel, TokenError>>,
    allowed: bool,
)
    requires
        decision(
            has_server,
            is_version_supported,
            scid_len,
            dcid_len,
            verdict,
            allowed,
        ) matches InitialDecision::Accept { peer_address_verified, .. } && peer_address_verified,
    ensures
        verdict matches Some(Ok(_)),
{
}

/// A `Retry` is sent to a peer whose token verifies nothing, if the firewall does not let it in.
/// Its token is generated for its address, for both of its connection IDs and for the new one,
/// with the time at which it is to expire.
pub proof fn law_retry_token_is_made_for_the_peer<F: Firewall, T: TokenGenerator>(
    firewall: F,
    before: T,
    header: InitialHeader,
    from: SocketAddr,
    total: usize,
    unverified: usize,
    now: SystemTime,
    expires_at: SystemTime,
    new_scid: ConnectionId,
    token: Vec<u8>,
    cid_len: nat,
    after: T,
)
    requires
        may_act(
            firewall,
            before,
            header,
            from,
            total,
            unverified,
            now,
            expires_at,
            InitialAction::Retry { new_scid, token },
            cid_len,
            after,
        ),
    ensures
        header.is_version_supported,
        header.scid@.len() <= 20,
        header.dcid@.len() <= 20,
        new_scid@.len() == cid_len,
        firewall.may_allow(from, total, unverified, false),
        exists|verified: T| #[trigger]
            T::may_generate_retry(
                verified,
                from.spec_ip(),
                header.scid@,
                header.dcid@,
                new_scid@,
                expires_at,
                Some(token@),
                after,
            ) && match header.token {
                None => verified == before,
                Some(given) => exists|error: TokenError| #[trigger]
                    T::may_verify(
                        before,
                        from.spec_ip(),
                        header.scid@,
                        header.dcid@,
                        given@,
                        now,
                        Err::<TokenModel, TokenError>(error),
                        verified,
                    ),
            },
{
    let (verdict, allowed, verified) = choose|
        verdict: Option<Result<TokenModel, TokenError>>,
        allowed: bool,
        verified: T,
    |
        {
            &&& may_say(before, header, from, now, verdict, verified)
            &&& firewall.may_allow(from, total, unverified, allowed) || !is_asked(verdict)
            &&& #[trigger] may_follow(
                verdict,
                allowed,
                verified,
                header,
                from,
                expires_at,
                InitialAction::Retry { new_scid, token },
                cid_len,
                after,
            )
        };
    assert(T::may_generate_retry(
        verified,
        from.spec_ip(),
        header.scid@,
        header.dcid@,
        new_scid@,
        expires_at,
        Some(token@),
        after,
    ));
    if let Some(given) = header.token {
        assert(verdict->0 is Err);
        assert(T::may_verify(
            before,
            from.spec_ip(),
            header.scid@,
            header.dcid@,
            given@,
            now,
            Err::<TokenModel, TokenError>(verdict->0->Err_0),
            verified,
        ));
    }
}

/// A connection is accepted as verified if and only if the token of the packet was verified,
/// for the address and the connection IDs of the packet and at the given time. The peer's original
/// connection ID is then the one that a `Retry` token says. Otherwise the firewall has let it in.
pub proof fn law_accepted_connection_is_verified_by_its_token<F: Firewall, T: TokenGenerator>(
    firewall: F,
    before: T,
    header: InitialHeader,
    from: SocketAddr,
    total: usize,
    unverified: usize,
    now: SystemTime,
    expires_at: SystemTime,
    new_scid: ConnectionId,
    peer_original_dcid: Option<ConnectionId>,
    peer_address_verified: bool,
    cid_len: nat,
    after: T,
)
    requires
        may_act(
            firewall,
            before,
            header,
            from,
            total,
            unverified,
            now,
            expires_at,
            InitialAction::Accept { new_scid, peer_original_dcid, peer_address_verified },
            cid_len,
            after,
        ),
    ensures
        header.is_version_supported,
        header.scid@.len() <= 20,
        header.dcid@.len() <= 20,
        new_scid@.len() == cid_len,
        peer_address_verified ==> header.token is Some && exists|said: TokenModel|
            {
                &&& #[trigger] T::may_verify(
                    before,
                    from.spec_ip(),
                    header.scid@,
                    header.dcid@,
                    header.token->0@,
                    now,
                    Ok::<TokenModel, TokenError>(said),
                    after,
                )
                &&& match said {
                    TokenModel::Retry { peer_original_dcid: dcid, .. } => peer_original_dcid is Some
                        && peer_original_dcid->0@ == dcid,
                    TokenModel::Identity { .. } => peer_original_dcid is None,
                }
            },
        !peer_address_verified ==> {
            &&& peer_original_dcid is None
            &&& firewall.may_allow(from, total, unverified, true)
            &&& header.token is None ==> after == before
            &&& header.token is Some ==> exists|error: TokenError|
                !(error matches TokenError::Expired(TokenKind::Retry, _)) && #[trigger] T::may_verify(
                    before,
                    from.spec_ip(),
                    header.scid@,
                    header.dcid@,
                    header.token->0@,
                    now,
                    Err::<TokenModel, TokenError>(error),
                    after,
                )
        },
{
    let action = InitialAction::Accept { new_scid, peer_original_dcid, peer_address_verified };
    let (verdict, allowed, verified) = choose|
        verdict: Option<Result<TokenModel, TokenError>>,
        allowed: bool,
        verified: T,
    |
        {
            &&& may_say(before, header, from, now, verdict, verified)
            &&& firewall.may_allow(from, total, unverified, allowed) || !is_asked(verdict)
            &&& #[trigger] may_follow(
                verdict,
                allowed,
                verified,
                header,
                from,
                expires_at,
                action,
                cid_len,
                after,
            )
        };
    if peer_address_verified {
        assert(verdict->0 is Ok);
        assert(T::may_verify(
            before,
            from.spec_ip(),
            header.scid@,
            header.dcid@,
            header.token->0@,
            now,
            Ok::<TokenModel, TokenError>(verdict->0->Ok_0),
            after,
        ));
    } else if header.token is Some {
        assert(verdict->0 is Err);
        assert(T::may_verify(
            before,
            from.spec_ip(),
            header.scid@,
            header.dcid@,
            header.token->0@,
            now,
            Err::<TokenModel, TokenError>(verdict->0->Err_0),
            after,
        ));
    }
}

/// Versions are negotiated with a peer if and only if its version is not supported. A packet
/// of a supported version is dropped if its connection IDs are too long,
/// or its `Retry` token has expired.
pub proof fn law_packets_are_dropped_for_a_reason<F: Firewall, T: TokenGenerator>(
    firewall: F,
    before: T,
    header: InitialHeader,
    from: SocketAddr,
    total: usize,
    unverified: usize,
    now: SystemTime,
    expires_at: SystemTime,
    action: InitialAction,
    cid_len: nat,
    after: T,
)
    requires
        may_act(
            firewall,
            before,
            header,
            from,
            total,
            unverified,
            now,
            expires_at,
            action,
            cid_len,
            after,
        ),
    ensures
        action is NegotiateVersion <==> !header.is_version_supported,
        header.is_version_supported && (header.scid@.len() > 20 || header.dcid@.len() > 20)
            ==> action is Drop,
        action is Drop && header.scid@.len() <= 20 && header.dcid@.len() <= 20 ==> header.token is Some
            && exists|expired_at: SystemTime| #[trigger]
            T::may_verify(
                before,
                from.spec_ip(),
                header.scid@,
                header.dcid@,
                header.token->0@,
                now,
                Err::<TokenModel, TokenError>(TokenError::Expired(TokenKind::Retry, expired_at)),
                after,
            ),
{
    if header.is_version_supported && header.scid@.len() <= 20 && header.dcid@.len() <= 20 {
        let (verdict, allowed, verified) = choose|
            verdict: Option<Result<TokenModel, TokenError>>,
            allowed: bool,
            verified: T,
        |
            {
                &&& may_say(before, header, from, now, verdict, verified)
                &&& firewall.may_allow(from, total, unverified, allowed) || !is_asked(verdict)
                &&& #[trigger] may_follow(
                    verdict,
                    allowed,
                    verified,
                    header,
                    from,
                    expires_at,
                    action,
                    cid_len,
                    after,
                )
            };
        if action is Drop {
            assert(verdict->0->Err_0 is Expired);
            assert(T::may_verify(
                before,
                from.spec_ip(),
                header.scid@,
                header.dcid@,
                header.token->0@,
                now,
                Err::<TokenModel, TokenError>(
                    TokenError::Expired(TokenKind::Retry, verdict->0->Err_0->Expired_1),
                ),
                after,
            ));
        }
    }
}

/// The firewall is asked unless the token says that the address is validated, or that a `Retry`
/// token has expired. Only a token that is valid is worth a validated address, and only an
/// expired `Retry` token makes a packet worth nothing.
pub proof fn law_firewall_is_asked_without_a_valid_token(
    said: TokenModel,
    expired_at: SystemTime,
    worth: TokenWorth,
)
    ensures
        is_asked(None),
        is_asked(Some(Err(TokenError::Invalid))),
        is_asked(Some(Err(TokenError::Expired(TokenKind::Identity, expired_at)))),
        !is_asked(Some(Err(TokenError::Expired(TokenKind::Retry, expired_at)))),
        !is_asked(Some(Ok(said))),
        is_worth(None, worth) <==> worth is Unverified,
        is_worth(Some(Err(TokenError::Invalid)), worth) <==> worth is Unverified,
        is_worth(
            Some(Err(TokenError::Expired(TokenKind::Identity, expired_at))),
            worth,
        ) <==> worth is Unverified,
        is_worth(Some(Err(TokenError::Expired(TokenKind::Retry, expired_at))), worth) <==> worth is Drop,
        is_worth(Some(Ok(said)), worth) ==> {
            &&& worth matches TokenWorth::Verified { peer_original_dcid: told }
            &&& said matches TokenModel::Retry { peer_original_dcid, .. } ==> (told matches Some(dcid)
                && dcid@ == peer_original_dcid)
            &&& said is Identity ==> told is None
        },
{
}

/// The token of a packet is verified with what the packet says of the peer: its address
/// and both connection IDs. A packet without a token is verified by nothing.
pub proof fn law_token_is_verified_for_the_peer<T: TokenGenerator>(
    before: T,
    header: InitialHeader,
    from: SocketAddr,
    now: SystemTime,
    verdict: Option<Result<TokenModel, TokenError>>,
    after: T,
)
    requires
        may_say(before, header, from, now, verdict, after),
    ensures
        verdict is Some <==> header.token is Some,
        header.token is None ==> after == before,
        header.token matches Some(token) ==> T::may_verify(
            before,
            from.spec_ip(),
            header.scid@,
            header.dcid@,
            token@,
            now,
            verdict->0,
            after,
        ),
{
}

} // verus!

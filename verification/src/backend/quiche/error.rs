use crate::backend::Error;
use vstd::prelude::*;

verus! {

/// What kind of error `quiche` returned.
#[derive(Debug, Clone, Copy, PartialEq, Eq, Structural)]
pub enum QuicheErrorKind {
    /// There is no more work to do.
    Done,
    /// The provided buffer is too short.
    BufferTooShort,
    /// The provided packet cannot be parsed because its version is unknown.
    UnknownVersion,
    /// The provided packet cannot be parsed because it contains an invalid frame.
    InvalidFrame,
    /// The provided packet cannot be parsed.
    InvalidPacket,
    /// The operation cannot be completed because the connection is in an invalid state.
    InvalidState,
    /// The operation cannot be completed because the stream is in an invalid state.
    InvalidStreamState(u64),
    /// The peer's transport params cannot be parsed.
    InvalidTransportParam,
    /// A cryptographic operation failed.
    CryptoFail,
    /// The TLS handshake failed.
    TlsFail,
    /// The peer violated the local flow control limits.
    FlowControl,
    /// The peer violated the local stream limits.
    StreamLimit,
    /// The specified stream was stopped by the peer.
    StreamStopped(u64),
    /// The specified stream was reset by the peer.
    StreamReset(u64),
    /// The received data exceeds the stream's final size.
    FinalSize,
    /// Error in congestion control.
    CongestionControl,
    /// Too many identifiers were provided.
    IdLimit,
    /// Not enough available identifiers.
    OutOfIdentifiers,
    /// Error in key update.
    KeyUpdate,
    /// The peer sent more data in CRYPTO frames than we can buffer.
    CryptoBufferExceeded,
    /// The peer sent an ACK frame with an invalid range.
    InvalidAckRange,
    /// The peer sent an ACK frame for a skipped packet used for Optimistic ACK mitigation.
    OptimisticAckDetected,
    /// The destination connection ID was not properly initialized.
    InvalidDcidInitialization,
}

/// An error that `quiche` returned.
#[derive(Debug)]
pub struct QuicheError {
    /// What kind of error it is.
    pub kind: QuicheErrorKind,
    /// The description of the error.
    pub text: String,
}

/// A value or an error is the expected one.
pub open spec fn is_other(r: Error, text: Seq<char>) -> bool {
    r matches Error::Other(message) && message@ == text
}

/// What a failed stream read says to an application, `None` if there is just no data.
pub open spec fn is_stream_recv_error(error: QuicheError, r: Option<Error>) -> bool {
    match error.kind {
        QuicheErrorKind::Done => r is None,
        QuicheErrorKind::StreamReset(code) => r == Some(Error::StreamReset(code)),
        QuicheErrorKind::InvalidStreamState(_) => r == Some(Error::UnknownStream),
        QuicheErrorKind::StreamStopped(_) => r == Some(Error::UnknownStream),
        _ => r matches Some(e) && is_other(e, error.text@),
    }
}

/// What a failed stream write says to an application, `None` if there is just no capacity.
pub open spec fn is_stream_send_error(error: QuicheError, r: Option<Error>) -> bool {
    match error.kind {
        QuicheErrorKind::Done => r is None,
        QuicheErrorKind::StreamStopped(code) => r == Some(Error::StreamStop(code)),
        QuicheErrorKind::InvalidStreamState(_) => r == Some(Error::UnknownStream),
        QuicheErrorKind::StreamReset(_) => r == Some(Error::UnknownStream),
        _ => r matches Some(e) && is_other(e, error.text@),
    }
}

/// What a failed datagram write says to an application, `None` if there is just no capacity.
pub open spec fn is_dgram_send_error(error: QuicheError, r: Option<Error>) -> bool {
    match error.kind {
        QuicheErrorKind::Done => r is None,
        QuicheErrorKind::BufferTooShort => r == Some(Error::BufferSize),
        QuicheErrorKind::InvalidState => r == Some(Error::DgramDisabled),
        _ => r matches Some(e) && is_other(e, error.text@),
    }
}

/// What a failed datagram read says to an application, `None` if there is just no datagram.
pub open spec fn is_dgram_recv_error(error: QuicheError, r: Option<Error>) -> bool {
    match error.kind {
        QuicheErrorKind::Done => r is None,
        _ => r matches Some(e) && is_other(e, error.text@),
    }
}

/// What a failed close says to an application.
pub open spec fn is_close_error(error: QuicheError, r: Error) -> bool {
    match error.kind {
        // Connection is already closed.
        QuicheErrorKind::Done => r == Error::UnknownConnection,
        _ => is_other(r, error.text@),
    }
}

impl QuicheError {
    /// Returns what a failed stream read says to an application, `None` if there is just no data.
    pub fn into_stream_recv_error(self) -> (r: Option<Error>)
        ensures
            is_stream_recv_error(self, r),
    {
        match self.kind {
            QuicheErrorKind::Done => None,
            QuicheErrorKind::StreamReset(code) => Some(Error::StreamReset(code)),
            QuicheErrorKind::InvalidStreamState(_) => Some(Error::UnknownStream),
            QuicheErrorKind::StreamStopped(_) => Some(Error::UnknownStream),
            _ => Some(Error::Other(self.text)),
        }
    }

    /// Returns what a failed stream write says to an application, `None` if there is just no capacity.
    pub fn into_stream_send_error(self) -> (r: Option<Error>)
        ensures
            is_stream_send_error(self, r),
    {
        match self.kind {
            QuicheErrorKind::Done => None,
            QuicheErrorKind::StreamStopped(code) => Some(Error::StreamStop(code)),
            QuicheErrorKind::InvalidStreamState(_) => Some(Error::UnknownStream),
            QuicheErrorKind::StreamReset(_) => Some(Error::UnknownStream),
            _ => Some(Error::Other(self.text)),
        }
    }

    /// Returns what a failed datagram write says to an application, `None` if there is just no capacity.
    pub fn into_dgram_send_error(self) -> (r: Option<Error>)
        ensures
            is_dgram_send_error(self, r),
    {
        match self.kind {
            QuicheErrorKind::Done => None,
            QuicheErrorKind::BufferTooShort => Some(Error::BufferSize),
            // The peer does not support datagrams.
            QuicheErrorKind::InvalidState => Some(Error::DgramDisabled),
            _ => Some(Error::Other(self.text)),
        }
    }

    /// Returns what a failed datagram read says to an application, `None` if there is just no datagram.
    pub fn into_dgram_recv_error(self) -> (r: Option<Error>)
        ensures
            is_dgram_recv_error(self, r),
    {
        match self.kind {
            QuicheErrorKind::Done => None,
            _ => Some(Error::Other(self.text)),
        }
    }

    /// Returns what a failed close says to an application.
    pub fn into_close_error(self) -> (r: Error)
        ensures
            is_close_error(self, r),
    {
        match self.kind {
            QuicheErrorKind::Done => Error::UnknownConnection,
            _ => Error::Other(self.text),
        }
    }

    /// The error is one that `quiche` returns for a packet of a misbehaving peer.
    pub open spec fn blames_peer(self) -> bool {
        match self.kind {
            QuicheErrorKind::InvalidFrame | QuicheErrorKind::InvalidPacket
            | QuicheErrorKind::InvalidTransportParam | QuicheErrorKind::CryptoFail
            | QuicheErrorKind::TlsFail | QuicheErrorKind::FlowControl | QuicheErrorKind::StreamLimit
            | QuicheErrorKind::FinalSize | QuicheErrorKind::KeyUpdate
            | QuicheErrorKind::CryptoBufferExceeded | QuicheErrorKind::InvalidAckRange
            | QuicheErrorKind::OptimisticAckDetected => true,
            _ => false,
        }
    }

    /// Returns `true` if `quiche` was not expected to return the error for a received packet.
    pub fn is_unexpected_on_recv(&self) -> (r: bool)
        ensures
            r == !(self.blames_peer() || self.kind == QuicheErrorKind::UnknownVersion),
    {
        match self.kind {
            QuicheErrorKind::UnknownVersion | QuicheErrorKind::InvalidFrame
            | QuicheErrorKind::InvalidPacket | QuicheErrorKind::InvalidTransportParam
            | QuicheErrorKind::CryptoFail | QuicheErrorKind::TlsFail | QuicheErrorKind::FlowControl
            | QuicheErrorKind::StreamLimit | QuicheErrorKind::FinalSize | QuicheErrorKind::KeyUpdate
            | QuicheErrorKind::CryptoBufferExceeded | QuicheErrorKind::InvalidAckRange
            | QuicheErrorKind::OptimisticAckDetected => false,
            _ => true,
        }
    }
}

/// A stream read fails with the code that the peer has reset the stream with, or says that there
/// is no such stream, or that there is just no data. All other errors are told in their own words.
pub proof fn law_stream_read_tells_the_peers_code(error: QuicheError, r: Option<Error>)
    requires
        is_stream_recv_error(error, r),
    ensures
        r is None <==> error.kind == QuicheErrorKind::Done,
        error.kind matches QuicheErrorKind::StreamReset(code) ==> r == Some(
            Error::StreamReset(code),
        ),
        r matches Some(Error::StreamReset(code)) ==> error.kind == QuicheErrorKind::StreamReset(
            code,
        ),
        r == Some(Error::UnknownStream) <==> error.kind is InvalidStreamState
            || error.kind is StreamStopped,
        r matches Some(told) ==> told is StreamReset || told is UnknownStream || (
        told matches Error::Other(message) && message@ == error.text@),
{
}

/// A stream write fails with the code that the peer has stopped the stream with, or says that there
/// is no such stream, or that there is just no room. All other errors are told in their own words.
pub proof fn law_stream_write_tells_the_peers_code(error: QuicheError, r: Option<Error>)
    requires
        is_stream_send_error(error, r),
    ensures
        r is None <==> error.kind == QuicheErrorKind::Done,
        error.kind matches QuicheErrorKind::StreamStopped(code) ==> r == Some(
            Error::StreamStop(code),
        ),
        r matches Some(Error::StreamStop(code)) ==> error.kind == QuicheErrorKind::StreamStopped(
            code,
        ),
        r == Some(Error::UnknownStream) <==> error.kind is InvalidStreamState
            || error.kind is StreamReset,
        r matches Some(told) ==> told is StreamStop || told is UnknownStream || (
        told matches Error::Other(message) && message@ == error.text@),
{
}

/// Datagrams that cannot be sent or received now are no error. One that is too long, and a peer
/// that takes none, are told apart; all other errors are told in their own words.
pub proof fn law_datagram_errors_are_told(
    error: QuicheError,
    sent: Option<Error>,
    received: Option<Error>,
)
    requires
        is_dgram_send_error(error, sent),
        is_dgram_recv_error(error, received),
    ensures
        sent is None <==> error.kind == QuicheErrorKind::Done,
        received is None <==> error.kind == QuicheErrorKind::Done,
        sent == Some(Error::BufferSize) <==> error.kind == QuicheErrorKind::BufferTooShort,
        sent == Some(Error::DgramDisabled) <==> error.kind == QuicheErrorKind::InvalidState,
        sent matches Some(told) ==> told is BufferSize || told is DgramDisabled || (
        told matches Error::Other(message) && message@ == error.text@),
        received matches Some(told) ==> (told matches Error::Other(message) && message@
            == error.text@),
{
}

/// A connection that is closed already is unknown, any other failure to close it is told
/// in its own words.
pub proof fn law_close_errors_are_told(error: QuicheError, told: Error)
    requires
        is_close_error(error, told),
    ensures
        told == Error::UnknownConnection <==> error.kind == QuicheErrorKind::Done,
        error.kind != QuicheErrorKind::Done ==> (told matches Error::Other(message) && message@
            == error.text@),
{
}

/// A peer is not blamed for what only we can have done wrong, and for nothing else it is excused.
pub proof fn law_peers_are_blamed_for_their_packets(error: QuicheError)
    ensures
        !(error.blames_peer() || error.kind == QuicheErrorKind::UnknownVersion) <==> match error.kind {
            QuicheErrorKind::Done
            | QuicheErrorKind::BufferTooShort
            | QuicheErrorKind::InvalidState
            | QuicheErrorKind::InvalidStreamState(_)
            | QuicheErrorKind::StreamStopped(_)
            | QuicheErrorKind::StreamReset(_)
            | QuicheErrorKind::CongestionControl
            | QuicheErrorKind::IdLimit
            | QuicheErrorKind::OutOfIdentifiers
            | QuicheErrorKind::InvalidDcidInitialization => true,
            _ => false,
        },
{
}

} // verus!

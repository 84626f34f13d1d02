use crate::util::text;
use vstd::prelude::*;
use vstd::string::StringExecFns;

verus! {

/// Error of a QUIC backend.
#[derive(Debug)]
pub enum Error {
    /// Backend is closed.
    Closed,
    /// Illegal operation or argument.
    ///
    /// For example:
    /// - Attempt to create a new client connection,
    ///   while backend is working on server-only mode.
    /// - Attempt to write data into read-only stream.
    Illegal,
    /// Provided buffer size is either too short or too long.
    BufferSize,
    /// Connection associated with the provided `connection_id` cannot be found.
    UnknownConnection,
    /// Stream associated with the provided `stream_id` cannot be found.
    UnknownStream,
    /// A refused attempt to open a new stream with a specific direction.
    ///
    /// The streams in the given direction are currently exhausted.
    StreamsExhausted,
    /// Unable to perform operation on the stream: it's terminated with `STOP_SENDING(err)`.
    StreamStop(u64),
    /// Unable to perform operation on the stream: it's terminated with `RESET_STREAM(err)`.
    StreamReset(u64),
    /// Datagrams are not supported by the current configuration, provider, or the peer.
    ///
    /// Note, that peer may have disabled sending datagrams for us,
    /// but still may send datagrams back to us.
    DgramDisabled,
    /// Other uncovered error.
    Other(String),
}

impl Error {
    /// The description of the error.
    pub open spec fn spec_message(&self) -> Seq<char> {
        match *self {
            Error::Closed => "backend is closed"@,
            Error::Illegal => "illegal operation"@,
            Error::BufferSize => "provided buffer has invalid size"@,
            Error::UnknownConnection => "unknown connection"@,
            Error::UnknownStream => "unknown stream"@,
            Error::StreamsExhausted => "streams are exhausted on this direction"@,
            Error::StreamStop(e) => "stream is terminated with 'STOP_SENDING("@ + text::decimal(
                e as nat,
            ) + ")'"@,
            Error::StreamReset(e) => "stream is terminated with 'RESET_STREAM("@ + text::decimal(
                e as nat,
            ) + ")'"@,
            Error::DgramDisabled => "datagrams are not supported on this direction, or completely"@,
            Error::Other(e) => e@,
        }
    }

    /// Returns the description of the error.
    pub fn message(&self) -> (r: String)
        ensures
            r@ == self.spec_message(),
    {
        let mut out = String::new();
        match self {
            Error::Closed => out.append("backend is closed"),
            Error::Illegal => out.append("illegal operation"),
            Error::BufferSize => out.append("provided buffer has invalid size"),
            Error::UnknownConnection => out.append("unknown connection"),
            Error::UnknownStream => out.append("unknown stream"),
            Error::StreamsExhausted => out.append("streams are exhausted on this direction"),
            Error::StreamStop(e) => {
                out.append("stream is terminated with 'STOP_SENDING(");
                text::push_decimal(&mut out, *e as u128);
                out.append(")'");
            },
            Error::StreamReset(e) => {
                out.append("stream is terminated with 'RESET_STREAM(");
                text::push_decimal(&mut out, *e as u128);
                out.append(")'");
            },
            Error::DgramDisabled => out.append(
                "datagrams are not supported on this direction, or completely",
            ),
            Error::Other(e) => out.append(e.as_str()),
        }
        assert(out@ =~= self.spec_message());
        out
    }
}

/// The description of an error tells which one it is, and the code of the peer with it.
pub proof fn law_descriptions_tell_the_error(error: Error)
    ensures
        error is Closed ==> error.spec_message() == "backend is closed"@,
        error is Illegal ==> error.spec_message() == "illegal operation"@,
        error is BufferSize ==> error.spec_message() == "provided buffer has invalid size"@,
        error is UnknownConnection ==> error.spec_message() == "unknown connection"@,
        error is UnknownStream ==> error.spec_message() == "unknown stream"@,
        error is StreamsExhausted ==> error.spec_message()
            == "streams are exhausted on this direction"@,
        error matches Error::StreamStop(e) ==> error.spec_message()
            == "stream is terminated with 'STOP_SENDING("@ + text::decimal(e as nat) + ")'"@,
        error matches Error::StreamReset(e) ==> error.spec_message()
            == "stream is terminated with 'RESET_STREAM("@ + text::decimal(e as nat) + ")'"@,
        error is DgramDisabled ==> error.spec_message()
            == "datagrams are not supported on this direction, or completely"@,
        error matches Error::Other(e) ==> error.spec_message() == e@,
{
}

} // verus!

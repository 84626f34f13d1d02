use crate::util::describe;
use crate::util::describe::Describe;
use vstd::prelude::*;
use vstd::string::StringExecFns;

verus! {

/// Represents the terminal, final state of a stream **direction**.
///
/// * `C`: a stream error code.
/// * `D`: an error of a decoder.
/// * `E`: an error of an encoder.
#[derive(Debug, Clone)]
pub enum Error<C, D, E> {
    /// The stream direction completed successfully.
    ///
    /// The sending-side finished sending data (`FIN`).
    Finish,
    /// The stream direction was abruptly terminated by the receiving-side (`STOP_SENDING`).
    Stop(C),
    /// The stream direction was abruptly terminated by the sending-side (`RESET_STREAM`).
    Reset(C),
    /// Deserialization of the incoming message failed.
    Decoder(D),
    /// Serialization of the outgoing message failed.
    Encoder(E),
    /// A QUIC connection, this stream belongs to, is closed.
    Connection,
    /// The sending/receiving side unexpectedly disappeared.
    HangUp(String),
}

impl<C: Describe, D: Describe, E: Describe> Error<C, D, E> {
    /// The description of the state.
    pub open spec fn spec_message(&self) -> Seq<char> {
        match *self {
            Error::Finish => "finish"@,
            Error::Stop(e) => describe::around("stop ("@, e.text(), ")"@),
            Error::Reset(e) => describe::around("reset ("@, e.text(), ")"@),
            Error::Decoder(e) => describe::around("decoder error ("@, e.text(), ")"@),
            Error::Encoder(e) => describe::around("encoder error ("@, e.text(), ")"@),
            Error::Connection => "connection is closed"@,
            Error::HangUp(e) => describe::around("hang-up ("@, e@, ")"@),
        }
    }

    /// Returns the description of the state.
    pub fn message(&self) -> (r: String)
        ensures
            r@ == self.spec_message(),
    {
        match self {
            Error::Finish => "finish".to_string(),
            Error::Stop(e) => describe::put_around("stop (", e.describe().as_str(), ")"),
            Error::Reset(e) => describe::put_around("reset (", e.describe().as_str(), ")"),
            Error::Decoder(e) => describe::put_around(
                "decoder error (",
                e.describe().as_str(),
                ")",
            ),
            Error::Encoder(e) => describe::put_around(
                "encoder error (",
                e.describe().as_str(),
                ")",
            ),
            Error::Connection => "connection is closed".to_string(),
            Error::HangUp(e) => describe::put_around("hang-up (", e.as_str(), ")"),
        }
    }
}

/// The description of a state tells which one it is, and the code or the error that belongs to it.
pub proof fn law_descriptions_tell_the_state<C: Describe, D: Describe, E: Describe>(
    error: Error<C, D, E>,
)
    ensures
        error is Finish ==> error.spec_message() == "finish"@,
        error is Connection ==> error.spec_message() == "connection is closed"@,
        error matches Error::Stop(e) ==> error.spec_message() == "stop ("@ + e.text() + ")"@,
        error matches Error::Reset(e) ==> error.spec_message() == "reset ("@ + e.text() + ")"@,
        error matches Error::Decoder(e) ==> error.spec_message() == "decoder error ("@ + e.text()
            + ")"@,
        error matches Error::Encoder(e) ==> error.spec_message() == "encoder error ("@ + e.text()
            + ")"@,
        error matches Error::HangUp(e) ==> error.spec_message() == "hang-up ("@ + e@ + ")"@,
{
}

} // verus!

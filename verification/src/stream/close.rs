use vstd::prelude::*;

verus! {

/// The level of a log message.
#[derive(Debug, Clone, Copy, PartialEq, Eq, Structural)]
pub enum Level {
    /// An ordinary event.
    Debug,
    /// Something went wrong.
    Warn,
    /// Something went wrong that should never happen.
    Error,
}

/// What the application is told about a closed stream direction.
#[derive(Debug, Clone, Copy, PartialEq, Eq)]
pub enum AppNotice<C> {
    /// The peer has terminated the direction.
    Terminate(C),
    /// The codec has failed.
    Codec,
    /// The connection is closed.
    Connection,
    /// Something has disappeared.
    HangUp,
}

/// What the QUIC backend is told about a closed stream direction.
#[derive(Debug, Clone, Copy, PartialEq, Eq)]
pub enum BackendNotice<C> {
    /// The application has terminated the direction.
    Terminate(C),
    /// The codec has failed.
    Codec,
    /// Something has disappeared.
    HangUp,
}

/// How the end of a stream direction is recorded.
#[derive(Debug, Clone, Copy, PartialEq, Eq)]
pub enum SpanNotice<C> {
    /// The direction was finished.
    Fin,
    /// The receiving side has terminated the direction.
    StopSending(C),
    /// The sending side has terminated the direction.
    ResetStream(C),
    /// The connection is closed.
    ConnectionClose,
    /// An internal error.
    Internal,
}

/// How a stream direction is closed.
///
/// * `C`: a stream error code.
/// * `X`: an error of a codec.
#[derive(Debug)]
pub struct ClosePlan<C, X> {
    /// The level of the log message.
    pub level: Level,
    /// What the application is told, if anything.
    pub app: Option<AppNotice<C>>,
    /// What the QUIC backend is told, if anything.
    pub backend: Option<BackendNotice<C>>,
    /// What is recorded.
    pub span: SpanNotice<C>,
    /// Why the codec has failed, if it has.
    pub codec_error: Option<X>,
    /// What has disappeared, if anything has.
    pub message: Option<String>,
}

impl<C, X> ClosePlan<C, X> {
    /// One side is told that the codec has failed if and only if the error is known,
    /// and that something has disappeared if and only if it is known what.
    pub open spec fn is_consistent(&self) -> bool {
        &&& (self.app matches Some(AppNotice::Codec)) == (self.codec_error is Some)
        &&& (self.backend matches Some(BackendNotice::Codec)) == (self.codec_error is Some)
        &&& (self.app matches Some(AppNotice::HangUp)) == (self.message is Some)
        &&& (self.backend matches Some(BackendNotice::HangUp)) == (self.message is Some)
    }
}

} // verus!

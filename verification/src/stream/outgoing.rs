use crate::backend;
use crate::stream::close::{AppNotice, BackendNotice, ClosePlan, Level, SpanNotice};
use crate::stream::incoming;
use crate::stream::{Encoder, Error, Payload};
use crate::util::describe;
use crate::util::describe::Describe;
use vstd::prelude::*;

verus! {

/// An outgoing QUIC stream direction,
/// acts like a bridge between protocol backend and application for a single stream.
///
/// `Network Peer << QUIC Backend << Outgoing << Application`.
///
/// Its role is to:
/// 1) Receive incoming messages from `Application`.
/// 2) Encode the messages.
/// 3) Send encoded chunks of bytes to `QUIC Backend`.
///
/// The entire flow is sequential: implementation won't write to `QUIC Backend`,
/// unless it's ready to receive the data.
///
/// * `Enc`: an encoder.
pub struct Outgoing<Enc> {
    /// Encoder for encoding messages into bytes.
    pub encoder: Option<Enc>,
    /// `true`, if 'FIN' was received from the application.
    pub stream_finished: bool,
    /// `true` if the direction was closed: everybody was told about it.
    pub closed: bool,
    /// The name of the direction, for descriptions of errors.
    pub name: String,
    /// The name of the items, for descriptions of errors.
    pub item_name: String,
}

impl<Enc> Outgoing<Enc> {
    /// Creates a direction that expects messages.
    pub fn new(encoder: Enc, name: String, item_name: String) -> (r: Self)
        ensures
            r == (Outgoing {
                encoder: Some(encoder),
                stream_finished: false,
                closed: false,
                name,
                item_name,
            }),
    {
        Self { encoder: Some(encoder), stream_finished: false, closed: false, name, item_name }
    }

    /// A message may be received from the application.
    pub open spec fn is_receiving(self) -> bool {
        !self.stream_finished && self.encoder is Some
    }

    /// Returns `true` if a message may be received from the application.
    pub fn can_recv(&self) -> (r: bool)
        ensures
            r == self.is_receiving(),
    {
        !self.stream_finished && self.encoder.is_some()
    }

    /// Returns `true` if all data was written, the end of the stream too.
    pub fn is_finished(&self) -> (r: bool)
        ensures
            r == self.stream_finished,
    {
        self.stream_finished
    }

    /// Takes what became of receiving a message from the application.
    ///
    /// Returns the error to close the direction with, if it cannot go on.
    pub fn after_recv<T, C, D, E>(
        &self,
        result: Result<Option<Payload<T>>, Error<C, D, E>>,
    ) -> (r: Result<Option<Payload<T>>, Error<C, D, E>>) where C: Describe, D: Describe, E: Describe
        ensures
            match result {
                Ok(payload) => r == Ok::<Option<Payload<T>>, Error<C, D, E>>(payload),
                Err(Error::Reset(code)) => r == Err::<Option<Payload<T>>, Error<C, D, E>>(
                    Error::Reset(code),
                ),
                Err(Error::HangUp(reason)) => r is Err && (r->Err_0 matches Error::HangUp(message)
                    && message@ == incoming::about(
                    self.name@,
                    describe::around("items '"@, self.item_name@, "' channel is unavailable: "@)
                        + reason@,
                )),
                Err(error) => r is Err && (r->Err_0 matches Error::HangUp(message) && message@
                    == incoming::about(
                    self.name@,
                    describe::around(
                        "items '"@,
                        self.item_name@,
                        "' channel returned an unexpected error: "@,
                    ) + error.spec_message(),
                )),
            },
    {
        match result {
            Ok(payload) => Ok(payload),
            Err(Error::Reset(code)) => Err(Error::Reset(code)),
            Err(Error::HangUp(reason)) => {
                let text = describe::put_behind(
                    describe::put_around(
                        "items '",
                        self.item_name.as_str(),
                        "' channel is unavailable: ",
                    ),
                    reason.as_str(),
                );
                Err(Error::HangUp(incoming::tell_about(self.name.as_str(), text.as_str())))
            },
            Err(error) => {
                let text = describe::put_behind(
                    describe::put_around(
                        "items '",
                        self.item_name.as_str(),
                        "' channel returned an unexpected error: ",
                    ),
                    error.message().as_str(),
                );
                Err(Error::HangUp(incoming::tell_about(self.name.as_str(), text.as_str())))
            },
        }
    }

    /// The encoder that is handed out, and the direction without it.
    pub open spec fn writing(self) -> (Option<Enc>, Self) {
        (self.encoder, Outgoing { encoder: None, ..self })
    }

    /// Hands out the encoder for the QUIC backend to flush.
    ///
    /// Returns `None` if the encoder was handed out already.
    pub fn begin_write(&mut self) -> (r: Option<Enc>)
        ensures
            (r, *final(self)) == old(self).writing(),
    {
        let mut encoder: Option<Enc> = None;
        core::mem::swap(&mut encoder, &mut self.encoder);
        encoder
    }

    /// Takes what became of the encoder that was handed out.
    ///
    /// * `result`: the encoder or an error of the QUIC backend, or why the backend is unavailable.
    pub fn end_write<C: From<u64>, D, E>(
        &mut self,
        result: Result<Result<Enc, backend::Error>, String>,
    ) -> (r: Result<(), Error<C, D, E>>)
        ensures
            match result {
                Ok(Ok(encoder)) => r is Ok && *final(self) == (Outgoing {
                    encoder: Some(encoder),
                    ..*old(self)
                }),
                Ok(Err(error)) => *final(self) == *old(self) && match error {
                    backend::Error::StreamStop(raw) => r is Err && (
                    r->Err_0 matches Error::Stop(code) && incoming::is_code(code, raw)),
                    backend::Error::Closed => r is Err && r->Err_0 is Connection,
                    backend::Error::UnknownConnection => r is Err && r->Err_0 is Connection,
                    _ => r is Err && (r->Err_0 matches Error::HangUp(message) && message@
                        == incoming::about(
                        old(self).name@,
                        "QUIC backend responded with an unexpected error: "@ + error.spec_message(),
                    )),
                },
                Err(reason) => {
                    &&& *final(self) == *old(self)
                    &&& r is Err && (r->Err_0 matches Error::HangUp(message) && message@
                        == incoming::about(
                        old(self).name@,
                        "QUIC backend RPC channel is unavailable: "@ + reason@,
                    ))
                },
            },
    {
        let error = match result {
            Ok(Ok(encoder)) => {
                self.encoder = Some(encoder);
                return Ok(());
            },
            Ok(Err(error)) => error,
            Err(reason) => {
                let text = describe::put_behind(
                    "QUIC backend RPC channel is unavailable: ".to_string(),
                    reason.as_str(),
                );
                return Err(
                    Error::HangUp(incoming::tell_about(self.name.as_str(), text.as_str())),
                );
            },
        };
        match error {
            backend::Error::StreamStop(raw) => Err(Error::Stop(C::from(raw))),
            backend::Error::Closed => Err(Error::Connection),
            backend::Error::UnknownConnection => Err(Error::Connection),
            other => {
                let text = describe::put_behind(
                    "QUIC backend responded with an unexpected error: ".to_string(),
                    other.message().as_str(),
                );
                Err(Error::HangUp(incoming::tell_about(self.name.as_str(), text.as_str())))
            },
        }
    }

    /// Takes the error that the application has closed the channel of items with,
    /// `None` if there is none although the channel is gone.
    ///
    /// Returns the error to close the direction with, `None` if the error is one of our own.
    pub fn app_error<C, D, E>(&self, error: Option<Error<C, D, E>>) -> (r: Option<Error<C, D, E>>)
        ensures
            match error {
                Some(Error::Reset(_)) => r == error,
                Some(Error::HangUp(_)) => r == error,
                Some(_) => r is None,
                None => r is Some && (r->0 matches Error::HangUp(message) && message@
                    == incoming::about(
                    self.name@,
                    describe::around(
                        "items '"@,
                        self.item_name@,
                        "' error channel is unavailable"@,
                    ),
                )),
            },
    {
        match error {
            Some(Error::Reset(code)) => Some(Error::Reset(code)),
            Some(Error::HangUp(message)) => Some(Error::HangUp(message)),
            Some(_) => None,
            None => {
                let text = describe::put_around(
                    "items '",
                    self.item_name.as_str(),
                    "' error channel is unavailable",
                );
                Some(Error::HangUp(incoming::tell_about(self.name.as_str(), text.as_str())))
            },
        }
    }

    /// Takes the error that the direction is cancelled with,
    /// `None` if there is none although the channel of cancellation is gone.
    ///
    /// Returns the error to close the direction with.
    pub fn cancel_error<C, D, E>(&self, error: Option<Error<C, D, E>>) -> (r: Error<C, D, E>)
        ensures
            match error {
                Some(error) => r == error,
                None => r matches Error::HangUp(message) && message@ == incoming::about(
                    self.name@,
                    "cancellation-signal channel is unavailable"@,
                ),
            },
    {
        match error {
            Some(error) => error,
            None => Error::HangUp(
                incoming::tell_about(
                    self.name.as_str(),
                    "cancellation-signal channel is unavailable",
                ),
            ),
        }
    }

    /// Closes the direction with an error, whoever it comes from: the direction itself,
    /// the application, or a cancellation.
    ///
    /// Returns who is told what. Returns `None` if the direction was closed already.
    pub fn close<C: Copy, D: Describe, E>(&mut self, error: Error<C, D, E>) -> (r: Option<
        ClosePlan<C, E>,
    >)
        ensures
            *final(self) == (Outgoing { closed: true, ..*old(self) }),
            r is Some <==> !old(self).closed,
            r matches Some(plan) ==> is_out_plan(old(self).name@, error, plan),
    {
        if self.closed {
            return None;
        }
        self.closed = true;
        Some(
            match error {
                Error::Finish => ClosePlan {
                    level: Level::Debug,
                    app: None,
                    backend: None,
                    span: SpanNotice::Fin,
                    codec_error: None,
                    message: None,
                },
                // Peer sent 'STOP_SENDING' to us, notify the app.
                Error::Stop(code) => ClosePlan {
                    level: Level::Debug,
                    app: Some(AppNotice::Terminate(code)),
                    backend: None,
                    span: SpanNotice::StopSending(code),
                    codec_error: None,
                    message: None,
                },
                // We need to terminate the stream without finishing it,
                // send 'RESET_STREAM' to peer.
                Error::Reset(code) => ClosePlan {
                    level: Level::Debug,
                    app: None,
                    backend: Some(BackendNotice::Terminate(code)),
                    span: SpanNotice::ResetStream(code),
                    codec_error: None,
                    message: None,
                },
                // Occurred encoder error, notify both sides.
                Error::Encoder(codec_error) => ClosePlan {
                    level: Level::Warn,
                    app: Some(AppNotice::Codec),
                    backend: Some(BackendNotice::Codec),
                    span: SpanNotice::Internal,
                    codec_error: Some(codec_error),
                    message: None,
                },
                // Occurred connection error, notify the app.
                Error::Connection => ClosePlan {
                    level: Level::Debug,
                    app: Some(AppNotice::Connection),
                    backend: None,
                    span: SpanNotice::ConnectionClose,
                    codec_error: None,
                    message: None,
                },
                // Internal error, notify both sides.
                Error::HangUp(message) => ClosePlan {
                    level: Level::Warn,
                    app: Some(AppNotice::HangUp),
                    backend: Some(BackendNotice::HangUp),
                    span: SpanNotice::Internal,
                    codec_error: None,
                    message: Some(message),
                },
                // There is no decoder on this side.
                Error::Decoder(codec_error) => {
                    let text = describe::put_behind(
                        "received an unexpected encoder error: ".to_string(),
                        codec_error.describe().as_str(),
                    );
                    ClosePlan {
                        level: Level::Error,
                        app: Some(AppNotice::HangUp),
                        backend: Some(BackendNotice::HangUp),
                        span: SpanNotice::Internal,
                        codec_error: None,
                        message: Some(incoming::tell_about(self.name.as_str(), text.as_str())),
                    }
                },
            },
        )
    }
}

impl<Enc: Encoder> Outgoing<Enc> {
    /// Encodes a message that was received from the application.
    ///
    /// Returns `false` if there is none, or it cannot be encoded now.
    pub fn encode<C, D>(&mut self, payload: Option<Payload<Enc::Item>>) -> (r: Result<
        bool,
        Error<C, D, Enc::Error>,
    >)
        ensures
            final(self).closed == old(self).closed,
            final(self).name == old(self).name,
            final(self).item_name == old(self).item_name,
            if old(self).is_receiving() && payload is Some {
                &&& r == Ok::<bool, Error<C, D, Enc::Error>>(true) || (r is Err && r->Err_0
                    is Encoder)
                &&& final(self).stream_finished == payload->0.ends()
                &&& final(self).encoder is Some
                &&& Enc::may_encode(
                    old(self).encoder->0,
                    payload->0,
                    encoder_result(r),
                    final(self).encoder->0,
                )
            } else {
                r == Ok::<bool, Error<C, D, Enc::Error>>(false) && *final(self) == *old(self)
            },
    {
        if self.stream_finished {
            return Ok(false);
        }
        let Some(encoder) = &mut self.encoder else {
            return Ok(false);
        };
        let Some(payload) = payload else {
            return Ok(false);
        };
        if payload.is_fin() {
            self.stream_finished = true;
        }
        match encoder.encode(payload) {
            Ok(done) => {
                assert(done == ());
                Ok(true)
            },
            Err(error) => Err(Error::Encoder(error)),
        }
    }

    /// Returns `true` if one more message may be encoded before the encoder is flushed.
    pub fn wants_more(&self) -> (r: bool)
        ensures
            if self.stream_finished {
                !r
            } else {
                match self.encoder {
                    Some(encoder) => encoder.may_flush(!r),
                    None => r,
                }
            },
    {
        if self.stream_finished {
            return false;
        }
        match &self.encoder {
            Some(encoder) => !encoder.should_flush(),
            None => true,
        }
    }
}

/// What an encoder has returned for a direction to return `result`.
pub open spec fn encoder_result<C, D, E>(result: Result<bool, Error<C, D, E>>) -> Result<(), E> {
    match result {
        Ok(_) => Ok(()),
        Err(error) => Err(error->Encoder_0),
    }
}

/// How an outgoing direction is closed with an error.
pub open spec fn is_out_plan<C, D: Describe, E>(
    name: Seq<char>,
    error: Error<C, D, E>,
    plan: ClosePlan<C, E>,
) -> bool {
    &&& plan.is_consistent()
    &&& match error {
        Error::Finish => {
            &&& plan.level is Debug
            &&& plan.app is None
            &&& plan.backend is None
            &&& plan.span is Fin
        },
        Error::Stop(code) => {
            &&& plan.level is Debug
            &&& plan.app == Some(AppNotice::Terminate(code))
            &&& plan.backend is None
            &&& plan.span == SpanNotice::StopSending(code)
        },
        Error::Reset(code) => {
            &&& plan.level is Debug
            &&& plan.app is None
            &&& plan.backend == Some(BackendNotice::Terminate(code))
            &&& plan.span == SpanNotice::ResetStream(code)
        },
        Error::Encoder(codec_error) => {
            &&& plan.level is Warn
            &&& plan.codec_error == Some(codec_error)
            &&& plan.span is Internal
        },
        Error::Connection => {
            &&& plan.level is Debug
            &&& plan.app == Some(AppNotice::<C>::Connection)
            &&& plan.backend is None
            &&& plan.span is ConnectionClose
        },
        Error::HangUp(message) => {
            &&& plan.level is Warn
            &&& plan.message == Some(message)
            &&& plan.span is Internal
        },
        Error::Decoder(codec_error) => {
            &&& plan.level is Error
            &&& plan.message is Some
            &&& plan.message->0@ == incoming::about(
                name,
                "received an unexpected encoder error: "@ + codec_error.text(),
            )
            &&& plan.span is Internal
        },
    }
}

/// An encoder that was handed out is not handed out again before it came back,
/// and meanwhile no message is received.
pub proof fn law_encoder_is_handed_out_once<Enc>(direction: Outgoing<Enc>)
    ensures
        direction.writing().1.writing().0 is None,
        !direction.writing().1.is_receiving(),
{
}

/// Whoever has closed the direction is not told about it, and the others are told:
/// the peer of what the application did, the application of what the peer did,
/// both of an internal error.
pub proof fn law_outgoing_close_tells_the_other_side<C, D: Describe, E>(
    name: Seq<char>,
    error: Error<C, D, E>,
    plan: ClosePlan<C, E>,
)
    requires
        is_out_plan(name, error, plan),
    ensures
        error is Reset ==> plan.app is None && plan.backend is Some,
        error is Stop || error is Connection ==> plan.app is Some && plan.backend is None,
        error is Decoder || error is Encoder || error is HangUp ==> plan.app is Some && plan.backend
            is Some,
        error is Finish ==> plan.app is None && plan.backend is None,
{
}

/// Codes, errors and messages are told as they are, and recorded with what has ended the direction.
/// Only what should never happen is logged as an error.
pub proof fn law_outgoing_close_keeps_what_is_told<C, D: Describe, E>(
    name: Seq<char>,
    error: Error<C, D, E>,
    plan: ClosePlan<C, E>,
)
    requires
        is_out_plan(name, error, plan),
    ensures
        error matches Error::Stop(code) ==> plan.app == Some(AppNotice::Terminate(code))
            && plan.span == SpanNotice::StopSending(code),
        error matches Error::Reset(code) ==> plan.backend == Some(BackendNotice::Terminate(code))
            && plan.span == SpanNotice::ResetStream(code),
        error matches Error::Encoder(codec_error) ==> plan.codec_error == Some(codec_error)
            && plan.app == Some(AppNotice::<C>::Codec) && plan.backend == Some(
            BackendNotice::<C>::Codec,
        ),
        error matches Error::HangUp(message) ==> plan.message == Some(message) && plan.app == Some(
            AppNotice::<C>::HangUp,
        ) && plan.backend == Some(BackendNotice::<C>::HangUp),
        error matches Error::Decoder(codec_error) ==> plan.app == Some(AppNotice::<C>::HangUp)
            && plan.backend == Some(BackendNotice::<C>::HangUp) && (plan.message matches Some(text)
            && text@ == "'"@ + name + "' "@ + ("received an unexpected encoder error: "@
            + codec_error.text())),
        error is Connection ==> plan.app == Some(AppNotice::<C>::Connection),
        plan.codec_error is Some <==> error is Encoder,
        plan.message is Some <==> error is HangUp || error is Decoder,
        plan.span is Fin <==> error is Finish,
        plan.span is ConnectionClose <==> error is Connection,
        plan.span is Internal <==> error is Decoder || error is Encoder || error is HangUp,
        plan.level is Error <==> error is Decoder,
        plan.level is Warn <==> error is Encoder || error is HangUp,
{
}

/// A direction receives messages as long as it is not finished and its encoder is there,
/// and hands out the encoder that it has.
pub proof fn law_direction_receives_until_it_is_finished<Enc>(direction: Outgoing<Enc>)
    ensures
        direction.is_receiving() <==> !direction.stream_finished && direction.encoder is Some,
        direction.writing().0 == direction.encoder,
        direction.writing().1.stream_finished == direction.stream_finished,
        direction.writing().1.closed == direction.closed,
{
}

} // verus!

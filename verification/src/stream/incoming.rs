use crate::backend;
use crate::stream::close::{AppNotice, BackendNotice, ClosePlan, Level, SpanNotice};
use crate::stream::{Decoder, Error, Payload};
use crate::util::describe;
use crate::util::describe::Describe;
use vstd::prelude::*;
use vstd::std_specs::convert::FromSpec;

verus! {

/// An incoming QUIC stream direction,
/// acts like a bridge between protocol backend and application listener for a single stream.
///
/// `Network Peer >> QUIC Backend >> Incoming >> Application`.
///
/// Its role is to:
/// 1) Receive incoming stream data from `QUIC Backend`.
/// 2) Decode the data.
/// 3) Send decoded items to `Application`.
///
/// The entire flow is sequential: implementation won't read from `QUIC Backend`,
/// unless the `Application` is ready to receive the data.
///
/// * `Dec`: a decoder.
pub struct Incoming<Dec> {
    /// Decoder for decoding raw bytes stream.
    pub decoder: Option<Dec>,
    /// `true` if `decoder` is empty and expects new raw bytes data.
    pub decoder_drained: bool,
    /// `true` if 'FIN' is received.
    pub stream_finished: bool,
    /// `true` if the direction was closed: everybody was told about it.
    pub closed: bool,
    /// The name of the direction, for descriptions of errors.
    pub name: String,
    /// The name of the decoded items, for descriptions of errors.
    pub item_name: String,
}

/// What is to be done next with a stream direction.
#[derive(Debug, Clone, Copy, PartialEq, Eq, Structural)]
pub enum InStep {
    /// To read raw bytes from the QUIC backend.
    Read,
    /// To decode what was read, and to send an item to the application.
    Decode,
    /// The direction is finished.
    End,
}

/// A stream error code that stands for a raw one.
pub open spec fn is_code<C: From<u64>>(code: C, raw: u64) -> bool {
    C::obeys_from_spec() ==> code == C::from_spec(raw)
}

/// `'name' text`.
pub open spec fn about(name: Seq<char>, text: Seq<char>) -> Seq<char> {
    describe::around("'"@, name, "' "@) + text
}

/// Returns `'name' text`.
pub(crate) fn tell_about(name: &str, text: &str) -> (r: String)
    ensures
        r@ == about(name@, text@),
{
    describe::put_behind(describe::put_around("'", name, "' "), text)
}

impl<Dec> Incoming<Dec> {
    /// Creates a direction that expects data.
    pub fn new(decoder: Dec, name: String, item_name: String) -> (r: Self)
        ensures
            r == (Incoming {
                decoder: Some(decoder),
                decoder_drained: true,
                stream_finished: false,
                closed: false,
                name,
                item_name,
            }),
    {
        Self {
            decoder: Some(decoder),
            decoder_drained: true,
            stream_finished: false,
            closed: false,
            name,
            item_name,
        }
    }

    /// What is to be done next.
    pub open spec fn spec_step(self) -> InStep {
        if self.stream_finished {
            InStep::End
        } else if self.decoder_drained {
            InStep::Read
        } else {
            InStep::Decode
        }
    }

    /// Returns what is to be done next.
    pub fn step(&self) -> (r: InStep)
        ensures
            r == self.spec_step(),
    {
        if self.stream_finished {
            InStep::End
        } else if self.decoder_drained {
            InStep::Read
        } else {
            InStep::Decode
        }
    }

    /// The decoder that is handed out, and the direction without it.
    pub open spec fn reading(self) -> (Option<Dec>, Self) {
        if self.stream_finished || !self.decoder_drained || self.decoder is None {
            (None, self)
        } else {
            (self.decoder, Incoming { decoder: None, decoder_drained: false, ..self })
        }
    }

    /// Hands out the decoder for the QUIC backend to fill.
    ///
    /// Returns `None` if there is nothing to read, or the decoder was handed out already.
    pub fn begin_read(&mut self) -> (r: Option<Dec>)
        ensures
            (r, *final(self)) == old(self).reading(),
    {
        if self.stream_finished || !self.decoder_drained {
            return None;
        }
        let mut decoder: Option<Dec> = None;
        core::mem::swap(&mut decoder, &mut self.decoder);
        if decoder.is_some() {
            self.decoder_drained = false;
        }
        decoder
    }

    /// Takes what became of the decoder that was handed out.
    ///
    /// * `result`: the decoder or an error of the QUIC backend, or why the backend is unavailable.
    pub fn end_read<C: From<u64>, D, E>(
        &mut self,
        result: Result<Result<Dec, backend::Error>, String>,
    ) -> (r: Result<(), Error<C, D, E>>)
        ensures
            match result {
                Ok(Ok(decoder)) => r is Ok && *final(self) == (Incoming {
                    decoder: Some(decoder),
                    ..*old(self)
                }),
                Ok(Err(error)) => *final(self) == *old(self) && match error {
                    backend::Error::StreamReset(raw) => r is Err && (
                    r->Err_0 matches Error::Reset(code) && is_code(code, raw)),
                    backend::Error::Closed => r is Err && r->Err_0 is Connection,
                    backend::Error::UnknownConnection => r is Err && r->Err_0 is Connection,
                    _ => r is Err && (r->Err_0 matches Error::HangUp(message) && message@ == about(
                        old(self).name@,
                        describe::around(
                            "QUIC backend RPC channel responded with '"@,
                            error.spec_message(),
                            "'"@,
                        ),
                    )),
                },
                Err(reason) => {
                    &&& *final(self) == *old(self)
                    &&& r is Err && (r->Err_0 matches Error::HangUp(message) && message@ == about(
                        old(self).name@,
                        "QUIC backend RPC channel is unavailable: "@ + reason@,
                    ))
                },
            },
    {
        let error = match result {
            Ok(Ok(decoder)) => {
                self.decoder = Some(decoder);
                return Ok(());
            },
            Ok(Err(error)) => error,
            Err(reason) => {
                let text = describe::put_behind(
                    "QUIC backend RPC channel is unavailable: ".to_string(),
                    reason.as_str(),
                );
                return Err(Error::HangUp(tell_about(self.name.as_str(), text.as_str())));
            },
        };
        match error {
            backend::Error::StreamReset(raw) => Err(Error::Reset(C::from(raw))),
            backend::Error::Closed => Err(Error::Connection),
            backend::Error::UnknownConnection => Err(Error::Connection),
            other => {
                let text = describe::put_around(
                    "QUIC backend RPC channel responded with '",
                    other.message().as_str(),
                    "'",
                );
                Err(Error::HangUp(tell_about(self.name.as_str(), text.as_str())))
            },
        }
    }

    /// The direction after its decoder was asked for an item.
    pub open spec fn decoded<T, D>(self, result: Result<Option<Payload<T>>, D>) -> Self {
        match result {
            Ok(Some(item)) => Incoming {
                stream_finished: self.stream_finished || item.ends(),
                ..self
            },
            Ok(None) => Incoming { decoder_drained: true, ..self },
            Err(_) => self,
        }
    }

    /// Takes what the decoder has returned that was asked for an item.
    pub fn after_decode<T, D>(&mut self, result: &Result<Option<Payload<T>>, D>)
        ensures
            *final(self) == old(self).decoded(*result),
    {
        match result {
            Ok(Some(item)) => {
                if item.is_fin() {
                    self.stream_finished = true;
                }
            },
            Ok(None) => {
                self.decoder_drained = true;
            },
            Err(_) => {},
        }
    }

    /// Takes what became of sending an item to the application.
    pub fn after_send<C, D, E>(&self, result: Result<(), Error<C, D, E>>) -> (r: Result<
        (),
        Error<C, D, E>,
    >)
        ensures
            match result {
                Ok(_) => r is Ok,
                Err(Error::Stop(code)) => r == Err::<(), Error<C, D, E>>(Error::Stop(code)),
                Err(Error::HangUp(reason)) => r is Err && (r->Err_0 matches Error::HangUp(message)
                    && message@ == about(
                    self.name@,
                    describe::around(
                        "decoded items '"@,
                        self.item_name@,
                        "' channel is unavailable: "@,
                    ) + reason@,
                )),
                Err(_) => r is Err && (r->Err_0 matches Error::HangUp(message) && message@ == about(
                    self.name@,
                    describe::around(
                        "decoded items '"@,
                        self.item_name@,
                        "' channel is unavailable"@,
                    ),
                )),
            },
    {
        match result {
            Ok(_) => Ok(()),
            Err(Error::Stop(code)) => Err(Error::Stop(code)),
            Err(Error::HangUp(reason)) => {
                let text = describe::put_behind(
                    describe::put_around(
                        "decoded items '",
                        self.item_name.as_str(),
                        "' channel is unavailable: ",
                    ),
                    reason.as_str(),
                );
                Err(Error::HangUp(tell_about(self.name.as_str(), text.as_str())))
            },
            Err(_) => {
                let text = describe::put_around(
                    "decoded items '",
                    self.item_name.as_str(),
                    "' channel is unavailable",
                );
                Err(Error::HangUp(tell_about(self.name.as_str(), text.as_str())))
            },
        }
    }

    /// Takes the error that the application has closed the channel of decoded items with,
    /// `None` if there is none although the channel is gone.
    ///
    /// Returns the error to close the direction with, `None` if the error is one of our own.
    pub fn app_error<C, D, E>(&self, error: Option<Error<C, D, E>>) -> (r: Option<Error<C, D, E>>)
        ensures
            match error {
                Some(Error::Stop(_)) => r == error,
                Some(Error::HangUp(_)) => r == error,
                Some(_) => r is None,
                None => r is Some && (r->0 matches Error::HangUp(message) && message@ == about(
                    self.name@,
                    describe::around(
                        "decoded items '"@,
                        self.item_name@,
                        "' error channel is unavailable"@,
                    ),
                )),
            },
    {
        match error {
            Some(Error::Stop(code)) => Some(Error::Stop(code)),
            Some(Error::HangUp(message)) => Some(Error::HangUp(message)),
            Some(_) => None,
            None => {
                let text = describe::put_around(
                    "decoded items '",
                    self.item_name.as_str(),
                    "' error channel is unavailable",
                );
                Some(Error::HangUp(tell_about(self.name.as_str(), text.as_str())))
            },
        }
    }

    /// Takes the error that the direction is cancelled with,
    /// `None` if there is none although the channel of cancellation is gone.
    ///
    /// Returns the error to close the direction with.
    pub fn cancel_error<C, D, E>(&self, error: Option<Error<C, D, E>>) -> (r: Error<C, D, E>)
        ensures
            match error {
                Some(error) => r == error,
                None => r matches Error::HangUp(message) && message@ == about(
                    self.name@,
                    "cancellation-signal channel is unavailable"@,
                ),
            },
    {
        match error {
            Some(error) => error,
            None => Error::HangUp(
                tell_about(self.name.as_str(), "cancellation-signal channel is unavailable"),
            ),
        }
    }

    /// Closes the direction with an error, whoever it comes from: the direction itself,
    /// the application, or a cancellation.
    ///
    /// Returns who is told what. Returns `None` if the direction was closed already.
    pub fn close<C: Copy, D, E: Describe>(&mut self, error: Error<C, D, E>) -> (r: Option<
        ClosePlan<C, D>,
    >)
        ensures
            *final(self) == (Incoming { closed: true, ..*old(self) }),
            r is Some <==> !old(self).closed,
            r matches Some(plan) ==> is_in_plan(old(self).name@, error, plan),
    {
        if self.closed {
            return None;
        }
        self.closed = true;
        Some(
            match error {
                Error::Finish => ClosePlan {
                    level: Level::Debug,
                    app: None,
                    backend: None,
                    span: SpanNotice::Fin,
                    codec_error: None,
                    message: None,
                },
                // We are no more interested in the peer's data,
                // and send 'STOP_SENDING' to it.
                Error::Stop(code) => ClosePlan {
                    level: Level::Debug,
                    app: None,
                    backend: Some(BackendNotice::Terminate(code)),
                    span: SpanNotice::StopSending(code),
                    codec_error: None,
                    message: None,
                },
                // Peer sent 'RESET_STREAM' to us, notify the app.
                Error::Reset(code) => ClosePlan {
                    level: Level::Debug,
                    app: Some(AppNotice::Terminate(code)),
                    backend: None,
                    span: SpanNotice::ResetStream(code),
                    codec_error: None,
                    message: None,
                },
                // Occurred decoder error, notify both sides.
                Error::Decoder(codec_error) => ClosePlan {
                    level: Level::Warn,
                    app: Some(AppNotice::Codec),
                    backend: Some(BackendNotice::Codec),
                    span: SpanNotice::Internal,
                    codec_error: Some(codec_error),
                    message: None,
                },
                // Occurred connection error, notify the app.
                Error::Connection => ClosePlan {
                    level: Level::Debug,
                    app: Some(AppNotice::Connection),
                    backend: None,
                    span: SpanNotice::ConnectionClose,
                    codec_error: None,
                    message: None,
                },
                // Internal error, notify both sides.
                Error::HangUp(message) => ClosePlan {
                    level: Level::Warn,
                    app: Some(AppNotice::HangUp),
                    backend: Some(BackendNotice::HangUp),
                    span: SpanNotice::Internal,
                    codec_error: None,
                    message: Some(message),
                },
                // There is no encoder on this side.
                Error::Encoder(codec_error) => {
                    let text = describe::put_behind(
                        "received an unexpected encoder error: ".to_string(),
                        codec_error.describe().as_str(),
                    );
                    ClosePlan {
                        level: Level::Error,
                        app: Some(AppNotice::HangUp),
                        backend: Some(BackendNotice::HangUp),
                        span: SpanNotice::Internal,
                        codec_error: None,
                        message: Some(tell_about(self.name.as_str(), text.as_str())),
                    }
                },
            },
        )
    }
}

impl<Dec: Decoder> Incoming<Dec> {
    /// Asks the decoder for an item, unless it expects new data.
    pub fn decode<C, E>(&mut self) -> (r: Result<
        Option<Payload<Dec::Item>>,
        Error<C, Dec::Error, E>,
    >)
        ensures
            if old(self).spec_step() is Decode && old(self).decoder is Some {
                &&& r matches Err(error) ==> error is Decoder
                &&& Dec::may_decode(old(self).decoder->0, decoder_result(r), final(self).decoder->0)
                &&& final(self).stream_finished == (r matches Ok(Some(item)) && item.ends())
                &&& final(self).decoder_drained == (r matches Ok(None))
                &&& final(self).decoder is Some
                &&& final(self).closed == old(self).closed
                &&& final(self).name == old(self).name
                &&& final(self).item_name == old(self).item_name
            } else {
                r matches Ok(None) && *final(self) == *old(self)
            },
    {
        if self.stream_finished || self.decoder_drained {
            return Ok(None);
        }
        let Some(decoder) = &mut self.decoder else {
            return Ok(None);
        };
        let result = decoder.decode();
        self.after_decode(&result);
        match result {
            Ok(item) => Ok(item),
            Err(error) => Err(Error::Decoder(error)),
        }
    }
}

/// What a decoder has returned for a direction to return `result`.
pub open spec fn decoder_result<T, C, D, E>(result: Result<Option<T>, Error<C, D, E>>) -> Result<
    Option<T>,
    D,
> {
    match result {
        Ok(item) => Ok(item),
        Err(error) => Err(error->Decoder_0),
    }
}

/// How an incoming direction is closed with an error.
pub open spec fn is_in_plan<C, D, E: Describe>(
    name: Seq<char>,
    error: Error<C, D, E>,
    plan: ClosePlan<C, D>,
) -> bool {
    &&& plan.is_consistent()
    &&& match error {
        Error::Finish => {
            &&& plan.level is Debug
            &&& plan.app is None
            &&& plan.backend is None
            &&& plan.span is Fin
        },
        Error::Stop(code) => {
            &&& plan.level is Debug
            &&& plan.app is None
            &&& plan.backend == Some(BackendNotice::Terminate(code))
            &&& plan.span == SpanNotice::StopSending(code)
        },
        Error::Reset(code) => {
            &&& plan.level is Debug
            &&& plan.app == Some(AppNotice::Terminate(code))
            &&& plan.backend is None
            &&& plan.span == SpanNotice::ResetStream(code)
        },
        Error::Decoder(codec_error) => {
            &&& plan.level is Warn
            &&& plan.codec_error == Some(codec_error)
            &&& plan.span is Internal
        },
        Error::Connection => {
            &&& plan.level is Debug
            &&& plan.app == Some(AppNotice::<C>::Connection)
            &&& plan.backend is None
            &&& plan.span is ConnectionClose
        },
        Error::HangUp(message) => {
            &&& plan.level is Warn
            &&& plan.message == Some(message)
            &&& plan.span is Internal
        },
        Error::Encoder(codec_error) => {
            &&& plan.level is Error
            &&& plan.message is Some
            &&& plan.message->0@ == about(
                name,
                "received an unexpected encoder error: "@ + codec_error.text(),
            )
            &&& plan.span is Internal
        },
    }
}

/// A decoder that was handed out is not handed out again before it came back.
pub proof fn law_decoder_is_handed_out_once<Dec>(direction: Incoming<Dec>)
    ensures
        direction.reading().0 is Some ==> direction.reading().1.reading().0 is None,
        direction.reading().0 is Some ==> direction.reading().1.spec_step() is Decode,
{
}

/// Nothing is read before all items were decoded that were read before.
pub proof fn law_reading_waits_for_decoding<Dec, T, D>(
    direction: Incoming<Dec>,
    result: Result<Option<Payload<T>>, D>,
)
    requires
        direction.spec_step() is Decode,
    ensures
        direction.decoded(result).reading().0 is Some ==> result matches Ok(None),
{
}

/// Nothing is read behind the end of the stream.
pub proof fn law_nothing_is_read_behind_the_end<Dec, T, D>(
    direction: Incoming<Dec>,
    item: Payload<T>,
)
    requires
        item.ends(),
    ensures
        direction.decoded::<T, D>(Ok(Some(item))).spec_step() is End,
        direction.decoded::<T, D>(Ok(Some(item))).reading().0 is None,
{
}

/// Whoever has closed the direction is not told about it, and the others are told:
/// the peer of what the application did, the application of what the peer did,
/// both of an internal error.
pub proof fn law_incoming_close_tells_the_other_side<C, D, E: Describe>(
    name: Seq<char>,
    error: Error<C, D, E>,
    plan: ClosePlan<C, D>,
)
    requires
        is_in_plan(name, error, plan),
    ensures
        error is Stop ==> plan.app is None && plan.backend is Some,
        error is Reset || error is Connection ==> plan.app is Some && plan.backend is None,
        error is Decoder || error is Encoder || error is HangUp ==> plan.app is Some && plan.backend
            is Some,
        error is Finish ==> plan.app is None && plan.backend is None,
{
}

/// Codes, errors and messages are told as they are, and recorded with what has ended the direction.
/// Only what should never happen is logged as an error.
pub proof fn law_incoming_close_keeps_what_is_told<C, D, E: Describe>(
    name: Seq<char>,
    error: Error<C, D, E>,
    plan: ClosePlan<C, D>,
)
    requires
        is_in_plan(name, error, plan),
    ensures
        error matches Error::Stop(code) ==> plan.backend == Some(BackendNotice::Terminate(code))
            && plan.span == SpanNotice::StopSending(code),
        error matches Error::Reset(code) ==> plan.app == Some(AppNotice::Terminate(code))
            && plan.span == SpanNotice::ResetStream(code),
        error matches Error::Decoder(codec_error) ==> plan.codec_error == Some(codec_error)
            && plan.app == Some(AppNotice::<C>::Codec) && plan.backend == Some(
            BackendNotice::<C>::Codec,
        ),
        error matches Error::HangUp(message) ==> plan.message == Some(message) && plan.app == Some(
            AppNotice::<C>::HangUp,
        ) && plan.backend == Some(BackendNotice::<C>::HangUp),
        error matches Error::Encoder(codec_error) ==> plan.app == Some(AppNotice::<C>::HangUp)
            && plan.backend == Some(BackendNotice::<C>::HangUp) && (plan.message matches Some(text)
            && text@ == "'"@ + name + "' "@ + ("received an unexpected encoder error: "@
            + codec_error.text())),
        error is Connection ==> plan.app == Some(AppNotice::<C>::Connection),
        plan.codec_error is Some <==> error is Decoder,
        plan.message is Some <==> error is HangUp || error is Encoder,
        plan.span is Fin <==> error is Finish,
        plan.span is ConnectionClose <==> error is Connection,
        plan.span is Internal <==> error is Decoder || error is Encoder || error is HangUp,
        plan.level is Error <==> error is Encoder,
        plan.level is Warn <==> error is Decoder || error is HangUp,
{
}

/// A direction goes on until its end: it decodes until the decoder has nothing left,
/// reads then, and is finished with an item that ends it.
pub proof fn law_direction_goes_on<Dec, T, D>(
    direction: Incoming<Dec>,
    result: Result<Option<Payload<T>>, D>,
)
    ensures
        direction.spec_step() is End <==> direction.stream_finished,
        direction.spec_step() is Read <==> !direction.stream_finished && direction.decoder_drained,
        direction.reading().0 is Some <==> direction.spec_step() is Read && direction.decoder
            is Some,
        direction.reading().0 is Some ==> direction.reading().0 == direction.decoder
            && direction.reading().1.decoder is None,
        direction.reading().0 is None ==> direction.reading().1 == direction,
        direction.decoded(result).decoder == direction.decoder,
        direction.decoded(result).closed == direction.closed,
        !direction.stream_finished ==> {
            &&& result == Ok::<Option<Payload<T>>, D>(None) ==> direction.decoded(
                result,
            ).spec_step() is Read
            &&& result matches Ok(Some(Payload::Item(_))) ==> direction.decoded(result).spec_step()
                == direction.spec_step()
            &&& result matches Ok(Some(Payload::Last(_))) ==> direction.decoded(result).spec_step()
                is End
            &&& result matches Ok(Some(Payload::Done)) ==> direction.decoded(result).spec_step()
                is End
        },
        result is Err ==> direction.decoded(result) == direction,
{
}

} // verus!

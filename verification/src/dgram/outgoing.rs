use crate::backend;
use crate::dgram::{DgramClosePlan, Encoder, Error};
use crate::stream::incoming;
use crate::util::describe;
use vstd::prelude::*;

verus! {

/// An outgoing direction of QUIC datagrams flow,
/// acts like a bridge between protocol backend and application for a single datagram direction.
///
/// `Network Peer << QUIC Backend << Outgoing << Application`.
///
/// Its role is to:
/// 1) Receive incoming items from `Application`.
/// 2) Encode the items.
/// 3) Send datagrams to `QUIC Backend`.
///
/// * `Enc`: an encoder.
pub struct Outgoing<Enc> {
    /// Encoder for encoding messages into datagrams.
    pub encoder: Option<Enc>,
    /// `true` if the direction was closed: everybody was told about it.
    pub closed: bool,
    /// The name of the direction, for descriptions of errors.
    pub name: String,
    /// The name of the items, for descriptions of errors.
    pub item_name: String,
}

/// The name of the channel of items.
pub open spec fn out_channel(item_name: Seq<char>) -> Seq<char> {
    describe::around("items '"@, item_name, "'"@)
}

impl<Enc> Outgoing<Enc> {
    /// Creates a direction that expects messages.
    pub fn new(encoder: Enc, name: String, item_name: String) -> (r: Self)
        ensures
            r == (Outgoing { encoder: Some(encoder), closed: false, name, item_name }),
    {
        Self { encoder: Some(encoder), closed: false, name, item_name }
    }

    /// Closes the direction with an error, whoever it comes from: the direction itself,
    /// the application, or a cancellation.
    ///
    /// Returns who is told what. Returns `None` if the direction was closed already.
    pub fn close(&mut self, error: Error) -> (r: Option<DgramClosePlan>)
        ensures
            *final(self) == (Outgoing { closed: true, ..*old(self) }),
            r == if old(self).closed {
                None
            } else {
                Some(error.plan())
            },
    {
        if self.closed {
            return None;
        }
        self.closed = true;
        Some(error.into_plan())
    }

    /// Returns `true` if a message may be received from the application.
    pub fn can_recv(&self) -> (r: bool)
        ensures
            r == (self.encoder is Some),
    {
        self.encoder.is_some()
    }

    /// Takes what became of receiving a message from the application.
    pub fn after_recv<T>(&self, result: Result<Option<T>, Error>) -> (r: Result<Option<T>, Error>)
        ensures
            match result {
                Ok(item) => r == Ok::<Option<T>, Error>(item),
                Err(Error::End) => r is Err && r->Err_0 is End,
                Err(Error::HangUp(reason)) => r is Err && (r->Err_0 matches Error::HangUp(message)
                    && message@ == incoming::about(
                    self.name@,
                    describe::around(
                        out_channel(self.item_name@),
                        " channel is unavailable: "@,
                        reason@,
                    ),
                )),
                Err(error) => r is Err && (r->Err_0 matches Error::HangUp(message) && message@
                    == incoming::about(
                    self.name@,
                    describe::around(
                        out_channel(self.item_name@),
                        " channel returned an unexpected error: "@,
                        error.spec_message(),
                    ),
                )),
            },
    {
        match result {
            Ok(item) => Ok(item),
            Err(error) => {
                let channel = describe::put_around("items '", self.item_name.as_str(), "'");
                Err(error.of_channel(self.name.as_str(), channel.as_str()))
            },
        }
    }

    /// Hands out the encoder for the QUIC backend to flush.
    ///
    /// Returns `None` if the encoder was handed out already.
    pub fn begin_send(&mut self) -> (r: Option<Enc>)
        ensures
            r == old(self).encoder,
            *final(self) == (Outgoing { encoder: None, ..*old(self) }),
    {
        let mut encoder: Option<Enc> = None;
        core::mem::swap(&mut encoder, &mut self.encoder);
        encoder
    }

    /// Takes what became of the encoder that was handed out.
    ///
    /// * `result`: the encoder or an error of the QUIC backend, or why the backend is unavailable.
    pub fn end_send(&mut self, result: Result<Result<Enc, backend::Error>, String>) -> (r: Result<
        (),
        Error,
    >)
        ensures
            match result {
                Ok(Ok(encoder)) => r is Ok && *final(self) == (Outgoing {
                    encoder: Some(encoder),
                    ..*old(self)
                }),
                Ok(Err(error)) => *final(self) == *old(self) && match error {
                    backend::Error::Closed => r is Err && r->Err_0 is Connection,
                    backend::Error::UnknownConnection => r is Err && r->Err_0 is Connection,
                    _ => r is Err && (r->Err_0 matches Error::HangUp(message) && message@
                        == incoming::about(
                        old(self).name@,
                        "QUIC backend responded with an unexpected error: "@ + error.spec_message(),
                    )),
                },
                Err(reason) => {
                    &&& *final(self) == *old(self)
                    &&& r is Err && (r->Err_0 matches Error::HangUp(message) && message@
                        == incoming::about(
                        old(self).name@,
                        "QUIC backend RPC channel is unavailable: "@ + reason@,
                    ))
                },
            },
    {
        let error = match result {
            Ok(Ok(encoder)) => {
                self.encoder = Some(encoder);
                return Ok(());
            },
            Ok(Err(error)) => error,
            Err(reason) => {
                let text = describe::put_behind(
                    "QUIC backend RPC channel is unavailable: ".to_string(),
                    reason.as_str(),
                );
                return Err(
                    Error::HangUp(incoming::tell_about(self.name.as_str(), text.as_str())),
                );
            },
        };
        match error {
            backend::Error::Closed => Err(Error::Connection),
            backend::Error::UnknownConnection => Err(Error::Connection),
            other => {
                let text = describe::put_behind(
                    "QUIC backend responded with an unexpected error: ".to_string(),
                    other.message().as_str(),
                );
                Err(Error::HangUp(incoming::tell_about(self.name.as_str(), text.as_str())))
            },
        }
    }
}

impl<Enc: Encoder> Outgoing<Enc> {
    /// Encodes an item that was received from the application.
    ///
    /// Returns `false` if there is none, or it cannot be encoded now.
    pub fn encode(&mut self, item: Option<Enc::Item>) -> (r: bool)
        ensures
            r == (old(self).encoder is Some && item is Some),
            *final(self) == (Outgoing { encoder: final(self).encoder, ..*old(self) }),
            final(self).encoder is Some <==> old(self).encoder is Some,
            !r ==> *final(self) == *old(self),
            r ==> Enc::may_encode(old(self).encoder->0, item->0, final(self).encoder->0),
    {
        match (&mut self.encoder, item) {
            (Some(encoder), Some(item)) => {
                encoder.encode(item);
                true
            },
            _ => false,
        }
    }

    /// Returns `true` if one more item may be encoded before the encoder is flushed.
    pub fn wants_more(&self) -> (r: bool)
        ensures
            match self.encoder {
                Some(encoder) => encoder.may_flush(!r),
                None => r,
            },
    {
        match &self.encoder {
            Some(encoder) => !encoder.should_flush(),
            None => true,
        }
    }
}

} // verus!

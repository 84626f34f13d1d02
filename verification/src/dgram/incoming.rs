use crate::backend;
use crate::dgram::{Decoder, DgramClosePlan, Error};
use crate::stream::incoming;
use crate::util::{data, describe};
use bytes::Bytes;
use vstd::prelude::*;

verus! {

/// An incoming direction of a QUIC datagram flow,
/// acts like a bridge between protocol backend and application listener for a single connection.
///
/// `Network Peer >> QUIC Backend >> Incoming >> Application`.
///
/// Its role is to:
/// 1) Receive incoming datagrams from `QUIC Backend`.
/// 2) Decode the data.
/// 3) Send decoded items to `Application`.
///
/// If `Application` is not ready to process decoded items,
/// they are going to be dropped.
///
/// * `Dec`: a decoder.
pub struct Incoming<Dec> {
    /// Decoder for decoding datagrams.
    pub decoder: Option<Dec>,
    /// `true` if `decoder` is empty and expects new datagrams.
    pub decoder_drained: bool,
    /// `true` if the direction was closed: everybody was told about it.
    pub closed: bool,
    /// The name of the direction, for descriptions of errors.
    pub name: String,
    /// The name of the decoded items, for descriptions of errors.
    pub item_name: String,
}

/// The name of the channel of decoded items.
pub open spec fn in_channel(item_name: Seq<char>) -> Seq<char> {
    describe::around("decoded items '"@, item_name, "'"@)
}

impl<Dec> Incoming<Dec> {
    /// Creates a direction that expects datagrams.
    pub fn new(decoder: Dec, name: String, item_name: String) -> (r: Self)
        ensures
            r == (Incoming {
                decoder: Some(decoder),
                decoder_drained: false,
                closed: false,
                name,
                item_name,
            }),
    {
        Self { decoder: Some(decoder), decoder_drained: false, closed: false, name, item_name }
    }

    /// Closes the direction with an error, whoever it comes from: the direction itself,
    /// the application, or a cancellation.
    ///
    /// Returns who is told what. Returns `None` if the direction was closed already.
    pub fn close(&mut self, error: Error) -> (r: Option<DgramClosePlan>)
        ensures
            *final(self) == (Incoming { closed: true, ..*old(self) }),
            r == if old(self).closed {
                None
            } else {
                Some(error.plan())
            },
    {
        if self.closed {
            return None;
        }
        self.closed = true;
        Some(error.into_plan())
    }

    /// Hands out the decoder for the QUIC backend to fill.
    ///
    /// Returns `None` if the decoder was handed out already.
    pub fn begin_recv(&mut self) -> (r: Option<Dec>)
        ensures
            r == old(self).decoder,
            *final(self) == if r is Some {
                Incoming { decoder: None, decoder_drained: false, ..*old(self) }
            } else {
                *old(self)
            },
    {
        let mut decoder: Option<Dec> = None;
        core::mem::swap(&mut decoder, &mut self.decoder);
        if decoder.is_some() {
            self.decoder_drained = false;
        }
        decoder
    }

    /// Takes what became of the decoder that was handed out.
    ///
    /// * `result`: the decoder or an error of the QUIC backend, or why the backend is unavailable.
    pub fn end_recv(&mut self, result: Result<Result<Dec, backend::Error>, String>) -> (r: Result<
        (),
        Error,
    >)
        ensures
            match result {
                Ok(Ok(decoder)) => r is Ok && *final(self) == (Incoming {
                    decoder: Some(decoder),
                    ..*old(self)
                }),
                Ok(Err(error)) => *final(self) == *old(self) && match error {
                    backend::Error::Closed => r is Err && r->Err_0 is Connection,
                    backend::Error::UnknownConnection => r is Err && r->Err_0 is Connection,
                    _ => r is Err && (r->Err_0 matches Error::HangUp(message) && message@
                        == incoming::about(
                        old(self).name@,
                        describe::around(
                            "QUIC backend RPC channel responded with '"@,
                            error.spec_message(),
                            "'"@,
                        ),
                    )),
                },
                Err(reason) => {
                    &&& *final(self) == *old(self)
                    &&& r is Err && (r->Err_0 matches Error::HangUp(message) && message@
                        == incoming::about(
                        old(self).name@,
                        "QUIC backend RPC channel is unavailable: "@ + reason@,
                    ))
                },
            },
    {
        let error = match result {
            Ok(Ok(decoder)) => {
                self.decoder = Some(decoder);
                return Ok(());
            },
            Ok(Err(error)) => error,
            Err(reason) => {
                let text = describe::put_behind(
                    "QUIC backend RPC channel is unavailable: ".to_string(),
                    reason.as_str(),
                );
                return Err(
                    Error::HangUp(incoming::tell_about(self.name.as_str(), text.as_str())),
                );
            },
        };
        match error {
            backend::Error::Closed => Err(Error::Connection),
            backend::Error::UnknownConnection => Err(Error::Connection),
            other => {
                let text = describe::put_around(
                    "QUIC backend RPC channel responded with '",
                    other.message().as_str(),
                    "'",
                );
                Err(Error::HangUp(incoming::tell_about(self.name.as_str(), text.as_str())))
            },
        }
    }

    /// Takes what became of sending an item to the application:
    /// whether it was sent, or why the channel is closed.
    ///
    /// An item that was not sent is dropped.
    pub fn after_send(&self, result: Result<bool, Error>) -> (r: Result<(), Error>)
        ensures
            match result {
                Ok(_) => r is Ok,
                Err(Error::End) => r is Err && r->Err_0 is End,
                Err(Error::HangUp(reason)) => r is Err && (r->Err_0 matches Error::HangUp(message)
                    && message@ == incoming::about(
                    self.name@,
                    describe::around(
                        in_channel(self.item_name@),
                        " channel is unavailable: "@,
                        reason@,
                    ),
                )),
                Err(error) => r is Err && (r->Err_0 matches Error::HangUp(message) && message@
                    == incoming::about(
                    self.name@,
                    describe::around(
                        in_channel(self.item_name@),
                        " channel returned an unexpected error: "@,
                        error.spec_message(),
                    ),
                )),
            },
    {
        match result {
            Ok(_) => Ok(()),
            Err(error) => {
                let channel = describe::put_around("decoded items '", self.item_name.as_str(), "'");
                Err(error.of_channel(self.name.as_str(), channel.as_str()))
            },
        }
    }
}

impl<Dec: Decoder> Incoming<Dec> {
    /// Returns a decoded item, `None` if no items are left or the decoder was handed out.
    pub fn decode_dgram(&mut self) -> (r: Option<Dec::Item>)
        ensures
            old(self).decoder is None ==> r is None && *final(self) == *old(self),
            *final(self) == (Incoming { decoder: final(self).decoder, ..*old(self) }),
            final(self).decoder is Some <==> old(self).decoder is Some,
            old(self).decoder matches Some(decoder) ==> Dec::may_decode(
                decoder,
                r,
                final(self).decoder->0,
            ),
    {
        match &mut self.decoder {
            Some(decoder) => decoder.decode(),
            None => None,
        }
    }
}

/// Datagrams that are decoded at once.
pub struct Batch {
    /// The datagrams, in the order in which they were received.
    pub datagrams: Vec<Bytes>,
    /// How many bytes they have, all in all.
    pub total_bytes: usize,
}

/// How many bytes datagrams have, all in all.
pub open spec fn total(datagrams: Seq<Bytes>) -> nat
    decreases datagrams.len(),
{
    if datagrams.len() == 0 {
        0
    } else {
        total(datagrams.drop_last()) + data::content(datagrams.last()).len()
    }
}

impl Batch {
    /// The number of bytes is the one of the datagrams, as far as it can be counted.
    pub open spec fn wf(&self) -> bool {
        self.total_bytes == if total(self.datagrams@) <= usize::MAX {
            total(self.datagrams@)
        } else {
            usize::MAX as nat
        }
    }

    /// Creates a batch without datagrams.
    pub fn new() -> (r: Self)
        ensures
            r.wf(),
            r.datagrams@ == Seq::<Bytes>::empty(),
    {
        Self { datagrams: Vec::new(), total_bytes: 0 }
    }

    /// Returns `true` if one more datagram may be received: at least one datagram is received,
    /// and others as long as there is room.
    pub fn takes_more(&self, max_batch_size: usize) -> (r: bool)
        requires
            self.wf(),
        ensures
            r == (self.datagrams@.len() == 0 || total(self.datagrams@) < max_batch_size),
    {
        self.datagrams.len() == 0 || self.total_bytes < max_batch_size
    }

    /// Appends a datagram.
    pub fn push(&mut self, datagram: Bytes)
        requires
            old(self).wf(),
        ensures
            final(self).wf(),
            final(self).datagrams@ == old(self).datagrams@.push(datagram),
    {
        let length: usize = data::len(&datagram);
        self.total_bytes = if length <= usize::MAX - self.total_bytes {
            self.total_bytes + length
        } else {
            usize::MAX
        };
        self.datagrams.push(datagram);
        assert(self.datagrams@.drop_last() =~= old(self).datagrams@);
    }
}

/// Each datagram counts with its bytes, whatever others there are.
pub proof fn law_datagrams_are_summed_up(datagrams: Seq<Bytes>, others: Seq<Bytes>, one: Bytes)
    ensures
        total(seq![one]) == data::content(one).len(),
        total(datagrams + others) == total(datagrams) + total(others),
    decreases others.len(),
{
    assert(seq![one].drop_last() =~= Seq::<Bytes>::empty());
    assert(total(Seq::<Bytes>::empty()) == 0);
    assert(seq![one].last() == one);
    if others.len() > 0 {
        assert((datagrams + others).drop_last() =~= datagrams + others.drop_last());
        law_datagrams_are_summed_up(datagrams, others.drop_last(), one);
    } else {
        assert(datagrams + others =~= datagrams);
    }
}

} // verus!

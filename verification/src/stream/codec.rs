use crate::stream::Payload;
use bytes::Bytes;
use vstd::prelude::*;

verus! {

/// A QUIC connection consists of multiple streams where data flows.
///
/// `Decoder` is a stateful object responsible for a single incoming QUIC stream.
/// Its primary goal is to decode the protocol-formatted raw byte stream into meaningful entities
/// of type `Item`. It may also uncompress the traffic, etc.
///
/// **Note**: it doesn't meant to replace deserializers, though it may in some cases.
pub trait Decoder: Sized {
    /// The type of the decoded entity.
    type Item;

    /// The type of error in case of decoding failures.
    type Error;

    /// [`decode()`][Decoder::decode] may return `result` and turn `before` into `after`.
    open spec fn may_decode(
        before: Self,
        result: Result<Option<Payload<Self::Item>>, Self::Error>,
        after: Self,
    ) -> bool {
        true
    }

    /// Returns a mutable buffer,
    /// that is going to be used to receive incoming stream data.
    ///
    /// This method paired with [`notify()`](Decoder::notify) are going to be invoked until `None` is received.
    ///
    /// The `mandatory` parameter specifies,
    /// whether it is **mandatory** to return `Some` with a non-empty buffer, or not.
    /// Usually, the first `recv()` call requires a mandatory buffer,
    /// while the further calls do not.
    fn recv(&mut self, mandatory: bool) -> Option<&mut [u8]>;

    /// Notifies that previously returned [`recv()`][Decoder::recv] buffer
    /// was filled with `length` bytes of stream data.
    ///
    /// `FIN` flag indicates, whether it's a successful end of the stream, or not yet.
    fn notify(&mut self, length: usize, fin: bool);

    /// Decodes previously received stream data,
    /// and returns an item if it's ready.
    ///
    /// This method is going to be invoked until `None`, `Some(FIN)` or `Err` is received.
    fn decode(&mut self) -> (r: Result<Option<Payload<Self::Item>>, Self::Error>)
        ensures
            Self::may_decode(*old(self), r, *final(self)),
    ;
}

/// `Encoder` is a stateful object responsible for a single outgoing QUIC stream.
/// Its primary goal is to encode meaningful entities of type `Item` into a protocol-formatted
/// raw byte stream. It may also compress the traffic, etc.
///
/// **Note**: it doesn't meant to replace serializers, though it may in some cases.
pub trait Encoder: Sized {
    /// The type of the entity to be encoded.
    type Item;

    /// The type of error in case of encoding failures.
    type Error;

    /// [`encode()`][Encoder::encode] may return `result` for `payload`
    /// and turn `before` into `after`.
    open spec fn may_encode(
        before: Self,
        payload: Payload<Self::Item>,
        result: Result<(), Self::Error>,
        after: Self,
    ) -> bool {
        true
    }

    /// [`should_flush()`][Encoder::should_flush] may return `result`.
    open spec fn may_flush(&self, result: bool) -> bool {
        true
    }

    /// Receives and encodes a next payload.
    fn encode(&mut self, payload: Payload<Self::Item>) -> (r: Result<(), Self::Error>)
        ensures
            Self::may_encode(*old(self), payload, r, *final(self)),
    ;

    /// Returns `true` if all the previously encoded data
    /// should be [`flushed`](Encoder::flush) immediately.
    fn should_flush(&self) -> (r: bool)
        ensures
            self.may_flush(r),
    ;

    /// Returns chunks of bytes with a `FIN` flag, which specifies,
    /// whether it's a successful end of the stream or not.
    ///
    /// This method is going to be invoked until `None` is received.
    fn flush(&mut self) -> Option<(Bytes, bool)>;
}

} // verus!

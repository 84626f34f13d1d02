use bytes::Bytes;
use vstd::prelude::*;

verus! {

/// A QUIC connection, as a part of its [extension](https://datatracker.ietf.org/doc/html/rfc9221),
/// allows sending and receiving unreliable datagrams.
///
/// `Decoder` is an object created per connection.
/// Its primary goal is to decode raw datagrams into meaningful entities of type `Item`.
pub trait Decoder: Sized {
    /// The type of the decoded entity.
    type Item;

    /// [`decode()`][Decoder::decode] may return `item` and turn `before` into `after`.
    open spec fn may_decode(before: Self, item: Option<Self::Item>, after: Self) -> bool {
        true
    }

    /// Received a raw datagram.
    ///
    /// This method **must not** perform any expensive operation,
    /// as it may be invoked from a network I/O loop thread.
    fn recv(&mut self, datagram: &[u8]);

    /// Returns a decoded item, or `None` if no items left.
    fn decode(&mut self) -> (r: Option<Self::Item>)
        ensures
            Self::may_decode(*old(self), r, *final(self)),
    ;
}

/// A QUIC connection, as a part of its [extension](https://datatracker.ietf.org/doc/html/rfc9221),
/// allows sending and receiving unreliable datagrams.
///
/// `Encoder` is an object created per connection.
/// Its primary goal is to encode entities of type `Item` into raw datagrams.
pub trait Encoder: Sized {
    /// The type of the entity to be encoded.
    type Item;

    /// [`encode()`][Encoder::encode] may turn `before` into `after` for `item`.
    open spec fn may_encode(before: Self, item: Self::Item, after: Self) -> bool {
        true
    }

    /// [`should_flush()`][Encoder::should_flush] may return `result`.
    open spec fn may_flush(&self, result: bool) -> bool {
        true
    }

    /// Receives and encodes an item.
    fn encode(&mut self, item: Self::Item)
        ensures
            Self::may_encode(*old(self), item, *final(self)),
    ;

    /// Returns `true` if all the previously encoded items
    /// should be [`flushed`](Encoder::flush) immediately.
    fn should_flush(&self) -> (r: bool)
        ensures
            self.may_flush(r),
    ;

    /// Returns a next datagram to send.
    ///
    /// This method is going to be invoked until `None` is received.
    fn flush(&mut self) -> Option<Bytes>;
}

} // verus!

//! The weight of what bounded channels hold.

use crate::stream::Payload;
use crate::util::data;
use bytes::Bytes;
use vstd::prelude::*;

verus! {

/// Makes a custom estimation of [Self], which can be `zero`.
///
/// Bounded stream and datagram channels don't just count the number of items,
/// they allow for each item to have its own weight (you can call it size, volume, cost, etc).
pub trait Estimate {
    /// The weight.
    open spec fn weight(&self) -> usize {
        arbitrary()
    }

    /// Returned value can be any value, including `zero` or `usize::MAX`.
    fn estimate(&self) -> (r: usize)
        ensures
            r == self.weight(),
    ;
}

impl Estimate for Vec<u8> {
    /// The number of bytes.
    open spec fn weight(&self) -> usize {
        self@.len() as usize
    }

    fn estimate(&self) -> (r: usize) {
        self.len()
    }
}

impl Estimate for Bytes {
    /// The number of bytes.
    open spec fn weight(&self) -> usize {
        data::content(*self).len() as usize
    }

    fn estimate(&self) -> (r: usize) {
        data::len(self)
    }
}

impl<T: Estimate> Estimate for Payload<T> {
    /// The weight of what it carries.
    open spec fn weight(&self) -> usize {
        match *self {
            Payload::Item(it) => it.weight(),
            Payload::Last(it) => it.weight(),
            Payload::Done => 0,
        }
    }

    fn estimate(&self) -> (r: usize) {
        match self {
            Payload::Item(it) => it.estimate(),
            Payload::Last(it) => it.estimate(),
            Payload::Done => 0,
        }
    }
}

/// A payload weighs as much as the item in it, and nothing without one.
pub proof fn law_payload_weighs_its_item<T: Estimate>(payload: Payload<T>)
    ensures
        payload.weight() == match payload.data() {
            Some(item) => item.weight(),
            None => 0,
        },
{
}

} // verus!

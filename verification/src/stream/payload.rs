use vstd::prelude::*;

verus! {

/// Represents a piece of data received from a stream.
#[derive(Debug, Clone, Copy, PartialEq, Eq, Hash)]
pub enum Payload<T> {
    /// An intermediate chunk of data.
    ///
    /// The stream direction remains open and more data is expected to follow.
    /// This corresponds to a frame with the `FIN` bit set to **0**.
    Item(T),
    /// The final chunk of data.
    ///
    /// This contains payload data, but also signals the end of the stream direction.
    /// No more data will arrive after this.
    /// This corresponds to a frame with data and the `FIN` bit set to **1**.
    Last(T),
    /// A termination signal with no data.
    ///
    /// The stream direction has closed successfully without delivering a final payload.
    /// This corresponds to an empty frame with the `FIN` bit set to **1**.
    Done,
}

impl<T> Payload<T> {
    /// Signals the end of the stream direction.
    pub open spec fn ends(&self) -> bool {
        !(self is Item)
    }

    /// The data carried, if any.
    pub open spec fn data(self) -> Option<T> {
        match self {
            Payload::Item(val) => Some(val),
            Payload::Last(val) => Some(val),
            Payload::Done => None,
        }
    }

    /// Returns `true` if this item represents the end of the stream direction ([`Payload::Last`] or [`Payload::Done`]).
    pub fn is_fin(&self) -> (r: bool)
        ensures
            r == self.ends(),
    {
        matches!(self, Self::Last(_) | Self::Done)
    }

    /// Returns the inner data if present, discarding the `FIN` state.
    pub fn into_inner(self) -> (r: Option<T>)
        ensures
            r == self.data(),
    {
        match self {
            Self::Item(val) | Self::Last(val) => Some(val),
            Self::Done => None,
        }
    }

    /// Maps the inner value to a new type, preserving the stream direction state.
    pub fn map<U, F>(self, f: F) -> (r: Payload<U>) where F: FnOnce(T) -> U
        requires
            self.data() matches Some(t) ==> call_requires(f, (t,)),
        ensures
            match self {
                Payload::Item(t) => r matches Payload::Item(u) && call_ensures(f, (t,), u),
                Payload::Last(t) => r matches Payload::Last(u) && call_ensures(f, (t,), u),
                Payload::Done => r is Done,
            },
    {
        match self {
            Self::Item(t) => Payload::Item(f(t)),
            Self::Last(t) => Payload::Last(f(t)),
            Self::Done => Payload::Done,
        }
    }

    /// Maps the inner value to a new type, allowing the mapping function to return a Result.
    pub fn try_map<U, E, F>(self, f: F) -> (r: Result<Payload<U>, E>) where
        F: FnOnce(T) -> Result<U, E>,

        requires
            self.data() matches Some(t) ==> call_requires(f, (t,)),
        ensures
            match self {
                Payload::Item(t) => match r {
                    Ok(p) => p matches Payload::Item(u) && call_ensures(f, (t,), Ok(u)),
                    Err(e) => call_ensures(f, (t,), Err(e)),
                },
                Payload::Last(t) => match r {
                    Ok(p) => p matches Payload::Last(u) && call_ensures(f, (t,), Ok(u)),
                    Err(e) => call_ensures(f, (t,), Err(e)),
                },
                Payload::Done => r matches Ok(p) && p is Done,
            },
    {
        match self {
            Self::Item(t) => match f(t) {
                Ok(u) => Ok(Payload::Item(u)),
                Err(e) => Err(e),
            },
            Self::Last(t) => match f(t) {
                Ok(u) => Ok(Payload::Last(u)),
                Err(e) => Err(e),
            },
            Self::Done => Ok(Payload::Done),
        }
    }
}

/// An item alone does not end a stream, the last item does and carries data,
/// and the mere end carries none.
pub proof fn law_payloads_end_a_stream<T>(item: T)
    ensures
        !Payload::Item(item).ends(),
        Payload::Last(item).ends(),
        Payload::<T>::Done.ends(),
        Payload::Item(item).data() == Some(item),
        Payload::Last(item).data() == Some(item),
        Payload::<T>::Done.data() is None,
{
}

} // verus!

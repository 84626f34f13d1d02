use crate::dgram::Error;
use crate::sync::oneshot::{Shared, TryRecvError, TrySendError};
use crate::util::describe;
use vstd::prelude::*;

verus! {

/// One half of a channel of datagrams: how it is closed, and what it returns then.
///
/// Both halves share the error that the channel is closed with. It is the first one.
pub struct Half {
    /// The name of the half, for descriptions of errors.
    pub name: String,
    /// The name of what carries the items, for descriptions of errors.
    pub items: String,
}

impl Half {
    /// The error of a half whose channel of errors has gone.
    pub open spec fn is_error_fallback(&self, error: Error) -> bool {
        error matches Error::HangUp(message) && message@ == describe::around(
            "'"@,
            self.name@,
            "'.error_receiver is unavailable"@,
        )
    }

    /// The error of a half whose channel of items has gone.
    pub open spec fn is_item_fallback(&self, error: Error) -> bool {
        error matches Error::HangUp(message) && message@ == describe::around(
            describe::around("'"@, self.name@, "'."@),
            self.items@,
            " is unavailable"@,
        )
    }

    /// Returns the error of a half whose channel of errors has gone.
    ///
    /// It is [Error::HangUp], because a half would set [Error::End] first before being dropped.
    pub fn error_fallback(&self) -> (r: Error)
        ensures
            self.is_error_fallback(r),
    {
        Error::HangUp(
            describe::put_around("'", self.name.as_str(), "'.error_receiver is unavailable"),
        )
    }

    /// Returns the error of a half whose channel of items has gone.
    pub fn item_fallback(&self) -> (r: Error)
        ensures
            self.is_item_fallback(r),
    {
        let owner = describe::put_around("'", self.name.as_str(), "'.");
        Error::HangUp(describe::put_around(owner.as_str(), self.items.as_str(), " is unavailable"))
    }

    /// Closes the channel, and returns the error that is set for the whole channel.
    ///
    /// If the channel is closed, returns the error it was closed with.
    ///
    /// If the channel is still open, returns the provided `error`.
    pub fn close(&self, shared: &mut Shared<Error>, error: Error) -> (r: Error)
        ensures
            *final(shared) == old(shared).sent(error).1,
            if old(shared).receiver_count == 0 {
                self.is_error_fallback(r)
            } else {
                r == match old(shared).container {
                    Some(first) => first,
                    None => error,
                }
            },
    {
        match shared.send(error.clone()) {
            Ok(_) => error,
            Err((TrySendError::Closed, _)) => self.error_fallback(),
            Err((TrySendError::Full, _)) => match shared.try_recv() {
                Ok(first) => first.clone(),
                Err(_) => error,
            },
        }
    }

    /// Returns error if direction is closed.
    pub fn error(&self, shared: &Shared<Error>) -> (r: Option<Error>)
        ensures
            match shared.received() {
                Ok(error) => r == Some(error),
                Err(TryRecvError::Closed) => r is Some && self.is_error_fallback(r->0),
                Err(TryRecvError::Empty) => r is None,
            },
    {
        match shared.try_recv() {
            Ok(error) => Some(error.clone()),
            Err(TryRecvError::Closed) => Some(self.error_fallback()),
            Err(TryRecvError::Empty) => None,
        }
    }

    /// Takes what became of sending an item into a channel that was not closed.
    ///
    /// Returns `true` if the item was sent, `false` if there is no room.
    pub fn after_try_send(&self, shared: &mut Shared<Error>, sent: Result<(), TrySendError>) -> (r:
        Result<bool, Error>)
        ensures
            match sent {
                Ok(_) => r == Ok::<bool, Error>(true) && *final(shared) == *old(shared),
                Err(TrySendError::Full) => r == Ok::<bool, Error>(false) && *final(shared) == *old(
                    shared,
                ),
                Err(TrySendError::Closed) => {
                    &&& r is Err
                    &&& old(shared).container is Some && old(shared).receiver_count > 0
                        ==> r->Err_0 == old(shared).container->0
                    &&& old(shared).receiver_count == 0 ==> self.is_error_fallback(r->Err_0)
                    &&& old(shared).container is Some || old(shared).receiver_count == 0
                        ==> *final(shared) == *old(shared)
                    &&& final(shared).sender_count == old(shared).sender_count
                    &&& final(shared).receiver_count == old(shared).receiver_count
                    &&& old(shared).container is None && old(shared).receiver_count > 0
                        ==> self.is_item_fallback(r->Err_0) && final(shared).container == Some(
                        r->Err_0,
                    )
                },
            },
    {
        match sent {
            Ok(_) => Ok(true),
            Err(TrySendError::Full) => Ok(false),
            Err(TrySendError::Closed) => {
                let error = self.item_fallback();
                Err(self.close(shared, error))
            },
        }
    }

    /// Takes what became of receiving an item out of a channel that was not closed.
    ///
    /// Returns `None` if there is none yet.
    pub fn after_try_recv<T>(
        &self,
        shared: &mut Shared<Error>,
        received: Result<T, TryRecvError>,
    ) -> (r: Result<Option<T>, Error>)
        ensures
            match received {
                Ok(item) => r == Ok::<Option<T>, Error>(Some(item)) && *final(shared) == *old(
                    shared,
                ),
                Err(TryRecvError::Empty) => r == Ok::<Option<T>, Error>(None) && *final(shared)
                    == *old(shared),
                Err(TryRecvError::Closed) => {
                    &&& r is Err
                    &&& old(shared).container is Some && old(shared).receiver_count > 0
                        ==> r->Err_0 == old(shared).container->0
                    &&& old(shared).receiver_count == 0 ==> self.is_error_fallback(r->Err_0)
                    &&& old(shared).container is Some || old(shared).receiver_count == 0
                        ==> *final(shared) == *old(shared)
                    &&& final(shared).sender_count == old(shared).sender_count
                    &&& final(shared).receiver_count == old(shared).receiver_count
                    &&& old(shared).container is None && old(shared).receiver_count > 0
                        ==> self.is_item_fallback(r->Err_0) && final(shared).container == Some(
                        r->Err_0,
                    )
                },
            },
    {
        match received {
            Ok(item) => Ok(Some(item)),
            Err(TryRecvError::Empty) => Ok(None),
            Err(TryRecvError::Closed) => {
                let error = self.item_fallback();
                Err(self.close(shared, error))
            },
        }
    }

    /// Returns the error that a half closes the channel with when it is dropped.
    pub fn drop_error(&self, is_panicking: bool) -> (r: Error)
        ensures
            if is_panicking {
                r matches Error::HangUp(message) && message@ == describe::around(
                    "'"@,
                    self.name@,
                    "' is dropped due to panic"@,
                )
            } else {
                r is End
            },
    {
        if is_panicking {
            Error::HangUp(
                describe::put_around("'", self.name.as_str(), "' is dropped due to panic"),
            )
        } else {
            Error::End
        }
    }
}

/// A half whose other half has gone without a word says which one has gone.
pub proof fn law_halves_say_what_has_gone(half: Half, error: Error)
    ensures
        half.is_error_fallback(error) ==> (error matches Error::HangUp(message) && message@ == "'"@
            + half.name@ + "'.error_receiver is unavailable"@),
        half.is_item_fallback(error) ==> (error matches Error::HangUp(message) && message@ == "'"@
            + half.name@ + "'."@ + half.items@ + " is unavailable"@),
{
}

} // verus!

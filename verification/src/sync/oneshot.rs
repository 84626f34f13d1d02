use vstd::prelude::*;

verus! {

/// Why a value is not sent.
#[derive(Debug)]
pub enum SendError<T> {
    /// There is no receiver.
    Closed,
    /// A value was sent already.
    Full(T),
}

/// Why a value is not sent now.
#[derive(Debug, Clone, Copy, PartialEq, Eq, Structural)]
pub enum TrySendError {
    /// There is no receiver.
    Closed,
    /// There is no room.
    Full,
}

/// Why no value is received.
#[derive(Debug, Clone, Copy, PartialEq, Eq, Structural)]
pub enum TryRecvError {
    /// There is no sender.
    Closed,
    /// No value was sent yet.
    Empty,
}

/// The state of a channel that carries one value, from many senders to many receivers.
///
/// The first value that is sent stays, and each receiver gets it.
#[derive(Debug)]
pub struct Shared<T> {
    /// The value.
    pub container: Option<T>,
    /// The number of senders.
    pub sender_count: usize,
    /// The number of receivers.
    pub receiver_count: usize,
}

impl<T> Shared<T> {
    /// What is sent, and the channel then.
    pub open spec fn sent(self, value: T) -> (Result<(), SendError<T>>, Self) {
        if self.receiver_count == 0 {
            (Err(SendError::Closed), self)
        } else if self.container is Some {
            (Err(SendError::Full(self.container->0)), self)
        } else {
            (Ok(()), Shared { container: Some(value), ..self })
        }
    }

    /// What is received.
    pub open spec fn received(self) -> Result<T, TryRecvError> {
        match self.container {
            Some(value) => Ok(value),
            None => if self.sender_count == 0 {
                Err(TryRecvError::Closed)
            } else {
                Err(TryRecvError::Empty)
            },
        }
    }

    /// Creates the state of a channel with one sender and one receiver.
    pub fn channel() -> (r: Self)
        ensures
            r == (Shared::<T> { container: None, sender_count: 1, receiver_count: 1 }),
    {
        Self { container: None, sender_count: 1, receiver_count: 1 }
    }

    /// Sends a value, if none was sent before.
    ///
    /// On success, all receivers are to be woken up. On failure, the value comes back.
    pub fn send(&mut self, value: T) -> (r: Result<(), (TrySendError, T)>)
        ensures
            *final(self) == old(self).sent(value).1,
            match old(self).sent(value).0 {
                Ok(_) => r is Ok,
                Err(SendError::Closed) => r == Err::<(), (TrySendError, T)>(
                    (TrySendError::Closed, value),
                ),
                Err(SendError::Full(_)) => r == Err::<(), (TrySendError, T)>(
                    (TrySendError::Full, value),
                ),
            },
    {
        if self.receiver_count == 0 {
            return Err((TrySendError::Closed, value));
        }
        if self.container.is_some() {
            return Err((TrySendError::Full, value));
        }
        self.container = Some(value);
        Ok(())
    }

    /// Returns the value that was sent.
    pub fn try_recv(&self) -> (r: Result<&T, TryRecvError>)
        ensures
            match self.received() {
                Ok(value) => r is Ok && *r->Ok_0 == value,
                Err(error) => r is Err && r->Err_0 == error,
            },
    {
        match &self.container {
            Some(value) => Ok(value),
            None => if self.sender_count == 0 {
                Err(TryRecvError::Closed)
            } else {
                Err(TryRecvError::Empty)
            },
        }
    }

    /// Returns `true` if there is no receiver.
    pub fn is_closed_for_senders(&self) -> (r: bool)
        ensures
            r == (self.receiver_count == 0),
    {
        self.receiver_count == 0
    }

    /// Returns `true` if there is no sender.
    pub fn is_closed_for_receivers(&self) -> (r: bool)
        ensures
            r == (self.sender_count == 0),
    {
        self.sender_count == 0
    }

    /// There is one more sender.
    pub fn add_sender(&mut self)
        requires
            old(self).sender_count < usize::MAX,
        ensures
            *final(self) == (Shared {
                sender_count: (old(self).sender_count + 1) as usize,
                ..*old(self)
            }),
    {
        self.sender_count = self.sender_count + 1;
    }

    /// There is one sender less.
    ///
    /// Returns `true` if it was the last one: all receivers are to be woken up.
    pub fn drop_sender(&mut self) -> (r: bool)
        requires
            old(self).sender_count > 0,
        ensures
            *final(self) == (Shared {
                sender_count: (old(self).sender_count - 1) as usize,
                ..*old(self)
            }),
            r == (final(self).sender_count == 0),
    {
        self.sender_count = self.sender_count - 1;
        self.sender_count == 0
    }

    /// There is one more receiver.
    pub fn add_receiver(&mut self)
        requires
            old(self).receiver_count < usize::MAX,
        ensures
            *final(self) == (Shared {
                receiver_count: (old(self).receiver_count + 1) as usize,
                ..*old(self)
            }),
    {
        self.receiver_count = self.receiver_count + 1;
    }

    /// There is one receiver less.
    pub fn drop_receiver(&mut self)
        requires
            old(self).receiver_count > 0,
        ensures
            *final(self) == (Shared {
                receiver_count: (old(self).receiver_count - 1) as usize,
                ..*old(self)
            }),
    {
        self.receiver_count = self.receiver_count - 1;
    }
}

/// What was sent is received.
pub proof fn law_sent_value_is_received<T>(shared: Shared<T>, value: T)
    requires
        shared.sent(value).0 is Ok,
    ensures
        shared.sent(value).1.received() == Ok::<T, TryRecvError>(value),
{
}

/// The first value stays: another one is refused with it, and changes nothing.
pub proof fn law_first_value_stays<T>(shared: Shared<T>, first: T, second: T)
    requires
        shared.sent(first).0 is Ok,
    ensures
        shared.sent(first).1.sent(second).0 == Err::<(), SendError<T>>(SendError::Full(first)),
        shared.sent(first).1.sent(second).1 == shared.sent(first).1,
{
}

/// A value that was sent is received also if there is no sender anymore.
pub proof fn law_value_outlives_senders<T>(shared: Shared<T>, value: T)
    requires
        shared.sent(value).0 is Ok,
    ensures
        (Shared { sender_count: 0, ..shared.sent(value).1 }).received() == Ok::<T, TryRecvError>(
            value,
        ),
{
}

/// A value is refused for one of two reasons: there is no receiver, or there is a value already.
/// To receive takes nothing away, and fails only if there is no value: for good if there is
/// no sender.
pub proof fn law_values_are_refused_for_a_reason<T>(shared: Shared<T>, value: T)
    ensures
        shared.sent(value).0 is Ok <==> shared.receiver_count > 0 && shared.container is None,
        shared.sent(value).0 matches Err(SendError::Closed) <==> shared.receiver_count == 0,
        shared.sent(value).0 is Err ==> shared.sent(value).1 == shared,
        shared.sent(value).1.sender_count == shared.sender_count,
        shared.sent(value).1.receiver_count == shared.receiver_count,
        shared.received() is Ok <==> shared.container is Some,
        shared.received() matches Ok(received) ==> shared.container == Some(received),
        shared.received() == Err::<T, TryRecvError>(TryRecvError::Closed) <==> shared.container
            is None && shared.sender_count == 0,
        shared.received() == Err::<T, TryRecvError>(TryRecvError::Empty) <==> shared.container
            is None && shared.sender_count > 0,
{
}

} // verus!

use vstd::prelude::*;

verus! {

/// A response/callback state.
///
/// State may only be transitioned by the callback,
/// while the one who waits for the response only reads it.
///
/// * `R`: a response.
/// * `W`: what wakes up the one who waits for it.
#[derive(Debug)]
pub enum State<R, W> {
    /// There is no response yet.
    Pending(Option<W>),
    /// There is a response.
    Ready(R),
    /// There will be no response.
    HangUp,
}

/// What the one who waits for a response finds.
#[derive(Debug, Clone, Copy, PartialEq, Eq, Structural)]
pub enum Outcome {
    /// There is no response yet.
    Pending,
    /// There is a response to be taken out.
    Ready,
    /// There will be no response.
    NoResponse,
}

impl<R, W> State<R, W> {
    /// The state after a response was given.
    pub open spec fn answered(self, result: R) -> Self {
        if self is Pending {
            State::Ready(result)
        } else {
            self
        }
    }

    /// The state after the callback was dropped.
    pub open spec fn dropped(self) -> Self {
        if self is Pending {
            State::HangUp
        } else {
            self
        }
    }

    /// What is found.
    pub open spec fn outcome(self) -> Outcome {
        match self {
            State::Pending(_) => Outcome::Pending,
            State::Ready(_) => Outcome::Ready,
            State::HangUp => Outcome::NoResponse,
        }
    }

    /// Who is to be woken up when the state changes.
    pub open spec fn waiting(self) -> Option<W> {
        match self {
            State::Pending(waker) => waker,
            _ => None,
        }
    }

    /// Creates the state of a call that nobody waits for yet.
    pub fn new() -> (r: Self)
        ensures
            r == State::<R, W>::Pending(None),
    {
        State::Pending(None)
    }

    /// Gives a response, if none was given yet.
    ///
    /// Returns who is to be woken up.
    pub fn on_result(&mut self, result: R) -> (r: Option<W>)
        ensures
            *final(self) == old(self).answered(result),
            r == old(self).waiting(),
    {
        let mut state: State<R, W> = State::HangUp;
        core::mem::swap(&mut state, self);
        match state {
            State::Pending(waker) => {
                *self = State::Ready(result);
                waker
            },
            other => {
                *self = other;
                None
            },
        }
    }

    /// The callback is dropped.
    ///
    /// Returns who is to be woken up.
    pub fn on_drop(&mut self) -> (r: Option<W>)
        ensures
            *final(self) == old(self).dropped(),
            r == old(self).waiting(),
    {
        let mut state: State<R, W> = State::HangUp;
        core::mem::swap(&mut state, self);
        match state {
            State::Pending(waker) => waker,
            other => {
                *self = other;
                None
            },
        }
    }

    /// Looks for a response. If there is none yet, `waker` is woken up when there is one.
    pub fn poll(&mut self, waker: W) -> (r: Outcome)
        ensures
            r == old(self).outcome(),
            *final(self) == if *old(self) is Pending {
                State::<R, W>::Pending(Some(waker))
            } else {
                *old(self)
            },
    {
        match self {
            State::Pending(_) => {
                *self = State::Pending(Some(waker));
                Outcome::Pending
            },
            State::Ready(_) => Outcome::Ready,
            State::HangUp => Outcome::NoResponse,
        }
    }

    /// Takes out the response, `None` if there is none.
    pub fn into_response(self) -> (r: Option<R>)
        ensures
            r == match self {
                State::Ready(response) => Some(response),
                _ => None,
            },
    {
        match self {
            State::Ready(response) => Some(response),
            _ => None,
        }
    }
}

/// A response that was given is found, whatever happens to the callback then.
pub proof fn law_response_stays<R, W>(state: State<R, W>, first: R, second: R)
    requires
        state is Pending,
    ensures
        state.answered(first) == State::<R, W>::Ready(first),
        state.answered(first).answered(second) == State::<R, W>::Ready(first),
        state.answered(first).dropped() == State::<R, W>::Ready(first),
        state.answered(first).outcome() is Ready,
{
}

/// Who waits for a response that will never be given gets to know it.
pub proof fn law_dropped_callback_is_noticed<R, W>(state: State<R, W>, late: R)
    requires
        state is Pending,
    ensures
        state.dropped().outcome() is NoResponse,
        state.dropped().answered(late).outcome() is NoResponse,
{
}

/// What has been decided stays: neither a response nor a dropped callback changes it,
/// and nobody waits for it. Who waits is found until then.
pub proof fn law_outcome_is_decided_once<R, W>(state: State<R, W>, late: R, waker: Option<W>)
    ensures
        !(state is Pending) ==> {
            &&& state.answered(late) == state
            &&& state.dropped() == state
            &&& state.waiting() is None
            &&& !(state.outcome() is Pending)
        },
        state is Pending <==> state.outcome() is Pending,
        state is Ready <==> state.outcome() is Ready,
        State::<R, W>::Pending(waker).waiting() == waker,
{
}

} // verus!

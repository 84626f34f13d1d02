use crate::backend::util::deadline;
use crate::backend::util::{DeadlineKey, Deadlines, Scheduled};
use crate::time::Instant;
use vstd::prelude::*;

verus! {

/// A clock, and the events that are scheduled on it.
pub struct Time<E> {
    /// Timer to schedule and poll events.
    timer: Deadlines<E>,
    /// Fired events that are ready to be handled.
    fired_events: Vec<E>,
    /// Current monotonical time.
    clock: Instant,
}

impl<E> Time<E> {
    /// The scheduled events.
    pub closed spec fn scheduled(&self) -> Seq<Scheduled<E>> {
        self.timer.entries()
    }

    /// The fired events.
    pub closed spec fn fired(&self) -> Seq<E> {
        self.fired_events@
    }

    /// Current monotonical time.
    pub closed spec fn spec_now(&self) -> Instant {
        self.clock
    }

    /// The timer is well-formed.
    pub closed spec fn wf(&self) -> bool {
        self.timer.wf()
    }

    /// Creates a clock without events.
    pub fn new(clock: Instant) -> (r: Self)
        ensures
            r.wf(),
            r.scheduled() == Seq::<Scheduled<E>>::empty(),
            r.fired() == Seq::<E>::empty(),
            r.spec_now() == clock,
    {
        Self { timer: Deadlines::new(), fired_events: Vec::new(), clock }
    }

    /// Schedules an event to fire at the specified time.
    pub fn schedule(&mut self, event: E, at: Instant) -> (r: DeadlineKey)
        requires
            old(self).wf(),
        ensures
            final(self).wf(),
            !deadline::holds_key(old(self).scheduled(), r),
            final(self).scheduled() == old(self).scheduled().push(
                Scheduled { key: r, at, event },
            ),
            final(self).fired() == old(self).fired(),
            final(self).spec_now() == old(self).spec_now(),
    {
        self.timer.schedule(event, at)
    }

    /// The events without the previous one.
    pub open spec fn without_previous(
        scheduled: Seq<Scheduled<E>>,
        previous_key: Option<DeadlineKey>,
    ) -> Seq<Scheduled<E>> {
        match previous_key {
            Some(key) => deadline::cancelled(scheduled, key),
            None => scheduled,
        }
    }

    /// Cancels a previously scheduled event and replaces it with a new one.
    pub fn reschedule(&mut self, event: E, at: Instant, previous_key: Option<DeadlineKey>) -> (r:
        DeadlineKey)
        requires
            old(self).wf(),
        ensures
            final(self).wf(),
            final(self).scheduled() == Self::without_previous(
                old(self).scheduled(),
                previous_key,
            ).push(Scheduled { key: r, at, event }),
            final(self).fired() == old(self).fired(),
            final(self).spec_now() == old(self).spec_now(),
    {
        if let Some(key) = previous_key {
            self.timer.cancel(key);
        }
        self.schedule(event, at)
    }

    /// Cancels a scheduled event.
    pub fn cancel(&mut self, key: Option<DeadlineKey>)
        requires
            old(self).wf(),
        ensures
            final(self).wf(),
            final(self).scheduled() == Self::without_previous(old(self).scheduled(), key),
            final(self).fired() == old(self).fired(),
            final(self).spec_now() == old(self).spec_now(),
    {
        if let Some(key) = key {
            self.timer.cancel(key);
        }
    }

    /// Ticks, storing all fired events.
    /// In case of time-lag, previous events are handled too.
    ///
    /// Fired events can be retrieved via [`fired_events()`][Self::fired_events].
    ///
    /// Returns the instant at which this method should be called again,
    /// and whether there are pending fired events to be handled.
    pub fn tick(&mut self) -> (r: (Option<Instant>, bool))
        requires
            old(self).wf(),
        ensures
            final(self).wf(),
            final(self).scheduled() == deadline::waiting(
                old(self).scheduled(),
                old(self).spec_now(),
            ),
            final(self).fired() == old(self).fired() + deadline::due(
                old(self).scheduled(),
                old(self).spec_now(),
            ),
            deadline::is_earliest(final(self).scheduled(), r.0),
            r.1 == (final(self).fired().len() > 0),
            final(self).spec_now() == old(self).spec_now(),
    {
        let next = self.timer.progress(self.clock, &mut self.fired_events);
        (next, self.fired_events.len() > 0)
    }

    /// Takes out all fired events, that are ready to be handled.
    pub fn fired_events(&mut self) -> (r: Vec<E>)
        requires
            old(self).wf(),
        ensures
            final(self).wf(),
            r@ == old(self).fired(),
            final(self).fired() == Seq::<E>::empty(),
            final(self).scheduled() == old(self).scheduled(),
            final(self).spec_now() == old(self).spec_now(),
    {
        let mut events: Vec<E> = Vec::new();
        core::mem::swap(&mut events, &mut self.fired_events);
        events
    }

    /// Updates internal clocks.
    pub fn update_clock(&mut self, now: Instant)
        requires
            old(self).wf(),
        ensures
            final(self).wf(),
            final(self).spec_now() == now,
            final(self).scheduled() == old(self).scheduled(),
            final(self).fired() == old(self).fired(),
    {
        self.clock = now;
    }

    /// Returns current monotonical time.
    pub fn now(&self) -> (r: Instant)
        ensures
            r == self.spec_now(),
    {
        self.clock
    }
}

/// The event that is replaced is the one with the key, if there is one, and no other.
pub proof fn law_previous_event_is_cancelled<E>(
    scheduled: Seq<Scheduled<E>>,
    key: DeadlineKey,
    i: int,
)
    requires
        0 <= i < scheduled.len(),
        forall|a: int, b: int|
            0 <= a < b < scheduled.len() ==> (#[trigger] scheduled[a]).key != (
            #[trigger] scheduled[b]).key,
    ensures
        Time::<E>::without_previous(scheduled, None) == scheduled,
        scheduled[i].key == key ==> Time::<E>::without_previous(scheduled, Some(key))
            == scheduled.remove(i),
{
    if scheduled[i].key == key {
        deadline::lemma_cancelled_at(scheduled, key, i);
    }
}

} // verus!

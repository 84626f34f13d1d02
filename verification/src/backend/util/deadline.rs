use crate::time::Instant;
use vstd::prelude::*;

verus! {

/// A key for a scheduled event.
#[derive(Debug, Clone, Copy, PartialEq, Eq, Structural)]
pub struct DeadlineKey(u64);

/// An event that is scheduled.
pub struct Scheduled<E> {
    /// The key of the event.
    pub key: DeadlineKey,
    /// When the event fires.
    pub at: Instant,
    /// The event.
    pub event: E,
}

/// A timer without a limit on how far ahead an event is scheduled.
pub struct Deadlines<E> {
    entries: Vec<Scheduled<E>>,
    next_key: u64,
}

/// The events that are due at a time, in the order in which they were scheduled.
pub open spec fn due<E>(entries: Seq<Scheduled<E>>, now: Instant) -> Seq<E>
    decreases entries.len(),
{
    if entries.len() == 0 {
        Seq::empty()
    } else if entries.last().at.nanos <= now.nanos {
        due(entries.drop_last(), now).push(entries.last().event)
    } else {
        due(entries.drop_last(), now)
    }
}

/// The entries that are not due at a time.
pub open spec fn waiting<E>(entries: Seq<Scheduled<E>>, now: Instant) -> Seq<Scheduled<E>>
    decreases entries.len(),
{
    if entries.len() == 0 {
        Seq::empty()
    } else if entries.last().at.nanos <= now.nanos {
        waiting(entries.drop_last(), now)
    } else {
        waiting(entries.drop_last(), now).push(entries.last())
    }
}

/// The entries without the one that has the key.
pub open spec fn cancelled<E>(entries: Seq<Scheduled<E>>, key: DeadlineKey) -> Seq<Scheduled<E>>
    decreases entries.len(),
{
    if entries.len() == 0 {
        Seq::empty()
    } else if entries.last().key == key {
        cancelled(entries.drop_last(), key)
    } else {
        cancelled(entries.drop_last(), key).push(entries.last())
    }
}

/// An entry has the key.
pub open spec fn holds_key<E>(entries: Seq<Scheduled<E>>, key: DeadlineKey) -> bool {
    exists|i: int| 0 <= i < entries.len() && (#[trigger] entries[i]).key == key
}

/// The time is the earliest one of the entries, `None` if there are none.
pub open spec fn is_earliest<E>(entries: Seq<Scheduled<E>>, r: Option<Instant>) -> bool {
    match r {
        None => entries.len() == 0,
        Some(time) => {
            &&& exists|i: int| 0 <= i < entries.len() && (#[trigger] entries[i]).at == time
            &&& forall|i: int|
                0 <= i < entries.len() ==> time.nanos <= (#[trigger] entries[i]).at.nanos
        },
    }
}

impl<E> Deadlines<E> {
    /// The scheduled events, in the order in which they were scheduled.
    pub closed spec fn entries(&self) -> Seq<Scheduled<E>> {
        self.entries@
    }

    /// No two events have the same key.
    pub closed spec fn wf(&self) -> bool {
        &&& self.next_key < u64::MAX ==> forall|i: int|
            0 <= i < self.entries@.len() ==> (#[trigger] self.entries@[i]).key.0 < self.next_key
        &&& forall|i: int, j: int|
            0 <= i < j < self.entries@.len() ==> (#[trigger] self.entries@[i]).key != (
            #[trigger] self.entries@[j]).key
    }

    /// Creates a timer without events.
    pub fn new() -> (r: Self)
        ensures
            r.wf(),
            r.entries() == Seq::<Scheduled<E>>::empty(),
    {
        Self { entries: Vec::new(), next_key: 0 }
    }

    /// Schedules an event to fire at the specified time.
    pub fn schedule(&mut self, event: E, at: Instant) -> (r: DeadlineKey)
        requires
            old(self).wf(),
        ensures
            final(self).wf(),
            !holds_key(old(self).entries(), r),
            final(self).entries() == old(self).entries().push(Scheduled { key: r, at, event }),
    {
        let key: DeadlineKey = if self.next_key < u64::MAX {
            self.next_key = self.next_key + 1;
            DeadlineKey(self.next_key - 1)
        } else {
            self.free_key()
        };
        self.entries.push(Scheduled { key, at, event });
        key
    }

    fn is_taken(&self, key: DeadlineKey) -> (r: bool)
        ensures
            r == holds_key(self.entries(), key),
    {
        let mut i: usize = 0;
        while i < self.entries.len()
            invariant
                i <= self.entries@.len(),
                forall|j: int| 0 <= j < i ==> (#[trigger] self.entries@[j]).key != key,
            decreases self.entries@.len() - i,
        {
            if self.entries[i].key == key {
                return true;
            }
            i = i + 1;
        }
        false
    }

    /// Returns the least key that no event has.
    fn free_key(&self) -> (r: DeadlineKey)
        ensures
            !holds_key(self.entries(), r),
    {
        let mut candidate: u64 = 0;
        let count: u64 = self.entries.len() as u64;
        while self.is_taken(DeadlineKey(candidate))
            invariant
                count == self.entries@.len(),
                candidate <= count,
                forall|k: u64| k < candidate ==> #[trigger] holds_key(self.entries(), DeadlineKey(k)),
            decreases count - candidate,
        {
            proof {
                if candidate == count {
                    lemma_some_key_is_free(self.entries(), candidate);
                }
            }
            candidate = candidate + 1;
        }
        DeadlineKey(candidate)
    }

    /// Cancels a scheduled event.
    pub fn cancel(&mut self, key: DeadlineKey)
        requires
            old(self).wf(),
        ensures
            final(self).wf(),
            final(self).entries() == cancelled(old(self).entries(), key),
            !holds_key(final(self).entries(), key),
    {
        let mut i: usize = 0;
        let ghost all = self.entries@;
        proof {
            if !holds_key(all, key) {
                lemma_cancelled_absent(all, key);
            }
        }
        while i < self.entries.len()
            invariant
                self.entries@ == all,
                self.next_key == old(self).next_key,
                old(self).entries@ == all,
                old(self).wf(),
                i <= all.len(),
                forall|j: int| 0 <= j < i ==> (#[trigger] all[j]).key != key,
                !holds_key(all, key) ==> cancelled(all, key) == all,
            decreases all.len() - i,
        {
            if self.entries[i].key == key {
                let _ = self.entries.remove(i);
                proof {
                    lemma_cancelled_at(all, key, i as int);
                    assert(self.entries@ =~= all.remove(i as int));
                    assert(self.wf());
                    assert(!holds_key(self.entries@, key));
                }
                return;
            }
            i = i + 1;
        }
    }

    /// Moves the events that are due to `out`.
    ///
    /// Returns the time at which the next event is due.
    pub fn progress(&mut self, now: Instant, out: &mut Vec<E>) -> (r: Option<Instant>)
        requires
            old(self).wf(),
        ensures
            final(self).wf(),
            final(out)@ == old(out)@ + due(old(self).entries(), now),
            final(self).entries() == waiting(old(self).entries(), now),
            is_earliest(final(self).entries(), r),
    {
        let ghost all = self.entries@;
        let mut entries: Vec<Scheduled<E>> = Vec::new();
        core::mem::swap(&mut entries, &mut self.entries);
        let mut next: Option<Instant> = None;
        let mut rest: Vec<Scheduled<E>> = Vec::new();
        assert(all.take(0) =~= Seq::<Scheduled<E>>::empty());
        for entry in iter: entries
            invariant
                iter.seq() == all,
                out@ == old(out)@ + due(all.take(iter.index() as int), now),
                rest@ == waiting(all.take(iter.index() as int), now),
                is_earliest(rest@, next),
        {
            proof {
                let n = iter.index() as int;
                assert(all.take(n + 1).drop_last() =~= all.take(n));
                assert(all.take(n + 1).last() == all[n]);
            }
            if entry.at.nanos <= now.nanos {
                out.push(entry.event);
                assert(out@ =~= old(out)@ + due(all.take(iter.index() as int + 1), now));
            } else {
                let ghost before = rest@;
                let at = entry.at;
                let ghost old_next = next;
                match next {
                    Some(time) if time.nanos <= at.nanos => {},
                    _ => {
                        next = Some(at);
                    },
                }
                rest.push(entry);
                proof {
                    assert(rest@[before.len() as int].at == at);
                    assert forall|i: int| 0 <= i < before.len() implies rest@[i] == before[i] by {}
                    match old_next {
                        Some(time) => {
                            let w = choose|i: int|
                                0 <= i < before.len() && (#[trigger] before[i]).at == time;
                            assert(rest@[w].at == time);
                        },
                        None => {},
                    }
                }
            }
        }
        assert(all.take(all.len() as int) =~= all);
        self.entries = rest;
        proof {
            lemma_waiting_keeps_keys(all, now);
            assert forall|i: int|
                self.next_key < u64::MAX && 0 <= i < self.entries@.len() implies (
            #[trigger] self.entries@[i]).key.0 < self.next_key by {
                assert(holds_key(all, self.entries@[i].key));
            }
        }
        next
    }
}

proof fn lemma_cancelled_absent<E>(entries: Seq<Scheduled<E>>, key: DeadlineKey)
    requires
        !holds_key(entries, key),
    ensures
        cancelled(entries, key) == entries,
    decreases entries.len(),
{
    if entries.len() > 0 {
        let init = entries.drop_last();
        assert forall|i: int| 0 <= i < init.len() implies (#[trigger] init[i]).key != key by {
            assert(entries[i].key != key);
        }
        lemma_cancelled_absent(init, key);
        assert(entries[entries.len() - 1].key != key);
        assert(cancelled(entries, key) =~= entries);
    } else {
        assert(entries =~= Seq::empty());
    }
}

pub(crate) proof fn lemma_cancelled_at<E>(entries: Seq<Scheduled<E>>, key: DeadlineKey, i: int)
    requires
        0 <= i < entries.len(),
        entries[i].key == key,
        forall|j: int| 0 <= j < entries.len() && j != i ==> (#[trigger] entries[j]).key != key,
    ensures
        cancelled(entries, key) == entries.remove(i),
    decreases entries.len(),
{
    let init = entries.drop_last();
    if i == entries.len() - 1 {
        assert forall|j: int| 0 <= j < init.len() implies (#[trigger] init[j]).key != key by {
            assert(entries[j].key != key);
        }
        lemma_cancelled_absent(init, key);
        assert(entries.remove(i) =~= init);
    } else {
        assert forall|j: int| 0 <= j < init.len() && j != i implies (#[trigger] init[j]).key
            != key by {
            assert(entries[j].key != key);
        }
        lemma_cancelled_at(init, key, i);
        assert(entries[entries.len() - 1].key != key);
        assert(entries.remove(i) =~= init.remove(i).push(entries.last()));
    }
}

/// `n` entries do not have more than `n` keys.
proof fn lemma_some_key_is_free<E>(entries: Seq<Scheduled<E>>, n: u64)
    requires
        n == entries.len(),
    ensures
        exists|k: u64| k <= n && !#[trigger] holds_key(entries, DeadlineKey(k)),
{
    if forall|k: u64| k <= n ==> #[trigger] holds_key(entries, DeadlineKey(k)) {
        let numbers = entries.map_values(|entry: Scheduled<E>| entry.key.0 as int);
        let range = vstd::set_lib::set_int_range(0, n + 1);
        vstd::set_lib::lemma_int_range(0, n + 1);
        numbers.lemma_cardinality_of_set();
        assert forall|k: int| range.contains(k) implies numbers.to_set().contains(k) by {
            assert(holds_key(entries, DeadlineKey(k as u64)));
            let w = choose|i: int|
                0 <= i < entries.len() && (#[trigger] entries[i]).key == DeadlineKey(k as u64);
            assert(numbers[w] == k);
        }
        vstd::set_lib::lemma_len_subset(range, numbers.to_set());
    }
}

proof fn lemma_waiting_keeps_keys<E>(entries: Seq<Scheduled<E>>, now: Instant)
    requires
        forall|i: int, j: int|
            0 <= i < j < entries.len() ==> (#[trigger] entries[i]).key != (#[trigger] entries[j]).key,
    ensures
        forall|i: int|
            0 <= i < waiting(entries, now).len() ==> holds_key(
                entries,
                (#[trigger] waiting(entries, now)[i]).key,
            ),
        forall|i: int, j: int|
            0 <= i < j < waiting(entries, now).len() ==> (#[trigger] waiting(entries, now)[i]).key
                != (#[trigger] waiting(entries, now)[j]).key,
    decreases entries.len(),
{
    if entries.len() > 0 {
        let init = entries.drop_last();
        lemma_waiting_keeps_keys(init, now);
        let before = waiting(init, now);
        let after = waiting(entries, now);
        assert forall|k: DeadlineKey| holds_key(init, k) implies holds_key(entries, k) && k
            != entries.last().key by {
            let w = choose|i: int| 0 <= i < init.len() && (#[trigger] init[i]).key == k;
            assert(entries[w].key == k);
        }
        assert(entries[entries.len() - 1].key == entries.last().key);
        assert(holds_key(entries, entries.last().key));
        assert forall|i: int| 0 <= i < after.len() implies holds_key(
            entries,
            (#[trigger] after[i]).key,
        ) by {
            if i < before.len() {
                assert(after[i] == before[i]);
            }
        }
        assert forall|i: int, j: int| 0 <= i < j < after.len() implies (#[trigger] after[i]).key
            != (#[trigger] after[j]).key by {
            assert(after[i] == before[i]);
            if j < before.len() {
                assert(after[j] == before[j]);
            }
        }
    }
}

/// An event is due exactly when its time has come.
pub proof fn law_event_fires_when_its_time_has_come<E>(
    entries: Seq<Scheduled<E>>,
    entry: Scheduled<E>,
    now: Instant,
)
    ensures
        due(entries.push(entry), now) == if entry.at.nanos <= now.nanos {
            due(entries, now).push(entry.event)
        } else {
            due(entries, now)
        },
        waiting(entries.push(entry), now) == if entry.at.nanos <= now.nanos {
            waiting(entries, now)
        } else {
            waiting(entries, now).push(entry)
        },
{
    assert(entries.push(entry).drop_last() =~= entries);
}

/// What is not due waits, and is due once its time has come: no event is lost or fires twice.
pub proof fn law_no_event_is_lost<E>(entries: Seq<Scheduled<E>>, now: Instant, later: Instant)
    requires
        now.nanos <= later.nanos,
    ensures
        waiting(waiting(entries, now), later) == waiting(entries, later),
        due(entries, now).len() + due(waiting(entries, now), later).len() == due(
            entries,
            later,
        ).len(),
    decreases entries.len(),
{
    if entries.len() > 0 {
        let init = entries.drop_last();
        law_no_event_is_lost(init, now, later);
        let rest = waiting(init, now);
        assert(rest.push(entries.last()).drop_last() =~= rest);
    }
}

/// An event that was cancelled does not fire: it is scheduled no more.
pub proof fn law_cancelled_event_is_gone<E>(entries: Seq<Scheduled<E>>, key: DeadlineKey)
    ensures
        !holds_key(cancelled(entries, key), key),
    decreases entries.len(),
{
    if entries.len() > 0 {
        let rest = cancelled(entries.drop_last(), key);
        law_cancelled_event_is_gone(entries.drop_last(), key);
        if entries.last().key != key && holds_key(rest.push(entries.last()), key) {
            let i = choose|i: int|
                0 <= i < rest.push(entries.last()).len() && (
                #[trigger] rest.push(entries.last())[i]).key == key;
            assert(i < rest.len());
            assert(rest[i].key == key);
        }
    }
}

/// An event that is cancelled takes no other event with it: the others keep their times
/// and their order.
pub proof fn law_cancel_keeps_the_others<E>(
    entries: Seq<Scheduled<E>>,
    entry: Scheduled<E>,
    key: DeadlineKey,
)
    ensures
        cancelled(Seq::<Scheduled<E>>::empty(), key).len() == 0,
        entry.key == key ==> cancelled(entries.push(entry), key) == cancelled(entries, key),
        entry.key != key ==> cancelled(entries.push(entry), key) == cancelled(entries, key).push(
            entry,
        ),
{
    assert(entries.push(entry).drop_last() =~= entries);
}

/// A key that no event has cancels nothing.
pub proof fn law_unknown_key_cancels_nothing<E>(entries: Seq<Scheduled<E>>, key: DeadlineKey)
    requires
        forall|i: int| 0 <= i < entries.len() ==> (#[trigger] entries[i]).key != key,
    ensures
        cancelled(entries, key) == entries,
{
    lemma_cancelled_absent(entries, key);
}

/// Each event either fires or waits, and only those fire whose time has come.
pub proof fn law_events_fire_or_wait<E>(entries: Seq<Scheduled<E>>, now: Instant, i: int)
    requires
        0 <= i < entries.len(),
    ensures
        due(entries, now).len() + waiting(entries, now).len() == entries.len(),
        entries[i].at.nanos <= now.nanos ==> due(entries, now).contains(entries[i].event),
        entries[i].at.nanos > now.nanos ==> waiting(entries, now).contains(entries[i]),
        forall|k: int|
            0 <= k < waiting(entries, now).len() ==> now.nanos < (#[trigger] waiting(
                entries,
                now,
            )[k]).at.nanos && entries.contains(waiting(entries, now)[k]),
    decreases entries.len(),
{
    let init = entries.drop_last();
    let (d, w) = (due(init, now), waiting(init, now));
    if init.len() > 0 {
        law_events_fire_or_wait(init, now, if i < init.len() {
            i
        } else {
            0
        });
    }
    assert(due(entries, now) == d || due(entries, now) == d.push(entries.last().event));
    if i < init.len() {
        assert(init[i] == entries[i]);
        if entries[i].at.nanos <= now.nanos {
            let k = choose|k: int| 0 <= k < d.len() && d[k] == entries[i].event;
            assert(due(entries, now)[k] == entries[i].event);
        } else {
            let k = choose|k: int| 0 <= k < w.len() && w[k] == entries[i];
            assert(waiting(entries, now)[k] == entries[i]);
        }
    } else {
        assert(entries[i] == entries.last());
        if entries[i].at.nanos <= now.nanos {
            assert(due(entries, now)[d.len() as int] == entries[i].event);
        } else {
            assert(waiting(entries, now)[w.len() as int] == entries[i]);
        }
    }
    assert forall|k: int| 0 <= k < waiting(entries, now).len() implies now.nanos < (
    #[trigger] waiting(entries, now)[k]).at.nanos && entries.contains(
        waiting(entries, now)[k],
    ) by {
        if k < w.len() {
            assert(waiting(entries, now)[k] == w[k]);
            let j = choose|j: int| 0 <= j < init.len() && init[j] == w[k];
            assert(entries[j] == w[k]);
        } else {
            assert(entries[entries.len() - 1] == waiting(entries, now)[k]);
        }
    }
}

/// The earliest time is one of an event, and no event is due before it. There is one
/// if and only if there is an event.
pub proof fn law_no_event_is_due_before_the_earliest<E>(
    entries: Seq<Scheduled<E>>,
    earliest: Option<Instant>,
    now: Instant,
)
    requires
        is_earliest(entries, earliest),
    ensures
        earliest is None <==> entries.len() == 0,
        earliest matches Some(time) ==> {
            &&& now.nanos < time.nanos ==> due(entries, now).len() == 0
            &&& now.nanos >= time.nanos ==> due(entries, now).len() > 0
        },
{
    if let Some(time) = earliest {
        if now.nanos < time.nanos {
            lemma_nothing_is_due(entries, now);
        } else {
            let i = choose|i: int| 0 <= i < entries.len() && (#[trigger] entries[i]).at == time;
            law_events_fire_or_wait(entries, now, i);
        }
    }
}

proof fn lemma_nothing_is_due<E>(entries: Seq<Scheduled<E>>, now: Instant)
    requires
        forall|i: int| 0 <= i < entries.len() ==> now.nanos < (#[trigger] entries[i]).at.nanos,
    ensures
        due(entries, now).len() == 0,
    decreases entries.len(),
{
    if entries.len() > 0 {
        let init = entries.drop_last();
        assert(forall|i: int| 0 <= i < init.len() ==> init[i] == entries[i]);
        lemma_nothing_is_due(init, now);
    }
}

} // verus!

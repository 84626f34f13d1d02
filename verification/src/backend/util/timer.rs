use crate::time::{Duration, Instant};
use slab::Slab;
use vstd::prelude::*;

verus! {

/// An outside slab: values under keys that the slab hands out.
#[verifier::external_type_specification]
#[verifier::external_body]
#[verifier::reject_recursive_types(T)]
pub struct ExSlab<T>(slab::Slab<T>);

/// What a slab holds under each key that is in use.
pub uninterp spec fn slab_entries(slab: Slab<(usize, usize)>) -> Map<usize, (usize, usize)>;

/// `Slab::with_capacity`: an empty slab; the capacity only sizes its first allocation,
/// which has to fit into the address space.
#[verifier::external_body]
fn slab_with_capacity(capacity: usize) -> (r: Slab<(usize, usize)>)
    requires
        capacity <= isize::MAX / 64,
    ensures
        forall|key: usize| !slab_entries(r).contains_key(key),
{
    Slab::with_capacity(capacity)
}

/// `Slab::insert`: stores the value under a key that was not in use, and returns that key.
#[verifier::external_body]
fn slab_insert(slab: &mut Slab<(usize, usize)>, value: (usize, usize)) -> (r: usize)
    ensures
        !slab_entries(*old(slab)).contains_key(r),
        slab_entries(*final(slab)) == slab_entries(*old(slab)).insert(r, value),
{
    slab.insert(value)
}

/// `Slab::try_remove`: takes out the value under the key, `None` if the key is not in use.
#[verifier::external_body]
fn slab_try_remove(slab: &mut Slab<(usize, usize)>, key: usize) -> (r: Option<(usize, usize)>)
    ensures
        r is Some <==> slab_entries(*old(slab)).contains_key(key),
        r matches Some(value) ==> value == slab_entries(*old(slab))[key],
        slab_entries(*final(slab)) == slab_entries(*old(slab)).remove(key),
{
    slab.try_remove(key)
}

/// `Slab::get_mut`: the value under the key, for writing, `None` if the key is not in use.
#[verifier::external_body]
fn slab_get_mut(slab: &mut Slab<(usize, usize)>, key: usize) -> (r: Option<&mut (usize, usize)>)
    ensures
        match r {
            Some(value) => slab_entries(*old(slab)).contains_key(key) && *value == slab_entries(
                *old(slab),
            )[key] && slab_entries(*final(slab)) == slab_entries(*old(slab)).insert(key, *final(value)),
            None => !slab_entries(*old(slab)).contains_key(key) && slab_entries(*final(slab))
                == slab_entries(*old(slab)),
        },
{
    slab.get_mut(key)
}

/// A key for a scheduled value.
#[derive(Debug, Clone, Copy, PartialEq, Eq, Structural)]
pub struct TimerKey(usize);

/// A timer queue.
/// Provides an API to schedule events.
pub struct TimerWheel<T> {
    /// A bucket for each tick of a full turn.
    buckets: Vec<Vec<(T, TimerKey)>>,
    /// Bucket and place in the bucket of each scheduled event.
    address_book: Slab<(usize, usize)>,
    /// The bucket that fires on the next tick.
    position: usize,
    tick_duration: Duration,
}

/// `entries` without the one at `i`, whose place the last one takes.
pub open spec fn swap_removed<A>(entries: Seq<A>, i: int) -> Seq<A> {
    entries.update(i, entries.last()).drop_last()
}

/// The slots after one tick: the first one has fired, and an empty one is behind the last one.
pub open spec fn turned<A>(slots: Seq<Seq<A>>) -> Seq<Seq<A>> {
    slots.drop_first().push(Seq::empty())
}

/// The slots after `n` ticks.
pub open spec fn turned_times<A>(slots: Seq<Seq<A>>, n: nat) -> Seq<Seq<A>>
    decreases n,
{
    if n == 0 {
        slots
    } else {
        turned_times(turned(slots), (n - 1) as nat)
    }
}

/// The events that fire during `n` ticks, in the order in which they fire.
pub open spec fn fired<T>(slots: Seq<Seq<(T, TimerKey)>>, n: nat) -> Seq<T>
    decreases n,
{
    if n == 0 {
        Seq::empty()
    } else {
        events(slots[0]) + fired(turned(slots), (n - 1) as nat)
    }
}

/// The events of a slot.
pub open spec fn events<T>(slot: Seq<(T, TimerKey)>) -> Seq<T> {
    slot.map_values(|entry: (T, TimerKey)| entry.0)
}

/// Some scheduled event has the key.
pub open spec fn is_scheduled<T>(slots: Seq<Seq<(T, TimerKey)>>, key: TimerKey) -> bool {
    exists|d: int, i: int|
        0 <= d < slots.len() && 0 <= i < slots[d].len() && (#[trigger] slots[d][i]).1 == key
}

/// The smallest power of two that is not less than `n`.
pub open spec fn is_next_power_of_two(p: nat, n: nat) -> bool {
    exists|k: nat|
        #![trigger vstd::arithmetic::power2::pow2(k)]
        p == vstd::arithmetic::power2::pow2(k) && n <= p && (k > 0 ==> vstd::arithmetic::power2::pow2((k - 1) as nat) < n)
}

fn next_power_of_two(n: usize) -> (p: usize)
    requires
        n <= usize::MAX / 2 + 1,
    ensures
        is_next_power_of_two(p as nat, n as nat),
        p > 0,
{
    let mut p: usize = 1;
    let ghost mut k: nat = 0;
    proof {
        vstd::arithmetic::power2::lemma2_to64();
    }
    while p < n
        invariant
            n <= usize::MAX / 2 + 1,
            p == vstd::arithmetic::power2::pow2(k),
            p > 0,
            k > 0 ==> vstd::arithmetic::power2::pow2((k - 1) as nat) < n,
        decreases (if p < n {
            n - p
        } else {
            0
        }),
    {
        proof {
            vstd::arithmetic::power2::lemma_pow2_unfold((k + 1) as nat);
            k = (k + 1) as nat;
        }
        p = p * 2;
    }
    p
}

impl<T> TimerWheel<T> {
    /// The index of the bucket that fires after `d` more ticks.
    spec fn index(&self, d: int) -> int {
        if self.position + d < self.buckets@.len() {
            self.position + d
        } else {
            self.position + d - self.buckets@.len()
        }
    }

    /// The scheduled events: `slots[d]` holds those that fire on the tick after `d` more ticks,
    /// in the order in which they fire.
    pub closed spec fn slots(&self) -> Seq<Seq<(T, TimerKey)>> {
        Seq::new(self.buckets@.len(), |d: int| self.buckets@[self.index(d)]@)
    }

    /// The real-time duration of a tick.
    pub closed spec fn tick_nanos(&self) -> nat {
        self.tick_duration.nanos as nat
    }

    /// The address book knows each event's place, and nothing else.
    pub closed spec fn wf(&self) -> bool {
        let b = self.buckets@;
        let book = slab_entries(self.address_book);
        &&& self.position < b.len()
        &&& self.tick_duration.nanos > 0
        &&& forall|x: int, i: int|
            0 <= x < b.len() && 0 <= i < b[x]@.len() ==> book.contains_key((#[trigger] b[x]@[i]).1.0)
                && book[b[x]@[i].1.0].0 == x && book[b[x]@[i].1.0].1 == i
        &&& forall|key: usize| #[trigger]
            book.contains_key(key) ==> book[key].0 < b.len() && book[key].1 < b[book[key].0 as int]@.len()
                && b[book[key].0 as int]@[book[key].1 as int].1.0 == key
    }

    /// Creates a new instance of `TimerWheel`.
    ///
    /// * `tick_duration`: what real-time duration does a single tick represent.
    /// * `max_schedule`: what is the maximum time event can be scheduled for.
    pub fn new(tick_duration: Duration, max_schedule: Duration) -> (r: Self)
        requires
            0 < tick_duration.nanos <= max_schedule.nanos,
            max_schedule.nanos / tick_duration.nanos <= usize::MAX / 2,
        ensures
            r.wf(),
            is_next_power_of_two(
                r.slots().len(),
                (max_schedule.nanos / tick_duration.nanos + 1) as nat,
            ),
            forall|d: int| 0 <= d < r.slots().len() ==> (#[trigger] r.slots()[d]).len() == 0,
            r.tick_nanos() == tick_duration.nanos,
    {
        Self::with_capacity(tick_duration, max_schedule, 4, 64)
    }

    /// Creates a new instance of `TimerWheel` with provided capacity.
    ///
    /// * `tick_duration`: what real-time duration does a single tick represent.
    /// * `max_schedule`: what is the maximum time event can be scheduled for.
    /// * `bucket_capacity`: wheel contains bucket for each tick, specifies the capacity for each bucket.
    /// * `address_book_capacity`: `address_book` allows revoking scheduled items using a [TimerKey], therefore contains a key for each event;
    ///   specifies its capacity.
    pub fn with_capacity(
        tick_duration: Duration,
        max_schedule: Duration,
        bucket_capacity: usize,
        address_book_capacity: usize,
    ) -> (r: Self)
        requires
            0 < tick_duration.nanos <= max_schedule.nanos,
            max_schedule.nanos / tick_duration.nanos <= usize::MAX / 2,
            address_book_capacity <= isize::MAX / 64,
        ensures
            r.wf(),
            is_next_power_of_two(
                r.slots().len(),
                (max_schedule.nanos / tick_duration.nanos + 1) as nat,
            ),
            forall|d: int| 0 <= d < r.slots().len() ==> (#[trigger] r.slots()[d]).len() == 0,
            r.tick_nanos() == tick_duration.nanos,
    {
        let total_ticks: usize = next_power_of_two(
            (max_schedule.nanos / tick_duration.nanos) as usize + 1,
        );
        let mut buckets: Vec<Vec<(T, TimerKey)>> = Vec::new();
        while buckets.len() < total_ticks
            invariant
                buckets@.len() <= total_ticks,
                forall|x: int| 0 <= x < buckets@.len() ==> (#[trigger] buckets@[x])@.len() == 0,
            decreases total_ticks - buckets.len(),
        {
            buckets.push(Vec::with_capacity(bucket_capacity));
        }
        Self {
            buckets,
            address_book: slab_with_capacity(address_book_capacity),
            position: 0,
            tick_duration,
        }
    }

    /// Schedules next event.
    ///
    /// * `event`: event to schedule.
    /// * `duration_ticks` duration in tick, may be zero.
    ///
    /// The wheel has a slot for each tick of its longest schedule, and no more.
    pub fn schedule(&mut self, event: T, duration_ticks: usize) -> (r: TimerKey)
        requires
            old(self).wf(),
            duration_ticks < old(self).slots().len(),
        ensures
            final(self).wf(),
            !is_scheduled(old(self).slots(), r),
            final(self).slots() == old(self).slots().update(
                duration_ticks as int,
                old(self).slots()[duration_ticks as int].push((event, r)),
            ),
            final(self).tick_nanos() == old(self).tick_nanos(),
    {
        let bucket_index: usize = self.index_of(duration_ticks);
        let bucket_element_index: usize = self.buckets[bucket_index].len();
        let location_index: usize = slab_insert(
            &mut self.address_book,
            (bucket_index, bucket_element_index),
        );
        let timer_key = TimerKey(location_index);
        self.buckets[bucket_index].push((event, timer_key));
        proof {
            let s = old(self).slots();
            assert(self.slots() =~= s.update(
                duration_ticks as int,
                s[duration_ticks as int].push((event, timer_key)),
            ));
            assert forall|d: int, i: int|
                0 <= d < s.len() && 0 <= i < s[d].len() implies (#[trigger] s[d][i]).1 != timer_key by {
                assert(old(self).buckets@[old(self).index(d)]@[i].1 == s[d][i].1);
            }
        }
        timer_key
    }

    /// The tick on which an event may fire that must not fire sooner than `nanos` from now:
    /// `nanos` in ticks, rounded towards positive infinity.
    pub open spec fn ticks_for(&self, nanos: nat) -> nat {
        (if nanos % self.tick_nanos() == 0 {
            nanos / self.tick_nanos()
        } else {
            nanos / self.tick_nanos() + 1
        }) as nat
    }

    /// Schedules next event, using real-time `Instant` instead of ticks.
    ///
    /// If it is impossible to precisely convert duration of `at - now` to ticks,
    /// it will be rounded towards positive infinity.
    ///
    /// Therefore, event won't be available sooner than `Instant`.
    ///
    /// See: [`schedule`](Self::schedule).
    pub fn schedule_at(&mut self, event: T, now: Instant, at: Instant) -> (r: TimerKey)
        requires
            old(self).wf(),
            old(self).ticks_for(at.since(now)) < old(self).slots().len(),
        ensures
            final(self).wf(),
            !is_scheduled(old(self).slots(), r),
            final(self).slots() == old(self).slots().update(
                old(self).ticks_for(at.since(now)) as int,
                old(self).slots()[old(self).ticks_for(at.since(now)) as int].push((event, r)),
            ),
            final(self).tick_nanos() == old(self).tick_nanos(),
    {
        let duration = at.saturating_duration_since(now);
        let whole: u128 = duration.nanos / self.tick_duration.nanos;
        let left: usize = self.buckets.len();
        assert(left == self.slots().len());
        let ticks: u128 = if duration.nanos % self.tick_duration.nanos == 0 {
            whole
        } else {
            whole + 1
        };
        self.schedule(event, ticks as usize)
    }

    /// Schedules next event, with `Instant` as a parameter instead of ticks,
    /// rounded towards positive infinity.
    ///
    /// See: [`schedule_at`](Self::schedule_at).
    pub fn schedule_instant_ceil(&mut self, event: T, now: Instant, at: Instant) -> (r: TimerKey)
        requires
            old(self).wf(),
            old(self).ticks_for(at.since(now)) < old(self).slots().len(),
        ensures
            final(self).wf(),
            !is_scheduled(old(self).slots(), r),
            final(self).slots() == old(self).slots().update(
                old(self).ticks_for(at.since(now)) as int,
                old(self).slots()[old(self).ticks_for(at.since(now)) as int].push((event, r)),
            ),
            final(self).tick_nanos() == old(self).tick_nanos(),
    {
        self.schedule_at(event, now, at)
    }

    /// Cancels a scheduled event with the specified key.
    pub fn cancel(&mut self, key: TimerKey)
        requires
            old(self).wf(),
        ensures
            final(self).wf(),
            !is_scheduled(old(self).slots(), key) ==> final(self).slots() == old(self).slots(),
            forall|d: int, i: int|
                0 <= d < old(self).slots().len() && 0 <= i < old(self).slots()[d].len() && (
                #[trigger] old(self).slots()[d][i]).1 == key ==> final(self).slots() == old(
                    self,
                ).slots().update(d, swap_removed(old(self).slots()[d], i)),
            !is_scheduled(final(self).slots(), key),
            final(self).tick_nanos() == old(self).tick_nanos(),
    {
        let ghost s = self.slots();
        let ghost b = self.buckets@;
        let ghost book = slab_entries(self.address_book);
        let location = slab_try_remove(&mut self.address_book, key.0);
        match location {
            None => {
                proof {
                    assert(self.slots() =~= s);
                    assert forall|d: int, i: int|
                        0 <= d < s.len() && 0 <= i < s[d].len() implies (#[trigger] s[d][i]).1 != key by {
                        assert(b[self.index(d)]@[i].1 == s[d][i].1);
                    }
                }
            },
            Some((bucket_index, index_to_remove)) => {
                self.buckets[bucket_index].swap_remove(index_to_remove);
                let ghost x = bucket_index as int;
                let ghost m = index_to_remove as int;
                if index_to_remove < self.buckets[bucket_index].len() {
                    // The entry that was the last one is now at `index_to_remove`.
                    let moved_timer_key = self.buckets[bucket_index][index_to_remove].1;
                    proof {
                        assert(b[x]@[b[x]@.len() - 1].1 == moved_timer_key);
                    }
                    let place = slab_get_mut(&mut self.address_book, moved_timer_key.0);
                    match place {
                        Some(moved_location) => {
                            moved_location.1 = index_to_remove;
                        },
                        None => {},
                    }
                }
                proof {
                    let c = self.buckets@;
                    let nb = slab_entries(self.address_book);
                    assert(c =~= b.update(x, c[x]));
                    assert(c[x]@ == swap_removed(b[x]@, m));
                    assert(b[x]@[m].1 == key);
                    assert forall|y: int, i: int|
                        0 <= y < c.len() && 0 <= i < c[y]@.len() implies nb.contains_key(
                        (#[trigger] c[y]@[i]).1.0,
                    ) && nb[c[y]@[i].1.0].0 == y && nb[c[y]@[i].1.0].1 == i by {
                        if y == x && i == m {
                            let last = b[x]@.len() - 1;
                            assert(c[y]@[i] == b[x]@[last]);
                            assert(book.contains_key(b[x]@[last].1.0));
                            assert(book[b[x]@[last].1.0].0 == x && book[b[x]@[last].1.0].1 == last);
                        } else {
                            assert(c[y]@[i] == b[y]@[i]);
                            assert(book[b[y]@[i].1.0].0 == y && book[b[y]@[i].1.0].1 == i);
                        }
                    }
                    assert forall|k: usize| #[trigger] nb.contains_key(k) implies nb[k].0 < c.len()
                        && nb[k].1 < c[nb[k].0 as int]@.len()
                        && c[nb[k].0 as int]@[nb[k].1 as int].1.0 == k by {
                        assert(book.contains_key(k) && k != key.0);
                        let y = book[k].0 as int;
                        let i = book[k].1 as int;
                        assert(b[y]@[i].1.0 == k);
                    }
                    assert forall|d: int, i: int|
                        0 <= d < s.len() && 0 <= i < s[d].len() && (#[trigger] s[d][i]).1
                            == key implies self.slots() == s.update(d, swap_removed(s[d], i)) by {
                        assert(b[self.index(d)]@[i].1.0 == key.0);
                        assert(self.index(d) == x && i == m);
                        assert(self.slots() =~= s.update(d, swap_removed(s[d], i)));
                    }
                    assert forall|d: int, i: int|
                        0 <= d < s.len() && 0 <= i < self.slots()[d].len() implies (
                    #[trigger] self.slots()[d][i]).1 != key by {
                        assert(c[self.index(d)]@[i].1.0 != key.0);
                    }
                    let dx = if x >= self.position {
                        x - self.position
                    } else {
                        x + b.len() - self.position
                    };
                    assert(self.index(dx) == x);
                    assert(s[dx][m].1 == key);
                }
            },
        }
    }

    /// Ticks, writing all fired events into `&mut out` vector.
    ///
    /// Returns number of fired events.
    pub fn tick(&mut self, out: &mut Vec<T>) -> (r: usize)
        requires
            old(self).wf(),
        ensures
            final(self).wf(),
            r == old(self).slots()[0].len(),
            final(out)@ == old(out)@ + events(old(self).slots()[0]),
            final(self).slots() == turned(old(self).slots()),
            final(self).tick_nanos() == old(self).tick_nanos(),
    {
        let ghost s = self.slots();
        let ghost b = self.buckets@;
        let p: usize = self.position;
        let ghost book = slab_entries(self.address_book);
        let mut bucket: Vec<(T, TimerKey)> = Vec::new();
        core::mem::swap(&mut self.buckets[p], &mut bucket);
        let fired_count: usize = bucket.len();
        let ghost f = bucket@;
        assert(f == b[p as int]@);
        assert(s[0] == f);

        for entry in iter: bucket
            invariant
                iter.seq() == f,
                self.buckets@ == b.update(p as int, self.buckets@[p as int]),
                self.buckets@[p as int]@.len() == 0,
                p < b.len(),
                self.position == p,
                self.tick_duration == old(self).tick_duration,
                out@ == old(out)@ + events(f.take(iter.index() as int)),
                forall|k: usize| #[trigger]
                    slab_entries(self.address_book).contains_key(k) <==> book.contains_key(k) && !(exists|
                        i: int,
                    |
                        0 <= i < iter.index() && (#[trigger] f[i]).1.0 == k),
                forall|k: usize| #[trigger]
                    slab_entries(self.address_book).contains_key(k) ==> slab_entries(self.address_book)[k]
                        == book[k],
        {
            let (event, key) = entry;
            out.push(event);
            let _ = slab_try_remove(&mut self.address_book, key.0);
            proof {
                let n = iter.index() as int;
                assert(f.take(n + 1) =~= f.take(n).push(f[n]));
                assert(events(f.take(n + 1)) =~= events(f.take(n)).push(f[n].0));
                assert(out@ =~= old(out)@ + events(f.take(n + 1)));
            }
        }
        assert(f.take(f.len() as int) =~= f);
        proof {
            let c = self.buckets@;
            let nb = slab_entries(self.address_book);
            assert forall|y: int, i: int|
                0 <= y < c.len() && 0 <= i < c[y]@.len() implies nb.contains_key(
                (#[trigger] c[y]@[i]).1.0,
            ) && nb[c[y]@[i].1.0].0 == y && nb[c[y]@[i].1.0].1 == i by {
                assert(y != p);
                assert(c[y]@[i] == b[y]@[i]);
                assert(book[b[y]@[i].1.0].0 == y && book[b[y]@[i].1.0].1 == i);
                assert forall|j: int| 0 <= j < f.len() implies (#[trigger] f[j]).1.0 != b[y]@[i].1.0 by {
                    assert(b[p as int]@[j] == f[j]);
                    assert(book[b[p as int]@[j].1.0].0 == p);
                }
                let k = b[y]@[i].1.0;
                assert(book.contains_key(k));
                assert(nb.contains_key(k));
                assert(nb[k] == book[k]);
            }
            assert forall|k: usize| #[trigger] nb.contains_key(k) implies nb[k].0 < c.len()
                && nb[k].1 < c[nb[k].0 as int]@.len() && c[nb[k].0 as int]@[nb[k].1 as int].1.0 == k by {
                assert(book.contains_key(k));
                let y = book[k].0 as int;
                let i = book[k].1 as int;
                assert(b[y]@[i].1.0 == k);
                if y == p {
                    assert(f[i].1.0 == k);
                }
            }
        }
        if self.position == self.buckets.len() - 1 {
            self.position = 0;
        } else {
            self.position = self.position + 1;
        }
        proof {
            let n = b.len();
            assert(self.buckets@[p as int]@ =~= Seq::empty());
            assert forall|d: int| 0 <= d < n implies self.slots()[d] == turned(s)[d] by {
                if d < n - 1 {
                    assert(self.index(d) == old(self).index(d + 1));
                    assert(s[d + 1] == b[old(self).index(d + 1)]@);
                } else {
                    assert(self.index(d) == p);
                }
            }
            assert(self.slots() =~= turned(s));
        }
        fired_count
    }

    /// The whole ticks that have passed from `next_tick_at` to `now`.
    pub open spec fn ticks_behind(&self, now: Instant, next_tick_at: Instant) -> nat {
        (now.since(next_tick_at) / self.tick_nanos()) as nat
    }

    /// Processes all previous ticks, if `next_tick_at` is behind `now`.
    ///
    /// Updates `next_tick_at` with an up-to-date value,
    /// and returns number of total fired events.
    pub fn catch_up(&mut self, out: &mut Vec<T>, now: Instant, next_tick_at: &mut Instant) -> (r:
        usize)
        requires
            old(self).wf(),
        ensures
            final(self).wf(),
            final(self).slots() == turned_times(
                old(self).slots(),
                old(self).ticks_behind(now, *old(next_tick_at)),
            ),
            final(out)@ == old(out)@ + fired(
                old(self).slots(),
                old(self).ticks_behind(now, *old(next_tick_at)),
            ),
            r == fired(old(self).slots(), old(self).ticks_behind(now, *old(next_tick_at))).len(),
            final(next_tick_at).nanos == old(next_tick_at).nanos + old(self).ticks_behind(
                now,
                *old(next_tick_at),
            ) * old(self).tick_nanos(),
            final(self).tick_nanos() == old(self).tick_nanos(),
    {
        let before: usize = out.len();
        let tick: u128 = self.tick_duration.nanos;
        let behind: u128 = now.saturating_duration_since(*next_tick_at).nanos;
        let skipped_ticks: u128 = behind / tick;
        let ghost n = skipped_ticks as nat;
        let ghost s = self.slots();
        assert(n * tick <= behind) by (nonlinear_arith)
            requires
                n == behind / tick,
                tick > 0,
        ;
        let mut done: u128 = 0;
        assert(old(out)@ =~= old(out)@ + fired(s, 0));
        while done < skipped_ticks
            invariant
                self.wf(),
                done <= skipped_ticks,
                self.slots() == turned_times(s, done as nat),
                out@ == old(out)@ + fired(s, done as nat),
                self.tick_nanos() == old(self).tick_nanos(),
            decreases skipped_ticks - done,
        {
            let _ = self.tick(out);
            proof {
                lemma_turned_once_more(s, done as nat);
                assert(out@ =~= old(out)@ + fired(s, (done + 1) as nat));
            }
            done = done + 1;
        }
        assert(skipped_ticks * tick == n * tick);
        next_tick_at.nanos = next_tick_at.nanos + skipped_ticks * tick;
        out.len() - before
    }

    /// Makes the tick that `next_tick_at` stands for.
    ///
    /// Updates `next_tick_at` with the time of the tick that follows,
    /// and returns number of fired events.
    pub fn tick_on_time(&mut self, out: &mut Vec<T>, next_tick_at: &mut Instant) -> (r: usize)
        requires
            old(self).wf(),
            old(next_tick_at).nanos + old(self).tick_nanos() <= u128::MAX,
        ensures
            final(self).wf(),
            r == old(self).slots()[0].len(),
            final(out)@ == old(out)@ + events(old(self).slots()[0]),
            final(self).slots() == turned(old(self).slots()),
            final(next_tick_at).nanos == old(next_tick_at).nanos + old(self).tick_nanos(),
            final(self).tick_nanos() == old(self).tick_nanos(),
    {
        next_tick_at.nanos = next_tick_at.nanos + self.tick_duration.nanos;
        self.tick(out)
    }

    fn index_of(&self, ticks: usize) -> (r: usize)
        requires
            self.wf(),
            ticks < self.buckets@.len(),
        ensures
            r == self.index(ticks as int),
            r < self.buckets@.len(),
    {
        let left: usize = self.buckets.len() - self.position;
        if ticks < left {
            self.position + ticks
        } else {
            ticks - left
        }
    }
}

proof fn lemma_turned_once_more<T>(slots: Seq<Seq<(T, TimerKey)>>, n: nat)
    ensures
        turned_times(slots, n + 1) == turned(turned_times(slots, n)),
        fired(slots, n + 1) == fired(slots, n) + events(turned_times(slots, n)[0]),
    decreases n,
{
    if n == 0 {
        assert(turned_times(slots, 1) == turned_times(turned(slots), 0));
        assert(fired(turned(slots), 0) =~= Seq::<T>::empty());
        assert(fired(slots, 1) =~= fired(slots, 0) + events(slots[0]));
    } else {
        lemma_turned_once_more(turned(slots), (n - 1) as nat);
        assert(fired(slots, n + 1) =~= fired(slots, n) + events(turned_times(slots, n)[0]));
    }
}

/// After `n` ticks each event is `n` slots nearer to its tick; what was nearer than that has fired.
pub proof fn law_events_move_up<T>(slots: Seq<Seq<(T, TimerKey)>>, n: nat)
    requires
        slots.len() > 0,
    ensures
        turned_times(slots, n).len() == slots.len(),
        forall|d: int|
            0 <= d < slots.len() ==> (#[trigger] turned_times(slots, n)[d]) == if n + d
                < slots.len() {
                slots[n + d]
            } else {
                Seq::empty()
            },
    decreases n,
{
    if n > 0 {
        law_events_move_up(turned(slots), (n - 1) as nat);
        assert forall|d: int| 0 <= d < slots.len() implies (#[trigger] turned_times(slots, n)[d])
            == if n + d < slots.len() {
            slots[n + d]
        } else {
            Seq::empty()
        } by {
            if n - 1 + d < slots.len() - 1 {
                assert(turned(slots)[n - 1 + d] == slots[n + d]);
            }
        }
    }
}

/// An event scheduled for `d` ticks does not fire during the next `d` ticks,
/// and fires on the tick after them, once.
pub proof fn law_event_fires_on_its_tick<T>(
    slots: Seq<Seq<(T, TimerKey)>>,
    d: nat,
    event: T,
    key: TimerKey,
)
    requires
        d < slots.len(),
    ensures
        ({
            let scheduled = slots.update(d as int, slots[d as int].push((event, key)));
            &&& fired(scheduled, d) == fired(slots, d)
            &&& fired(scheduled, d + 1) == fired(slots, d + 1).push(event)
            &&& turned_times(scheduled, d + 1) == turned_times(slots, d + 1)
        }),
    decreases d,
{
    let scheduled = slots.update(d as int, slots[d as int].push((event, key)));
    if d == 0 {
        lemma_turned_once_more(slots, 0);
        lemma_turned_once_more(scheduled, 0);
        assert(turned(scheduled) =~= turned(slots));
        assert(events(scheduled[0]) =~= events(slots[0]).push(event));
        assert(fired(scheduled, 1) =~= fired(slots, 1).push(event));
    } else {
        let t = turned(slots);
        assert(t[d - 1] == slots[d as int]);
        assert(turned(scheduled) =~= t.update(d - 1, t[d - 1].push((event, key))));
        law_event_fires_on_its_tick(t, (d - 1) as nat, event, key);
        assert(fired(scheduled, d + 1) =~= fired(slots, d + 1).push(event));
    }
}

/// Cancelling an event right after it was scheduled leaves the wheel as it was.
pub proof fn law_cancel_undoes_schedule<T>(
    slots: Seq<Seq<(T, TimerKey)>>,
    d: nat,
    event: T,
    key: TimerKey,
)
    requires
        d < slots.len(),
    ensures
        ({
            let slot = slots[d as int];
            let scheduled = slots.update(d as int, slot.push((event, key)));
            scheduled.update(d as int, swap_removed(scheduled[d as int], slot.len() as int)) == slots
        }),
{
    let slot = slots[d as int];
    let scheduled = slots.update(d as int, slot.push((event, key)));
    assert(swap_removed(scheduled[d as int], slot.len() as int) =~= slot);
    assert(scheduled.update(d as int, slot) =~= slots);
}

/// A tick that rounds up: the event is not due sooner than asked, and less than a tick later.
pub proof fn law_event_is_not_early<T>(wheel: TimerWheel<T>, nanos: nat)
    requires
        wheel.wf(),
    ensures
        nanos <= wheel.ticks_for(nanos) * wheel.tick_nanos() < nanos + wheel.tick_nanos(),
{
    let t = wheel.tick_nanos();
    let q = nanos / t;
    vstd::arithmetic::div_mod::lemma_fundamental_div_mod(nanos as int, t as int);
    assert(t * q == q * t) by (nonlinear_arith);
    assert((q + 1) * t == q * t + t) by (nonlinear_arith);
}

/// The ticks that are behind are those that have passed as a whole: the next one is still to come,
/// and none is behind before its time.
pub proof fn law_only_whole_ticks_are_behind<T>(
    wheel: TimerWheel<T>,
    now: Instant,
    next_tick_at: Instant,
)
    requires
        wheel.wf(),
    ensures
        now.nanos <= next_tick_at.nanos ==> wheel.ticks_behind(now, next_tick_at) == 0,
        now.nanos >= next_tick_at.nanos ==> next_tick_at.nanos + wheel.ticks_behind(
            now,
            next_tick_at,
        ) * wheel.tick_nanos() <= now.nanos < next_tick_at.nanos + (wheel.ticks_behind(
            now,
            next_tick_at,
        ) + 1) * wheel.tick_nanos(),
{
    let t = wheel.tick_nanos();
    let span = now.since(next_tick_at);
    let q = span / t;
    vstd::arithmetic::div_mod::lemma_fundamental_div_mod(span as int, t as int);
    assert(t * q == q * t) by (nonlinear_arith);
    assert((q + 1) * t == q * t + t) by (nonlinear_arith);
    if span == 0 {
        vstd::arithmetic::div_mod::lemma_div_of0(t as int);
    }
}

/// An event that is cancelled is gone, and all others of its slot are still there.
pub proof fn law_cancelled_event_is_gone<A>(entries: Seq<A>, i: int, k: int)
    requires
        0 <= i < entries.len(),
        0 <= k < entries.len(),
    ensures
        swap_removed(entries, i).len() == entries.len() - 1,
        k != i ==> swap_removed(entries, i).contains(entries[k]),
        entries.no_duplicates() ==> !swap_removed(entries, i).contains(entries[i]),
{
    let rest = swap_removed(entries, i);
    if k != i {
        if k == entries.len() - 1 {
            assert(rest[i] == entries[k]);
        } else {
            assert(rest[k] == entries[k]);
        }
    }
}

/// A wheel has as many slots as were asked for, or less than twice as many.
pub proof fn law_power_of_two_is_the_next_one(p: nat, n: nat)
    requires
        is_next_power_of_two(p, n),
        n > 0,
    ensures
        n <= p < 2 * n,
        exists|k: nat| p == #[trigger] vstd::arithmetic::power2::pow2(k),
{
    let k = choose|k: nat|
        #![trigger vstd::arithmetic::power2::pow2(k)]
        p == vstd::arithmetic::power2::pow2(k) && n <= p && (k > 0
            ==> vstd::arithmetic::power2::pow2((k - 1) as nat) < n);
    if k > 0 {
        vstd::arithmetic::power2::lemma_pow2_unfold(k);
    } else {
        vstd::arithmetic::power2::lemma2_to64();
    }
}

/// The events of a slot fire in the order in which they were scheduled, and one slot fires
/// with each tick, beginning with the first one.
pub proof fn law_slots_fire_in_order<T>(slots: Seq<Seq<(T, TimerKey)>>, slot: Seq<(T, TimerKey)>, i: int)
    requires
        slots.len() > 0,
        0 <= i < slot.len(),
    ensures
        events(slot).len() == slot.len(),
        events(slot)[i] == slot[i].0,
        fired(slots, 1) == events(slots[0]),
        turned(slots).len() == slots.len(),
        turned(slots).last().len() == 0,
        turned(slots).drop_last() == slots.drop_first(),
{
    assert(fired(turned(slots), 0) =~= Seq::<T>::empty());
    assert(events(slots[0]) + Seq::<T>::empty() =~= events(slots[0]));
    assert(turned(slots).drop_last() =~= slots.drop_first());
    lemma_turned_once_more(slots, 0);
    assert(fired(slots, 0) + events(slots[0]) =~= events(slots[0]));
}

} // verus!

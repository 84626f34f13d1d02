use hashlink::LinkedHashSet;
use vstd::prelude::*;

verus! {

/// An outside hash set that keeps the order in which its items were inserted.
#[verifier::external_type_specification]
#[verifier::external_body]
#[verifier::reject_recursive_types(T)]
#[verifier::reject_recursive_types(S)]
pub struct ExLinkedHashSet<T, S>(hashlink::LinkedHashSet<T, S>);

/// An outside state of a hasher.
#[verifier::external_type_specification]
#[verifier::external_body]
pub struct ExRandomState(foldhash::fast::RandomState);

/// The items of a set, in order.
pub uninterp spec fn queue_items(queue: LinkedHashSet<u64, foldhash::fast::RandomState>) -> Seq<u64>;

/// `LinkedHashSet::with_hasher`: an empty set.
#[verifier::external_body]
fn queue_new() -> (r: LinkedHashSet<u64, foldhash::fast::RandomState>)
    ensures
        queue_items(r).len() == 0,
{
    LinkedHashSet::with_hasher(foldhash::fast::RandomState::default())
}

/// `LinkedHashSet::replace`: an item that is in the set keeps its place,
/// another one is appended.
#[verifier::external_body]
fn queue_replace(queue: &mut LinkedHashSet<u64, foldhash::fast::RandomState>, item: u64)
    ensures
        queue_items(*final(queue)) == if queue_items(*old(queue)).contains(item) {
            queue_items(*old(queue))
        } else {
            queue_items(*old(queue)).push(item)
        },
{
    queue.replace(item);
}

/// `LinkedHashSet::front`: the first item, `None` if the set is empty.
#[verifier::external_body]
fn queue_front(queue: &LinkedHashSet<u64, foldhash::fast::RandomState>) -> (r: Option<u64>)
    ensures
        r is Some <==> queue_items(*queue).len() > 0,
        r matches Some(item) ==> item == queue_items(*queue)[0],
{
    queue.front().copied()
}

/// `LinkedHashSet::pop_front`: takes out the first item, `None` if the set is empty.
#[verifier::external_body]
fn queue_pop_front(queue: &mut LinkedHashSet<u64, foldhash::fast::RandomState>) -> (r: Option<u64>)
    ensures
        r is Some <==> queue_items(*old(queue)).len() > 0,
        r matches Some(item) ==> item == queue_items(*old(queue))[0] && queue_items(*final(queue))
            == queue_items(*old(queue)).drop_first(),
        r is None ==> queue_items(*final(queue)) == queue_items(*old(queue)),
{
    queue.pop_front()
}

/// `LinkedHashSet::remove`: takes out the item, if it is in the set, and keeps the order of the
/// others.
#[verifier::external_body]
fn queue_remove(queue: &mut LinkedHashSet<u64, foldhash::fast::RandomState>, item: u64)
    ensures
        queue_items(*final(queue)) == without(queue_items(*old(queue)), item),
{
    queue.remove(&item);
}

/// `LinkedHashSet::len`: the number of items.
#[verifier::external_body]
fn queue_len(queue: &LinkedHashSet<u64, foldhash::fast::RandomState>) -> (r: usize)
    ensures
        r == queue_items(*queue).len(),
{
    queue.len()
}

/// Connections that wait to be polled, each of them once, in fair (FIFO) order.
pub struct ActiveQueue {
    keys: LinkedHashSet<u64, foldhash::fast::RandomState>,
}

impl View for ActiveQueue {
    type V = Seq<u64>;

    closed spec fn view(&self) -> Seq<u64> {
        queue_items(self.keys)
    }
}

/// `queue` with `key` in it: behind the others, if it was not in the queue before.
pub open spec fn enqueued(queue: Seq<u64>, key: u64) -> Seq<u64> {
    if queue.contains(key) {
        queue
    } else {
        queue.push(key)
    }
}

/// `queue` without `key`.
pub open spec fn without(queue: Seq<u64>, key: u64) -> Seq<u64> {
    queue.filter(|other: u64| other != key)
}

impl ActiveQueue {
    /// Creates an empty queue.
    pub fn new() -> (r: Self)
        ensures
            r@ == Seq::<u64>::empty(),
    {
        let r = Self { keys: queue_new() };
        assert(r@ =~= Seq::<u64>::empty());
        r
    }

    /// Appends a key. If it is in the queue already, it keeps its place.
    pub fn mark(&mut self, key: u64)
        ensures
            final(self)@ == enqueued(old(self)@, key),
    {
        queue_replace(&mut self.keys, key);
    }

    /// Returns the first key.
    pub fn front(&self) -> (r: Option<u64>)
        ensures
            r == if self@.len() > 0 {
                Some(self@[0])
            } else {
                None
            },
    {
        queue_front(&self.keys)
    }

    /// Removes the first key.
    pub fn next(&mut self)
        ensures
            final(self)@ == if old(self)@.len() > 0 {
                old(self)@.drop_first()
            } else {
                old(self)@
            },
    {
        let _ = queue_pop_front(&mut self.keys);
    }

    /// Removes a key.
    pub fn remove(&mut self, key: u64)
        ensures
            final(self)@ == without(old(self)@, key),
    {
        queue_remove(&mut self.keys, key);
    }

    /// Returns the number of keys.
    pub fn len(&self) -> (r: usize)
        ensures
            r == self@.len(),
    {
        queue_len(&self.keys)
    }
}

/// A key that is marked while it waits neither loses its place nor waits twice.
pub proof fn law_marking_twice_is_marking_once(queue: Seq<u64>, key: u64)
    ensures
        enqueued(enqueued(queue, key), key) == enqueued(queue, key),
        enqueued(queue, key).contains(key),
{
    if !queue.contains(key) {
        assert(queue.push(key).last() == key);
    }
}

/// Keys leave the queue in the order in which they were marked:
/// a key that is marked later does not come in front of those that wait.
pub proof fn law_queue_is_fair(queue: Seq<u64>, key: u64)
    ensures
        queue.is_prefix_of(enqueued(queue, key)),
{
}

/// No key waits twice, if none did before.
pub proof fn law_no_key_waits_twice(queue: Seq<u64>, key: u64)
    requires
        queue.no_duplicates(),
    ensures
        enqueued(queue, key).no_duplicates(),
        without(queue, key).no_duplicates(),
        !without(queue, key).contains(key),
    decreases queue.len(),
{
    reveal(Seq::filter);
    if queue.len() > 0 {
        law_no_key_waits_twice(queue.drop_last(), key);
        let rest = without(queue.drop_last(), key);
        assert forall|x: u64| rest.contains(x) implies queue.drop_last().contains(x) by {
            lemma_filter_contains(queue.drop_last(), key, x);
        }
        assert(!queue.drop_last().contains(queue.last()));
        assert(!rest.contains(queue.last()));
        if queue.last() != key {
            assert(without(queue, key) =~= rest.push(queue.last()));
        } else {
            assert(without(queue, key) =~= rest);
        }
    }
}

pub proof fn lemma_filter_contains(queue: Seq<u64>, key: u64, x: u64)
    ensures
        without(queue, key).contains(x) <==> queue.contains(x) && x != key,
    decreases queue.len(),
{
    reveal(Seq::filter);
    if queue.len() > 0 {
        let init = queue.drop_last();
        lemma_filter_contains(init, key, x);
        assert(queue =~= init.push(queue.last()));
        if queue.last() != key {
            let rest = without(init, key);
            assert(without(queue, key) =~= rest.push(queue.last()));
            if without(queue, key).contains(x) {
                let i = choose|i: int|
                    0 <= i < without(queue, key).len() && without(queue, key)[i] == x;
                if i < rest.len() {
                    assert(rest[i] == x);
                }
            }
            if rest.contains(x) {
                let i = choose|i: int| 0 <= i < rest.len() && rest[i] == x;
                assert(without(queue, key)[i] == x);
            }
            if x == queue.last() {
                assert(without(queue, key)[rest.len() as int] == x);
                assert(queue[queue.len() - 1] == x);
            }
        }
        if init.contains(x) {
            let i = choose|i: int| 0 <= i < init.len() && init[i] == x;
            assert(queue[i] == x);
        }
        if queue.contains(x) {
            let i = choose|i: int| 0 <= i < queue.len() && queue[i] == x;
            if i < init.len() {
                assert(init[i] == x);
            }
        }
    }
}

/// Nothing but the key itself is added to the queue, and it is added once.
pub proof fn law_only_the_marked_key_is_added(queue: Seq<u64>, key: u64)
    ensures
        queue.contains(key) ==> enqueued(queue, key) == queue,
        !queue.contains(key) ==> {
            &&& enqueued(queue, key).len() == queue.len() + 1
            &&& enqueued(queue, key).last() == key
            &&& enqueued(queue, key).drop_last() == queue
        },
{
    assert(queue.push(key).drop_last() =~= queue);
}

/// A key that is removed leaves the others as they are, in their order.
pub proof fn law_removed_key_leaves_the_others(queue: Seq<u64>, last: u64, key: u64)
    ensures
        without(Seq::empty(), key).len() == 0,
        last == key ==> without(queue.push(last), key) == without(queue, key),
        last != key ==> without(queue.push(last), key) == without(queue, key).push(last),
{
    reveal(Seq::filter);
    assert(queue.push(last).drop_last() =~= queue);
}

} // verus!

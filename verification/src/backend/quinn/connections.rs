use crate::backend::quinn::connection::{Connection, Context, QuinnConnectionId};
use crate::backend::util::queue;
use crate::backend::util::ActiveQueue;
use crate::util::trace::Trace;
use quinn_proto::Connection as QuinnConnection;
use vstd::prelude::*;

verus! {

/// Connections, by their keys.
pub struct ConnectionsMap(Vec<Option<Connection>>);

impl View for ConnectionsMap {
    type V = Map<usize, Connection>;

    closed spec fn view(&self) -> Map<usize, Connection> {
        in_slots(self.0@)
    }
}

/// The connections that stand in slots.
spec fn in_slots(slots: Seq<Option<Connection>>) -> Map<usize, Connection> {
    Map::new(
        |key: usize| key < slots.len() && slots[key as int] is Some,
        |key: usize| slots[key as int]->0,
    )
}

proof fn lemma_slots_update(slots: Seq<Option<Connection>>, key: usize, connection: Connection)
    requires
        key < slots.len(),
    ensures
        in_slots(slots.update(key as int, Some(connection))) == in_slots(slots).insert(
            key,
            connection,
        ),
{
    assert(in_slots(slots.update(key as int, Some(connection))) =~= in_slots(slots).insert(
        key,
        connection,
    ));
}

impl ConnectionsMap {
    /// Creates a map without connections.
    pub fn new() -> (r: Self)
        ensures
            r@ == Map::<usize, Connection>::empty(),
    {
        let r = Self(Vec::new());
        assert(r@ =~= Map::<usize, Connection>::empty());
        r
    }

    /// Inserts a connection.
    pub fn insert(&mut self, key: usize, connection: Connection)
        requires
            key < usize::MAX,
        ensures
            final(self)@ == old(self)@.insert(key, connection),
    {
        while self.0.len() <= key
            invariant
                key < usize::MAX,
                self@ == old(self)@,
            decreases key + 1 - self.0@.len(),
        {
            let ghost before = self.0@;
            self.0.push(None);
            assert(self@ =~= old(self)@) by {
                assert forall|k: usize| self@.contains_key(k) == old(self)@.contains_key(k) by {
                    if k < before.len() {
                        assert(self.0@[k as int] == before[k as int]);
                    }
                }
            }
        }
        self.0.set(key, Some(connection));
        assert(self@ =~= old(self)@.insert(key, connection));
    }

    /// Returns a connection.
    pub fn get(&self, key: usize) -> (r: Option<&Connection>)
        ensures
            match r {
                Some(connection) => self@.contains_key(key) && *connection == self@[key],
                None => !self@.contains_key(key),
            },
    {
        if key >= self.0.len() {
            return None;
        }
        match &self.0[key] {
            Some(connection) => Some(connection),
            None => None,
        }
    }

    /// Returns a mutable connection.
    pub fn get_mut(&mut self, key: usize) -> (r: Option<&mut Connection>)
        ensures
            match r {
                Some(connection) => {
                    &&& old(self)@.contains_key(key)
                    &&& *connection == old(self)@[key]
                    &&& final(self)@ == old(self)@.insert(key, *final(connection))
                },
                None => !old(self)@.contains_key(key) && final(self)@ == old(self)@,
            },
    {
        if key >= self.0.len() {
            return None;
        }
        let ghost before = self.0@;
        match &mut self.0[key] {
            Some(connection) => {
                proof {
                    lemma_slots_update(before, key, *final(connection));
                }
                Some(connection)
            },
            None => None,
        }
    }

    /// Returns `true` if there is a connection with the key.
    pub fn contains_key(&self, key: usize) -> (r: bool)
        ensures
            r == self@.contains_key(key),
    {
        self.get(key).is_some()
    }

    /// Takes out a connection.
    pub fn remove(&mut self, key: usize) -> (r: Option<Connection>)
        ensures
            final(self)@ == old(self)@.remove(key),
            match r {
                Some(connection) => old(self)@.contains_key(key) && connection == old(self)@[key],
                None => !old(self)@.contains_key(key),
            },
    {
        if key >= self.0.len() {
            assert(self@ =~= old(self)@.remove(key));
            return None;
        }
        let mut taken: Option<Connection> = None;
        core::mem::swap(&mut taken, &mut self.0[key]);
        assert(self@ =~= old(self)@.remove(key));
        taken
    }

    /// Returns the keys of all connections, in ascending order.
    pub fn keys(&self) -> (r: Vec<usize>)
        ensures
            forall|i: int, j: int| 0 <= i < j < r@.len() ==> r@[i] < r@[j],
            forall|key: usize| r@.contains(key) <==> self@.contains_key(key),
    {
        let mut keys: Vec<usize> = Vec::new();
        let mut key: usize = 0;
        while key < self.0.len()
            invariant
                key <= self.0@.len(),
                forall|i: int| 0 <= i < keys@.len() ==> (#[trigger] keys@[i]) < key
                    && self@.contains_key(keys@[i]),
                forall|i: int, j: int| 0 <= i < j < keys@.len() ==> keys@[i] < keys@[j],
                forall|k: usize| k < key && self@.contains_key(k) ==> #[trigger] keys@.contains(k),
            decreases self.0@.len() - key,
        {
            let ghost before = keys@;
            if self.0[key].is_some() {
                keys.push(key);
                proof {
                    assert forall|k: usize| k <= key && self@.contains_key(k) implies
                        #[trigger] keys@.contains(k) by {
                        if k == key {
                            assert(keys@[before.len() as int] == key);
                        } else {
                            assert(before.contains(k));
                            let i = choose|i: int| 0 <= i < before.len() && before[i] == k;
                            assert(keys@[i] == k);
                        }
                    }
                }
            }
            key = key + 1;
        }
        keys
    }
}

/// What is known of all connections.
#[verifier::ext_equal]
pub struct ConnectionsModel {
    /// All connections, by key.
    pub all: Map<usize, Connection>,
    /// The keys of connections that wait to be polled.
    pub active: Seq<u64>,
    /// The version of the next connection.
    pub version_sequence: u32,
}

impl ConnectionsModel {
    /// The connection that the ID was made for is present.
    pub open spec fn has(self, id: QuinnConnectionId) -> bool {
        self.all.contains_key(id.key) && self.all[id.key].context.version == id.version
    }

    /// The connection waits to be polled.
    pub open spec fn marked(self, key: usize) -> ConnectionsModel {
        ConnectionsModel { active: queue::enqueued(self.active, key as u64), ..self }
    }

    /// A connection is changed.
    pub open spec fn with(self, key: usize, connection: Connection) -> ConnectionsModel {
        ConnectionsModel { all: self.all.insert(key, connection), ..self }
    }

    /// The connection is forgotten.
    pub open spec fn removed(self, key: usize) -> ConnectionsModel {
        ConnectionsModel {
            all: self.all.remove(key),
            active: if self.all.contains_key(key) {
                queue::without(self.active, key as u64)
            } else {
                self.active
            },
            ..self
        }
    }

    /// A new connection takes the place of another one, if there is one, and waits to be polled.
    pub open spec fn inserted(
        self,
        key: usize,
        trace: Trace,
        inner: QuinnConnection,
    ) -> ConnectionsModel {
        let gone = self.removed(key);
        ConnectionsModel {
            all: gone.all.insert(
                key,
                Connection { inner, context: Context::fresh(trace, self.version_sequence) },
            ),
            active: queue::enqueued(gone.active, key as u64),
            version_sequence: if self.version_sequence == u32::MAX {
                0
            } else {
                (self.version_sequence + 1) as u32
            },
        }
    }

    /// Connections that wait are present, and none waits twice.
    pub open spec fn wf(self) -> bool {
        &&& self.active.no_duplicates()
        &&& forall|i: int|
            0 <= i < self.active.len() ==> (#[trigger] self.active[i]) <= usize::MAX
                && self.all.contains_key(self.active[i] as usize)
    }
}

/// All connections marked as active, in the order of their keys.
pub open spec fn all_marked(m: ConnectionsModel, keys: Seq<usize>) -> ConnectionsModel
    decreases keys.len(),
{
    if keys.len() == 0 {
        m
    } else {
        all_marked(m, keys.drop_last()).marked(keys.last())
    }
}

/// All connections of the backend.
pub struct Connections {
    /// All active connections.
    ///
    /// **Note**: To avoid ABA bugs, compare `QuinnConnectionId.version` with a `Context.version`.
    all: ConnectionsMap,
    /// Modified `all` connections that wait to be polled.
    active: ActiveQueue,
    /// Version sequence for `QuinnConnectionId.version`.
    version_sequence: u32,
}

impl View for Connections {
    type V = ConnectionsModel;

    closed spec fn view(&self) -> ConnectionsModel {
        ConnectionsModel {
            all: self.all@,
            active: self.active@,
            version_sequence: self.version_sequence,
        }
    }
}

impl Connections {
    /// Connections that wait are present, and none waits twice.
    pub open spec fn wf(&self) -> bool {
        self@.wf()
    }

    /// Creates a container without connections.
    pub fn new() -> (r: Self)
        ensures
            r.wf(),
            r@ == (ConnectionsModel {
                all: Map::empty(),
                active: Seq::empty(),
                version_sequence: 0,
            }),
    {
        Self { all: ConnectionsMap::new(), active: ActiveQueue::new(), version_sequence: 0 }
    }

    /// Inserts a new connection and marks it as active.
    ///
    /// **Warning**: This is a low-level method, that doesn't check for ABA bugs.
    pub fn insert_raw(&mut self, connection_key: usize, connection: QuinnConnection) -> (r:
        QuinnConnectionId)
        requires
            old(self).wf(),
            connection_key < usize::MAX,
        ensures
            final(self).wf(),
            r.key == connection_key,
            r.version == old(self)@.version_sequence,
            final(self)@ == old(self)@.inserted(connection_key, r.trace, connection),
            final(self)@.has(r),
    {
        let trace = Trace::random();
        let version: u32 = self.version_sequence;
        self.version_sequence = if version == u32::MAX {
            0
        } else {
            version + 1
        };
        let ghost bumped = self@;
        let _ = self.remove_raw(connection_key);
        let connection = Connection::new(connection, trace, version);
        proof {
            queue::law_no_key_waits_twice(self.active@, connection_key as u64);
        }
        let ghost gone = self@;
        self.all.insert(connection_key, connection);
        self.active.mark(connection_key as u64);
        proof {
            lemma_marked(gone.with(connection_key, connection), connection_key);
        }
        QuinnConnectionId { key: connection_key, trace, version }
    }

    /// Returns an immutable connection.
    pub fn get(&self, id: QuinnConnectionId) -> (r: Option<&Connection>)
        ensures
            r is Some <==> self@.has(id),
            r matches Some(connection) ==> *connection == self@.all[id.key],
    {
        match self.all.get(id.key) {
            Some(connection) => if connection.context.version == id.version {
                Some(connection)
            } else {
                None
            },
            None => None,
        }
    }

    /// Returns a mutable connection.
    pub fn get_mut(&mut self, id: QuinnConnectionId) -> (r: Option<&mut Connection>)
        requires
            old(self).wf(),
        ensures
            match r {
                Some(connection) => {
                    &&& old(self)@.has(id)
                    &&& *connection == old(self)@.all[id.key]
                    &&& final(self)@ == old(self)@.with(id.key, *final(connection))
                },
                None => !old(self)@.has(id) && final(self)@ == old(self)@,
            },
            final(self).wf(),
    {
        let Some(connection) = self.get(id) else {
            return None;
        };
        self.get_mut_raw(id.key)
    }

    /// Returns a mutable connection.
    fn get_mut_raw(&mut self, key: usize) -> (r: Option<&mut Connection>)
        requires
            old(self).wf(),
        ensures
            match r {
                Some(connection) => {
                    &&& old(self)@.all.contains_key(key)
                    &&& *connection == old(self)@.all[key]
                    &&& final(self)@ == old(self)@.with(key, *final(connection))
                },
                None => !old(self)@.all.contains_key(key) && final(self)@ == old(self)@,
            },
            final(self).wf(),
    {
        self.all.get_mut(key)
    }

    /// Returns a mutable connection and marks it as active, to be polled later.
    ///
    /// If connection is already marked as active, it's no-op.
    /// Otherwise, it will be put in the back of the awaiting queue.
    pub fn get_mark_active(&mut self, id: QuinnConnectionId) -> (r: Option<&mut Connection>)
        requires
            old(self).wf(),
        ensures
            match r {
                Some(connection) => {
                    &&& old(self)@.has(id)
                    &&& *connection == old(self)@.all[id.key]
                    &&& final(self)@ == old(self)@.marked(id.key).with(
                        id.key,
                        *final(connection),
                    )
                },
                None => !old(self)@.has(id) && final(self)@ == old(self)@,
            },
            final(self).wf(),
    {
        if self.get(id).is_none() {
            return None;
        }
        self.get_mark_active_raw(id.key)
    }

    /// Returns a mutable connection and marks it as active, to be polled later.
    ///
    /// If connection is already marked as active, it's no-op.
    /// Otherwise, it will be put in the back of the awaiting queue.
    ///
    /// **Warning**: This is a low-level method, that doesn't check for ABA bugs.
    pub fn get_mark_active_raw(&mut self, key: usize) -> (r: Option<&mut Connection>)
        requires
            old(self).wf(),
        ensures
            match r {
                Some(connection) => {
                    &&& old(self)@.all.contains_key(key)
                    &&& *connection == old(self)@.all[key]
                    &&& final(self)@ == old(self)@.marked(key).with(key, *final(connection))
                },
                None => !old(self)@.all.contains_key(key) && final(self)@ == old(self)@,
            },
            final(self).wf(),
    {
        if !self.all.contains_key(key) {
            return None;
        }
        proof {
            lemma_marked(self@, key);
        }
        self.active.mark(key as u64);
        self.get_mut_raw(key)
    }

    /// Returns a mutable connection if it satisfies a filter, and marks it as active.
    ///
    /// If connection is already marked as active, it's no-op.
    /// Otherwise, it will be put in the back of the awaiting queue.
    ///
    /// * `is_satisfied`: the connection satisfies the filter.
    pub fn get_mark_active_if(&mut self, id: QuinnConnectionId, is_satisfied: bool) -> (r: Option<
        &mut Connection,
    >)
        requires
            old(self).wf(),
        ensures
            match r {
                Some(connection) => {
                    &&& is_satisfied
                    &&& old(self)@.has(id)
                    &&& *connection == old(self)@.all[id.key]
                    &&& final(self)@ == old(self)@.marked(id.key).with(
                        id.key,
                        *final(connection),
                    )
                },
                None => !(is_satisfied && old(self)@.has(id)) && final(self)@ == old(self)@,
            },
            final(self).wf(),
    {
        if !is_satisfied {
            return None;
        }
        self.get_mark_active(id)
    }

    /// Marks all present connections as active, in the order of their keys.
    ///
    /// Returns their IDs.
    pub fn all_iter_mark_active(&mut self) -> (r: Vec<QuinnConnectionId>)
        requires
            old(self).wf(),
        ensures
            final(self).wf(),
            forall|key: usize|
                old(self)@.all.contains_key(key) <==> exists|i: int|
                    0 <= i < r@.len() && (#[trigger] r@[i]).key == key,
            forall|i: int|
                0 <= i < r@.len() ==> (#[trigger] r@[i]) == old(self)@.all[r@[i].key].context.spec_id(
                    r@[i].key,
                ),
            forall|i: int, j: int| 0 <= i < j < r@.len() ==> r@[i].key < r@[j].key,
            final(self)@ == all_marked(old(self)@, r@.map_values(|id: QuinnConnectionId| id.key)),
    {
        let keys = self.all.keys();
        let mut ids: Vec<QuinnConnectionId> = Vec::new();
        let mut i: usize = 0;
        assert(keys@.take(0) =~= Seq::<usize>::empty());
        while i < keys.len()
            invariant
                self.wf(),
                i <= keys@.len(),
                forall|key: usize| keys@.contains(key) <==> old(self)@.all.contains_key(key),
                ids@.len() == i,
                ids@.map_values(|id: QuinnConnectionId| id.key) == keys@.take(i as int),
                forall|k: int|
                    0 <= k < i ==> (#[trigger] ids@[k]).key == keys@[k] && ids@[k]
                        == old(self)@.all[keys@[k]].context.spec_id(keys@[k]),
                self@ == all_marked(old(self)@, keys@.take(i as int)),
                self@.all == old(self)@.all,
            decreases keys@.len() - i,
        {
            let key: usize = keys[i];
            assert(keys@.contains(key));
            proof {
                lemma_marked(self@, key);
                assert(keys@.take(i + 1).drop_last() =~= keys@.take(i as int));
            }
            let ghost before = ids@;
            match self.all.get(key) {
                Some(connection) => {
                    ids.push(connection.id(key));
                },
                None => {},
            }
            self.active.mark(key as u64);
            assert(ids@.map_values(|id: QuinnConnectionId| id.key) =~= keys@.take(i + 1));
            i = i + 1;
        }
        assert(keys@.take(i as int) =~= keys@);
        proof {
            assert forall|key: usize| old(self)@.all.contains_key(key) implies exists|k: int|
                0 <= k < ids@.len() && (#[trigger] ids@[k]).key == key by {
                assert(keys@.contains(key));
                let k = choose|k: int| 0 <= k < keys@.len() && keys@[k] == key;
                assert(ids@[k].key == key);
            }
            assert forall|k: int| 0 <= k < ids@.len() implies old(self)@.all.contains_key(
                (#[trigger] ids@[k]).key,
            ) by {
                assert(keys@.contains(keys@[k]));
            }
        }
        ids
    }

    /// Returns the ID of an active connection.
    ///
    /// This method will return the same connection, until [`next_active`](Self::next_active) is called.
    ///
    /// Connections are iterated in fair, FIFO order.
    pub fn peek_active(&self) -> (r: Option<QuinnConnectionId>)
        requires
            self.wf(),
        ensures
            r is Some <==> self@.active.len() > 0,
            r matches Some(id) ==> self@.has(id) && id.key == self@.active[0] && id
                == self@.all[id.key].context.spec_id(id.key),
    {
        let Some(connection_key) = self.active.front() else {
            return None;
        };
        assert(self@.all.contains_key(self@.active[0] as usize));
        match self.all.get(connection_key as usize) {
            Some(connection) => Some(connection.id(connection_key as usize)),
            None => None,
        }
    }

    /// Removes an `active` mark from the last [`peeked`](Self::peek_active) connection
    /// by removing it from the queue, and moves the cursor to the next one.
    pub fn next_active(&mut self)
        requires
            old(self).wf(),
        ensures
            final(self).wf(),
            final(self)@ == (ConnectionsModel {
                active: if old(self)@.active.len() > 0 {
                    old(self)@.active.drop_first()
                } else {
                    old(self)@.active
                },
                ..old(self)@
            }),
    {
        self.active.next();
        assert forall|i: int| 0 <= i < self@.active.len() implies (#[trigger] self@.active[i])
            <= usize::MAX && self@.all.contains_key(self@.active[i] as usize) by {
            if old(self)@.active.len() > 0 {
                assert(self@.active[i] == old(self)@.active[i + 1]);
            }
        }
    }

    /// Forgets a connection associated with the specified `id`.
    pub fn remove(&mut self, id: QuinnConnectionId) -> (r: Option<Connection>)
        requires
            old(self).wf(),
        ensures
            final(self).wf(),
            match r {
                Some(connection) => {
                    &&& old(self)@.has(id)
                    &&& connection == old(self)@.all[id.key]
                    &&& final(self)@ == old(self)@.removed(id.key)
                },
                None => !old(self)@.has(id) && final(self)@ == old(self)@,
            },
    {
        if self.get(id).is_none() {
            return None;
        }
        self.remove_raw(id.key)
    }

    /// Forgets a connection associated with the specified `key`.
    ///
    /// **Warning**: This is a low-level method, that doesn't check for ABA bugs.
    pub fn remove_raw(&mut self, connection_key: usize) -> (r: Option<Connection>)
        requires
            old(self).wf(),
        ensures
            final(self).wf(),
            final(self)@ == old(self)@.removed(connection_key),
            match r {
                Some(connection) => old(self)@.all.contains_key(connection_key)
                    && connection == old(self)@.all[connection_key],
                None => !old(self)@.all.contains_key(connection_key),
            },
    {
        let Some(connection) = self.all.remove(connection_key) else {
            assert(self@ =~= old(self)@.removed(connection_key));
            return None;
        };
        self.active.remove(connection_key as u64);
        proof {
            assert(self@.all =~= old(self)@.all.remove(connection_key));
            queue::law_no_key_waits_twice(old(self)@.active, connection_key as u64);
            assert forall|i: int| 0 <= i < self@.active.len() implies (#[trigger] self@.active[i])
                <= usize::MAX && self@.all.contains_key(self@.active[i] as usize) by {
                assert(self@.active.contains(self@.active[i]));
                queue::lemma_filter_contains(
                    old(self)@.active,
                    connection_key as u64,
                    self@.active[i],
                );
            }
        }
        Some(connection)
    }
}

/// To mark all connections as active changes no connection.
pub proof fn lemma_all_marked(m: ConnectionsModel, keys: Seq<usize>)
    ensures
        all_marked(m, keys).all == m.all,
        all_marked(m, keys).version_sequence == m.version_sequence,
    decreases keys.len(),
{
    if keys.len() > 0 {
        lemma_all_marked(m, keys.drop_last());
    }
}

proof fn lemma_marked(m: ConnectionsModel, key: usize)
    requires
        m.active.no_duplicates(),
        forall|i: int|
            0 <= i < m.active.len() ==> (#[trigger] m.active[i]) <= usize::MAX
                && m.all.contains_key(m.active[i] as usize),
        m.all.contains_key(key),
    ensures
        m.marked(key).wf(),
{
    queue::law_no_key_waits_twice(m.active, key as u64);
}

/// An ID of a connection whose key was given to another connection reaches no connection,
/// as long as the versions have not come round.
pub proof fn law_stale_id_reaches_nothing(
    m: ConnectionsModel,
    id: QuinnConnectionId,
    trace: Trace,
    inner: QuinnConnection,
)
    requires
        m.has(id),
        id.version != m.version_sequence,
    ensures
        !m.inserted(id.key, trace, inner).has(id),
{
}

/// A new connection is found by its ID, and waits to be polled.
pub proof fn law_new_connection_is_found(
    m: ConnectionsModel,
    key: usize,
    trace: Trace,
    inner: QuinnConnection,
)
    requires
        m.wf(),
    ensures
        m.inserted(key, trace, inner).has(
            QuinnConnectionId { key, trace, version: m.version_sequence },
        ),
        m.inserted(key, trace, inner).active.contains(key as u64),
{
    queue::law_marking_twice_is_marking_once(m.removed(key).active, key as u64);
}

/// A connection that was forgotten is not found, and does not wait to be polled.
pub proof fn law_forgotten_connection_is_gone(m: ConnectionsModel, id: QuinnConnectionId)
    requires
        m.wf(),
        m.has(id),
    ensures
        !m.removed(id.key).has(id),
        !m.removed(id.key).active.contains(id.key as u64),
{
    queue::law_no_key_waits_twice(m.active, id.key as u64);
}

/// The other connections stay as they are when one is inserted or forgotten,
/// and wait in their order.
pub proof fn law_other_connections_stay(
    m: ConnectionsModel,
    key: usize,
    trace: Trace,
    inner: QuinnConnection,
    other: usize,
)
    requires
        other != key,
    ensures
        m.inserted(key, trace, inner).all.contains_key(other) <==> m.all.contains_key(other),
        m.inserted(key, trace, inner).all[other] == m.all[other],
        m.inserted(key, trace, inner).active.contains(other as u64) <==> m.active.contains(
            other as u64,
        ),
        m.removed(key).all.contains_key(other) <==> m.all.contains_key(other),
        m.removed(key).all[other] == m.all[other],
        m.removed(key).active.contains(other as u64) <==> m.active.contains(other as u64),
        m.removed(key).version_sequence == m.version_sequence,
        m.inserted(key, trace, inner).all[key].inner == inner,
{
    let gone = m.removed(key);
    let k = key as u64;
    let o = other as u64;
    queue::lemma_filter_contains(m.active, k, o);
    queue::law_only_the_marked_key_is_added(gone.active, k);
    let all = queue::enqueued(gone.active, k);
    if gone.active.contains(o) {
        let i = choose|i: int| 0 <= i < gone.active.len() && gone.active[i] == o;
        assert(all[i] == o);
    }
    if all.contains(o) {
        let i = choose|i: int| 0 <= i < all.len() && all[i] == o;
        if i < gone.active.len() {
            assert(gone.active[i] == o);
        }
    }
}

/// Two connections that follow each other have different versions, so that the ID of the first
/// one never leads to the second one, whatever its key is.
pub proof fn law_versions_differ(
    m: ConnectionsModel,
    key: usize,
    trace: Trace,
    inner: QuinnConnection,
)
    ensures
        m.inserted(key, trace, inner).all[key].context.version == m.version_sequence,
        m.inserted(key, trace, inner).version_sequence != m.version_sequence,
        m.version_sequence < 0xffff_ffff ==> m.inserted(key, trace, inner).version_sequence
            == m.version_sequence + 1,
        m.version_sequence == 0xffff_ffff ==> m.inserted(key, trace, inner).version_sequence == 0,
{
}

/// All connections wait once each of their keys was marked, and those that waited before
/// come first. Nothing else changes.
pub proof fn law_all_marked_connections_wait(m: ConnectionsModel, keys: Seq<usize>, i: int)
    requires
        0 <= i < keys.len(),
    ensures
        all_marked(m, keys).active.contains(keys[i] as u64),
        m.active.is_prefix_of(all_marked(m, keys).active),
        all_marked(m, keys).all == m.all,
        all_marked(m, keys).version_sequence == m.version_sequence,
    decreases keys.len(),
{
    let init = keys.drop_last();
    let before = all_marked(m, init);
    queue::law_marking_twice_is_marking_once(before.active, keys.last() as u64);
    queue::law_queue_is_fair(before.active, keys.last() as u64);
    if init.len() > 0 {
        law_all_marked_connections_wait(m, init, if i < init.len() {
            i
        } else {
            0
        });
    }
    if i < init.len() {
        assert(init[i] == keys[i]);
        let k = choose|k: int| 0 <= k < before.active.len() && before.active[k] == keys[i] as u64;
        assert(all_marked(m, keys).active[k] == keys[i] as u64);
    }
}

} // verus!

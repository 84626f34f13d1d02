use crate::backend::cid::{ConnectionId, MAX_CID_LEN};
use crate::backend::quiche::connection;
use crate::backend::quiche::{Connection, ConnectionKey, QuicheConnectionId};
use crate::backend::util::queue;
use crate::backend::util::ActiveQueue;
use crate::net::SocketAddr;
use ahash::AHashMap;
use slotmap::{DefaultKey, SlotMap};
use vstd::prelude::*;

verus! {

/// An outside slot map: values under keys that the map hands out.
#[verifier::external_body]
pub struct Slots {
    inner: SlotMap<DefaultKey, Connection>,
}

/// An outside hash map.
#[verifier::external_type_specification]
#[verifier::external_body]
#[verifier::reject_recursive_types(K)]
#[verifier::reject_recursive_types(V)]
#[verifier::reject_recursive_types(S)]
pub struct ExAHashMap<K, V, S>(ahash::AHashMap<K, V, S>);

/// An outside state of a hasher.
#[verifier::external_type_specification]
#[verifier::external_body]
pub struct ExAHashRandomState(ahash::RandomState);

/// A socket address as a key of a map.
pub type AddrKey = (u8, u128, u16, u32, u32);

/// What a slot map holds under the number of each key that is in use.
pub uninterp spec fn slots(map: Slots) -> Map<u64, Connection>;

/// What a map of connection IDs holds.
pub uninterp spec fn cid_entries(map: AHashMap<Vec<u8>, u64>) -> Map<Seq<u8>, u64>;

/// What a map of addresses holds.
pub uninterp spec fn addr_entries(map: AHashMap<AddrKey, u64>) -> Map<AddrKey, u64>;

/// `SlotMap::with_key`: an empty map.
#[verifier::external_body]
fn slots_new() -> (r: Slots)
    ensures
        forall|key: u64| !slots(r).contains_key(key),
        slots(r).dom().finite(),
{
    Slots { inner: SlotMap::with_key() }
}

/// `SlotMap::insert`: stores the value under a key that was not in use, and returns its number.
///
/// The map panics when its slots, of which it never has more than `u32::MAX`, are used up.
#[verifier::external_body]
fn slots_insert(map: &mut Slots, value: Connection) -> (r: u64)
    requires
        slots(*old(map)).len() < u32::MAX - 1,
    ensures
        connection::is_key(r),
        !slots(*old(map)).contains_key(r),
        slots(*final(map)) == slots(*old(map)).insert(r, value),
{
    slotmap::Key::data(&map.inner.insert(value)).as_ffi()
}

/// `SlotMap::get`: the value under the key, `None` if the key is not in use.
#[verifier::external_body]
fn slots_get(map: &Slots, key: u64) -> (r: Option<&Connection>)
    requires
        connection::is_key(key),
    ensures
        r is Some <==> slots(*map).contains_key(key),
        r matches Some(value) ==> *value == slots(*map)[key],
{
    map.inner.get(slotmap::KeyData::from_ffi(key).into())
}

/// `SlotMap::get_mut`: the value under the key, for writing, `None` if the key is not in use.
#[verifier::external_body]
fn slots_get_mut(map: &mut Slots, key: u64) -> (r: Option<
    &mut Connection,
>)
    requires
        connection::is_key(key),
    ensures
        match r {
            Some(value) => slots(*old(map)).contains_key(key) && *value == slots(*old(map))[key]
                && slots(*final(map)) == slots(*old(map)).insert(key, *final(value)),
            None => !slots(*old(map)).contains_key(key) && slots(*final(map)) == slots(*old(map)),
        },
{
    map.inner.get_mut(slotmap::KeyData::from_ffi(key).into())
}

/// `SlotMap::remove`: takes out the value under the key, `None` if the key is not in use.
#[verifier::external_body]
fn slots_remove(map: &mut Slots, key: u64) -> (r: Option<Connection>)
    requires
        connection::is_key(key),
    ensures
        r is Some <==> slots(*old(map)).contains_key(key),
        r matches Some(value) ==> value == slots(*old(map))[key],
        slots(*final(map)) == slots(*old(map)).remove(key),
{
    map.inner.remove(slotmap::KeyData::from_ffi(key).into())
}

/// `SlotMap::len`: the number of values.
#[verifier::external_body]
fn slots_len(map: &Slots) -> (r: usize)
    ensures
        r == slots(*map).len(),
{
    map.inner.len()
}

/// `SlotMap::keys`: the numbers of the keys that are in use, each of them once.
#[verifier::external_body]
fn slots_keys(map: &Slots) -> (r: Vec<u64>)
    ensures
        r@.no_duplicates(),
        forall|key: u64| r@.contains(key) <==> slots(*map).contains_key(key),
{
    map.inner.keys().map(|key| slotmap::Key::data(&key).as_ffi()).collect()
}

/// `AHashMap::new`: an empty map.
#[verifier::external_body]
fn cids_new() -> (r: AHashMap<Vec<u8>, u64>)
    ensures
        forall|cid: Seq<u8>| !cid_entries(r).contains_key(cid),
{
    AHashMap::new()
}

/// `AHashMap::insert`: stores the value under the key.
#[verifier::external_body]
fn cids_insert(map: &mut AHashMap<Vec<u8>, u64>, cid: Vec<u8>, value: u64)
    ensures
        cid_entries(*final(map)) == cid_entries(*old(map)).insert(cid@, value),
{
    map.insert(cid, value);
}

/// `AHashMap::get`: the value under the key, `None` if there is none.
#[verifier::external_body]
fn cids_get(map: &AHashMap<Vec<u8>, u64>, cid: &[u8]) -> (r: Option<u64>)
    ensures
        r is Some <==> cid_entries(*map).contains_key(cid@),
        r matches Some(value) ==> value == cid_entries(*map)[cid@],
{
    map.get(cid).copied()
}

/// `AHashMap::remove`: takes out the value under the key, if there is one.
#[verifier::external_body]
fn cids_remove(map: &mut AHashMap<Vec<u8>, u64>, cid: &[u8])
    ensures
        cid_entries(*final(map)) == cid_entries(*old(map)).remove(cid@),
{
    map.remove(cid);
}

/// `AHashMap::retain`: takes out all entries with the value.
#[verifier::external_body]
fn cids_forget(map: &mut AHashMap<Vec<u8>, u64>, value: u64)
    ensures
        cid_entries(*final(map)) == without_value(cid_entries(*old(map)), value),
{
    map.retain(|_, entry| differs(*entry, value));
}

/// `AHashMap::new`: an empty map.
#[verifier::external_body]
fn addrs_new() -> (r: AHashMap<AddrKey, u64>)
    ensures
        forall|addr: AddrKey| !addr_entries(r).contains_key(addr),
{
    AHashMap::new()
}

/// `AHashMap::insert`: stores the value under the key.
#[verifier::external_body]
fn addrs_insert(map: &mut AHashMap<AddrKey, u64>, addr: AddrKey, value: u64)
    ensures
        addr_entries(*final(map)) == addr_entries(*old(map)).insert(addr, value),
{
    map.insert(addr, value);
}

/// `AHashMap::get`: the value under the key, `None` if there is none.
#[verifier::external_body]
fn addrs_get(map: &AHashMap<AddrKey, u64>, addr: AddrKey) -> (r: Option<u64>)
    ensures
        r is Some <==> addr_entries(*map).contains_key(addr),
        r matches Some(value) ==> value == addr_entries(*map)[addr],
{
    map.get(&addr).copied()
}

/// `AHashMap::retain`: takes out all entries with the value.
#[verifier::external_body]
fn addrs_forget(map: &mut AHashMap<AddrKey, u64>, value: u64)
    ensures
        addr_entries(*final(map)) == without_value(addr_entries(*old(map)), value),
{
    map.retain(|_, entry| differs(*entry, value));
}

fn differs(entry: u64, value: u64) -> (r: bool)
    ensures
        r == (entry != value),
{
    entry != value
}

/// The entries that have another value.
pub open spec fn without_value<K>(entries: Map<K, u64>, value: u64) -> Map<K, u64> {
    Map::new(|key: K| entries.contains_key(key) && entries[key] != value, |key: K| entries[key])
}

/// The key of a socket address.
pub open spec fn addr_key(addr: SocketAddr) -> AddrKey {
    match addr {
        SocketAddr::V4 { ip, port } => (4, ip as u128, port, 0, 0),
        SocketAddr::V6 { ip, port, flowinfo, scope_id } => (6, ip, port, flowinfo, scope_id),
    }
}

fn to_addr_key(addr: SocketAddr) -> (r: AddrKey)
    ensures
        r == addr_key(addr),
{
    match addr {
        SocketAddr::V4 { ip, port } => (4, ip as u128, port, 0, 0),
        SocketAddr::V6 { ip, port, flowinfo, scope_id } => (6, ip, port, flowinfo, scope_id),
    }
}

/// Socket addresses have different keys.
pub proof fn law_addr_keys_tell_addresses_apart(a: SocketAddr, b: SocketAddr)
    requires
        addr_key(a) == addr_key(b),
    ensures
        a == b,
{
}

/// What [Connections] are.
#[verifier::ext_equal]
pub struct ConnectionsModel {
    /// The context of each present connection, by the raw value of its key.
    pub all: Map<u64, Connection>,
    /// The key of the connection that a connection ID leads to.
    pub cids: Map<Seq<u8>, u64>,
    /// The key of the connection that a peer's address leads to.
    pub addrs: Map<AddrKey, u64>,
    /// The keys of the connections that wait to be polled, in order.
    pub active: Seq<u64>,
}

/// A server connection.
pub open spec fn server() -> spec_fn(Connection) -> bool {
    |c: Connection| c.is_server
}

/// A server connection, the peer of which has not verified its address.
pub open spec fn unverified_server() -> spec_fn(Connection) -> bool {
    |c: Connection| c.is_server && !c.peer_address_verified
}

/// The number of connections that `p` is true of.
pub open spec fn count(all: Map<u64, Connection>, p: spec_fn(Connection) -> bool) -> nat {
    all.dom().filter(|key: u64| p(all[key])).len()
}

/// `cids` with each of the connection IDs leading to `key`.
pub open spec fn cids_added(cids: Map<Seq<u8>, u64>, ids: Seq<Vec<u8>>, key: u64) -> Map<
    Seq<u8>,
    u64,
>
    decreases ids.len(),
{
    if ids.len() == 0 {
        cids
    } else if ids.last()@.len() <= MAX_CID_LEN {
        cids_added(cids, ids.drop_last(), key).insert(ids.last()@, key)
    } else {
        cids_added(cids, ids.drop_last(), key)
    }
}

/// `cids` without each of the connection IDs.
pub open spec fn cids_removed(cids: Map<Seq<u8>, u64>, ids: Seq<Vec<u8>>) -> Map<Seq<u8>, u64>
    decreases ids.len(),
{
    if ids.len() == 0 {
        cids
    } else {
        cids_removed(cids, ids.drop_last()).remove(ids.last()@)
    }
}

/// `queue` with each of the keys in it.
pub open spec fn all_enqueued(active: Seq<u64>, keys: Seq<ConnectionKey>) -> Seq<u64>
    decreases keys.len(),
{
    if keys.len() == 0 {
        active
    } else {
        queue::enqueued(all_enqueued(active, keys.drop_last()), keys.last()@)
    }
}

/// The keys are those of all connections, each of them once.
pub open spec fn is_all_keys(all: Map<u64, Connection>, keys: Seq<ConnectionKey>) -> bool {
    &&& forall|i: int, j: int|
        0 <= i < j < keys.len() ==> (#[trigger] keys[i])@ != (#[trigger] keys[j])@
    &&& forall|i: int| 0 <= i < keys.len() ==> all.contains_key((#[trigger] keys[i])@)
    &&& forall|key: u64| #[trigger]
        all.contains_key(key) ==> exists|i: int| 0 <= i < keys.len() && (#[trigger] keys[i])@ == key
}

impl ConnectionsModel {
    /// Each key is one, connection IDs and addresses lead to connections that are present,
    /// and each connection that waits to be polled is present and waits once.
    pub open spec fn wf(self) -> bool {
        &&& self.all.dom().finite()
        &&& forall|key: u64| #[trigger] self.all.contains_key(key) ==> connection::is_key(key)
        &&& forall|cid: Seq<u8>| #[trigger]
            self.cids.contains_key(cid) ==> self.all.contains_key(self.cids[cid])
        &&& forall|addr: AddrKey| #[trigger]
            self.addrs.contains_key(addr) ==> self.all.contains_key(self.addrs[addr])
        &&& self.active.no_duplicates()
        &&& forall|i: int|
            0 <= i < self.active.len() ==> self.all.contains_key(#[trigger] self.active[i])
    }

    /// The connection is marked as active.
    pub open spec fn marked(self, key: u64) -> ConnectionsModel {
        ConnectionsModel { active: queue::enqueued(self.active, key), ..self }
    }

    /// The connection is replaced.
    pub open spec fn with(self, key: u64, connection: Connection) -> ConnectionsModel {
        ConnectionsModel { all: self.all.insert(key, connection), ..self }
    }

    /// The connection is inserted under a new key and marked as active.
    pub open spec fn inserted(
        self,
        key: u64,
        connection: Connection,
        source_cid: Seq<u8>,
        peer_addr: SocketAddr,
    ) -> ConnectionsModel {
        let cids = if source_cid.len() == 0 {
            self.cids
        } else {
            self.cids.insert(source_cid, key)
        };
        let addrs = if source_cid.len() == 0 {
            self.addrs.insert(addr_key(peer_addr), key)
        } else {
            self.addrs
        };
        ConnectionsModel { cids, addrs, ..self.with(key, connection).marked(key) }
    }

    /// The connection is forgotten, with all connection IDs and addresses that lead to it.
    pub open spec fn removed(self, key: u64) -> ConnectionsModel {
        ConnectionsModel {
            all: self.all.remove(key),
            cids: without_value(self.cids, key),
            addrs: without_value(self.addrs, key),
            active: queue::without(self.active, key),
        }
    }

    /// The key that a packet leads to: by its destination connection ID,
    /// or by the peer's address if that is empty.
    pub open spec fn found(self, peer_dcid: Seq<u8>, peer_addr: SocketAddr) -> Option<u64> {
        if peer_dcid.len() > 0 {
            if self.cids.contains_key(peer_dcid) {
                Some(self.cids[peer_dcid])
            } else {
                None
            }
        } else {
            if self.addrs.contains_key(addr_key(peer_addr)) {
                Some(self.addrs[addr_key(peer_addr)])
            } else {
                None
            }
        }
    }
}

/// Open connections and the ways that packets take to them.
pub struct Connections {
    /// Open server and client connections.
    ///
    /// May also contain newly-created client connections,
    /// and unverified server connections as well.
    ///
    /// **Note**: unverified means that path between peer <-> server
    /// has not verified yet, and the peer may be spoofed.
    all: Slots,
    /// Source connection ID (peer's DCID) -> `ConnectionKey` mapping.
    cid_dictionary: AHashMap<Vec<u8>, u64>,
    /// Peer's socket address -> `ConnectionKey` mapping.
    ///
    /// This map is used only if application decides to generate zero-length source connection IDs
    /// and to use peer's socket address for routing.
    addr_dictionary: AHashMap<AddrKey, u64>,
    /// Modified `all` connections that wait to be polled.
    active: ActiveQueue,
    /// Number of server connections.
    server_connections_count: usize,
    /// Number of unverified server connections.
    server_unverified_connections_count: usize,
}

impl View for Connections {
    type V = ConnectionsModel;

    closed spec fn view(&self) -> ConnectionsModel {
        ConnectionsModel {
            all: slots(self.all),
            cids: cid_entries(self.cid_dictionary),
            addrs: addr_entries(self.addr_dictionary),
            active: self.active@,
        }
    }
}

impl Connections {
    /// The model is well-formed, and the counts are right.
    pub closed spec fn wf(&self) -> bool {
        &&& self@.wf()
        &&& self.server_connections_count == count(self@.all, server())
        &&& self.server_unverified_connections_count == count(self@.all, unverified_server())
    }

    /// Well-formed connections have a well-formed model.
    pub proof fn lemma_wf(&self)
        requires
            self.wf(),
        ensures
            self@.wf(),
    {
    }

    /// Creates a container without connections.
    pub fn new() -> (r: Self)
        ensures
            r.wf(),
            r@ == (ConnectionsModel {
                all: Map::empty(),
                cids: Map::empty(),
                addrs: Map::empty(),
                active: Seq::empty(),
            }),
    {
        let r = Self {
            all: slots_new(),
            cid_dictionary: cids_new(),
            addr_dictionary: addrs_new(),
            active: ActiveQueue::new(),
            server_connections_count: 0,
            server_unverified_connections_count: 0,
        };
        proof {
            assert(r@.all =~= Map::empty());
            assert(r@.cids =~= Map::empty());
            assert(r@.addrs =~= Map::empty());
            assert(r@.all.dom().filter(|key: u64| server()(r@.all[key])) =~= Set::empty());
            assert(r@.all.dom().filter(|key: u64| unverified_server()(r@.all[key]))
                =~= Set::empty());
        }
        r
    }

    /// Inserts a new connection and marks it as active.
    ///
    /// * `source_cid`: the source connection ID.
    /// * `active_path_addr`: the peer's address of the active path, if there is one.
    /// * `peer_addr`: the peer's address.
    pub fn insert(
        &mut self,
        connection: Connection,
        source_cid: &ConnectionId,
        active_path_addr: Option<SocketAddr>,
        peer_addr: SocketAddr,
    ) -> (r: QuicheConnectionId)
        requires
            old(self).wf(),
            old(self)@.all.len() < u32::MAX - 1,
        ensures
            final(self).wf(),
            !old(self)@.all.contains_key(r.key@),
            r == connection.spec_id(r.key),
            final(self)@ == old(self)@.inserted(
                r.key@,
                connection,
                source_cid@,
                match active_path_addr {
                    Some(addr) => addr,
                    None => peer_addr,
                },
            ),
    {
        let is_server: bool = connection.is_server;
        let is_verified: bool = connection.peer_address_verified;
        let trace = connection.trace;
        let peer_addr: SocketAddr = match active_path_addr {
            Some(addr) => addr,
            None => peer_addr,
        };
        let ghost before = self@.all;
        let raw: u64 = slots_insert(&mut self.all, connection);
        self.active.mark(raw);
        if source_cid.is_empty() {
            addrs_insert(&mut self.addr_dictionary, to_addr_key(peer_addr), raw);
        } else {
            cids_insert(&mut self.cid_dictionary, source_cid.to_vec(), raw);
        }
        proof {
            lemma_count_insert(before, raw, connection, server());
            lemma_count_insert(before, raw, connection, unverified_server());
            lemma_count_bound(before, server());
            lemma_count_bound(before, unverified_server());
            let m = old(self)@.with(raw, connection);
            lemma_wf_with(old(self)@, raw, connection);
            lemma_wf_marked(m, raw);
            lemma_wf_cids(m.marked(raw), source_cid@, raw);
            lemma_wf_addrs(m.marked(raw), addr_key(peer_addr), raw);
            assert(self@ == old(self)@.inserted(raw, connection, source_cid@, peer_addr));
        }
        if is_server {
            self.server_connections_count = self.server_connections_count + 1;
            if !is_verified {
                self.server_unverified_connections_count =
                self.server_unverified_connections_count + 1;
            }
        }
        QuicheConnectionId { key: ConnectionKey::new(raw), trace }
    }

    /// Returns an immutable connection.
    pub fn get(&self, key: ConnectionKey) -> (r: Option<&Connection>)
        ensures
            r is Some <==> self@.all.contains_key(key@),
            r matches Some(connection) ==> *connection == self@.all[key@],
    {
        slots_get(&self.all, key.raw())
    }

    /// Returns a mutable connection.
    pub fn get_mut(&mut self, key: ConnectionKey) -> (r: Option<&mut Connection>)
        requires
            old(self).wf(),
        ensures
            match r {
                Some(connection) => {
                    &&& old(self)@.all.contains_key(key@)
                    &&& *connection == old(self)@.all[key@]
                    &&& final(self)@ == old(self)@.with(key@, *final(connection))
                    &&& keeps_side(*connection, *final(connection)) ==> final(self).wf()
                },
                None => {
                    &&& !old(self)@.all.contains_key(key@)
                    &&& final(self)@ == old(self)@
                    &&& final(self).wf()
                },
            },
    {
        let ghost before = self@.all;
        let raw: u64 = key.raw();
        match slots_get_mut(&mut self.all, raw) {
            Some(connection) => {
                proof {
                    let after = *final(connection);
                    lemma_count_update(before, raw, after, server());
                    lemma_count_update(before, raw, after, unverified_server());
                    lemma_wf_with(old(self)@, raw, after);
                }
                Some(connection)
            },
            None => None,
        }
    }

    /// Returns a mutable connection and marks it as active, to be polled later.
    ///
    /// If connection is already marked as active, it's no-op.
    /// Otherwise, it will be put in the back of the awaiting queue.
    pub fn get_mark_active(&mut self, key: ConnectionKey) -> (r: Option<&mut Connection>)
        requires
            old(self).wf(),
        ensures
            match r {
                Some(connection) => {
                    &&& old(self)@.all.contains_key(key@)
                    &&& *connection == old(self)@.all[key@]
                    &&& final(self)@ == old(self)@.marked(key@).with(key@, *final(connection))
                    &&& keeps_side(*connection, *final(connection)) ==> final(self).wf()
                },
                None => {
                    &&& !old(self)@.all.contains_key(key@)
                    &&& final(self)@ == old(self)@
                    &&& final(self).wf()
                },
            },
    {
        self.get_mark_active_if(key, true)
    }

    /// Returns a mutable connection if it satisfies a filter, and marks it as active.
    ///
    /// If connection is already marked as active, it's no-op.
    /// Otherwise, it will be put in the back of the awaiting queue.
    pub fn get_mark_active_if(&mut self, key: ConnectionKey, satisfies: bool) -> (r: Option<
        &mut Connection,
    >)
        requires
            old(self).wf(),
        ensures
            match r {
                Some(connection) => {
                    &&& old(self)@.all.contains_key(key@) && satisfies
                    &&& *connection == old(self)@.all[key@]
                    &&& final(self)@ == old(self)@.marked(key@).with(key@, *final(connection))
                    &&& keeps_side(*connection, *final(connection)) ==> final(self).wf()
                },
                None => {
                    &&& !old(self)@.all.contains_key(key@) || !satisfies
                    &&& final(self)@ == old(self)@
                    &&& final(self).wf()
                },
            },
    {
        if !satisfies || slots_get(&self.all, key.raw()).is_none() {
            return None;
        }
        self.mark_active(key);
        self.get_mut(key)
    }

    /// Returns the keys of all present connections.
    pub fn all_iter(&self) -> (r: Vec<ConnectionKey>)
        requires
            self.wf(),
        ensures
            is_all_keys(self@.all, r@),
    {
        let raw: Vec<u64> = slots_keys(&self.all);
        let mut keys: Vec<ConnectionKey> = Vec::new();
        let mut i: usize = 0;
        while i < raw.len()
            invariant
                self.wf(),
                i <= raw@.len(),
                keys@.len() == i,
                raw@.no_duplicates(),
                forall|key: u64| raw@.contains(key) <==> slots(self.all).contains_key(key),
                forall|j: int| 0 <= j < i ==> (#[trigger] keys@[j])@ == raw@[j],
            decreases raw@.len() - i,
        {
            assert(raw@.contains(raw@[i as int]));
            assert(self@.all.contains_key(raw@[i as int]));
            keys.push(ConnectionKey::new(raw[i]));
            i = i + 1;
        }
        proof {
            assert forall|j: int| 0 <= j < keys@.len() implies self@.all.contains_key(
                (#[trigger] keys@[j])@,
            ) by {
                assert(raw@.contains(raw@[j]));
            }
            assert forall|key: u64| #[trigger] self@.all.contains_key(key) implies exists|i: int|
                0 <= i < keys@.len() && (#[trigger] keys@[i])@ == key by {
                assert(raw@.contains(key));
                let w = choose|i: int| 0 <= i < raw@.len() && raw@[i] == key;
                assert(keys@[w]@ == key);
            }
        }
        keys
    }

    /// Returns the keys of all present connections,
    /// marking each active.
    pub fn all_iter_mark_active(&mut self) -> (r: Vec<ConnectionKey>)
        requires
            old(self).wf(),
        ensures
            final(self).wf(),
            is_all_keys(old(self)@.all, r@),
            final(self)@ == (ConnectionsModel {
                active: all_enqueued(old(self)@.active, r@),
                ..old(self)@
            }),
    {
        let keys: Vec<ConnectionKey> = self.all_iter();
        let mut i: usize = 0;
        assert(keys@.take(0).len() == 0);
        while i < keys.len()
            invariant
                self.wf(),
                is_all_keys(old(self)@.all, keys@),
                i <= keys@.len(),
                self@ == (ConnectionsModel {
                    active: all_enqueued(old(self)@.active, keys@.take(i as int)),
                    ..old(self)@
                }),
            decreases keys@.len() - i,
        {
            assert(keys@.take(i + 1).drop_last() =~= keys@.take(i as int));
            self.mark_active(keys[i]);
            i = i + 1;
        }
        assert(keys@.take(i as int) =~= keys@);
        keys
    }

    /// Returns a stable connection key based on peer's destination ID,
    /// or its socket address if DCID is empty.
    pub fn find_connection_key(&self, peer_dcid: &[u8], peer_addr: SocketAddr) -> (r: Option<
        ConnectionKey,
    >)
        requires
            self.wf(),
        ensures
            r is Some <==> self@.found(peer_dcid@, peer_addr) is Some,
            r matches Some(key) ==> self@.found(peer_dcid@, peer_addr) == Some(key@)
                && self@.all.contains_key(key@),
    {
        let raw: Option<u64> = if peer_dcid.len() > 0 {
            cids_get(&self.cid_dictionary, peer_dcid)
        } else {
            addrs_get(&self.addr_dictionary, to_addr_key(peer_addr))
        };
        match raw {
            Some(raw) => {
                assert(self@.all.contains_key(raw));
                Some(ConnectionKey::new(raw))
            },
            None => None,
        }
    }

    /// Returns a number of all present connections.
    pub fn all_len(&self) -> (r: usize)
        ensures
            r == self@.all.len(),
    {
        slots_len(&self.all)
    }

    /// Marks a connection with the specified `key` as active.
    ///
    /// If it wasn't active before, this connection will be positioned in the end of the active queue.
    pub fn mark_active(&mut self, key: ConnectionKey)
        requires
            old(self).wf(),
        ensures
            final(self).wf(),
            final(self)@ == if old(self)@.all.contains_key(key@) {
                old(self)@.marked(key@)
            } else {
                old(self)@
            },
    {
        if slots_get(&self.all, key.raw()).is_some() {
            proof {
                lemma_wf_marked(self@, key@);
            }
            self.active.mark(key.raw());
        }
    }

    /// Returns the key of an active connection.
    ///
    /// This method will return the same connection, until [`next_active`](Self::next_active) is called.
    ///
    /// Connections are iterated in fair, FIFO order.
    pub fn peek_active(&self) -> (r: Option<ConnectionKey>)
        requires
            self.wf(),
        ensures
            r is Some <==> self@.active.len() > 0,
            r matches Some(key) ==> key@ == self@.active[0] && self@.all.contains_key(key@),
    {
        match self.active.front() {
            Some(raw) => {
                assert(self@.all.contains_key(self@.active[0]));
                Some(ConnectionKey::new(raw))
            },
            None => None,
        }
    }

    /// Removes an `active` mark from the last [`peeked`](Self::peek_active) connection
    /// by removing it from the queue, and moves the cursor to the next one.
    pub fn next_active(&mut self)
        requires
            old(self).wf(),
        ensures
            final(self).wf(),
            final(self)@ == if old(self)@.active.len() > 0 {
                ConnectionsModel { active: old(self)@.active.drop_first(), ..old(self)@ }
            } else {
                old(self)@
            },
    {
        self.active.next();
        assert forall|i: int| 0 <= i < self@.active.len() implies self@.all.contains_key(
            #[trigger] self@.active[i],
        ) by {
            if old(self)@.active.len() > 0 {
                assert(old(self)@.all.contains_key(old(self)@.active[i + 1]));
            }
        }
    }

    /// Returns number of active connections that wait to be polled.
    pub fn active_len(&self) -> (r: usize)
        ensures
            r == self@.active.len(),
    {
        self.active.len()
    }

    /// Marks connection as verified.
    ///
    /// It is applied only to server connections,
    /// where "verified" means that there is at least one validated path,
    /// where the peer confirmed that its address is not spoofed.
    ///
    /// This is used for [`Firewall::allow_unverified()`](crate::backend::Firewall::allow_unverified).
    pub fn mark_verified(&mut self, key: ConnectionKey)
        requires
            old(self).wf(),
        ensures
            final(self).wf(),
            final(self)@ == if old(self)@.all.contains_key(key@) && old(
                self,
            )@.all[key@].is_server {
                old(self)@.with(
                    key@,
                    Connection { peer_address_verified: true, ..old(self)@.all[key@] },
                )
            } else {
                old(self)@
            },
    {
        let ghost before = self@.all;
        let raw: u64 = key.raw();
        let Some(connection) = slots_get_mut(&mut self.all, raw) else {
            return;
        };
        let ghost after = Connection { peer_address_verified: true, ..before[raw] };
        if !connection.is_server {
            assert(before.insert(raw, before[raw]) =~= before);
            return;
        }
        if !connection.peer_address_verified {
            connection.peer_address_verified = true;
            proof {
                lemma_count_update(before, raw, after, server());
                lemma_count_update(before, raw, after, unverified_server());
                lemma_count_positive(before, raw, unverified_server());
                lemma_wf_with(old(self)@, raw, after);
            }
            self.server_unverified_connections_count = self.server_unverified_connections_count - 1;
        } else {
            assert(before.insert(raw, after) =~= before);
        }
    }

    /// Updates the internal `SCID` to `ConnectionKey` mapping,
    /// based on a connection associated with the provided `key`.
    ///
    /// It is required to be updated after new CIDs allocations,
    /// or connection migrations.
    ///
    /// * `source_ids`: the source connection IDs of the connection.
    /// * `retired_ids`: those that the peer has retired.
    pub fn update_scids_dict(
        &mut self,
        key: ConnectionKey,
        source_ids: &Vec<Vec<u8>>,
        retired_ids: &Vec<Vec<u8>>,
    )
        requires
            old(self).wf(),
        ensures
            final(self).wf(),
            final(self)@ == if old(self)@.all.contains_key(key@) {
                ConnectionsModel {
                    cids: cids_removed(
                        cids_added(old(self)@.cids, source_ids@, key@),
                        retired_ids@,
                    ),
                    ..old(self)@
                }
            } else {
                old(self)@
            },
    {
        let raw: u64 = key.raw();
        if slots_get(&self.all, raw).is_none() {
            return;
        }
        let mut i: usize = 0;
        assert(source_ids@.take(0).len() == 0);
        while i < source_ids.len()
            invariant
                self.wf(),
                self@.all.contains_key(raw),
                i <= source_ids@.len(),
                self@ == (ConnectionsModel {
                    cids: cids_added(old(self)@.cids, source_ids@.take(i as int), raw),
                    ..old(self)@
                }),
            decreases source_ids@.len() - i,
        {
            let ghost t = source_ids@.take(i + 1);
            assert(t.drop_last() =~= source_ids@.take(i as int));
            match ConnectionId::try_from_slice(source_ids[i].as_slice()) {
                Some(cid) => {
                    proof {
                        lemma_wf_cids(self@, cid@, raw);
                    }
                    cids_insert(&mut self.cid_dictionary, cid.to_vec(), raw);
                },
                None => {
                    // Should never happen.
                    //
                    // We just skip this CID,
                    // and the backend won't be able recognize incoming packets with this CID.
                },
            }
            i = i + 1;
        }
        assert(source_ids@.take(i as int) =~= source_ids@);
        self.forget_cids(retired_ids);
    }

    fn forget_cids(&mut self, ids: &Vec<Vec<u8>>)
        requires
            old(self).wf(),
        ensures
            final(self).wf(),
            final(self)@ == (ConnectionsModel {
                cids: cids_removed(old(self)@.cids, ids@),
                ..old(self)@
            }),
    {
        let mut i: usize = 0;
        assert(ids@.take(0).len() == 0);
        while i < ids.len()
            invariant
                self.wf(),
                i <= ids@.len(),
                self@ == (ConnectionsModel {
                    cids: cids_removed(old(self)@.cids, ids@.take(i as int)),
                    ..old(self)@
                }),
            decreases ids@.len() - i,
        {
            assert(ids@.take(i + 1).drop_last() =~= ids@.take(i as int));
            proof {
                lemma_wf_without_cid(self@, ids@[i as int]@);
            }
            cids_remove(&mut self.cid_dictionary, ids[i].as_slice());
            i = i + 1;
        }
        assert(ids@.take(i as int) =~= ids@);
    }

    /// Forgets a connection associated with the specified `key`,
    /// and all connection IDs and addresses that lead to it.
    pub fn remove(&mut self, key: ConnectionKey) -> (r: Option<Connection>)
        requires
            old(self).wf(),
        ensures
            final(self).wf(),
            r is Some <==> old(self)@.all.contains_key(key@),
            r matches Some(connection) ==> connection == old(self)@.all[key@],
            final(self)@ == if old(self)@.all.contains_key(key@) {
                old(self)@.removed(key@)
            } else {
                old(self)@
            },
    {
        let raw: u64 = key.raw();
        let ghost before = self@.all;
        let Some(connection) = slots_remove(&mut self.all, raw) else {
            assert(before.remove(raw) =~= before);
            return None;
        };
        self.active.remove(raw);
        cids_forget(&mut self.cid_dictionary, raw);
        addrs_forget(&mut self.addr_dictionary, raw);
        proof {
            lemma_count_remove(before, raw, server());
            lemma_count_remove(before, raw, unverified_server());
            lemma_wf_removed(old(self)@, raw);
        }
        if connection.is_server {
            proof {
                lemma_count_positive(before, raw, server());
            }
            self.server_connections_count = self.server_connections_count - 1;
            if !connection.peer_address_verified {
                proof {
                    lemma_count_positive(before, raw, unverified_server());
                }
                self.server_unverified_connections_count =
                self.server_unverified_connections_count - 1;
            }
        }
        Some(connection)
    }

    /// Returns total number of server connections.
    pub fn server_connections_count(&self) -> (r: usize)
        requires
            self.wf(),
        ensures
            r == count(self@.all, server()),
    {
        self.server_connections_count
    }

    /// Returns number of unverified server connections.
    ///
    /// Connection is considered unverified when the client has not
    /// proved that it sends packets from its genuine network address.
    pub fn server_unverified_connections_count(&self) -> (r: usize)
        requires
            self.wf(),
        ensures
            r == count(self@.all, unverified_server()),
    {
        self.server_unverified_connections_count
    }
}

/// The connection is still on the same side, and its peer is still verified or not.
pub open spec fn keeps_side(before: Connection, after: Connection) -> bool {
    before.is_server == after.is_server && before.peer_address_verified
        == after.peer_address_verified
}

/// A packet with the source connection ID of a connection that was inserted leads to it,
/// or one from its address, if that ID is empty.
pub proof fn law_inserted_connection_is_found(
    m: ConnectionsModel,
    key: u64,
    connection: Connection,
    source_cid: Seq<u8>,
    peer_addr: SocketAddr,
)
    ensures
        m.inserted(key, connection, source_cid, peer_addr).found(source_cid, peer_addr) == Some(key),
        m.inserted(key, connection, source_cid, peer_addr).active.contains(key),
{
    queue::law_marking_twice_is_marking_once(m.active, key);
}

/// No packet leads to a connection that was forgotten, and the connection does not wait
/// to be polled.
pub proof fn law_forgotten_connection_is_not_found(
    m: ConnectionsModel,
    key: u64,
    peer_dcid: Seq<u8>,
    peer_addr: SocketAddr,
)
    requires
        m.wf(),
    ensures
        !m.removed(key).all.contains_key(key),
        m.removed(key).found(peer_dcid, peer_addr) != Some(key),
        !m.removed(key).active.contains(key),
{
    queue::law_no_key_waits_twice(m.active, key);
}

/// A packet that leads to another connection than the one that is forgotten still does.
pub proof fn law_other_connections_are_still_found(
    m: ConnectionsModel,
    key: u64,
    peer_dcid: Seq<u8>,
    peer_addr: SocketAddr,
)
    requires
        m.wf(),
        m.found(peer_dcid, peer_addr) != Some(key),
    ensures
        m.removed(key).found(peer_dcid, peer_addr) == m.found(peer_dcid, peer_addr),
{
}

proof fn lemma_wf_marked(m: ConnectionsModel, key: u64)
    requires
        m.wf(),
        m.all.contains_key(key),
    ensures
        m.marked(key).wf(),
{
    queue::law_no_key_waits_twice(m.active, key);
    let n = m.marked(key);
    assert forall|i: int| 0 <= i < n.active.len() implies n.all.contains_key(
        #[trigger] n.active[i],
    ) by {
        if i < m.active.len() {
            assert(n.active[i] == m.active[i]);
        }
    }
}

proof fn lemma_wf_with(m: ConnectionsModel, key: u64, connection: Connection)
    requires
        m.wf(),
        connection::is_key(key),
    ensures
        m.with(key, connection).wf(),
{
    let n = m.with(key, connection);
    assert forall|i: int| 0 <= i < n.active.len() implies n.all.contains_key(
        #[trigger] n.active[i],
    ) by {
        assert(m.all.contains_key(m.active[i]));
    }
    assert forall|k: u64| #[trigger] n.all.contains_key(k) implies connection::is_key(k) by {
        assert(k == key || m.all.contains_key(k));
    }
    assert forall|c: Seq<u8>| #[trigger] n.cids.contains_key(c) implies n.all.contains_key(
        n.cids[c],
    ) by {
        assert(m.cids.contains_key(c));
    }
    assert forall|c: AddrKey| #[trigger] n.addrs.contains_key(c) implies n.all.contains_key(
        n.addrs[c],
    ) by {
        assert(m.addrs.contains_key(c));
    }
}

proof fn lemma_wf_cids(m: ConnectionsModel, cid: Seq<u8>, key: u64)
    requires
        m.wf(),
        m.all.contains_key(key),
    ensures
        (ConnectionsModel { cids: m.cids.insert(cid, key), ..m }).wf(),
{
    let a = m.cids.insert(cid, key);
    assert forall|c: Seq<u8>| #[trigger] a.contains_key(c) implies m.all.contains_key(a[c]) by {
        assert(c == cid || m.cids.contains_key(c));
    }
}

proof fn lemma_wf_without_cid(m: ConnectionsModel, cid: Seq<u8>)
    requires
        m.wf(),
    ensures
        (ConnectionsModel { cids: m.cids.remove(cid), ..m }).wf(),
{
    let a = m.cids.remove(cid);
    assert forall|c: Seq<u8>| #[trigger] a.contains_key(c) implies m.all.contains_key(a[c]) by {
        assert(m.cids.contains_key(c));
    }
}

proof fn lemma_wf_addrs(m: ConnectionsModel, addr: AddrKey, key: u64)
    requires
        m.wf(),
        m.all.contains_key(key),
    ensures
        (ConnectionsModel { addrs: m.addrs.insert(addr, key), ..m }).wf(),
{
    let a = m.addrs.insert(addr, key);
    assert forall|c: AddrKey| #[trigger] a.contains_key(c) implies m.all.contains_key(a[c]) by {
        assert(c == addr || m.addrs.contains_key(c));
    }
}

proof fn lemma_wf_removed(m: ConnectionsModel, key: u64)
    requires
        m.wf(),
    ensures
        m.removed(key).wf(),
{
    let n = m.removed(key);
    assert forall|c: Seq<u8>| #[trigger] n.cids.contains_key(c) implies n.all.contains_key(
        n.cids[c],
    ) by {
        assert(m.cids.contains_key(c));
    }
    assert forall|c: AddrKey| #[trigger] n.addrs.contains_key(c) implies n.all.contains_key(
        n.addrs[c],
    ) by {
        assert(m.addrs.contains_key(c));
    }
    queue::law_no_key_waits_twice(m.active, key);
    assert forall|i: int| 0 <= i < n.active.len() implies n.all.contains_key(
        #[trigger] n.active[i],
    ) by {
        let k = n.active[i];
        assert(n.active.contains(k));
        queue::lemma_filter_contains(m.active, key, k);
        let w = choose|w: int| 0 <= w < m.active.len() && m.active[w] == k;
        assert(m.all.contains_key(m.active[w]));
    }
    assert forall|k: u64| #[trigger] n.all.contains_key(k) implies connection::is_key(k) by {
        assert(m.all.contains_key(k));
    }
}

proof fn lemma_count_insert(
    all: Map<u64, Connection>,
    key: u64,
    value: Connection,
    p: spec_fn(Connection) -> bool,
)
    requires
        all.dom().finite(),
        !all.contains_key(key),
    ensures
        count(all.insert(key, value), p) == count(all, p) + if p(value) {
            1nat
        } else {
            0
        },
{
    let next = all.insert(key, value);
    let a = all.dom().filter(|k: u64| p(all[k]));
    let b = next.dom().filter(|k: u64| p(next[k]));
    if p(value) {
        assert(b =~= a.insert(key));
    } else {
        assert(b =~= a);
    }
}

proof fn lemma_count_remove(all: Map<u64, Connection>, key: u64, p: spec_fn(Connection) -> bool)
    requires
        all.dom().finite(),
        all.contains_key(key),
    ensures
        count(all, p) == count(all.remove(key), p) + if p(all[key]) {
            1nat
        } else {
            0
        },
{
    lemma_count_insert(all.remove(key), key, all[key], p);
    assert(all.remove(key).insert(key, all[key]) =~= all);
}

proof fn lemma_count_update(
    all: Map<u64, Connection>,
    key: u64,
    value: Connection,
    p: spec_fn(Connection) -> bool,
)
    requires
        all.dom().finite(),
        all.contains_key(key),
    ensures
        count(all.insert(key, value), p) + (if p(all[key]) {
            1nat
        } else {
            0
        }) == count(all, p) + if p(value) {
            1nat
        } else {
            0
        },
{
    lemma_count_remove(all, key, p);
    lemma_count_insert(all.remove(key), key, value, p);
    assert(all.remove(key).insert(key, value) =~= all.insert(key, value));
}

proof fn lemma_count_positive(all: Map<u64, Connection>, key: u64, p: spec_fn(Connection) -> bool)
    requires
        all.dom().finite(),
        all.contains_key(key),
        p(all[key]),
    ensures
        count(all, p) > 0,
{
    lemma_count_remove(all, key, p);
}

proof fn lemma_count_bound(all: Map<u64, Connection>, p: spec_fn(Connection) -> bool)
    requires
        all.dom().finite(),
    ensures
        count(all, p) <= all.len(),
{
    vstd::set_lib::lemma_len_subset(all.dom().filter(|k: u64| p(all[k])), all.dom());
}

/// A packet with a connection ID leads to the connection that the ID belongs to, wherever
/// it comes from, and one without an ID leads to the connection of its peer's address.
/// Connection IDs and addresses are not mixed up.
pub proof fn law_packets_are_led_by_their_ids(
    m: ConnectionsModel,
    peer_dcid: Seq<u8>,
    peer_addr: SocketAddr,
    other_addr: SocketAddr,
    key: u64,
    cid: Seq<u8>,
)
    ensures
        peer_dcid.len() > 0 ==> m.found(peer_dcid, peer_addr) == m.found(peer_dcid, other_addr),
        peer_dcid.len() > 0 ==> (ConnectionsModel {
            cids: m.cids.insert(peer_dcid, key),
            ..m
        }).found(peer_dcid, peer_addr) == Some(key),
        peer_dcid.len() > 0 && cid != peer_dcid ==> (ConnectionsModel {
            cids: m.cids.insert(cid, key),
            ..m
        }).found(peer_dcid, peer_addr) == m.found(peer_dcid, peer_addr),
        peer_dcid.len() == 0 ==> (ConnectionsModel {
            cids: m.cids.insert(cid, key),
            ..m
        }).found(peer_dcid, peer_addr) == m.found(peer_dcid, peer_addr),
        peer_dcid.len() == 0 ==> (ConnectionsModel {
            addrs: m.addrs.insert(addr_key(peer_addr), key),
            ..m
        }).found(peer_dcid, peer_addr) == Some(key),
{
}

/// A new connection takes no packet from the others: whatever does not carry its connection ID,
/// or comes from its peer's address without one, leads where it led before.
pub proof fn law_new_connection_takes_only_its_packets(
    m: ConnectionsModel,
    key: u64,
    connection: Connection,
    source_cid: Seq<u8>,
    peer_addr: SocketAddr,
    dcid: Seq<u8>,
    addr: SocketAddr,
    other: u64,
)
    requires
        dcid.len() > 0 ==> dcid != source_cid,
        dcid.len() == 0 ==> source_cid.len() > 0 || addr != peer_addr,
        other != key,
    ensures
        m.inserted(key, connection, source_cid, peer_addr).found(dcid, addr) == m.found(dcid, addr),
        m.inserted(key, connection, source_cid, peer_addr).all[key] == connection,
        m.inserted(key, connection, source_cid, peer_addr).all.contains_key(key),
        m.inserted(key, connection, source_cid, peer_addr).all[other] == m.all[other],
        m.inserted(key, connection, source_cid, peer_addr).all.contains_key(other)
            <==> m.all.contains_key(other),
        m.active.is_prefix_of(m.inserted(key, connection, source_cid, peer_addr).active),
{
    if addr_key(addr) == addr_key(peer_addr) {
        law_addr_keys_tell_addresses_apart(addr, peer_addr);
    }
    queue::law_queue_is_fair(m.active, key);
}

/// The other connections stay when one is forgotten, and wait in their order.
pub proof fn law_other_connections_stay(m: ConnectionsModel, key: u64, other: u64)
    requires
        other != key,
    ensures
        m.removed(key).all.contains_key(other) <==> m.all.contains_key(other),
        m.removed(key).all[other] == m.all[other],
        m.removed(key).active.contains(other) <==> m.active.contains(other),
{
    queue::lemma_filter_contains(m.active, key, other);
}

/// A connection ID of a connection leads to it, unless it is retired. Retired ones lead nowhere,
/// and all others lead where they led before.
pub proof fn law_connection_ids_lead_until_they_are_retired(
    cids: Map<Seq<u8>, u64>,
    ids: Seq<Vec<u8>>,
    retired: Seq<Vec<u8>>,
    key: u64,
    cid: Seq<u8>,
)
    ensures
        ({
            let after = cids_removed(cids_added(cids, ids, key), retired);
            let is_added = cid.len() <= 20 && exists|i: int|
                0 <= i < ids.len() && (#[trigger] ids[i])@ == cid;
            let is_retired = exists|i: int| 0 <= i < retired.len() && (#[trigger] retired[i])@ == cid;
            &&& is_retired ==> !after.contains_key(cid)
            &&& !is_retired && is_added ==> after.contains_key(cid) && after[cid] == key
            &&& !is_retired && !is_added ==> (after.contains_key(cid) <==> cids.contains_key(cid))
                && after[cid] == cids[cid]
        }),
{
    lemma_cids_added(cids, ids, key, cid);
    lemma_cids_removed(cids_added(cids, ids, key), retired, cid);
}

proof fn lemma_cids_added(cids: Map<Seq<u8>, u64>, ids: Seq<Vec<u8>>, key: u64, cid: Seq<u8>)
    ensures
        ({
            let after = cids_added(cids, ids, key);
            if cid.len() <= MAX_CID_LEN && exists|i: int|
                0 <= i < ids.len() && (#[trigger] ids[i])@ == cid {
                after.contains_key(cid) && after[cid] == key
            } else {
                (after.contains_key(cid) <==> cids.contains_key(cid)) && after[cid] == cids[cid]
            }
        }),
    decreases ids.len(),
{
    if ids.len() > 0 {
        let init = ids.drop_last();
        lemma_cids_added(cids, init, key, cid);
        if exists|i: int| 0 <= i < init.len() && (#[trigger] init[i])@ == cid {
            let i = choose|i: int| 0 <= i < init.len() && (#[trigger] init[i])@ == cid;
            assert(ids[i]@ == cid);
        }
        if exists|i: int| 0 <= i < ids.len() && (#[trigger] ids[i])@ == cid {
            let i = choose|i: int| 0 <= i < ids.len() && (#[trigger] ids[i])@ == cid;
            if i < init.len() {
                assert(init[i]@ == cid);
            }
        }
        assert(ids[ids.len() - 1] == ids.last());
    }
}

proof fn lemma_cids_removed(cids: Map<Seq<u8>, u64>, ids: Seq<Vec<u8>>, cid: Seq<u8>)
    ensures
        ({
            let after = cids_removed(cids, ids);
            if exists|i: int| 0 <= i < ids.len() && (#[trigger] ids[i])@ == cid {
                !after.contains_key(cid)
            } else {
                (after.contains_key(cid) <==> cids.contains_key(cid)) && after[cid] == cids[cid]
            }
        }),
    decreases ids.len(),
{
    if ids.len() > 0 {
        let init = ids.drop_last();
        lemma_cids_removed(cids, init, cid);
        if exists|i: int| 0 <= i < init.len() && (#[trigger] init[i])@ == cid {
            let i = choose|i: int| 0 <= i < init.len() && (#[trigger] init[i])@ == cid;
            assert(ids[i]@ == cid);
        }
        if exists|i: int| 0 <= i < ids.len() && (#[trigger] ids[i])@ == cid {
            let i = choose|i: int| 0 <= i < ids.len() && (#[trigger] ids[i])@ == cid;
            if i < init.len() {
                assert(init[i]@ == cid);
            }
        }
        assert(ids[ids.len() - 1] == ids.last());
    }
}

/// The connections that peers have opened are counted, and those among them whose peers
/// have not verified their addresses: a further one counts if it is such a connection.
pub proof fn law_connections_of_peers_are_counted(
    all: Map<u64, Connection>,
    key: u64,
    connection: Connection,
)
    requires
        all.dom().finite(),
        !all.contains_key(key),
    ensures
        count(Map::empty(), server()) == 0,
        count(Map::empty(), unverified_server()) == 0,
        count(all.insert(key, connection), server()) == count(all, server())
            + if connection.is_server {
            1nat
        } else {
            0
        },
        count(all.insert(key, connection), unverified_server()) == count(all, unverified_server())
            + if connection.is_server && !connection.peer_address_verified {
            1nat
        } else {
            0
        },
{
    let none = Map::<u64, Connection>::empty();
    assert(none.dom().filter(|k: u64| server()(none[k])) =~= Set::empty());
    assert(none.dom().filter(|k: u64| unverified_server()(none[k])) =~= Set::empty());
    lemma_count_insert(all, key, connection, server());
    lemma_count_insert(all, key, connection, unverified_server());
}

/// All connections wait once each of their keys was marked, and those that waited before
/// come first.
pub proof fn law_all_marked_connections_wait(active: Seq<u64>, keys: Seq<ConnectionKey>, i: int)
    requires
        0 <= i < keys.len(),
    ensures
        all_enqueued(active, keys).contains(keys[i]@),
        active.is_prefix_of(all_enqueued(active, keys)),
    decreases keys.len(),
{
    let init = keys.drop_last();
    let before = all_enqueued(active, init);
    queue::law_marking_twice_is_marking_once(before, keys.last()@);
    queue::law_queue_is_fair(before, keys.last()@);
    if init.len() > 0 {
        law_all_marked_connections_wait(active, init, if i < init.len() {
            i
        } else {
            0
        });
    }
    if i < init.len() {
        assert(init[i] == keys[i]);
        let k = choose|k: int| 0 <= k < before.len() && before[k] == keys[i]@;
        assert(all_enqueued(active, keys)[k] == keys[i]@);
    }
}

/// A list of all keys holds each present connection once, and no other.
pub proof fn law_all_keys_are_listed(
    all: Map<u64, Connection>,
    keys: Seq<ConnectionKey>,
    key: ConnectionKey,
)
    requires
        is_all_keys(all, keys),
    ensures
        keys.contains(key) <==> all.contains_key(key@),
        keys.no_duplicates(),
{
    if keys.contains(key) {
        let i = choose|i: int| 0 <= i < keys.len() && keys[i] == key;
        assert(all.contains_key(keys[i]@));
    }
    if all.contains_key(key@) {
        let i = choose|i: int| 0 <= i < keys.len() && (#[trigger] keys[i])@ == key@;
        ConnectionKey::lemma_of_view(key);
        ConnectionKey::lemma_of_view(keys[i]);
        assert(keys[i] == key);
    }
    assert forall|i: int, j: int| 0 <= i < keys.len() && 0 <= j < keys.len() && i
        != j implies keys[i] != keys[j] by {
        if i < j {
            assert(keys[i]@ != keys[j]@);
        } else {
            assert(keys[j]@ != keys[i]@);
        }
    }
}

/// Two addresses have the same key only if they are the same address.
pub proof fn law_address_keys_tell_addresses_apart(a: SocketAddr, b: SocketAddr)
    ensures
        addr_key(a) == addr_key(b) ==> a == b,
{
}

/// A connection keeps its side, and its peer stays verified or not, if both are as before.
pub proof fn law_kept_side_is_the_same(before: Connection, after: Connection)
    ensures
        keeps_side(before, after) <==> before.is_server == after.is_server
            && before.peer_address_verified == after.peer_address_verified,
{
}

} // verus!

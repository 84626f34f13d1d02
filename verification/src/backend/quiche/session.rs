use crate::time::{Duration, NANOS_PER_SEC};
use mini_moka::unsync::Cache;
use vstd::prelude::*;

verus! {

/// An outside cache.
#[verifier::external_type_specification]
#[verifier::external_body]
#[verifier::reject_recursive_types(K)]
#[verifier::reject_recursive_types(V)]
#[verifier::reject_recursive_types(S)]
pub struct ExCache<K, V, S>(mini_moka::unsync::Cache<K, V, S>);

/// What a cache of sessions holds: the TLS ticket of each server name.
pub uninterp spec fn sessions(cache: Cache<String, Vec<u8>, ahash::RandomState>) -> Map<
    Seq<char>,
    Seq<u8>,
>;

/// A new cache may be this one. It draws random numbers.
pub uninterp spec fn may_build(
    max_capacity: u64,
    time_to_live: Option<(u64, u32)>,
    time_to_idle: Option<(u64, u32)>,
    cache: Cache<String, Vec<u8>, ahash::RandomState>,
) -> bool;

/// A cache that a session is inserted into may be that one then, as time and its capacity allow.
pub uninterp spec fn may_insert(
    cache: Cache<String, Vec<u8>, ahash::RandomState>,
    name: Seq<char>,
    ticket: Seq<u8>,
    after: Cache<String, Vec<u8>, ahash::RandomState>,
) -> bool;

/// A cache that is asked for a session may return this, and may be that one then,
/// as time allows.
pub uninterp spec fn may_get(
    cache: Cache<String, Vec<u8>, ahash::RandomState>,
    name: Seq<char>,
    found: Option<Seq<u8>>,
    after: Cache<String, Vec<u8>, ahash::RandomState>,
) -> bool;

/// The longest time that an entry may live for or be idle: a thousand years.
pub const MAX_TIME_TO_LIVE_SECS: u64 = 31_536_000_000;

/// `mini_moka::unsync::CacheBuilder`: an empty cache.
///
/// Times are given in whole seconds and the nanoseconds that are left.
/// The builder panics on a time that is longer than a thousand years.
#[verifier::external_body]
fn cache_new(
    max_capacity: u64,
    time_to_live: Option<(u64, u32)>,
    time_to_idle: Option<(u64, u32)>,
) -> (r: Cache<String, Vec<u8>, ahash::RandomState>)
    requires
        time_to_live matches Some(time) ==> time.1 < NANOS_PER_SEC && time.0 * NANOS_PER_SEC
            + time.1 <= MAX_TIME_TO_LIVE_SECS * NANOS_PER_SEC,
        time_to_idle matches Some(time) ==> time.1 < NANOS_PER_SEC && time.0 * NANOS_PER_SEC
            + time.1 <= MAX_TIME_TO_LIVE_SECS * NANOS_PER_SEC,
    ensures
        may_build(max_capacity, time_to_live, time_to_idle, r),
        forall|name: Seq<char>| !sessions(r).contains_key(name),
{
    let mut builder = Cache::builder().max_capacity(max_capacity);
    if let Some((secs, nanos)) = time_to_live {
        builder = builder.time_to_live(std::time::Duration::new(secs, nanos));
    }
    if let Some((secs, nanos)) = time_to_idle {
        builder = builder.time_to_idle(std::time::Duration::new(secs, nanos));
    }
    builder.build_with_hasher(ahash::RandomState::default())
}

/// `Cache::insert`: the cache holds at most what it held before and the new entry,
/// which replaces one with the same key. It depends on time and on the capacity what else it drops.
#[verifier::external_body]
fn cache_insert(cache: &mut Cache<String, Vec<u8>, ahash::RandomState>, name: String, ticket: Vec<u8>)
    ensures
        may_insert(*old(cache), name@, ticket@, *final(cache)),
        forall|key: Seq<char>|
            #![trigger sessions(*final(cache)).contains_key(key)]
            sessions(*final(cache)).contains_key(key) ==> sessions(*old(cache)).insert(
                name@,
                ticket@,
            ).contains_key(key) && sessions(*final(cache))[key] == sessions(*old(cache)).insert(
                name@,
                ticket@,
            )[key],
{
    cache.insert(name, ticket)
}

/// `Cache::get`: a value that is returned is the one that the cache holds under the key.
/// It depends on time whether the cache still returns it; entries that expired are dropped.
#[verifier::external_body]
fn cache_get(cache: &mut Cache<String, Vec<u8>, ahash::RandomState>, name: &String) -> (r: Option<
    Vec<u8>,
>)
    ensures
        may_get(
            *old(cache),
            name@,
            match r {
                Some(ticket) => Some(ticket@),
                None => None,
            },
            *final(cache),
        ),
        r matches Some(ticket) ==> sessions(*old(cache)).contains_key(name@) && ticket@ == sessions(
            *old(cache),
        )[name@],
        forall|key: Seq<char>|
            #![trigger sessions(*final(cache)).contains_key(key)]
            sessions(*final(cache)).contains_key(key) ==> sessions(*old(cache)).contains_key(key)
                && sessions(*final(cache))[key] == sessions(*old(cache))[key],
{
    cache.get(name).cloned()
}

/// Each entry of `a` is one of `b`.
pub open spec fn is_part_of(a: Map<Seq<char>, Seq<u8>>, b: Map<Seq<char>, Seq<u8>>) -> bool {
    forall|key: Seq<char>|
        #![trigger a.contains_key(key)]
        a.contains_key(key) ==> b.contains_key(key) && a[key] == b[key]
}

/// A QUIC session, to resume a connection with.
#[derive(Debug)]
pub struct QuicSession {
    /// The TLS ticket of the session.
    pub tls_ticket: Vec<u8>,
}

/// The TLS ticket of a session, if there is one.
pub open spec fn ticket_of(session: Option<QuicSession>) -> Option<Seq<u8>> {
    match session {
        Some(session) => Some(session.tls_ticket@),
        None => None,
    }
}

impl QuicSession {
    /// Creates a session with the TLS ticket.
    pub fn new(tls_ticket: Vec<u8>) -> (r: Self)
        ensures
            r.tls_ticket == tls_ticket,
    {
        Self { tls_ticket }
    }
}

/// Client sessions, by the text of the server name.
pub struct SessionCache {
    sessions: Cache<String, Vec<u8>, ahash::RandomState>,
}

impl View for SessionCache {
    type V = Map<Seq<char>, Seq<u8>>;

    closed spec fn view(&self) -> Map<Seq<char>, Seq<u8>> {
        sessions(self.sessions)
    }
}

impl SessionCache {
    /// A new cache may be this one.
    pub closed spec fn is_new(
        self,
        max_capacity: usize,
        time_to_live: Option<Duration>,
        time_to_idle: Option<Duration>,
    ) -> bool {
        may_build(
            max_capacity as u64,
            parts(time_to_live),
            parts(time_to_idle),
            self.sessions,
        )
    }

    /// A session is inserted, as time and the capacity of the cache allow:
    /// the cache holds at most what it held before and the session.
    pub closed spec fn is_inserted(
        self,
        name: Seq<char>,
        ticket: Seq<u8>,
        after: SessionCache,
    ) -> bool {
        may_insert(self.sessions, name, ticket, after.sessions)
    }

    /// The cache was asked for a session, and has found it or not, as time allows.
    pub closed spec fn is_asked(
        self,
        name: Seq<char>,
        found: Option<Seq<u8>>,
        after: SessionCache,
    ) -> bool {
        may_get(self.sessions, name, found, after.sessions)
    }
}

/// Whole seconds, and the nanoseconds that are left.
pub open spec fn parts(time: Option<Duration>) -> Option<(u64, u32)> {
    match time {
        Some(time) => Some(
            ((time.nanos / NANOS_PER_SEC) as u64, (time.nanos % NANOS_PER_SEC) as u32),
        ),
        None => None,
    }
}

/// A time is short enough for the cache.
pub open spec fn is_cache_time(time: Option<Duration>) -> bool {
    time matches Some(time) ==> time.nanos <= MAX_TIME_TO_LIVE_SECS * NANOS_PER_SEC
}

fn to_parts(time: Option<Duration>) -> (r: Option<(u64, u32)>)
    requires
        is_cache_time(time),
    ensures
        r == parts(time),
        r matches Some(parts) ==> parts.1 < NANOS_PER_SEC && parts.0 * NANOS_PER_SEC + parts.1 == time->0.nanos,
{
    match time {
        Some(time) => Some(
            ((time.nanos / NANOS_PER_SEC) as u64, (time.nanos % NANOS_PER_SEC) as u32),
        ),
        None => None,
    }
}

impl SessionCache {
    /// Creates an empty cache.
    pub fn new(
        max_capacity: usize,
        time_to_live: Option<Duration>,
        time_to_idle: Option<Duration>,
    ) -> (r: Self)
        requires
            is_cache_time(time_to_live),
            is_cache_time(time_to_idle),
        ensures
            r.is_new(max_capacity, time_to_live, time_to_idle),
            r@ == Map::<Seq<char>, Seq<u8>>::empty(),
    {
        let r = Self {
            sessions: cache_new(max_capacity as u64, to_parts(time_to_live), to_parts(time_to_idle)),
        };
        assert(r@ =~= Map::<Seq<char>, Seq<u8>>::empty());
        r
    }

    /// Inserts a new session into the cache.
    pub fn insert(&mut self, server_name: String, session: QuicSession)
        ensures
            old(self).is_inserted(server_name@, session.tls_ticket@, *final(self)),
            is_part_of(final(self)@, old(self)@.insert(server_name@, session.tls_ticket@)),
    {
        cache_insert(&mut self.sessions, server_name, session.tls_ticket);
    }

    /// Returns a session associated with the given `server_name`, if it exists.
    pub fn get(&mut self, server_name: &String) -> (r: Option<QuicSession>)
        ensures
            old(self).is_asked(server_name@, ticket_of(r), *final(self)),
            r matches Some(session) ==> old(self)@.contains_key(server_name@)
                && session.tls_ticket@ == old(self)@[server_name@],
            is_part_of(final(self)@, old(self)@),
    {
        match cache_get(&mut self.sessions, server_name) {
            Some(tls_ticket) => Some(QuicSession { tls_ticket }),
            None => None,
        }
    }
}

/// The parts of a time are the time: whole seconds, and less than a second behind them.
pub proof fn law_parts_are_the_time(time: Duration)
    requires
        is_cache_time(Some(time)),
    ensures
        parts(None) is None,
        parts(Some(time)) matches Some((secs, nanos)) && nanos < 1_000_000_000 && secs
            * 1_000_000_000 + nanos == time.nanos,
{
}

/// The ticket of a session is the one that it was made with.
pub proof fn law_ticket_is_kept(session: QuicSession)
    ensures
        ticket_of(Some(session)) == Some(session.tls_ticket@),
        ticket_of(None) is None,
{
}

/// The cache takes every time up to a thousand years, and those alone.
pub proof fn law_cache_takes_a_thousand_years(time: Duration)
    ensures
        is_cache_time(None),
        is_cache_time(Some(time)) <==> time.nanos <= 31_536_000_000_000_000_000,
{
}

/// What a part of a cache holds, the whole cache holds, and as it is.
pub proof fn law_part_of_a_cache_holds_the_same(
    a: Map<Seq<char>, Seq<u8>>,
    b: Map<Seq<char>, Seq<u8>>,
    name: Seq<char>,
)
    requires
        is_part_of(a, b),
        a.contains_key(name),
    ensures
        b.contains_key(name),
        a[name] == b[name],
        is_part_of(a, a),
{
}

} // verus!

use crate::backend::cid::{ConnectionId, ConnectionIdGenerator, MAX_CID_LEN};
use crate::backend::event::{
    BackendEvents, ConnectionEvent, DatagramEvent, Event, HaltKind, StreamEvent,
};
use crate::backend::firewall::Firewall;
use crate::backend::quiche::config::Config;
use crate::backend::quiche::connection;
use crate::backend::quiche::connection::{CloseStatus, ReleaseDecision, TimerKind};
use crate::backend::quiche::connections;
use crate::backend::quiche::connections::{Connections, ConnectionsModel};
use crate::backend::quiche::error;
use crate::backend::quiche::error::{QuicheError, QuicheErrorKind};
use crate::backend::quiche::initial;
use crate::backend::quiche::initial::{InitialAction, InitialHeader, TokenWorth};
use crate::backend::quiche::io;
use crate::backend::quiche::io::{Write, IO};
use crate::backend::quiche::model::{
    BackendModel, Handshake, NewScid, PathEvent, Readiness, Received, Settings, TimerEvent,
};
use crate::backend::quiche::session;
use crate::backend::quiche::session::{QuicSession, SessionCache};
use crate::backend::quiche::{Connection, ConnectionKey, QuicheConnectionId};
use crate::backend::token::padded;
use crate::backend::token::{
    PaddedTokenGenerator, TokenAead, TokenError, TokenGenerator, TokenHmac, TokenModel,
};
use crate::backend::util::deadline;
use crate::backend::util::queue;
use crate::backend::util::{BipSlice, Time};
use crate::backend::Error;
use crate::net::name;
use crate::net::{IpAddr, SendMsg, ServerName, SocketAddr};
use crate::stream::id;
use crate::stream::{Priority, StreamId};
use crate::time::{Duration, Instant, SystemTime};
use crate::util::octets;
use bytes::Bytes;
use vstd::prelude::*;

verus! {

/// No clock shows, and no timeout lasts, more nanoseconds than this.
pub const MAX_CLOCK_NANOS: u128 = 0x1000_0000_0000_0000_0000_0000_0000_0000;

/// The logic of the `quiche` QUIC implementation provider.
///
/// [Quiche GitHub](https://github.com/cloudflare/quiche)
///
/// The `quiche` connections themselves are held by the caller, under the keys of this backend.
/// What `quiche` says of a connection is handed in, what it has to do is handed out.
pub struct QuicheBackend<G, F, T> {
    /// Client/Server configuration.
    pub(super) config: Config<G, F, T>,
    /// Everything related to connections.
    pub(super) connections: Connections,
    /// Everything related to I/O.
    pub(super) io: IO,
    /// Everything related to time & scheduling.
    pub(super) time: Time<TimerEvent>,
    /// Current calendar time.
    pub(super) now_sys: SystemTime,
    /// Client sessions cache, used for 0-RTT connection resumption.
    pub(super) session_cache: SessionCache,
    /// Events produced by this backend.
    pub(super) events: BackendEvents<QuicheConnectionId>,
    /// Address which I/O socket listens to.
    pub(super) listen_addr: IpAddr,
    /// Whether backend is open or not.
    pub(super) open: bool,
}

impl<G: ConnectionIdGenerator, F: Firewall, T: TokenGenerator> QuicheBackend<G, F, T> {
    /// What the backend is.
    pub closed spec fn view(&self) -> BackendModel {
        BackendModel {
            connections: self.connections@,
            buffer: self.io@,
            scheduled: self.time.scheduled(),
            fired: self.time.fired(),
            now: self.time.spec_now(),
            now_sys: self.now_sys,
            sessions: self.session_cache,
            events: self.events@,
            listen_addr: self.listen_addr,
            open: self.open,
        }
    }

    /// What the backend is configured with.
    pub closed spec fn settings(&self) -> Settings {
        Settings {
            client: match self.config.client {
                Some(client) => Some(client.establish_timeout),
                None => None,
            },
            server: match self.config.server {
                Some(server) => Some(server.establish_timeout),
                None => None,
            },
            cid_len: self.config.connection_id_generator.spec_cid_len(),
        }
    }

    /// The firewall and the token generator of the server, if one is configured.
    pub closed spec fn server(&self) -> Option<(F, T)> {
        match self.config.server {
            Some(server) => Some((server.firewall, server.token_generator)),
            None => None,
        }
    }

    /// The parts of the backend are well-formed, and its clocks show a time that can be added to.
    pub closed spec fn wf(&self) -> bool {
        &&& self.connections.wf()
        &&& self.io.wf()
        &&& !self.io@.reserved
        &&& self.time.wf()
        &&& self.time.spec_now().nanos <= MAX_CLOCK_NANOS
        &&& -(MAX_CLOCK_NANOS as int) <= self.now_sys.nanos <= MAX_CLOCK_NANOS
        &&& Self::has_short_timeouts(self.config)
    }

    /// The timeouts are short enough to be added to a time.
    pub open spec fn has_short_timeouts(config: Config<G, F, T>) -> bool {
        &&& config.client matches Some(client) ==> (client.establish_timeout matches Some(timeout)
            ==> timeout.nanos <= MAX_CLOCK_NANOS)
        &&& config.server matches Some(server) ==> server.establish_timeout.nanos
            <= MAX_CLOCK_NANOS
    }

    /// Creates a new instance of the backend.
    ///
    /// * `config`: configuration to use.
    /// * `listen_addr`: address where the local socket is bound to, **may** be unspecified.
    /// * `now`, `now_sys`: current time.
    pub fn new(config: Config<G, F, T>, listen_addr: IpAddr, now: Instant, now_sys: SystemTime) -> (r:
        Self)
        requires
            config.has_cache_times(),
            Self::has_short_timeouts(config),
            now.nanos <= MAX_CLOCK_NANOS,
            -(MAX_CLOCK_NANOS as int) <= now_sys.nanos <= MAX_CLOCK_NANOS,
        ensures
            r.wf(),
            r@.open,
            r@.listen_addr == listen_addr,
            r@.now == now,
            r@.now_sys == now_sys,
            r@.connections == (ConnectionsModel {
                all: Map::empty(),
                cids: Map::empty(),
                addrs: Map::empty(),
                active: Seq::empty(),
            }),
            r@.scheduled.len() == 0,
            r@.fired.len() == 0,
            r@.events.len() == 0,
            match config.client {
                Some(client) => r@.sessions.is_new(
                    client.session_cache_max_capacity,
                    client.session_cache_time_to_live,
                    client.session_cache_time_to_idle,
                ),
                None => r@.sessions.is_new(0, None, None),
            },
            r@.sessions@ == Map::<Seq<char>, Seq<u8>>::empty(),
            r@.buffer.bytes.len() == if config.out_buffer_size < 2048 {
                2048
            } else {
                config.out_buffer_size as int
            },
            r@.buffer.chunks.len() == 0,
            r.settings() == (Settings {
                client: match config.client {
                    Some(client) => Some(client.establish_timeout),
                    None => None,
                },
                server: match config.server {
                    Some(server) => Some(server.establish_timeout),
                    None => None,
                },
                cid_len: config.connection_id_generator.spec_cid_len(),
            }),
            r.server() == match config.server {
                Some(server) => Some((server.firewall, server.token_generator)),
                None => None,
            },
    {
        let mut config = config;
        config.fix();
        let session_cache = match &config.client {
            Some(client) => SessionCache::new(
                client.session_cache_max_capacity,
                client.session_cache_time_to_live,
                client.session_cache_time_to_idle,
            ),
            None => SessionCache::new(0, None, None),
        };
        Self {
            connections: Connections::new(),
            io: IO::new(config.out_buffer_size),
            time: Time::new(now),
            now_sys,
            session_cache,
            events: BackendEvents::new(),
            listen_addr,
            config,
            open: true,
        }
    }

    /// Updates current clocks with current time.
    pub fn clock_update(&mut self, now: Instant, now_sys: SystemTime)
        requires
            old(self).wf(),
            now.nanos <= MAX_CLOCK_NANOS,
            -(MAX_CLOCK_NANOS as int) <= now_sys.nanos <= MAX_CLOCK_NANOS,
        ensures
            final(self).wf(),
            final(self)@ == (BackendModel { now, now_sys, ..old(self)@ }),
            final(self).settings() == old(self).settings(),
            final(self).server() == old(self).server(),
    {
        self.time.update_clock(now);
        self.now_sys = now_sys;
    }

    /// Takes out the events that the backend has produced.
    pub fn events(&mut self) -> (r: Vec<Event<QuicheConnectionId>>)
        requires
            old(self).wf(),
        ensures
            final(self).wf(),
            r@ == old(self)@.events,
            final(self)@ == (BackendModel { events: Seq::empty(), ..old(self)@ }),
            final(self).settings() == old(self).settings(),
            final(self).server() == old(self).server(),
    {
        self.events.take()
    }

    /// Returns the memory of outgoing packets.
    pub fn io(&mut self) -> (r: &mut IO)
        requires
            old(self).wf(),
        ensures
            r@ == old(self)@.buffer,
            r.wf(),
            !r@.reserved,
            final(self)@ == (BackendModel { buffer: final(r)@, ..old(self)@ }),
            final(self).settings() == old(self).settings(),
            final(self).server() == old(self).server(),
            final(r).wf() && !final(r)@.reserved ==> final(self).wf(),
    {
        &mut self.io
    }

    /// Returns `true` if backend is ready to be closed: no connection is left.
    pub fn close_ready(&self) -> (r: bool)
        ensures
            r == (self@.connections.all.len() == 0),
    {
        self.connections.all_len() == 0
    }

    /// Closes the backend.
    ///
    /// Returns the connections that are to be closed, or `None` if backend is already closed.
    pub fn close(&mut self) -> (r: Option<Vec<ConnectionKey>>)
        requires
            old(self).wf(),
        ensures
            final(self).wf(),
            final(self).settings() == old(self).settings(),
            final(self).server() == old(self).server(),
            r is Some <==> old(self)@.open,
            r is None ==> final(self)@ == old(self)@,
            r matches Some(keys) ==> {
                &&& connections::is_all_keys(old(self)@.connections.all, keys@)
                &&& final(self)@ == (BackendModel {
                    open: false,
                    connections: ConnectionsModel {
                        active: connections::all_enqueued(old(self)@.connections.active, keys@),
                        ..old(self)@.connections
                    },
                    ..old(self)@
                })
            },
    {
        if !self.open {
            return None;
        }
        self.open = false;
        Some(self.connections.all_iter_mark_active())
    }

    /// Converts an IP address into socket address,
    /// for Quiche to consume.
    ///
    /// Quiche doesn't perform any special logic using port,
    /// therefore we just hardcode it.
    pub fn to_sock_addr(ip: IpAddr) -> (r: SocketAddr)
        ensures
            r == SocketAddr::of(ip, u16::MAX),
    {
        SocketAddr::new(ip, u16::MAX)
    }

    /// Begins an attempt to connect.
    ///
    /// Returns the source connection ID and the local address of the new connection.
    pub fn begin_connect(&self) -> (r: Result<(ConnectionId, SocketAddr), Error>)
        requires
            self.wf(),
        ensures
            match r {
                Err(Error::Closed) => !self@.open,
                Err(Error::Illegal) => self@.open && self.settings().client is None,
                Err(_) => false,
                Ok((scid, local_addr)) => {
                    &&& self@.open && self.settings().client is Some
                    &&& scid@.len() == self.settings().cid_len
                    &&& local_addr == SocketAddr::of(self@.listen_addr, u16::MAX)
                },
            },
    {
        if !self.open {
            return Err(Error::Closed);
        }
        if self.config.client.is_none() {
            return Err(Error::Illegal);
        }
        let scid = self.config.connection_id_generator.generate();
        Ok((scid, Self::to_sock_addr(self.listen_addr)))
    }
}

impl<G: ConnectionIdGenerator, F: Firewall, T: TokenGenerator> QuicheBackend<G, F, T> {
    /// Schedules an event of a connection, in place of the one of its kind before.
    fn schedule(&mut self, connection_key: ConnectionKey, kind: TimerKind, at: Option<Instant>)
        requires
            old(self).wf(),
        ensures
            final(self).wf(),
            final(self).settings() == old(self).settings(),
            final(self).server() == old(self).server(),
            old(self)@.is_scheduled_if(connection_key, kind, at, final(self)@),
    {
        let Some(at) = at else {
            return;
        };
        let ghost before = self@;
        let Some(connection) = self.connections.get_mut(connection_key) else {
            return;
        };
        let previous_key = connection.pop_timer_key(kind);
        let key = self.time.reschedule(TimerEvent { connection_key, kind }, at, previous_key);
        connection.set_timer_key(kind, Some(key));
        assert(before.is_scheduled(connection_key, kind, at, self@));
    }

    /// Schedules a pacer event.
    ///
    /// If `release_time` is `None`, the default [Connection::get_next_release_time] will be used.
    ///
    /// It is forbidden by pacing algorithm to send packets until the event fires.
    ///
    /// * `decision`: when a next packet may be sent, as `quiche` says.
    pub fn schedule_pacer(
        &mut self,
        connection_key: ConnectionKey,
        release_time: Option<Instant>,
        decision: Option<ReleaseDecision>,
    )
        requires
            old(self).wf(),
        ensures
            final(self).wf(),
            final(self).settings() == old(self).settings(),
            final(self).server() == old(self).server(),
            old(self)@.is_scheduled_if(
                connection_key,
                TimerKind::Pacer,
                match release_time {
                    Some(time) => Some(time),
                    None => match decision {
                        Some(ReleaseDecision { can_burst: false, time: Some(time) }) if time.since(
                            old(self)@.now,
                        ) > connection::PACER_GRANULARITY_NANOS => Some(time),
                        _ => None,
                    },
                },
                final(self)@,
            ),
    {
        let release_time: Option<Instant> = match release_time {
            Some(time) => Some(time),
            None => Connection::get_next_release_time(decision, self.time.now()),
        };
        self.schedule(connection_key, TimerKind::Pacer, release_time);
    }

    /// Schedules an Quiche timeout event.
    ///
    /// If `timeout_at` is `None`, the default timeout of `quiche` will be used.
    ///
    /// `quiche` has to handle the timeout if the event fires.
    ///
    /// * `quiche_timeout_at`: the time at which a timeout happens, as `quiche` says.
    pub fn schedule_quiche_timeout(
        &mut self,
        connection_key: ConnectionKey,
        timeout_at: Option<Instant>,
        quiche_timeout_at: Option<Instant>,
    )
        requires
            old(self).wf(),
        ensures
            final(self).wf(),
            final(self).settings() == old(self).settings(),
            final(self).server() == old(self).server(),
            old(self)@.is_scheduled_if(
                connection_key,
                TimerKind::QuicheTimeout,
                match timeout_at {
                    Some(time) => Some(time),
                    None => quiche_timeout_at,
                },
                final(self)@,
            ),
    {
        let timeout_at: Option<Instant> = match timeout_at {
            Some(time) => Some(time),
            None => quiche_timeout_at,
        };
        self.schedule(connection_key, TimerKind::QuicheTimeout, timeout_at);
    }

    /// Schedules an establishment timeout event.
    ///
    /// If `timeout_at` is `None`, the default config's timeout will be used.
    ///
    /// Connection has to become established
    /// before the event fires, or else the connection has to be closed.
    pub fn schedule_establish_timeout(
        &mut self,
        connection_key: ConnectionKey,
        timeout_at: Option<Instant>,
    )
        requires
            old(self).wf(),
        ensures
            final(self).wf(),
            final(self).settings() == old(self).settings(),
            final(self).server() == old(self).server(),
            old(self)@.is_scheduled_if(
                connection_key,
                TimerKind::EstablishTimeout,
                match timeout_at {
                    Some(time) => Some(time),
                    None => old(self)@.establish_deadline(
                        old(self).settings(),
                        old(self)@.connection(connection_key).is_server,
                    ),
                },
                final(self)@,
            ),
            old(self)@.has(connection_key) && timeout_at is None && old(self)@.connection(
                connection_key,
            ).is_server && old(self).settings().server is Some ==> {
                &&& final(self)@.scheduled.len() > 0
                &&& final(self)@.scheduled.last().at.nanos == old(self)@.now.nanos + old(
                    self,
                ).settings().server->0.nanos
            },
    {
        let Some(connection) = self.connections.get(connection_key) else {
            return;
        };
        let timeout_at: Option<Instant> = match timeout_at {
            Some(time) => Some(time),
            None => {
                let timeout: Option<Duration> = if connection.is_server {
                    match &self.config.server {
                        Some(server) => Some(server.establish_timeout),
                        None => None,
                    }
                } else {
                    match &self.config.client {
                        Some(client) => client.establish_timeout,
                        None => None,
                    }
                };
                match timeout {
                    Some(timeout) => Some(
                        Instant { nanos: self.time.now().nanos + timeout.nanos },
                    ),
                    None => None,
                }
            },
        };
        self.schedule(connection_key, TimerKind::EstablishTimeout, timeout_at);
    }

    /// Registers a new, unestablished connection.
    ///
    /// Schedules connection events,
    /// that are available on this moment.
    ///
    /// Returns a unique assigned ID for this connection,
    /// that will never change and should be used to get this connection next time.
    ///
    /// * `source_cid`: the source connection ID.
    /// * `active_path_addr`: the peer's address of the active path, if there is one.
    /// * `peer_addr`: the peer's address.
    /// * `quiche_timeout_at`: the time at which a timeout happens, as `quiche` says.
    pub fn register_new_connection(
        &mut self,
        connection: Connection,
        source_cid: &ConnectionId,
        active_path_addr: Option<SocketAddr>,
        peer_addr: SocketAddr,
        quiche_timeout_at: Option<Instant>,
    ) -> (r: QuicheConnectionId)
        requires
            old(self).wf(),
            old(self)@.connections.all.len() < u32::MAX - 1,
        ensures
            final(self).wf(),
            final(self).settings() == old(self).settings(),
            final(self).server() == old(self).server(),
            old(self)@.is_registered(
                old(self).settings(),
                connection,
                source_cid@,
                match active_path_addr {
                    Some(addr) => addr,
                    None => peer_addr,
                },
                quiche_timeout_at,
                r,
                final(self)@,
            ),
    {
        let is_server: bool = connection.is_server;
        let connection_id = self.connections.insert(
            connection,
            source_cid,
            active_path_addr,
            peer_addr,
        );
        let ghost inserted = self@;
        self.schedule_quiche_timeout(connection_id.key, None, quiche_timeout_at);
        let ghost timed = self@;
        self.schedule_establish_timeout(connection_id.key, None);
        let ghost established = self@;
        self.events.push(Event::Connection(ConnectionEvent::New { connection_id, is_server }));
        proof {
            assert(inserted.is_scheduled_if(
                connection_id.key,
                TimerKind::QuicheTimeout,
                quiche_timeout_at,
                timed,
            ));
            assert(timed.connection(connection_id.key).is_server == is_server);
            let event = Event::Connection(ConnectionEvent::New { connection_id, is_server });
            assert(self@ == established.pushed(event));
        }
        connection_id
    }

    /// Cancels all events related to this connection.
    fn cancel_all(&mut self, connection: &mut Connection)
        requires
            old(self).wf(),
        ensures
            final(self).wf(),
            final(self).settings() == old(self).settings(),
            final(self).server() == old(self).server(),
            final(self)@ == old(self)@.all_descheduled(*old(connection)),
    {
        let pacer = connection.pop_timer_key(TimerKind::Pacer);
        self.time.cancel(pacer);
        let timeout = connection.pop_timer_key(TimerKind::QuicheTimeout);
        self.time.cancel(timeout);
        let establish = connection.pop_timer_key(TimerKind::EstablishTimeout);
        self.time.cancel(establish);
    }

    /// Forgets closed or dead connection, clean ups its resources.
    ///
    /// * `status`: how the connection was closed.
    pub fn forget_connection(&mut self, connection_key: ConnectionKey, status: &CloseStatus)
        requires
            old(self).wf(),
        ensures
            final(self).wf(),
            final(self).settings() == old(self).settings(),
            final(self).server() == old(self).server(),
            old(self)@.is_forgotten(connection_key, *status, final(self)@),
    {
        let Some(mut connection) = self.connections.remove(connection_key) else {
            return;
        };
        let ghost before = connection;
        let event = connection.get_close_event(connection_key, status);
        let ghost told = event;
        self.events.push_connection(event);
        self.cancel_all(&mut connection);
        proof {
            match told {
                Some(e) => {
                    assert(connection::is_close_event_of(
                        e,
                        before.spec_id(connection_key),
                        *status,
                    ));
                },
                None => {},
            }
        }
    }
}

impl<G: ConnectionIdGenerator, F: Firewall, T: TokenGenerator> QuicheBackend<G, F, T> {
    /// Writes new stream/datagram readable/writable events.
    ///
    /// * `readiness`: what an application can read and write.
    pub fn write_stream_dgram_events(
        &mut self,
        connection_key: ConnectionKey,
        readiness: &Readiness,
    )
        requires
            old(self).wf(),
        ensures
            final(self).wf(),
            final(self).settings() == old(self).settings(),
            final(self).server() == old(self).server(),
            final(self)@ == old(self)@.told_readiness(connection_key, *readiness),
    {
        let Some(connection) = self.connections.get_mut(connection_key) else {
            return;
        };
        let events = tell_readiness(connection, connection_key, readiness);
        self.events.extend(events);
    }

    /// Allocates new server source connection IDs for the peer.
    ///
    /// Without spare SCIDs (peer's Destination CIDs),
    /// peer will not be able to perform active migration.
    ///
    /// If current CID generator generates zero-length CIDs,
    /// this method is no-op.
    ///
    /// Those that `quiche` takes are to be registered
    /// via [`update_scids_dict`](Self::update_scids_dict).
    ///
    /// * `is_established`: the connection is established.
    /// * `scids_left`: how many more source connection IDs `quiche` takes.
    pub fn allocate_scids(
        &mut self,
        connection_key: ConnectionKey,
        is_established: bool,
        scids_left: usize,
    ) -> (r: Vec<NewScid>)
        requires
            old(self).wf(),
        ensures
            final(self).wf(),
            final(self).settings() == old(self).settings(),
            may_allocate(old(self).server(), r@, final(self).server()),
            final(self)@ == old(self)@.allocated(old(self).settings(), connection_key),
            r@.len() == old(self)@.allocated_count(
                old(self).settings(),
                connection_key,
                is_established,
                scids_left,
            ),
            forall|i: int|
                0 <= i < r@.len() ==> (#[trigger] r@[i]).scid@.len() == old(self).settings().cid_len,
    {
        let mut scids: Vec<NewScid> = Vec::new();
        if self.config.connection_id_generator.cid_len() == 0 {
            return scids;
        }
        if self.config.server.is_none() || self.connections.get(connection_key).is_none() {
            return scids;
        }
        self.connections.mark_active(connection_key);
        if !is_established {
            return scids;
        }
        let ghost m = self@;
        let ghost s = self.settings();
        let ghost generator = generator_of(old(self).server());
        while scids.len() < scids_left
            invariant
                self.wf(),
                self@ == m,
                self.settings() == s,
                s.server is Some,
                generator == generator_of(old(self).server()),
                may_allocate(old(self).server(), scids@, self.server()),
                self.server() is Some,
                scids@.len() <= scids_left,
                forall|i: int| 0 <= i < scids@.len() ==> (#[trigger] scids@[i]).scid@.len() == s.cid_len,
            decreases scids_left - scids@.len(),
        {
            let ghost allocated = scids@;
            let ghost before = generator_of(self.server());
            let scid = self.config.connection_id_generator.generate();
            if let Some(server) = &mut self.config.server {
                let reset_token = server.token_generator.generate_reset_token(scid.as_slice());
                scids.push(NewScid { scid, reset_token });
            }
            proof {
                assert(scids@.drop_last() =~= allocated);
                assert(may_reset_all(generator, allocated, before));
                assert(T::may_generate_reset(
                    before,
                    scids@.last().scid@,
                    scids@.last().reset_token@,
                    generator_of(self.server()),
                ));
            }
        }
        scids
    }

    /// Registers the source connection IDs of a connection.
    pub fn update_scids_dict(
        &mut self,
        connection_key: ConnectionKey,
        source_ids: &Vec<Vec<u8>>,
        retired_ids: &Vec<Vec<u8>>,
    )
        requires
            old(self).wf(),
        ensures
            final(self).wf(),
            final(self).settings() == old(self).settings(),
            final(self).server() == old(self).server(),
            final(self)@ == if old(self)@.has(connection_key) {
                BackendModel {
                    connections: ConnectionsModel {
                        cids: connections::cids_removed(
                            connections::cids_added(
                                old(self)@.connections.cids,
                                source_ids@,
                                connection_key@,
                            ),
                            retired_ids@,
                        ),
                        ..old(self)@.connections
                    },
                    ..old(self)@
                }
            } else {
                old(self)@
            },
    {
        self.connections.update_scids_dict(connection_key, source_ids, retired_ids);
    }

    fn store_session(&mut self, is_server: bool, handshake: &Handshake)
        requires
            old(self).wf(),
        ensures
            final(self).wf(),
            final(self).settings() == old(self).settings(),
            final(self).server() == old(self).server(),
            final(self)@ == (BackendModel { sessions: final(self)@.sessions, ..old(self)@ }),
            BackendModel::is_session_stored(
                old(self)@.sessions,
                is_server,
                *handshake,
                final(self)@.sessions,
            ),
    {
        if is_server {
            return;
        }
        let Some(ticket) = &handshake.session else {
            return;
        };
        let Some(server_name) = &handshake.server_name else {
            return;
        };
        match ServerName::try_from(server_name.as_str()) {
            Ok(name) => {
                let text = name.to_text();
                let tls_ticket: Vec<u8> = vstd::slice::slice_to_vec(ticket.as_slice());
                self.session_cache.insert(text, QuicSession::new(tls_ticket));
                assert(name::name_of(
                    name::ip_of_text(server_name@),
                    name::domain_of_text(server_name@),
                    Ok(name),
                ));
            },
            Err(_) => {},
        }
    }

    /// Checks the `Handshake` progress on this connection.
    ///
    /// If connection is fully established,
    /// cancels an establishment timeout and
    /// generates spare CIDs for the peer to use.
    pub fn check_connection_handshake_progress(
        &mut self,
        connection_key: ConnectionKey,
        handshake: &Handshake,
    ) -> (r: Vec<NewScid>)
        requires
            old(self).wf(),
        ensures
            final(self).wf(),
            final(self).settings() == old(self).settings(),
            may_allocate(old(self).server(), r@, final(self).server()),
            old(self)@.is_progressed(
                old(self).settings(),
                connection_key,
                *handshake,
                final(self)@,
            ),
            r@.len() == old(self)@.allocated_count(
                old(self).settings(),
                connection_key,
                handshake.is_established,
                handshake.scids_left,
            ),
            forall|i: int|
                0 <= i < r@.len() ==> (#[trigger] r@[i]).scid@.len() == old(self).settings().cid_len,
    {
        let ghost before = self@;
        let Some(connection) = self.connections.get_mut(connection_key) else {
            return Vec::new();
        };
        if !handshake.is_established {
            proof {
                assert(before.connections.all.insert(
                    connection_key@,
                    before.connection(connection_key),
                ) =~= before.connections.all);
            }
            return Vec::new();
        }
        let is_server: bool = connection.is_server;
        let key = connection.pop_timer_key(TimerKind::EstablishTimeout);
        self.time.cancel(key);
        assert(self@ == before.without_establish_timeout(connection_key));
        self.store_session(is_server, handshake);
        self.allocate_scids(connection_key, handshake.is_established, handshake.scids_left)
    }

    /// Handles events of the network paths of a connection.
    ///
    /// * `is_established`: the connection is established.
    /// * `scids_left`: how many more source connection IDs `quiche` takes.
    pub fn handle_path_events(
        &mut self,
        connection_key: ConnectionKey,
        events: &Vec<PathEvent>,
        is_established: bool,
        scids_left: usize,
    ) -> (r: Vec<NewScid>)
        requires
            old(self).wf(),
        ensures
            final(self).wf(),
            final(self).settings() == old(self).settings(),
            may_allocate(old(self).server(), r@, final(self).server()),
            final(self)@ == old(self)@.after_path_events(
                old(self).settings(),
                connection_key,
                events@,
            ),
            r@.len() == if events@.contains(PathEvent::PeerMigrated) {
                old(self)@.allocated_count(
                    old(self).settings(),
                    connection_key,
                    is_established,
                    scids_left,
                )
            } else {
                0
            },
            forall|i: int|
                0 <= i < r@.len() ==> (#[trigger] r@[i]).scid@.len() == old(self).settings().cid_len,
    {
        if self.connections.get(connection_key).is_none() {
            return Vec::new();
        }
        if has_event(events, PathEvent::Validated) {
            self.connections.mark_verified(connection_key);
        }
        if has_event(events, PathEvent::PeerMigrated) {
            return self.allocate_scids(connection_key, is_established, scids_left);
        }
        Vec::new()
    }
}

/// A token generator may generate the reset tokens of connection IDs, in order.
pub open spec fn may_reset_all<T: TokenGenerator>(before: T, scids: Seq<NewScid>, after: T) -> bool
    decreases scids.len(),
{
    if scids.len() == 0 {
        after == before
    } else {
        exists|between: T|
            may_reset_all(before, scids.drop_last(), between) && #[trigger] T::may_generate_reset(
                between,
                scids.last().scid@,
                scids.last().reset_token@,
                after,
            )
    }
}

/// The token generator of a server.
pub open spec fn generator_of<F, T>(server: Option<(F, T)>) -> T {
    let (_, generator) = server->0;
    generator
}

/// A server may allocate connection IDs, the reset tokens of which its token generator generates.
/// Without a server there are none.
pub open spec fn may_allocate<F, T: TokenGenerator>(
    before: Option<(F, T)>,
    scids: Seq<NewScid>,
    after: Option<(F, T)>,
) -> bool {
    match (before, after) {
        (Some((firewall, generator)), Some((same_firewall, next_generator))) => same_firewall
            == firewall && may_reset_all(generator, scids, next_generator),
        _ => scids.len() == 0 && before is None && after is None,
    }
}

proof fn lemma_allocate_more<F, T: TokenGenerator>(
    before: Option<(F, T)>,
    first: Seq<NewScid>,
    between: Option<(F, T)>,
    second: Seq<NewScid>,
    after: Option<(F, T)>,
)
    requires
        may_allocate(before, first, between),
        may_allocate(between, second, after),
    ensures
        may_allocate(before, first + second, after),
{
    if before is Some {
        lemma_reset_more(
            generator_of(before),
            first,
            generator_of(between),
            second,
            generator_of(after),
        );
    }
}

proof fn lemma_reset_more<T: TokenGenerator>(
    before: T,
    first: Seq<NewScid>,
    between: T,
    second: Seq<NewScid>,
    after: T,
)
    requires
        may_reset_all(before, first, between),
        may_reset_all(between, second, after),
    ensures
        may_reset_all(before, first + second, after),
    decreases second.len(),
{
    let all = first + second;
    if second.len() == 0 {
        assert(all =~= first);
    } else {
        let last = choose|last: T|
            may_reset_all(between, second.drop_last(), last) && #[trigger] T::may_generate_reset(
                last,
                second.last().scid@,
                second.last().reset_token@,
                after,
            );
        lemma_reset_more(before, first, between, second.drop_last(), last);
        assert(all.drop_last() =~= first + second.drop_last());
        assert(all.last() == second.last());
    }
}

/// What is to be done after a scheduled event was fired.
#[derive(Debug, Clone, Copy, PartialEq, Eq, Structural)]
pub enum TimerAction {
    /// There is nothing to do.
    Nothing,
    /// `quiche` has to handle a timeout.
    HandleTimeout,
    /// `quiche` has to refuse the connection.
    Refuse,
    /// The connection is forgotten.
    Forgotten,
}

/// Whether a connection takes part in an exchange of packets.
#[derive(Debug, Clone, Copy, PartialEq, Eq, Structural)]
pub enum Exchange {
    /// The connection gets or sends packets.
    HandOver,
    /// The connection is forgotten: no packet is handed to it or taken from it.
    Forgotten,
}

/// A result of an attempt to send packets.
#[derive(Debug, Clone, Copy, PartialEq, Eq, Structural)]
pub enum SendResult {
    /// Everything is done,
    /// connection should be no more active.
    Done,
    /// Connection needs to be polled,
    /// but it should lose it's place in the queue.
    ///
    /// Can move to the next connection.
    Reactivate,
    /// Connection needs to be polled
    /// without losing it's place in the queue.
    ///
    /// No further connections may be handled.
    StopAndRetry,
}

impl<G: ConnectionIdGenerator, F: Firewall, T: TokenGenerator> QuicheBackend<G, F, T> {
    /// Ticks, and takes out the scheduled events that have fired.
    ///
    /// Returns the time at which the next one fires, too.
    pub fn fired_events(&mut self) -> (r: (Vec<TimerEvent>, Option<Instant>))
        requires
            old(self).wf(),
        ensures
            final(self).wf(),
            final(self).settings() == old(self).settings(),
            final(self).server() == old(self).server(),
            r.0@ == old(self)@.fired + deadline::due(old(self)@.scheduled, old(self)@.now),
            final(self)@ == (BackendModel {
                fired: Seq::empty(),
                scheduled: deadline::waiting(old(self)@.scheduled, old(self)@.now),
                ..old(self)@
            }),
            deadline::is_earliest(final(self)@.scheduled, r.1),
    {
        let (next, _) = self.time.tick();
        (self.time.fired_events(), next)
    }

    /// Handles a fired event.
    ///
    /// * `is_established`: the connection is established.
    /// * `status`: how the connection was closed.
    pub fn handle_scheduled_event(
        &mut self,
        event: TimerEvent,
        is_established: bool,
        status: &CloseStatus,
    ) -> (r: TimerAction)
        requires
            old(self).wf(),
        ensures
            final(self).wf(),
            final(self).settings() == old(self).settings(),
            final(self).server() == old(self).server(),
            ({
                let key = event.connection_key;
                let marked = old(self)@.marked(key);
                let halted = marked.halted(key, HaltKind::Timeout);
                if !old(self)@.has(key) {
                    r == TimerAction::Nothing && final(self)@ == old(self)@
                } else {
                    match event.kind {
                        TimerKind::Pacer => r == TimerAction::Nothing && final(self)@ == marked,
                        TimerKind::QuicheTimeout => r == TimerAction::HandleTimeout && final(self)@
                            == marked,
                        TimerKind::EstablishTimeout => if is_established {
                            r == TimerAction::Nothing && final(self)@ == marked
                        } else if old(self)@.connection(key).is_server {
                            r == TimerAction::Refuse && final(self)@ == halted
                        } else {
                            r == TimerAction::Forgotten && halted.is_forgotten(
                                key,
                                *status,
                                final(self)@,
                            )
                        },
                    }
                }
            }),
    {
        let key = event.connection_key;
        if self.connections.get(key).is_none() {
            return TimerAction::Nothing;
        }
        self.connections.mark_active(key);
        match event.kind {
            TimerKind::Pacer => {
                // We've already marked a connection as active,
                // that's enough.
                TimerAction::Nothing
            },
            TimerKind::QuicheTimeout => TimerAction::HandleTimeout,
            TimerKind::EstablishTimeout => {
                if is_established {
                    return TimerAction::Nothing;
                }
                let is_server: bool = self.halt(key, HaltKind::Timeout);
                if is_server {
                    TimerAction::Refuse
                } else {
                    self.forget_connection(key, status);
                    TimerAction::Forgotten
                }
            },
        }
    }

    /// Writes a halt event, unless there was a close event before.
    ///
    /// Returns whether the peer initiated the connection.
    fn halt(&mut self, key: ConnectionKey, kind: HaltKind) -> (r: bool)
        requires
            old(self).wf(),
            old(self)@.has(key),
        ensures
            final(self).wf(),
            final(self).settings() == old(self).settings(),
            final(self).server() == old(self).server(),
            final(self)@ == old(self)@.halted(key, kind),
            r == old(self)@.connection(key).is_server,
    {
        let Some(connection) = self.connections.get_mut(key) else {
            return false;
        };
        let is_server: bool = connection.is_server;
        let event = connection.get_halt_event(key, kind);
        self.events.push_connection(event);
        is_server
    }

    /// Writes a close event, unless there was one before.
    fn tell_close(&mut self, key: ConnectionKey, status: &CloseStatus)
        requires
            old(self).wf(),
            old(self)@.has(key),
        ensures
            final(self).wf(),
            final(self).settings() == old(self).settings(),
            final(self).server() == old(self).server(),
            old(self)@.is_closed(key, *status, final(self)@),
    {
        let ghost before = self@;
        let Some(connection) = self.connections.get_mut(key) else {
            return;
        };
        let event = connection.get_close_event(key, status);
        let ghost told = event;
        self.events.push_connection(event);
        proof {
            match told {
                Some(e) => {
                    assert(connection::is_close_event_of(
                        e,
                        before.connection(key).spec_id(key),
                        *status,
                    ));
                },
                None => {},
            }
        }
    }

    /// Finds the connection that a packet is to be delegated to, and marks it as active.
    ///
    /// Returns `None` if there is no such connection.
    pub fn route_packet(&mut self, peer_dcid: &[u8], peer_addr: SocketAddr) -> (r: Option<
        ConnectionKey,
    >)
        requires
            old(self).wf(),
        ensures
            final(self).wf(),
            final(self).settings() == old(self).settings(),
            final(self).server() == old(self).server(),
            ({
                let found = old(self)@.connections.found(peer_dcid@, peer_addr);
                match r {
                    Some(key) => {
                        &&& found == Some(key@)
                        &&& old(self)@.has(key)
                        &&& final(self)@ == old(self)@.marked(key)
                    },
                    None => {
                        &&& found is None || !old(self)@.connections.all.contains_key(found->0)
                        &&& final(self)@ == old(self)@
                    },
                }
            }),
    {
        let Some(key) = self.connections.find_connection_key(peer_dcid, peer_addr) else {
            return None;
        };
        if self.connections.get(key).is_none() {
            return None;
        }
        self.connections.mark_active(key);
        Some(key)
    }

    /// Decides how a received packet is handled.
    ///
    /// * `header`: `None` if the packet has no valid header; otherwise,
    ///   whether it is an `Initial` one, and its destination connection ID.
    pub fn recv(&mut self, header: Option<(bool, &[u8])>, peer_addr: SocketAddr) -> (r: RecvAction)
        requires
            old(self).wf(),
        ensures
            final(self).wf(),
            final(self).settings() == old(self).settings(),
            final(self).server() == old(self).server(),
            ({
                let m = old(self)@;
                match header {
                    None => r is Drop && final(self)@ == m,
                    Some((true, _)) => {
                        &&& r == if m.open {
                            RecvAction::HandleInitial
                        } else {
                            RecvAction::Drop
                        }
                        &&& final(self)@ == m
                    },
                    Some((false, peer_dcid)) => {
                        let found = m.connections.found(peer_dcid@, peer_addr);
                        if found is Some && m.connections.all.contains_key(found->0) {
                            &&& r matches RecvAction::Delegate(key) && key@ == found->0
                                && final(self)@ == m.marked(key)
                        } else {
                            r is Reset && final(self)@ == m
                        }
                    },
                }
            }),
    {
        let Some((is_initial, peer_dcid)) = header else {
            return RecvAction::Drop;
        };
        if is_initial {
            if self.open {
                return RecvAction::HandleInitial;
            }
            return RecvAction::Drop;
        }
        // If there is a registered connection, it will handle this packet.
        //
        // For client connections, we immediately register them.
        //
        // For server connections, we register them on the first `Initial` packet,
        // or on the second `Initial` with a retry token.

        match self.route_packet(peer_dcid, peer_addr) {
            Some(key) => RecvAction::Delegate(key),
            None => RecvAction::Reset,
        }
    }

    /// Decides whether a connection takes part in an exchange of packets: a closed one is forgotten,
    /// and neither gets a packet nor sends one.
    ///
    /// * `is_closed`, `status`: whether and how the connection was closed.
    pub fn begin_exchange(
        &mut self,
        connection_key: ConnectionKey,
        is_closed: bool,
        status: &CloseStatus,
    ) -> (r: Exchange)
        requires
            old(self).wf(),
        ensures
            final(self).wf(),
            final(self).settings() == old(self).settings(),
            final(self).server() == old(self).server(),
            r == if is_closed || !old(self)@.has(connection_key) {
                Exchange::Forgotten
            } else {
                Exchange::HandOver
            },
            is_closed ==> old(self)@.is_forgotten(connection_key, *status, final(self)@),
            is_closed ==> !final(self)@.has(connection_key),
            !is_closed ==> final(self)@ == old(self)@,
    {
        if is_closed {
            self.forget_connection(connection_key, status);
            return Exchange::Forgotten;
        }
        match self.connections.get(connection_key) {
            Some(_) => Exchange::HandOver,
            None => Exchange::Forgotten,
        }
    }

    /// Returns `true` if the source connection IDs of a connection are to be registered
    /// via [`update_scids_dict`](Self::update_scids_dict) once a packet was delegated to it:
    /// if as many as `quiche` takes are allocated then, be it none.
    pub fn updates_scids_dict(&self, connection_key: ConnectionKey, received: &Received) -> (r:
        bool)
        requires
            self.wf(),
        ensures
            r == self@.updates_scids(self.settings(), connection_key, *received),
    {
        let is_triggered = (received.error.is_none() && received.is_handshake) || has_event(
            &received.path_events,
            PathEvent::PeerMigrated,
        );
        is_triggered && received.handshake.is_established
            && self.config.connection_id_generator.cid_len() != 0 && self.config.server.is_some()
            && self.connections.get(connection_key).is_some()
    }

    /// Delegates a packet to a connection that [takes part](Self::begin_exchange):
    /// takes what became of the packet.
    ///
    /// Returns source connection IDs for the peer to use.
    pub fn delegate_packet(&mut self, connection_key: ConnectionKey, received: &Received) -> (r: Vec<
        NewScid,
    >)
        requires
            old(self).wf(),
            old(self)@.has(connection_key),
        ensures
            final(self).wf(),
            final(self).settings() == old(self).settings(),
            may_allocate(old(self).server(), r@, final(self).server()),
            exists|after_recv: BackendModel|
                #![trigger old(self)@.is_after_recv(
                    old(self).settings(),
                    connection_key,
                    *received,
                    after_recv,
                )]
                {
                    &&& old(self)@.is_after_recv(
                        old(self).settings(),
                        connection_key,
                        *received,
                        after_recv,
                    )
                    &&& after_recv.after_path_events(
                        old(self).settings(),
                        connection_key,
                        received.path_events@,
                    ).told_readiness(connection_key, received.readiness).is_scheduled_if(
                        connection_key,
                        TimerKind::QuicheTimeout,
                        received.timeout_at,
                        final(self)@,
                    )
                },
            r@.len() == if old(self)@.updates_scids(
                old(self).settings(),
                connection_key,
                *received,
            ) {
                received.handshake.scids_left as nat
            } else {
                0
            },
            forall|i: int|
                0 <= i < r@.len() ==> (#[trigger] r@[i]).scid@.len() == old(self).settings().cid_len,
    {
        let mut scids: Vec<NewScid> = Vec::new();
        match &received.error {
            None => {
                if received.is_handshake {
                    let mut allocated = self.check_connection_handshake_progress(
                        connection_key,
                        &received.handshake,
                    );
                    scids.append(&mut allocated);
                }
            },
            Some(error) => {
                if received.is_closing {
                    if error.kind == QuicheErrorKind::UnknownVersion {
                        let _ = self.halt(connection_key, HaltKind::UnknownVersion);
                    }
                    self.tell_close(connection_key, &received.status);
                }
            },
        }
        let ghost after_recv = self@;
        let ghost first = scids@;
        let ghost between = self.server();
        let mut allocated = self.handle_path_events(
            connection_key,
            &received.path_events,
            received.handshake.is_established,
            received.handshake.scids_left - scids.len(),
        );
        proof {
            lemma_allocate_more(old(self).server(), first, between, allocated@, self.server());
        }
        scids.append(&mut allocated);
        self.write_stream_dgram_events(connection_key, &received.readiness);
        self.schedule_quiche_timeout(connection_key, None, received.timeout_at);
        assert(old(self)@.is_after_recv(
            old(self).settings(),
            connection_key,
            *received,
            after_recv,
        ));
        scids
    }

    /// Handles an `Initial` packet as a server.
    ///
    /// Returns what is to be done with it.
    #[verifier::spinoff_prover]
    pub fn handle_initial_packet_as_server(&mut self, header: &InitialHeader, from: SocketAddr) -> (r:
        InitialAction)
        requires
            old(self).wf(),
        ensures
            final(self).wf(),
            final(self)@ == old(self)@,
            final(self).settings() == old(self).settings(),
            match old(self).server() {
                None => r is Drop && final(self).server() is None,
                Some((firewall, generator)) => {
                    &&& final(self).server() matches Some((same_firewall, next_generator))
                    &&& same_firewall == firewall
                    &&& initial::may_act(
                        firewall,
                        generator,
                        *header,
                        from,
                        connections::count(
                            old(self)@.connections.all,
                            connections::server(),
                        ) as usize,
                        connections::count(
                            old(self)@.connections.all,
                            connections::unverified_server(),
                        ) as usize,
                        old(self)@.now_sys,
                        retry_expiration(old(self)@.now_sys, old(self).settings()),
                        r,
                        old(self).settings().cid_len,
                        next_generator,
                    )
                },
            },
            old(self).settings().server matches Some(timeout) ==> retry_expiration(
                old(self)@.now_sys,
                old(self).settings(),
            ).nanos == old(self)@.now_sys.nanos + timeout.nanos,
    {
        let total: usize = self.connections.server_connections_count();
        let unverified: usize = self.connections.server_unverified_connections_count();
        let now: SystemTime = self.now_sys;
        let Some(server) = &mut self.config.server else {
            return InitialAction::Drop;
        };
        let ghost firewall = server.firewall;
        let ghost generator = server.token_generator;

        // Verify version compliance.

        if !header.is_version_supported {
            return InitialAction::NegotiateVersion;
        }
        if header.scid.len() > MAX_CID_LEN || header.dcid.len() > MAX_CID_LEN {
            // This packet might be malicious: its version matches the one we support,
            // but its connection IDs do not follow the standard.
            return InitialAction::Drop;
        }
        // `Initial` token verification, conditional `Retry` response.

        let verdict = match &header.token {
            Some(token) => Some(
                server.token_generator.verify_token(
                    from.ip(),
                    header.scid.as_slice(),
                    header.dcid.as_slice(),
                    token.as_slice(),
                    now,
                ),
            ),
            None => None,
        };
        let ghost said = initial::verdict_of(verdict);
        let ghost verified = server.token_generator;
        assert(initial::may_say(generator, *header, from, now, said, verified));
        let worth = initial::weigh_token(verdict);
        let new_scid = self.config.connection_id_generator.generate();
        let ghost mut allowed = false;
        let action = match worth {
            TokenWorth::Drop => InitialAction::Drop,
            TokenWorth::Verified { peer_original_dcid } => InitialAction::Accept {
                new_scid,
                peer_original_dcid,
                peer_address_verified: true,
            },
            TokenWorth::Unverified => {
                if server.firewall.allow_unverified(from, total, unverified) {
                    proof {
                        allowed = true;
                    }
                    InitialAction::Accept {
                        new_scid,
                        peer_original_dcid: None,
                        peer_address_verified: false,
                    }
                } else {
                    let expires_at = SystemTime {
                        nanos: now.nanos + server.establish_timeout.nanos as i128,
                    };
                    let token = server.token_generator.generate_retry_token(
                        from.ip(),
                        header.scid.as_slice(),
                        header.dcid.as_slice(),
                        new_scid.as_slice(),
                        expires_at,
                    );
                    match token {
                        Some(token) => InitialAction::Retry {
                            new_scid,
                            token: vstd::slice::slice_to_vec(token),
                        },
                        // Should never happen,
                        // as we've verified the length of the every connection ID.
                        None => InitialAction::Drop,
                    }
                }
            },
        };
        assert(firewall.may_allow(from, total, unverified, allowed) || !initial::is_asked(said));
        assert(initial::may_follow(
            said,
            allowed,
            verified,
            *header,
            from,
            retry_expiration(now, old(self).settings()),
            action,
            old(self).settings().cid_len,
            server.token_generator,
        ));
        action
    }
}

/// Returns `true` if the event is among the given ones.
fn has_event(events: &Vec<PathEvent>, event: PathEvent) -> (r: bool)
    ensures
        r == events@.contains(event),
{
    let mut i: usize = 0;
    while i < events.len()
        invariant
            i <= events@.len(),
            forall|k: int| 0 <= k < i ==> (#[trigger] events@[k]) != event,
        decreases events@.len() - i,
    {
        if events[i] == event {
            assert(events@[i as int] == event);
            return true;
        }
        i = i + 1;
    }
    false
}

/// When the token of a `Retry` packet expires.
pub open spec fn retry_expiration(now: SystemTime, settings: Settings) -> SystemTime {
    SystemTime { nanos: (now.nanos + settings.server->0.nanos) as i128 }
}

/// What became of the migration of a connection, as `quiche` says.
pub enum Migrated {
    /// The connection has migrated, and its datagrams have a maximum length now.
    Done(Option<usize>),
    /// The connection could not migrate, and leaves a status behind.
    Failed(CloseStatus),
}

/// The backend after the applications were told of the migration of connections.
pub open spec fn told_migrations(
    m: BackendModel,
    migrations: Seq<(ConnectionKey, Migrated)>,
) -> BackendModel
    decreases migrations.len(),
{
    if migrations.len() == 0 {
        m
    } else {
        let before = told_migrations(m, migrations.drop_last());
        let (key, migrated) = migrations.last();
        if !before.has(key) {
            before
        } else {
            match migrated {
                Migrated::Done(len) => {
                    let connection = before.connection(key);
                    let size = Connection::told_size(len);
                    let sized = before.with(
                        key,
                        Connection { dgram_out_max_size: size, ..connection },
                    );
                    if connection.dgram_out_max_size == size {
                        sized
                    } else {
                        sized.pushed(
                            Event::Datagram(
                                DatagramEvent::OutNewSize(connection.spec_id(key), size),
                            ),
                        )
                    }
                },
                Migrated::Failed(_) => before.halted(key, HaltKind::MigrationFailed),
            }
        }
    }
}

/// The backend after a connection that has migrated was marked as active,
/// or one that has not was forgotten.
pub open spec fn is_settled_one(
    m: BackendModel,
    migration: (ConnectionKey, Migrated),
    after: BackendModel,
) -> bool {
    let key = migration.0;
    match migration.1 {
        Migrated::Done(_) => after == if m.has(key) {
            m.marked(key)
        } else {
            m
        },
        Migrated::Failed(status) => m.is_forgotten(key, status, after),
    }
}

/// The backend after connections that have migrated were marked as active,
/// and those that have not were forgotten.
pub open spec fn is_settled(
    m: BackendModel,
    migrations: Seq<(ConnectionKey, Migrated)>,
    after: BackendModel,
) -> bool
    decreases migrations.len(),
{
    if migrations.len() == 0 {
        after == m
    } else {
        exists|before: BackendModel|
            is_settled(m, migrations.drop_last(), before) && #[trigger] is_settled_one(
                before,
                migrations.last(),
                after,
            )
    }
}

impl<G: ConnectionIdGenerator, F: Firewall, T: TokenGenerator> QuicheBackend<G, F, T> {
    /// Handles a packet as lost.
    ///
    /// This is a last resort for packets that we can't accept or delegate to a connection,
    /// so we send a stateless reset if possible.
    pub fn handle_packet_with_stateless_reset(
        &mut self,
        peer_dcid: &[u8],
        packet_len: usize,
        packet_to: IpAddr,
        packet_from: SocketAddr,
        out: &mut Vec<SendMsg<BipSlice>>,
    )
        requires
            old(self).wf(),
        ensures
            final(self).wf(),
            final(self).settings() == old(self).settings(),
            final(self)@ == (BackendModel { buffer: final(self)@.buffer, ..old(self)@ }),
            io::keeps_committed(old(self)@.buffer, final(self)@.buffer),
            match old(self).server() {
                None => final(self).server() is None && final(out)@ == old(out)@,
                Some((firewall, generator)) => exists|reset_token: Seq<u8>|
                    {
                        &&& final(self).server() matches Some((same_firewall, _))
                        &&& same_firewall == firewall
                        &&& #[trigger] T::may_generate_reset(
                            generator,
                            peer_dcid@,
                            reset_token,
                            generator_of(final(self).server()),
                        )
                        &&& io::is_reset_written(
                            packet_len,
                            packet_to,
                            packet_from,
                            reset_token,
                            old(self)@.buffer,
                            final(self)@.buffer,
                            old(out)@,
                            final(out)@,
                        )
                    },
            },
    {
        let Some(server) = &mut self.config.server else {
            return;
        };
        let reset_token = server.token_generator.generate_reset_token(peer_dcid);
        self.io.write_stateless_reset(packet_len, packet_to, packet_from, &reset_token, out);
        assert(T::may_generate_reset(
            generator_of(old(self).server()),
            peer_dcid@,
            reset_token@,
            generator_of(self.server()),
        ));
    }

    /// Returns the number of connections that wait to be polled.
    pub fn active_len(&self) -> (r: usize)
        ensures
            r == self@.connections.active.len(),
    {
        self.connections.active_len()
    }

    /// Returns the connection that is to send packets next.
    ///
    /// * `left`: how many connections are left that were active when sending began:
    ///   reactivated connections are handled later, on the next sending.
    pub fn send_next(&self, left: usize) -> (r: Option<ConnectionKey>)
        requires
            self.wf(),
        ensures
            r is Some <==> left > 0 && self@.connections.active.len() > 0,
            r matches Some(key) ==> key@ == self@.connections.active[0] && self@.has(key),
    {
        if left == 0 {
            return None;
        }
        self.connections.peek_active()
    }

    /// Takes what became of an attempt to send packets of the connection that was to send next.
    ///
    /// Returns `true` if further connections may be handled.
    pub fn send_done(&mut self, connection_key: ConnectionKey, result: SendResult) -> (r: bool)
        requires
            old(self).wf(),
            old(self)@.connections.active.len() > 0,
            old(self)@.connections.active[0] == connection_key@,
        ensures
            final(self).wf(),
            final(self).settings() == old(self).settings(),
            final(self).server() == old(self).server(),
            r == (result != SendResult::StopAndRetry),
            final(self)@ == (BackendModel {
                connections: ConnectionsModel {
                    active: match result {
                        SendResult::Done => old(self)@.connections.active.drop_first(),
                        SendResult::Reactivate => queue::enqueued(
                            old(self)@.connections.active.drop_first(),
                            connection_key@,
                        ),
                        SendResult::StopAndRetry => old(self)@.connections.active,
                    },
                    ..old(self)@.connections
                },
                ..old(self)@
            }),
    {
        proof {
            self.connections.lemma_wf();
            assert(old(self)@.connections.all.contains_key(old(self)@.connections.active[0]));
        }
        match result {
            SendResult::Done => {
                self.connections.next_active();
                true
            },
            SendResult::Reactivate => {
                self.connections.next_active();
                self.connections.mark_active(connection_key);
                true
            },
            SendResult::StopAndRetry => false,
        }
    }

    /// Takes what became of an attempt to write pending packets of a connection.
    ///
    /// Additionally polls all neccessary functions afterwards: timeout, stream/dgram limits.
    ///
    /// * `written`: what became of the attempt, `None` if `quiche` returned an unexpected error.
    /// * `readiness`: what an application can read and write.
    /// * `quiche_timeout_at`: the time at which a timeout happens, as `quiche` says.
    pub fn send_packets(
        &mut self,
        connection_key: ConnectionKey,
        written: Option<Write>,
        readiness: &Readiness,
        quiche_timeout_at: Option<Instant>,
    ) -> (r: SendResult)
        requires
            old(self).wf(),
        ensures
            final(self).wf(),
            final(self).settings() == old(self).settings(),
            final(self).server() == old(self).server(),
            r == match written {
                Some(Write::Quantum) => SendResult::Reactivate,
                Some(Write::BufferTooShort) => SendResult::StopAndRetry,
                _ => SendResult::Done,
            },
            exists|timed: BackendModel|
                #![trigger timed.is_scheduled_if(
                    connection_key,
                    TimerKind::Pacer,
                    pacer_time(written),
                    final(self)@,
                )]
                {
                    &&& old(self)@.told_readiness(connection_key, *readiness).is_scheduled_if(
                        connection_key,
                        TimerKind::QuicheTimeout,
                        quiche_timeout_at,
                        timed,
                    )
                    &&& timed.is_scheduled_if(
                        connection_key,
                        TimerKind::Pacer,
                        pacer_time(written),
                        final(self)@,
                    )
                },
    {
        self.write_stream_dgram_events(connection_key, readiness);
        self.schedule_quiche_timeout(connection_key, None, quiche_timeout_at);
        let ghost timed = self@;
        let result = match written {
            Some(Write::Complete) => SendResult::Done,
            Some(Write::Pacer(release_at)) => {
                // Fired pacer event will reactivate the connection.
                self.schedule_pacer(connection_key, Some(release_at), None);
                SendResult::Done
            },
            Some(Write::Quantum) => SendResult::Reactivate,
            Some(Write::BufferTooShort) => SendResult::StopAndRetry,
            None => SendResult::Done,
        };
        proof {
            assert(timed.is_scheduled_if(
                connection_key,
                TimerKind::Pacer,
                pacer_time(written),
                self@,
            ));
        }
        result
    }

    /// Notifies that **client** application switched the network.
    ///
    /// Returns the client connections, which have to migrate to the new address.
    ///
    /// # Error
    ///
    /// - [Error::Closed]  backend is closed.
    /// - [Error::Illegal] `new_listen_addr` is `Some(unspecified)`.
    pub fn migrate_network(&mut self, new_listen_addr: Option<IpAddr>) -> (r: Result<
        Vec<ConnectionKey>,
        Error,
    >)
        requires
            old(self).wf(),
        ensures
            final(self).wf(),
            final(self).settings() == old(self).settings(),
            final(self).server() == old(self).server(),
            match r {
                Err(Error::Closed) => !old(self)@.open && final(self)@ == old(self)@,
                Err(Error::Illegal) => old(self)@.open && (new_listen_addr matches Some(addr)
                    && addr.unspecified()) && final(self)@ == old(self)@,
                Err(_) => false,
                Ok(keys) => {
                    &&& old(self)@.open
                    &&& !(new_listen_addr matches Some(addr) && addr.unspecified())
                    &&& final(self)@ == (BackendModel {
                        listen_addr: match new_listen_addr {
                            Some(addr) => addr,
                            None => old(self)@.listen_addr,
                        },
                        ..old(self)@
                    })
                    &&& is_client_keys(old(self)@, keys@)
                },
            },
    {
        if !self.open {
            return Err(Error::Closed);
        }
        if let Some(addr) = new_listen_addr {
            if addr.is_unspecified() {
                return Err(Error::Illegal);
            }
            self.listen_addr = addr;
        }
        let ghost m = old(self)@;
        let all = self.connections.all_iter();
        let mut clients: Vec<ConnectionKey> = Vec::new();
        let mut i: usize = 0;
        while i < all.len()
            invariant
                self.connections@ == m.connections,
                connections::is_all_keys(m.connections.all, all@),
                i <= all@.len(),
                forall|j: int|
                    0 <= j < clients@.len() ==> m.has(#[trigger] clients@[j]) && !m.connection(
                        clients@[j],
                    ).is_server && exists|k: int| 0 <= k < i && all@[k] == clients@[j],
                forall|a: int, b: int|
                    0 <= a < b < clients@.len() ==> (#[trigger] clients@[a])@ != (
                    #[trigger] clients@[b])@,
                forall|k: int|
                    0 <= k < i && !m.connection(#[trigger] all@[k]).is_server
                        ==> clients@.contains(all@[k]),
            decreases all@.len() - i,
        {
            let key = all[i];
            let ghost before = clients@;
            let is_client: bool = match self.connections.get(key) {
                Some(connection) => !connection.is_server,
                None => false,
            };
            if is_client {
                clients.push(key);
            }
            proof {
                assert(m.connections.all.contains_key(all@[i as int]@));
                if is_client {
                    assert(clients@.last() == key);
                    assert forall|k: int|
                        0 <= k < i + 1 && !m.connection(#[trigger] all@[k]).is_server implies clients@.contains(
                        all@[k],
                    ) by {
                        if k < i {
                            assert(before.contains(all@[k]));
                            let w = choose|w: int| 0 <= w < before.len() && before[w] == all@[k];
                            assert(clients@[w] == all@[k]);
                        } else {
                            assert(clients@[before.len() as int] == all@[k]);
                        }
                    }
                    assert forall|a: int, b: int| 0 <= a < b < clients@.len() implies (
                    #[trigger] clients@[a])@ != (#[trigger] clients@[b])@ by {
                        if b == before.len() {
                            assert(clients@[a] == before[a]);
                            let k = choose|k: int| 0 <= k < i && all@[k] == before[a];
                            assert(all@[k]@ != all@[i as int]@);
                        } else {
                            assert(clients@[a] == before[a] && clients@[b] == before[b]);
                        }
                    }
                    assert forall|j: int| 0 <= j < clients@.len() implies m.has(
                        #[trigger] clients@[j],
                    ) && !m.connection(clients@[j]).is_server && exists|k: int|
                        0 <= k < i + 1 && all@[k] == clients@[j] by {
                        if j < before.len() {
                            assert(clients@[j] == before[j]);
                        } else {
                            assert(all@[i as int] == clients@[j]);
                        }
                    }
                }
            }
            i = i + 1;
        }
        proof {
            assert forall|key: ConnectionKey|
                m.has(key) && !m.connection(key).is_server implies #[trigger] clients@.contains(
                key,
            ) by {
                assert(m.connections.all.contains_key(key@));
                let k = choose|k: int| 0 <= k < all@.len() && (#[trigger] all@[k])@ == key@;
                ConnectionKey::lemma_of_view(key);
                ConnectionKey::lemma_of_view(all@[k]);
                assert(all@[k] == key);
            }
        }
        Ok(clients)
    }
}

/// The time until which a next packet is deferred.
pub open spec fn pacer_time(written: Option<Write>) -> Option<Instant> {
    match written {
        Some(Write::Pacer(release_at)) => Some(release_at),
        _ => None,
    }
}

/// The keys are those of all client connections, each of them once.
pub open spec fn is_client_keys(m: BackendModel, keys: Seq<ConnectionKey>) -> bool {
    &&& forall|i: int|
        0 <= i < keys.len() ==> m.has(#[trigger] keys[i]) && !m.connection(keys[i]).is_server
    &&& forall|i: int, j: int|
        0 <= i < j < keys.len() ==> (#[trigger] keys[i])@ != (#[trigger] keys[j])@
    &&& forall|key: ConnectionKey|
        m.has(key) && !m.connection(key).is_server ==> #[trigger] keys.contains(key)
}

/// How a received packet is handled.
#[derive(Debug, Clone, Copy, PartialEq, Eq, Structural)]
pub enum RecvAction {
    /// The packet is dropped.
    Drop,
    /// The packet is handled as one that may open a connection.
    HandleInitial,
    /// The packet is handled by a connection.
    Delegate(ConnectionKey),
    /// The packet is lost: a stateless reset is sent if possible.
    Reset,
}

/// A stream that was just opened is one that can be written into.
pub proof fn law_opened_stream_is_known(
    before: Connection,
    after: Connection,
    bidirectional: bool,
    opened: StreamId,
)
    requires
        before.sequence(bidirectional) == opened,
        opened.one_way() == !bidirectional,
        after.sequence(bidirectional)@ == opened@ + 4,
    ensures
        !is_unopened(after, opened),
{
}

/// A connection that an application asks for is present, and neither draining nor closed.
pub open spec fn is_known(m: BackendModel, id: QuicheConnectionId, is_connection_open: bool) -> bool {
    m.has(id.key) && is_connection_open
}

/// Why an application is refused that asks for a stream of a connection, `None` if it is not.
///
/// * `illegal`: the stream has no such direction.
/// * `short`: the buffer is too short.
pub open spec fn refusal(
    m: BackendModel,
    id: QuicheConnectionId,
    is_connection_open: bool,
    illegal: bool,
    short: bool,
) -> Option<Error> {
    if !m.open {
        Some(Error::Closed)
    } else if illegal {
        Some(Error::Illegal)
    } else if short {
        Some(Error::BufferSize)
    } else if !is_known(m, id, is_connection_open) {
        Some(Error::UnknownConnection)
    } else {
        None
    }
}

/// The stream is one that only a client writes into.
pub open spec fn is_client_uni(stream_id: StreamId) -> bool {
    !stream_id.by_server() && stream_id.one_way()
}

/// The stream is one that only a server writes into.
pub open spec fn is_server_uni(stream_id: StreamId) -> bool {
    stream_id.by_server() && stream_id.one_way()
}

/// The stream was not opened yet: it is initiated locally,
/// and comes behind the last stream of its directionality that was opened.
pub open spec fn is_unopened(connection: Connection, stream_id: StreamId) -> bool {
    connection.is_server == stream_id.by_server() && stream_id@ + 4 > connection.sequence(
        !stream_id.one_way(),
    )@
}

impl<G: ConnectionIdGenerator, F: Firewall, T: TokenGenerator> QuicheBackend<G, F, T> {
    /// Takes what became of the migration of connections.
    ///
    /// Those that have migrated are marked as active, the others are forgotten.
    pub fn settle_migrations(&mut self, migrations: &Vec<(ConnectionKey, Migrated)>)
        requires
            old(self).wf(),
        ensures
            final(self).wf(),
            final(self).settings() == old(self).settings(),
            final(self).server() == old(self).server(),
            is_settled(told_migrations(old(self)@, migrations@), migrations@, final(self)@),
    {
        let mut i: usize = 0;
        assert(migrations@.take(0).len() == 0);
        while i < migrations.len()
            invariant
                self.wf(),
                self.settings() == old(self).settings(),
                self.server() == old(self).server(),
                i <= migrations@.len(),
                self@ == told_migrations(old(self)@, migrations@.take(i as int)),
            decreases migrations@.len() - i,
        {
            let ghost before = self@;
            assert(migrations@.take(i + 1).drop_last() =~= migrations@.take(i as int));
            let key = migrations[i].0;
            match &migrations[i].1 {
                Migrated::Done(len) => {
                    if let Some(connection) = self.connections.get_mut(key) {
                        let event = connection.get_dgram_out_size_event(key, *len);
                        self.events.push_datagram(event);
                    }
                },
                Migrated::Failed(_) => {
                    if self.connections.get(key).is_some() {
                        let _ = self.halt(key, HaltKind::MigrationFailed);
                    }
                },
            }
            i = i + 1;
        }
        assert(migrations@.take(i as int) =~= migrations@);
        let ghost told = self@;
        let mut j: usize = 0;
        assert(is_settled(told, migrations@.take(0), told));
        while j < migrations.len()
            invariant
                self.wf(),
                self.settings() == old(self).settings(),
                self.server() == old(self).server(),
                j <= migrations@.len(),
                is_settled(told, migrations@.take(j as int), self@),
            decreases migrations@.len() - j,
        {
            let ghost before = self@;
            let ghost t = migrations@.take(j + 1);
            assert(t.drop_last() =~= migrations@.take(j as int));
            assert(t.last() == migrations@[j as int]);
            let key = migrations[j].0;
            match &migrations[j].1 {
                Migrated::Done(_) => {
                    self.connections.mark_active(key);
                },
                Migrated::Failed(status) => {
                    self.forget_connection(key, status);
                },
            }
            proof {
                assert(is_settled(told, t.drop_last(), before));
                assert(is_settled_one(before, t.last(), self@));
                assert(is_settled(told, t, self@));
            }
            j = j + 1;
        }
        assert(migrations@.take(j as int) =~= migrations@);
    }

    /// Returns the session of a server to resume a new connection with, if there is one.
    pub fn session_for(&mut self, server_name: &ServerName) -> (r: Option<QuicSession>)
        requires
            old(self).wf(),
        ensures
            final(self).wf(),
            final(self).settings() == old(self).settings(),
            final(self).server() == old(self).server(),
            final(self)@ == (BackendModel { sessions: final(self)@.sessions, ..old(self)@ }),
            old(self)@.sessions.is_asked(
                server_name.text(),
                session::ticket_of(r),
                final(self)@.sessions,
            ),
            session::is_part_of(final(self)@.sessions@, old(self)@.sessions@),
            r matches Some(session) ==> old(self)@.sessions@.contains_key(server_name.text())
                && session.tls_ticket@ == old(self)@.sessions@[server_name.text()],
    {
        let text = server_name.to_text();
        self.session_cache.get(&text)
    }

    /// Marks a connection as active, if it is present and open.
    fn enter(&mut self, id: &QuicheConnectionId, is_connection_open: bool) -> (r: bool)
        requires
            old(self).wf(),
        ensures
            final(self).wf(),
            final(self).settings() == old(self).settings(),
            final(self).server() == old(self).server(),
            r == is_known(old(self)@, *id, is_connection_open),
            final(self)@ == if r {
                old(self)@.marked(id.key)
            } else {
                old(self)@
            },
    {
        if !is_connection_open || self.connections.get(id.key).is_none() {
            return false;
        }
        self.connections.mark_active(id.key);
        true
    }

    /// Checks whether a connection can be closed, and marks it as active.
    ///
    /// * `is_connection_open`: the connection is neither draining nor closed.
    pub fn begin_connection_close(
        &mut self,
        connection_id: &QuicheConnectionId,
        is_connection_open: bool,
    ) -> (r: Option<Error>)
        requires
            old(self).wf(),
        ensures
            final(self).wf(),
            final(self).settings() == old(self).settings(),
            final(self).server() == old(self).server(),
            r == refusal(old(self)@, *connection_id, is_connection_open, false, false),
            final(self)@ == if r is None {
                old(self)@.marked(connection_id.key)
            } else {
                old(self)@
            },
    {
        if !self.open {
            return Some(Error::Closed);
        }
        if !self.enter(connection_id, is_connection_open) {
            return Some(Error::UnknownConnection);
        }
        None
    }

    /// Takes what became of closing a connection.
    pub fn connection_close(
        &mut self,
        connection_id: &QuicheConnectionId,
        result: Result<(), QuicheError>,
        status: &CloseStatus,
    ) -> (r: Result<(), Error>)
        requires
            old(self).wf(),
            old(self)@.has(connection_id.key),
        ensures
            final(self).wf(),
            final(self).settings() == old(self).settings(),
            final(self).server() == old(self).server(),
            match result {
                Ok(_) => r is Ok && old(self)@.is_closed(connection_id.key, *status, final(self)@),
                Err(error) => (r matches Err(e) && error::is_close_error(error, e)) && final(self)@
                    == old(self)@,
            },
    {
        match result {
            Ok(_) => {
                self.tell_close(connection_id.key, status);
                Ok(())
            },
            Err(error) => Err(error.into_close_error()),
        }
    }

    /// Checks whether the peer's certificate chain can be asked for.
    pub fn check_peer_cert_chain(&self, connection_id: &QuicheConnectionId) -> (r: Option<Error>)
        ensures
            r == if !self@.open {
                Some(Error::Closed)
            } else if !self@.has(connection_id.key) {
                Some(Error::UnknownConnection)
            } else {
                None
            },
    {
        if !self.open {
            return Some(Error::Closed);
        }
        if self.connections.get(connection_id.key).is_none() {
            return Some(Error::UnknownConnection);
        }
        None
    }

    /// Checks whether a stream can be read from, and marks its connection as active.
    ///
    /// * `out_len`: the length of the buffer to read into.
    /// * `is_connection_open`: the connection is neither draining nor closed.
    pub fn begin_stream_recv(
        &mut self,
        connection_id: &QuicheConnectionId,
        stream_id: StreamId,
        out_len: usize,
        is_connection_open: bool,
    ) -> (r: Option<Error>)
        requires
            old(self).wf(),
        ensures
            final(self).wf(),
            final(self).settings() == old(self).settings(),
            final(self).server() == old(self).server(),
            r == refusal(
                old(self)@,
                *connection_id,
                is_connection_open,
                is_client_uni(stream_id),
                out_len == 0,
            ),
            final(self)@ == if r is None {
                old(self)@.marked(connection_id.key)
            } else {
                old(self)@
            },
    {
        if !self.open {
            return Some(Error::Closed);
        }
        if stream_id.is_client() && stream_id.is_uni() {
            return Some(Error::Illegal);
        }
        if out_len == 0 {
            return Some(Error::BufferSize);
        }
        if !self.enter(connection_id, is_connection_open) {
            return Some(Error::UnknownConnection);
        }
        None
    }

    /// Returns what an application gets that reads from a stream.
    pub fn stream_recv(result: Result<(usize, bool), QuicheError>) -> (r: Result<
        (usize, bool),
        Error,
    >)
        ensures
            match result {
                Ok(read) => r == Ok::<(usize, bool), Error>(read),
                Err(error) => match r {
                    Ok(read) => error::is_stream_recv_error(error, None) && read == (0usize, false),
                    Err(e) => error::is_stream_recv_error(error, Some(e)),
                },
            },
    {
        match result {
            Ok(read) => Ok(read),
            Err(error) => match error.into_stream_recv_error() {
                None => Ok((0, false)),
                Some(error) => Err(error),
            },
        }
    }

    /// Tries to open a stream of a certain directionality.
    ///
    /// * `is_connection_open`: the connection is neither draining nor closed.
    /// * `streams_left`: how many streams of the directionality can be created
    ///   before the peer's stream count limit is reached.
    pub fn stream_open(
        &mut self,
        connection_id: &QuicheConnectionId,
        bidirectional: bool,
        is_connection_open: bool,
        streams_left: u64,
    ) -> (r: Result<StreamId, Error>)
        requires
            old(self).wf(),
        ensures
            final(self).wf(),
            final(self).settings() == old(self).settings(),
            final(self).server() == old(self).server(),
            ({
                let m = old(self)@;
                let key = connection_id.key;
                let connection = m.connection(key);
                let sequence = connection.sequence(bidirectional);
                let exhausted = if bidirectional {
                    Connection { streams_bidi_exhausted: true, ..connection }
                } else {
                    Connection { streams_uni_exhausted: true, ..connection }
                };
                if !m.open {
                    r == Err::<StreamId, Error>(Error::Closed) && final(self)@ == m
                } else if !is_known(m, *connection_id, is_connection_open) {
                    r == Err::<StreamId, Error>(Error::UnknownConnection) && final(self)@ == m
                } else if streams_left == 0 || !connection::has_next(sequence) {
                    &&& r == Err::<StreamId, Error>(Error::StreamsExhausted)
                    &&& final(self)@ == m.marked(key).with(key, exhausted)
                } else {
                    let after = final(self)@.connection(key);
                    &&& r == Ok::<StreamId, Error>(sequence)
                    &&& opens(connection, bidirectional, sequence, after)
                    &&& after.sequence(bidirectional)@ == sequence@ + 4
                    &&& final(self)@ == m.marked(key).with(
                        key,
                        if bidirectional {
                            Connection {
                                stream_bidi_sequence: after.stream_bidi_sequence,
                                ..connection
                            }
                        } else {
                            Connection {
                                stream_uni_sequence: after.stream_uni_sequence,
                                ..connection
                            }
                        },
                    ).pushed(Event::Stream(StreamEvent::Available(*connection_id, sequence)))
                }
            }),
    {
        if !self.open {
            return Err(Error::Closed);
        }
        let Some(connection) = self.connections.get_mark_active_if(
            connection_id.key,
            is_connection_open,
        ) else {
            return Err(Error::UnknownConnection);
        };
        if streams_left == 0 {
            connection.set_streams_exhausted(bidirectional);
            return Err(Error::StreamsExhausted);
        }
        let Ok(stream_id) = connection.allocate_stream_id(bidirectional) else {
            connection.set_streams_exhausted(bidirectional);
            return Err(Error::StreamsExhausted);
        };
        self.events.push(Event::Stream(StreamEvent::Available(*connection_id, stream_id)));
        Ok(stream_id)
    }

    /// Checks whether a stream can be written into, and marks its connection as active.
    ///
    /// * `is_connection_open`: the connection is neither draining nor closed.
    pub fn begin_stream_send(
        &mut self,
        connection_id: &QuicheConnectionId,
        stream_id: StreamId,
        is_connection_open: bool,
    ) -> (r: Option<Error>)
        requires
            old(self).wf(),
        ensures
            final(self).wf(),
            final(self).settings() == old(self).settings(),
            final(self).server() == old(self).server(),
            ({
                let refused = refusal(
                    old(self)@,
                    *connection_id,
                    is_connection_open,
                    is_server_uni(stream_id),
                    false,
                );
                if refused is Some {
                    r == refused && final(self)@ == old(self)@
                } else {
                    &&& r == if is_unopened(old(self)@.connection(connection_id.key), stream_id) {
                        Some(Error::UnknownStream)
                    } else {
                        None
                    }
                    &&& final(self)@ == old(self)@.marked(connection_id.key)
                    &&& ({
                        let connection = old(self)@.connection(connection_id.key);
                        let next = if stream_id@ % 4 < 2 {
                            connection.stream_bidi_sequence@
                        } else {
                            connection.stream_uni_sequence@
                        };
                        &&& connection.is_server != (stream_id@ % 2 == 1) ==> r is None
                        &&& stream_id@ + 4 <= next ==> r is None
                        &&& connection.is_server == (stream_id@ % 2 == 1) && stream_id@ >= next
                            ==> r == Some(Error::UnknownStream)
                    })
                }
            }),
    {
        if !self.open {
            return Some(Error::Closed);
        }
        if stream_id.is_server() && stream_id.is_uni() {
            return Some(Error::Illegal);
        }
        if !self.enter(connection_id, is_connection_open) {
            return Some(Error::UnknownConnection);
        }
        let Some(connection) = self.connections.get(connection_id.key) else {
            return Some(Error::UnknownConnection);
        };
        if connection.is_server == stream_id.is_server() {
            // Locally-initiated stream.
            match connection.get_last_local_stream_id(stream_id.is_bidi()) {
                Some(last_opened_stream_id) => {
                    if last_opened_stream_id.raw() < stream_id.raw() {
                        return Some(Error::UnknownStream);
                    }
                },
                None => {
                    return Some(Error::UnknownStream);
                },
            }
        }
        // Otherwise, Quiche should refuse unknown streams.
        None
    }

    /// Returns what an application gets that writes into a stream.
    ///
    /// * `bytes`: the data that was to be written.
    /// * `result`: the data that was not written, or an error.
    pub fn stream_send(bytes: Bytes, result: Result<Option<Bytes>, QuicheError>) -> (r: Result<
        Option<Bytes>,
        Error,
    >)
        ensures
            match result {
                Ok(unsent) => r == Ok::<Option<Bytes>, Error>(unsent),
                Err(error) => match r {
                    Ok(unsent) => error::is_stream_send_error(error, None) && unsent == Some(bytes),
                    Err(e) => error::is_stream_send_error(error, Some(e)),
                },
            },
    {
        match result {
            Ok(unsent) => Ok(unsent),
            Err(error) => match error.into_stream_send_error() {
                None => Ok(Some(bytes)),
                Some(error) => Err(error),
            },
        }
    }

    /// Checks whether a stream can be stopped, and marks its connection as active.
    ///
    /// Returns `false` if the backend, connection or direction is closed:
    /// the operation is no-op then.
    pub fn stream_stop_sending(
        &mut self,
        connection_id: &QuicheConnectionId,
        stream_id: StreamId,
        is_connection_open: bool,
    ) -> (r: bool)
        requires
            old(self).wf(),
        ensures
            final(self).wf(),
            final(self).settings() == old(self).settings(),
            final(self).server() == old(self).server(),
            r == (refusal(
                old(self)@,
                *connection_id,
                is_connection_open,
                is_client_uni(stream_id),
                false,
            ) is None),
            final(self)@ == if r {
                old(self)@.marked(connection_id.key)
            } else {
                old(self)@
            },
    {
        if !self.open {
            return false;
        }
        if stream_id.is_client() && stream_id.is_uni() {
            return false;
        }
        self.enter(connection_id, is_connection_open)
    }

    /// Checks whether a stream can be reset, and marks its connection as active.
    ///
    /// Returns `false` if the backend, connection or direction is closed:
    /// the operation is no-op then.
    pub fn stream_reset_sending(
        &mut self,
        connection_id: &QuicheConnectionId,
        stream_id: StreamId,
        is_connection_open: bool,
    ) -> (r: bool)
        requires
            old(self).wf(),
        ensures
            final(self).wf(),
            final(self).settings() == old(self).settings(),
            final(self).server() == old(self).server(),
            r == (refusal(
                old(self)@,
                *connection_id,
                is_connection_open,
                is_server_uni(stream_id),
                false,
            ) is None),
            final(self)@ == if r {
                old(self)@.marked(connection_id.key)
            } else {
                old(self)@
            },
    {
        if !self.open {
            return false;
        }
        if stream_id.is_server() && stream_id.is_uni() {
            return false;
        }
        self.enter(connection_id, is_connection_open)
    }

    /// Returns the urgency and the incremental flag that `quiche` is to set for a stream,
    /// and marks its connection as active.
    ///
    /// Returns `None` if the backend, connection or direction is closed:
    /// the operation is no-op then.
    pub fn stream_set_priority(
        &mut self,
        connection_id: &QuicheConnectionId,
        stream_id: StreamId,
        priority: Priority,
        is_connection_open: bool,
    ) -> (r: Option<(u8, bool)>)
        requires
            old(self).wf(),
        ensures
            final(self).wf(),
            final(self).settings() == old(self).settings(),
            final(self).server() == old(self).server(),
            r is Some <==> refusal(
                old(self)@,
                *connection_id,
                is_connection_open,
                is_server_uni(stream_id),
                false,
            ) is None,
            r matches Some(set) ==> set == (
                priority.spec_descending_urgency(),
                priority.incremental,
            ),
            final(self)@ == if r is Some {
                old(self)@.marked(connection_id.key)
            } else {
                old(self)@
            },
    {
        if !self.stream_reset_sending(connection_id, stream_id, is_connection_open) {
            return None;
        }
        Some((priority.descending_urgency(), priority.incremental))
    }

    /// Checks whether a datagram can be received.
    ///
    /// * `is_connection_open`: the connection is neither draining nor closed.
    pub fn begin_dgram_recv(
        &self,
        connection_id: &QuicheConnectionId,
        is_connection_open: bool,
    ) -> (r: Option<Error>)
        ensures
            r == refusal(self@, *connection_id, is_connection_open, false, false),
    {
        if !self.open {
            return Some(Error::Closed);
        }
        if !is_connection_open || self.connections.get(connection_id.key).is_none() {
            return Some(Error::UnknownConnection);
        }
        None
    }

    /// Takes what became of receiving a datagram.
    ///
    /// Returns the datagram, `None` if there is none.
    pub fn dgram_recv_zc(
        &mut self,
        connection_id: &QuicheConnectionId,
        result: Result<Vec<u8>, QuicheError>,
    ) -> (r: Result<Option<Vec<u8>>, Error>)
        requires
            old(self).wf(),
            old(self)@.has(connection_id.key),
        ensures
            final(self).wf(),
            final(self).settings() == old(self).settings(),
            final(self).server() == old(self).server(),
            match result {
                Ok(datagram) => r == Ok::<Option<Vec<u8>>, Error>(Some(datagram)) && final(self)@
                    == old(self)@,
                Err(error) => match r {
                    Ok(datagram) => {
                        &&& error::is_dgram_recv_error(error, None)
                        &&& datagram is None
                        &&& final(self)@ == old(self)@.with(
                            connection_id.key,
                            Connection {
                                dgram_in_drained: true,
                                ..old(self)@.connection(connection_id.key)
                            },
                        )
                    },
                    Err(e) => error::is_dgram_recv_error(error, Some(e)) && final(self)@ == old(
                        self,
                    )@,
                },
            },
    {
        match result {
            Ok(datagram) => Ok(Some(datagram)),
            Err(error) => match error.into_dgram_recv_error() {
                None => {
                    if let Some(connection) = self.connections.get_mut(connection_id.key) {
                        connection.set_dgram_in_drained();
                    }
                    Ok(None)
                },
                Some(error) => Err(error),
            },
        }
    }

    /// Takes what became of receiving a datagram, and writes it into `&mut out`.
    ///
    /// Returns the length of the datagram, zero if there is none.
    pub fn dgram_recv(
        &mut self,
        connection_id: &QuicheConnectionId,
        result: Result<Vec<u8>, QuicheError>,
        out: &mut [u8],
    ) -> (r: Result<usize, Error>)
        requires
            old(self).wf(),
            old(self)@.has(connection_id.key),
        ensures
            final(self).wf(),
            final(self).settings() == old(self).settings(),
            final(self).server() == old(self).server(),
            final(out)@.len() == old(out)@.len(),
            match result {
                Ok(datagram) => {
                    &&& final(self)@ == old(self)@
                    &&& if datagram@.len() > old(out)@.len() {
                        r == Err::<usize, Error>(Error::BufferSize) && final(out)@ == old(out)@
                    } else {
                        &&& r matches Ok(length) && length == datagram@.len()
                        &&& final(out)@ == octets::overwritten(old(out)@, 0, datagram@)
                    }
                },
                Err(error) => {
                    &&& final(out)@ == old(out)@
                    &&& match r {
                        Ok(length) => {
                            &&& error::is_dgram_recv_error(error, None)
                            &&& length == 0
                            &&& final(self)@ == old(self)@.with(
                                connection_id.key,
                                Connection {
                                    dgram_in_drained: true,
                                    ..old(self)@.connection(connection_id.key)
                                },
                            )
                        },
                        Err(e) => error::is_dgram_recv_error(error, Some(e)) && final(self)@ == old(
                            self,
                        )@,
                    }
                },
            },
    {
        match self.dgram_recv_zc(connection_id, result) {
            Ok(Some(datagram)) => {
                let length: usize = datagram.len();
                if length > out.len() {
                    return Err(Error::BufferSize);
                }
                octets::copy_into_slice(out, 0, datagram.as_slice());
                Ok(length)
            },
            Ok(None) => Ok(0),
            Err(error) => Err(error),
        }
    }

    /// Checks whether a datagram can be sent, and marks its connection as active.
    pub fn begin_dgram_send(
        &mut self,
        connection_id: &QuicheConnectionId,
        is_connection_open: bool,
    ) -> (r: Option<Error>)
        requires
            old(self).wf(),
        ensures
            final(self).wf(),
            final(self).settings() == old(self).settings(),
            final(self).server() == old(self).server(),
            r == refusal(old(self)@, *connection_id, is_connection_open, false, false),
            final(self)@ == if r is None {
                old(self)@.marked(connection_id.key)
            } else {
                old(self)@
            },
    {
        self.begin_connection_close(connection_id, is_connection_open)
    }

    /// Takes what became of sending a datagram.
    ///
    /// Returns `None` on success, or the original datagram if the buffers of `quiche` are full.
    pub fn dgram_send(
        &mut self,
        connection_id: &QuicheConnectionId,
        bytes: Bytes,
        result: Result<(), QuicheError>,
    ) -> (r: Result<Option<Bytes>, Error>)
        requires
            old(self).wf(),
            old(self)@.has(connection_id.key),
        ensures
            final(self).wf(),
            final(self).settings() == old(self).settings(),
            final(self).server() == old(self).server(),
            match result {
                Ok(_) => r == Ok::<Option<Bytes>, Error>(None) && final(self)@ == old(self)@,
                Err(error) => match r {
                    Ok(unsent) => {
                        &&& error::is_dgram_send_error(error, None)
                        &&& unsent == Some(bytes)
                        &&& final(self)@ == old(self)@.with(
                            connection_id.key,
                            Connection {
                                dgram_out_drained: true,
                                ..old(self)@.connection(connection_id.key)
                            },
                        )
                    },
                    Err(e) => error::is_dgram_send_error(error, Some(e)) && final(self)@ == old(
                        self,
                    )@,
                },
            },
    {
        match result {
            Ok(_) => Ok(None),
            Err(error) => match error.into_dgram_send_error() {
                None => {
                    if let Some(connection) = self.connections.get_mut(connection_id.key) {
                        connection.set_dgram_out_drained();
                    }
                    Ok(Some(bytes))
                },
                Some(error) => Err(error),
            },
        }
    }

    /// Returns a maximum size of a single outgoing datagram, or `zero` if it's disabled.
    ///
    /// * `max_writable_len`: the maximum length of an outgoing datagram, as `quiche` says.
    pub fn dgram_send_max_size(
        &self,
        connection_id: &QuicheConnectionId,
        is_connection_open: bool,
        max_writable_len: Option<usize>,
    ) -> (r: Result<usize, Error>)
        ensures
            ({
                let refused = refusal(self@, *connection_id, is_connection_open, false, false);
                match refused {
                    Some(error) => r == Err::<usize, Error>(error),
                    None => r == Ok::<usize, Error>(
                        match max_writable_len {
                            Some(len) => len,
                            None => 0,
                        },
                    ),
                }
            }),
    {
        if !self.open {
            return Err(Error::Closed);
        }
        if !is_connection_open || self.connections.get(connection_id.key).is_none() {
            return Err(Error::UnknownConnection);
        }
        match max_writable_len {
            Some(len) => Ok(len),
            None => Ok(0),
        }
    }
}

fn push_stream_events(
    id: QuicheConnectionId,
    streams: &Vec<u64>,
    events: &mut Vec<Event<QuicheConnectionId>>,
)
    ensures
        final(events)@ == old(events)@ + BackendModel::stream_events(id, streams@),
{
    let mut i: usize = 0;
    assert(streams@.take(0).len() == 0);
    assert(events@ =~= old(events)@ + BackendModel::stream_events(id, streams@.take(0)));
    while i < streams.len()
        invariant
            i <= streams@.len(),
            events@ == old(events)@ + BackendModel::stream_events(id, streams@.take(i as int)),
        decreases streams@.len() - i,
    {
        assert(streams@.take(i + 1).drop_last() =~= streams@.take(i as int));
        if let Ok(stream_id) = StreamId::new(streams[i]) {
            events.push(Event::Stream(StreamEvent::Available(id, stream_id)));
        }
        assert(events@ =~= old(events)@ + BackendModel::stream_events(id, streams@.take(i + 1)));
        i = i + 1;
    }
    assert(streams@.take(i as int) =~= streams@);
}

fn push_connection_events(
    available: Vec<ConnectionEvent<QuicheConnectionId>>,
    events: &mut Vec<Event<QuicheConnectionId>>,
)
    ensures
        final(events)@ == old(events)@ + available@.map_values(
            |event: ConnectionEvent<QuicheConnectionId>| Event::Connection(event),
        ),
{
    let ghost all = available@;
    assert(events@ =~= old(events)@ + all.take(0).map_values(
        |event: ConnectionEvent<QuicheConnectionId>| Event::Connection(event),
    ));
    for event in iter: available
        invariant
            iter.seq() == all,
            events@ == old(events)@ + all.take(iter.index() as int).map_values(
                |event: ConnectionEvent<QuicheConnectionId>| Event::Connection(event),
            ),
    {
        events.push(Event::Connection(event));
        proof {
            let n = iter.index() as int;
            assert(all.take(n + 1) =~= all.take(n).push(all[n]));
            assert(events@ =~= old(events)@ + all.take(n + 1).map_values(
                |event: ConnectionEvent<QuicheConnectionId>| Event::Connection(event),
            ));
        }
    }
    assert(all.take(all.len() as int) =~= all);
}

/// Returns what the application of a connection is told that it can read and write.
fn tell_readiness(connection: &mut Connection, key: ConnectionKey, readiness: &Readiness) -> (r: Vec<
    Event<QuicheConnectionId>,
>)
    ensures
        r@ == BackendModel::readiness_events(*old(connection), key, *readiness),
        *final(connection) == BackendModel::told(*old(connection), *readiness),
{
    let id = connection.id(key);
    let available = connection.get_connection_streams_available_events(
        key,
        readiness.streams_left_bidi,
        readiness.streams_left_uni,
    );
    let mut events: Vec<Event<QuicheConnectionId>> = Vec::new();
    push_connection_events(available, &mut events);
    push_stream_events(id, &readiness.readable, &mut events);
    push_stream_events(id, &readiness.writable, &mut events);
    if !readiness.dgram_recv_queue_full {
        if let Some(event) = connection.get_dgram_in_available_event(key) {
            events.push(Event::Datagram(event));
        }
    }
    if !readiness.dgram_send_queue_full {
        if let Some(event) = connection.get_dgram_out_available_event(key) {
            events.push(Event::Datagram(event));
        }
    }
    if let Some(event) = connection.get_dgram_out_size_event(
        key,
        readiness.dgram_max_writable_len,
    ) {
        events.push(Event::Datagram(event));
    }
    assert(events@ =~= BackendModel::readiness_events(*old(connection), key, *readiness));
    events
}

/// The token of a `Retry` packet expires exactly the establishment timeout of the server after
/// the current time, so that it has not expired when it is sent.
pub proof fn law_retry_token_lasts_for_the_timeout(
    now: SystemTime,
    settings: Settings,
    timeout: Duration,
)
    requires
        settings.server == Some(timeout),
        now.nanos + timeout.nanos <= i128::MAX,
    ensures
        retry_expiration(now, settings).nanos - now.nanos == timeout.nanos,
        retry_expiration(now, settings).nanos >= now.nanos,
{
}

/// A peer that follows a `Retry` in time is accepted as verified, with the connection ID that it
/// has used first. It is in time for the whole establishment timeout of the server,
/// up to its last whole millisecond. After that, it is dropped.
///
/// The algorithm is one that authenticates what it decrypts and has not lost its key.
pub proof fn law_retry_leads_to_a_verified_connection<
    F: Firewall,
    G: Firewall,
    A: TokenAead,
    M: TokenHmac,
>(
    firewall: F,
    before: PaddedTokenGenerator<A, M>,
    header: InitialHeader,
    from: SocketAddr,
    total: usize,
    unverified: usize,
    now: SystemTime,
    settings: Settings,
    timeout: Duration,
    new_scid: ConnectionId,
    token: Vec<u8>,
    between: PaddedTokenGenerator<A, M>,
    later_firewall: G,
    later_header: InitialHeader,
    later_from: SocketAddr,
    later_total: usize,
    later_unverified: usize,
    later: SystemTime,
    later_expires_at: SystemTime,
    action: InitialAction,
    after: PaddedTokenGenerator<A, M>,
)
    requires
        settings.server == Some(timeout),
        0 <= now.nanos + timeout.nanos < u64::MAX * 1_000_000,
        initial::may_act(
            firewall,
            before,
            header,
            from,
            total,
            unverified,
            now,
            retry_expiration(now, settings),
            InitialAction::Retry { new_scid, token },
            settings.cid_len,
            between,
        ),
        settings.cid_len <= 20,
        forall|aead: A, associated_data: Seq<u8>, plaintext: Seq<u8>| #[trigger]
            A::may_pack(
                aead,
                associated_data,
                plaintext,
                token@,
                between.algorithms().0,
            ) ==> padded::keeps_opening(
                between.algorithms().0,
                associated_data,
                token@,
                plaintext,
            ),
        token@.len() > 0,
        later_header.is_version_supported,
        later_header.token is Some,
        later_header.token->0@ == token@,
        later_header.scid@ == header.scid@,
        later_header.dcid@ == new_scid@,
        later_from.spec_ip() == from.spec_ip(),
        initial::may_act(
            later_firewall,
            between,
            later_header,
            later_from,
            later_total,
            later_unverified,
            later,
            later_expires_at,
            action,
            settings.cid_len,
            after,
        ),
    ensures
        later.nanos <= (now.nanos + timeout.nanos) / 1_000_000 * 1_000_000 ==> (
        action matches InitialAction::Accept { peer_original_dcid, peer_address_verified, .. }
            && peer_address_verified && peer_original_dcid is Some && peer_original_dcid->0@
            == header.dcid@),
        later.nanos > now.nanos + timeout.nanos ==> action is Drop,
{
    let expires_at = retry_expiration(now, settings);
    initial::law_retry_token_is_made_for_the_peer(
        firewall,
        before,
        header,
        from,
        total,
        unverified,
        now,
        expires_at,
        new_scid,
        token,
        settings.cid_len,
        between,
    );
    let verified = choose|verified: PaddedTokenGenerator<A, M>| #[trigger]
        PaddedTokenGenerator::<A, M>::may_generate_retry(
            verified,
            from.spec_ip(),
            header.scid@,
            header.dcid@,
            new_scid@,
            expires_at,
            Some(token@),
            between,
        );
    let millis = padded::token_millis(expires_at);
    let padding = choose|padding: Seq<u8>|
        header.dcid@.len() + padding.len() == MAX_CID_LEN && A::may_pack(
            verified.algorithms().0,
            padded::retry_associated_data(from.spec_ip(), header.scid@, new_scid@),
            #[trigger] padded::token_plaintext(header.dcid@, padding, millis),
            token@,
            between.algorithms().0,
        );
    assert(padded::keeps_opening(
        between.algorithms().0,
        padded::retry_associated_data(from.spec_ip(), header.scid@, new_scid@),
        token@,
        padded::token_plaintext(header.dcid@, padding, millis),
    ));
    let (verdict, allowed, next) = choose|
        verdict: Option<Result<TokenModel, TokenError>>,
        allowed: bool,
        next: PaddedTokenGenerator<A, M>,
    |
        {
            &&& initial::may_say(between, later_header, later_from, later, verdict, next)
            &&& later_firewall.may_allow(later_from, later_total, later_unverified, allowed)
                || !initial::is_asked(verdict)
            &&& #[trigger] initial::may_follow(
                verdict,
                allowed,
                next,
                later_header,
                later_from,
                later_expires_at,
                action,
                settings.cid_len,
                after,
            )
        };
    padded::law_retry_token_is_verified(
        between.algorithms().0,
        from.spec_ip(),
        header.scid@,
        header.dcid@,
        new_scid@,
        padding,
        expires_at,
        token@,
        later,
        verdict->0,
        next.algorithms().0,
    );
    padded::law_token_keeps_expiration(expires_at);
    let kept = padded::time_of_millis(millis);
    assert(kept.nanos as int == (now.nanos + timeout.nanos) / 1_000_000 * 1_000_000);
}

/// A stream of our own side was opened if and only if its ID is less than the next one
/// of its directionality.
pub proof fn law_streams_are_opened_in_order(connection: Connection, stream_id: StreamId)
    requires
        connection.is_server == (stream_id@ % 2 == 1),
        connection.stream_bidi_sequence@ % 4 == if connection.is_server {
            1nat
        } else {
            0
        },
        connection.stream_uni_sequence@ % 4 == if connection.is_server {
            3nat
        } else {
            2
        },
    ensures
        stream_id@ % 4 < 2 ==> (is_unopened(connection, stream_id) <==> stream_id@
            >= connection.stream_bidi_sequence@),
        stream_id@ % 4 >= 2 ==> (is_unopened(connection, stream_id) <==> stream_id@
            >= connection.stream_uni_sequence@),
{
}

/// A stream of the peer is never refused as one that was not opened: `quiche` knows those.
pub proof fn law_streams_of_the_peer_are_left_to_quiche(connection: Connection, stream_id: StreamId)
    requires
        connection.is_server != (stream_id@ % 2 == 1),
    ensures
        !is_unopened(connection, stream_id),
{
}

/// The next stream of a directionality is opened on a connection.
pub open spec fn opens(
    before: Connection,
    bidirectional: bool,
    opened: StreamId,
    after: Connection,
) -> bool {
    &&& after.is_server == before.is_server
    &&& if bidirectional {
        &&& opened == before.stream_bidi_sequence
        &&& after.stream_bidi_sequence@ == opened@ + 4
        &&& after.stream_uni_sequence == before.stream_uni_sequence
    } else {
        &&& opened == before.stream_uni_sequence
        &&& after.stream_uni_sequence@ == opened@ + 4
        &&& after.stream_bidi_sequence == before.stream_bidi_sequence
    }
}

/// Every stream that was ever opened on a connection can be written into, however many streams
/// were opened after it. No other stream of our own side can.
///
/// * `history`: the connection before each stream was opened, and after the last one.
/// * `bidirectional`, `opened`: the directionalities and the IDs of the streams that were opened.
pub proof fn law_opened_streams_stay_writable(
    history: Seq<Connection>,
    bidirectional: Seq<bool>,
    opened: Seq<StreamId>,
    stream_id: StreamId,
)
    requires
        history.len() == opened.len() + 1,
        bidirectional.len() == opened.len(),
        history[0].is_fresh(),
        forall|i: int|
            0 <= i < opened.len() ==> #[trigger] opens(
                history[i],
                bidirectional[i],
                opened[i],
                history[i + 1],
            ),
        history[0].is_server == (stream_id@ % 2 == 1),
    ensures
        is_unopened(history.last(), stream_id) <==> !opened.contains(stream_id),
{
    lemma_opened_streams(history, bidirectional, opened, stream_id, opened.len() as int);
    law_streams_are_opened_in_order(history.last(), stream_id);
    assert(opened.take(opened.len() as int) =~= opened);
}

proof fn lemma_opened_streams(
    history: Seq<Connection>,
    bidirectional: Seq<bool>,
    opened: Seq<StreamId>,
    stream_id: StreamId,
    n: int,
)
    requires
        history.len() == opened.len() + 1,
        bidirectional.len() == opened.len(),
        0 <= n <= opened.len(),
        history[0].is_fresh(),
        forall|i: int|
            0 <= i < opened.len() ==> #[trigger] opens(
                history[i],
                bidirectional[i],
                opened[i],
                history[i + 1],
            ),
        history[0].is_server == (stream_id@ % 2 == 1),
    ensures
        history[n].is_server == history[0].is_server,
        history[n].stream_bidi_sequence@ % 4 == if history[0].is_server {
            1nat
        } else {
            0
        },
        history[n].stream_uni_sequence@ % 4 == if history[0].is_server {
            3nat
        } else {
            2
        },
        opened.take(n).contains(stream_id) <==> stream_id@ < if stream_id@ % 4 < 2 {
            history[n].stream_bidi_sequence@
        } else {
            history[n].stream_uni_sequence@
        },
    decreases n,
{
    if n > 0 {
        lemma_opened_streams(history, bidirectional, opened, stream_id, n - 1);
        let last = opened[n - 1];
        assert(opens(history[n - 1], bidirectional[n - 1], last, history[n - 1 + 1]));
        let earlier = opened.take(n - 1);
        let all = opened.take(n);
        assert(all =~= earlier.push(last));
        id::law_stream_id_is_its_raw_value(last, stream_id);
        if earlier.contains(stream_id) {
            let i = choose|i: int| 0 <= i < earlier.len() && earlier[i] == stream_id;
            assert(all[i] == stream_id);
        }
        if last == stream_id {
            assert(all[n - 1] == stream_id);
        }
        if all.contains(stream_id) {
            let i = choose|i: int| 0 <= i < all.len() && all[i] == stream_id;
            if i < n - 1 {
                assert(earlier[i] == stream_id);
            }
        }
    }
}

/// An application is served if and only if the backend is open, the stream has the direction,
/// the buffer is long enough, and the connection is present and open. The first reason of these
/// that fails is told.
pub proof fn law_refusals_have_a_reason(
    m: BackendModel,
    id: QuicheConnectionId,
    is_connection_open: bool,
    illegal: bool,
    short: bool,
)
    ensures
        ({
            let refused = refusal(m, id, is_connection_open, illegal, short);
            let is_present = m.connections.all.contains_key(id.key@);
            &&& refused is None <==> m.open && !illegal && !short && is_present
                && is_connection_open
            &&& refused == Some(Error::Closed) <==> !m.open
            &&& refused == Some(Error::Illegal) <==> m.open && illegal
            &&& refused == Some(Error::BufferSize) <==> m.open && !illegal && short
            &&& refused == Some(Error::UnknownConnection) <==> m.open && !illegal && !short && !(
            is_present && is_connection_open)
        }),
{
}

/// A stream that only one side writes into is one of a client or one of a server;
/// into any other stream both sides write.
pub proof fn law_directions_of_streams(stream_id: StreamId)
    ensures
        is_client_uni(stream_id) <==> stream_id@ % 4 == 2,
        is_server_uni(stream_id) <==> stream_id@ % 4 == 3,
{
}

/// Each source connection ID that is allocated for a peer has a token that was generated for it,
/// and for no other one. Without a server, none is allocated.
pub proof fn law_allocated_ids_have_their_tokens<F, T: TokenGenerator>(
    before: Option<(F, T)>,
    scids: Seq<NewScid>,
    after: Option<(F, T)>,
    i: int,
)
    requires
        may_allocate(before, scids, after),
        0 <= i < scids.len(),
    ensures
        match (before, after) {
            (Some((firewall, _)), Some((same_firewall, _))) => same_firewall == firewall,
            _ => false,
        },
        exists|generator: T, next: T| #[trigger]
            T::may_generate_reset(generator, scids[i].scid@, scids[i].reset_token@, next),
{
    lemma_reset_of(generator_of(before), scids, generator_of(after), i);
}

proof fn lemma_reset_of<T: TokenGenerator>(before: T, scids: Seq<NewScid>, after: T, i: int)
    requires
        may_reset_all(before, scids, after),
        0 <= i < scids.len(),
    ensures
        exists|generator: T, next: T| #[trigger]
            T::may_generate_reset(generator, scids[i].scid@, scids[i].reset_token@, next),
    decreases scids.len(),
{
    let last = choose|last: T|
        may_reset_all(before, scids.drop_last(), last) && #[trigger] T::may_generate_reset(
            last,
            scids.last().scid@,
            scids.last().reset_token@,
            after,
        );
    if i < scids.len() - 1 {
        lemma_reset_of(before, scids.drop_last(), last, i);
        assert(scids.drop_last()[i] == scids[i]);
    }
}

/// Only a pacer defers packets, until the time that it says.
pub proof fn law_pacer_defers_until_its_time(written: Option<Write>, at: Instant)
    ensures
        pacer_time(written) == Some(at) <==> written == Some(Write::Pacer(at)),
{
}

/// The connections that migrate are all those of clients, each of them once, and no other.
pub proof fn law_clients_migrate(m: BackendModel, keys: Seq<ConnectionKey>, key: ConnectionKey)
    requires
        is_client_keys(m, keys),
    ensures
        keys.contains(key) <==> m.connections.all.contains_key(key@)
            && !m.connections.all[key@].is_server,
        keys.no_duplicates(),
{
    if keys.contains(key) {
        let i = choose|i: int| 0 <= i < keys.len() && keys[i] == key;
        assert(m.has(keys[i]));
    }
    assert forall|i: int, j: int| 0 <= i < keys.len() && 0 <= j < keys.len() && i
        != j implies keys[i] != keys[j] by {
        if i < j {
            assert(keys[i]@ != keys[j]@);
        } else {
            assert(keys[j]@ != keys[i]@);
        }
    }
}

/// A connection that could not migrate is told so, once, and one that has migrated is told
/// the new size of its datagrams, if it is a new one.
pub proof fn law_migrations_are_told(
    m: BackendModel,
    migrations: Seq<(ConnectionKey, Migrated)>,
    key: ConnectionKey,
    migrated: Migrated,
)
    ensures
        told_migrations(m, Seq::empty()) == m,
        ({
            let before = told_migrations(m, migrations);
            let after = told_migrations(m, migrations.push((key, migrated)));
            let id = QuicheConnectionId { key, trace: before.connection(key).trace };
            let told = after.events.skip(before.events.len() as int);
            &&& before.events.is_prefix_of(after.events)
            &&& !before.has(key) ==> after == before
            &&& before.has(key) ==> after.has(key)
            &&& before.has(key) && migrated is Failed ==> {
                &&& after.connection(key).closed_event_sent
                &&& before.connection(key).closed_event_sent ==> told.len() == 0
                &&& !before.connection(key).closed_event_sent ==> told == seq![
                    Event::Connection(
                        ConnectionEvent::Halted {
                            connection_id: id,
                            kind: HaltKind::MigrationFailed,
                        },
                    ),
                ]
            }
            &&& before.has(key) && migrated is Done ==> {
                let size = after.connection(key).dgram_out_max_size;
                &&& migrated->Done_0 is None ==> size == 0
                &&& migrated->Done_0 matches Some(len) ==> (size == len || (len > 0xffff && size
                    == 0xffff))
                &&& size == before.connection(key).dgram_out_max_size ==> told.len() == 0
                &&& size != before.connection(key).dgram_out_max_size ==> told == seq![
                    Event::Datagram(DatagramEvent::OutNewSize(id, size)),
                ]
            }
        }),
{
    let more = migrations.push((key, migrated));
    assert(more.drop_last() =~= migrations);
    let before = told_migrations(m, migrations);
    let after = told_migrations(m, more);
    let told = after.events.skip(before.events.len() as int);
    if after.events.len() > before.events.len() {
        assert(told =~= seq![after.events.last()]);
    }
}

/// A connection that could not migrate is forgotten, and one that has migrated goes on
/// and waits to be polled.
pub proof fn law_migrated_connections_go_on(
    m: BackendModel,
    migrations: Seq<(ConnectionKey, Migrated)>,
    after: BackendModel,
    i: int,
)
    requires
        is_settled(m, migrations, after),
        0 <= i < migrations.len(),
    ensures
        migrations[i].1 is Failed ==> !after.has(migrations[i].0),
        m.has(migrations[i].0) && (forall|j: int|
            0 <= j < migrations.len() && (#[trigger] migrations[j]).0@ == migrations[i].0@
                ==> migrations[j].1 is Done) ==> after.has(migrations[i].0)
            && after.connections.active.contains(migrations[i].0@),
    decreases migrations.len(),
{
    let init = migrations.drop_last();
    let before = choose|before: BackendModel|
        is_settled(m, init, before) && #[trigger] is_settled_one(
            before,
            migrations.last(),
            after,
        );
    let key = migrations[i].0;
    let (last_key, last) = migrations.last();
    let goes_on = m.has(key) && forall|j: int|
        0 <= j < migrations.len() && (#[trigger] migrations[j]).0@ == key@ ==> migrations[j].1 is Done;
    queue::law_marking_twice_is_marking_once(before.connections.active, last_key@);
    queue::lemma_filter_contains(before.connections.active, last_key@, key@);
    if before.connections.active.contains(key@) {
        let k = choose|k: int|
            0 <= k < before.connections.active.len() && before.connections.active[k] == key@;
        assert(queue::enqueued(before.connections.active, last_key@)[k] == key@);
    }
    assert(migrations[migrations.len() - 1] == migrations.last());
    if i < init.len() {
        assert(init[i] == migrations[i]);
        assert forall|j: int| goes_on && 0 <= j < init.len() && (#[trigger] init[j]).0@
            == key@ implies init[j].1 is Done by {
            assert(init[j] == migrations[j]);
        }
        law_migrated_connections_go_on(m, init, before, i);
    } else if goes_on {
        assert forall|j: int| 0 <= j < init.len() && (#[trigger] init[j]).0@ == key@ implies init[j].1 is Done by {
            assert(init[j] == migrations[j]);
        }
        lemma_settled_keeps(m, init, before, key);
    }
}

/// A connection that is not forgotten stays.
proof fn lemma_settled_keeps(
    m: BackendModel,
    migrations: Seq<(ConnectionKey, Migrated)>,
    after: BackendModel,
    key: ConnectionKey,
)
    requires
        is_settled(m, migrations, after),
        m.has(key),
        forall|j: int|
            0 <= j < migrations.len() && (#[trigger] migrations[j]).0@ == key@
                ==> migrations[j].1 is Done,
    ensures
        after.has(key),
    decreases migrations.len(),
{
    if migrations.len() > 0 {
        let init = migrations.drop_last();
        let before = choose|before: BackendModel|
            is_settled(m, init, before) && #[trigger] is_settled_one(
                before,
                migrations.last(),
                after,
            );
        assert forall|j: int| 0 <= j < init.len() && (#[trigger] init[j]).0@ == key@ implies init[j].1 is Done by {
            assert(init[j] == migrations[j]);
        }
        lemma_settled_keeps(m, init, before, key);
        assert(migrations[migrations.len() - 1] == migrations.last());
    }
}

} // verus!

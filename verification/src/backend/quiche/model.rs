use crate::backend::cid::ConnectionId;
use crate::backend::event::{ConnectionEvent, DatagramEvent, Event, HaltKind, StreamEvent};
use crate::backend::quiche::connection;
use crate::backend::quiche::connection::{CloseStatus, TimerKind};
use crate::backend::quiche::connections;
use crate::backend::quiche::connections::ConnectionsModel;
use crate::backend::quiche::error::{QuicheError, QuicheErrorKind};
use crate::backend::quiche::session;
use crate::backend::quiche::session::SessionCache;
use crate::backend::quiche::{Connection, ConnectionKey, QuicheConnectionId};
use crate::backend::util::{deadline, queue, BipModel, DeadlineKey, Scheduled, Time};
use crate::net::name;
use crate::net::{IpAddr, ServerName, SocketAddr};
use crate::stream::StreamId;
use crate::time::{Duration, Instant, SystemTime};
use vstd::prelude::*;

verus! {

/// A scheduled event of a connection.
#[derive(Debug, Clone, Copy, PartialEq, Eq, Structural)]
pub struct TimerEvent {
    /// The key of the connection.
    pub connection_key: ConnectionKey,
    /// What the event is about.
    pub kind: TimerKind,
}

/// What a backend is configured with.
pub struct Settings {
    /// Whether a client is configured, and its establishment timeout.
    pub client: Option<Option<Duration>>,
    /// Whether a server is configured, and its establishment timeout.
    pub server: Option<Duration>,
    /// The length of generated connection IDs.
    pub cid_len: nat,
}

/// What a backend is.
pub struct BackendModel {
    pub connections: ConnectionsModel,
    pub buffer: BipModel,
    pub scheduled: Seq<Scheduled<TimerEvent>>,
    pub fired: Seq<TimerEvent>,
    pub now: Instant,
    pub now_sys: SystemTime,
    pub sessions: SessionCache,
    pub events: Seq<Event<QuicheConnectionId>>,
    pub listen_addr: IpAddr,
    pub open: bool,
}

/// What an application can read and write on a connection, as `quiche` says.
pub struct Readiness {
    /// The number of bidirectional streams that can be created before the peer's limit is reached.
    pub streams_left_bidi: u64,
    /// The number of unidirectional streams that can be created before the peer's limit is reached.
    pub streams_left_uni: u64,
    /// The streams that have become readable.
    pub readable: Vec<u64>,
    /// The streams that have become writable.
    pub writable: Vec<u64>,
    /// The queue of incoming datagrams is full.
    pub dgram_recv_queue_full: bool,
    /// The queue of outgoing datagrams is full.
    pub dgram_send_queue_full: bool,
    /// The maximum length of an outgoing datagram, `None` if there are none.
    pub dgram_max_writable_len: Option<usize>,
}

/// How far the handshake of a connection is, as `quiche` says.
pub struct Handshake {
    /// The connection is established.
    pub is_established: bool,
    /// The TLS session that a client can resume.
    pub session: Option<Vec<u8>>,
    /// The name of the server that a client has connected to.
    pub server_name: Option<String>,
    /// How many source connection IDs the peer takes.
    pub scids_left: usize,
}

/// An event of a network path, as `quiche` says.
#[derive(Debug, Clone, Copy, PartialEq, Eq, Structural)]
pub enum PathEvent {
    /// The path is validated.
    Validated,
    /// The peer has migrated to the path.
    PeerMigrated,
    /// Another event.
    Other,
}

/// A source connection ID for the peer to use, and its Stateless Reset token.
pub struct NewScid {
    /// The source connection ID.
    pub scid: ConnectionId,
    /// Its Stateless Reset token.
    pub reset_token: [u8; 16],
}

/// What became of a packet that a connection received, as `quiche` says.
pub struct Received {
    /// The error that `quiche` returned.
    pub error: Option<QuicheError>,
    /// The packet is one of the handshake.
    pub is_handshake: bool,
    /// How far the handshake is.
    pub handshake: Handshake,
    /// The connection is draining or closed.
    pub is_closing: bool,
    /// How the connection was closed.
    pub status: CloseStatus,
    /// The events of the network paths.
    pub path_events: Vec<PathEvent>,
    /// What an application can read and write.
    pub readiness: Readiness,
    /// The time at which a timeout happens.
    pub timeout_at: Option<Instant>,
}

impl BackendModel {
    /// Source connection IDs can be allocated for the peer of a connection.
    pub open spec fn allocates(self, settings: Settings, key: ConnectionKey) -> bool {
        settings.cid_len != 0 && settings.server is Some && self.has(key)
    }

    /// The backend after source connection IDs were allocated.
    pub open spec fn allocated(self, settings: Settings, key: ConnectionKey) -> BackendModel {
        if self.allocates(settings, key) {
            self.marked(key)
        } else {
            self
        }
    }

    /// How many source connection IDs are allocated.
    pub open spec fn allocated_count(
        self,
        settings: Settings,
        key: ConnectionKey,
        is_established: bool,
        scids_left: usize,
    ) -> nat {
        if self.allocates(settings, key) && is_established {
            scids_left as nat
        } else {
            0
        }
    }

    /// Source connection IDs are allocated once a packet was delegated to a connection,
    /// as many as `quiche` takes: the handshake goes on, or the peer has migrated.
    pub open spec fn updates_scids(
        self,
        settings: Settings,
        key: ConnectionKey,
        received: Received,
    ) -> bool {
        &&& (received.error is None && received.is_handshake)
            || received.path_events@.contains(PathEvent::PeerMigrated)
        &&& self.allocates(settings, key)
        &&& received.handshake.is_established
    }

    /// The sessions after the one of a client is stored, if there is one.
    pub open spec fn is_session_stored(
        before: SessionCache,
        is_server: bool,
        handshake: Handshake,
        after: SessionCache,
    ) -> bool {
        match (handshake.session, handshake.server_name) {
            (Some(ticket), Some(text)) if !is_server => {
                let (ip, domain) = (name::ip_of_text(text@), name::domain_of_text(text@));
                if ip is None && domain is None {
                    after == before
                } else {
                    exists|server_name: ServerName|
                        #![trigger name::name_of(ip, domain, Ok(server_name))]
                        name::name_of(ip, domain, Ok(server_name)) && before.is_inserted(
                            server_name.text(),
                            ticket@,
                            after,
                        ) && session::is_part_of(
                            after@,
                            before@.insert(server_name.text(), ticket@),
                        )
                }
            },
            _ => after == before,
        }
    }

    /// The backend without a connection's establishment timeout.
    pub open spec fn without_establish_timeout(self, key: ConnectionKey) -> BackendModel {
        let connection = self.connection(key);
        self.descheduled(connection, TimerKind::EstablishTimeout).with(
            key,
            connection.with_timer_key(TimerKind::EstablishTimeout, None),
        )
    }

    /// The handshake of a connection has progressed: once it is established, its establishment
    /// timeout is cancelled, its session is stored, and connection IDs are allocated.
    pub open spec fn is_progressed(
        self,
        settings: Settings,
        key: ConnectionKey,
        handshake: Handshake,
        after: BackendModel,
    ) -> bool {
        if self.has(key) && handshake.is_established {
            &&& Self::is_session_stored(
                self.sessions,
                self.connection(key).is_server,
                handshake,
                after.sessions,
            )
            &&& after == (BackendModel {
                sessions: after.sessions,
                ..self.without_establish_timeout(key)
            }).allocated(settings, key)
        } else {
            after == self
        }
    }

    /// The peer of a server connection has verified its address.
    pub open spec fn verified(self, key: ConnectionKey) -> BackendModel {
        if self.has(key) && self.connection(key).is_server {
            self.with(key, Connection { peer_address_verified: true, ..self.connection(key) })
        } else {
            self
        }
    }

    /// The backend after the events of the network paths of a connection.
    pub open spec fn after_path_events(
        self,
        settings: Settings,
        key: ConnectionKey,
        events: Seq<PathEvent>,
    ) -> BackendModel {
        let validated = if events.contains(PathEvent::Validated) {
            self.verified(key)
        } else {
            self
        };
        if events.contains(PathEvent::PeerMigrated) {
            validated.allocated(settings, key)
        } else {
            validated
        }
    }

    /// The connection is halted, with an event for it, unless there was one before.
    pub open spec fn halted(self, key: ConnectionKey, kind: HaltKind) -> BackendModel {
        let connection = self.connection(key);
        let closed = self.with(key, Connection { closed_event_sent: true, ..connection });
        if connection.closed_event_sent {
            closed
        } else {
            closed.pushed(
                Event::Connection(
                    ConnectionEvent::Halted { connection_id: connection.spec_id(key), kind },
                ),
            )
        }
    }

    /// The connection is closed, with an event for it, unless there was one before.
    pub open spec fn is_closed(
        self,
        key: ConnectionKey,
        status: CloseStatus,
        after: BackendModel,
    ) -> bool {
        let connection = self.connection(key);
        let closed = self.with(key, Connection { closed_event_sent: true, ..connection });
        if connection.closed_event_sent {
            after == closed
        } else {
            exists|event: ConnectionEvent<QuicheConnectionId>|
                #![trigger connection::is_close_event_of(event, connection.spec_id(key), status)]
                connection::is_close_event_of(event, connection.spec_id(key), status) && after
                    == closed.pushed(Event::Connection(event))
        }
    }

    /// The backend after `quiche` has taken a packet of a connection, or has refused it.
    pub open spec fn is_after_recv(
        self,
        settings: Settings,
        key: ConnectionKey,
        received: Received,
        after: BackendModel,
    ) -> bool {
        match received.error {
            None => if received.is_handshake {
                self.is_progressed(settings, key, received.handshake, after)
            } else {
                after == self
            },
            Some(error) => if received.is_closing {
                let halted = if error.kind == QuicheErrorKind::UnknownVersion {
                    self.halted(key, HaltKind::UnknownVersion)
                } else {
                    self
                };
                halted.is_closed(key, received.status, after)
            } else {
                after == self
            },
        }
    }

    /// The context of a connection.
    pub open spec fn connection(self, key: ConnectionKey) -> Connection {
        self.connections.all[key@]
    }

    /// A connection is present.
    pub open spec fn has(self, key: ConnectionKey) -> bool {
        self.connections.all.contains_key(key@)
    }

    /// The backend with another context of a connection.
    pub open spec fn with(self, key: ConnectionKey, connection: Connection) -> BackendModel {
        BackendModel { connections: self.connections.with(key@, connection), ..self }
    }

    /// The backend with a connection marked as active.
    pub open spec fn marked(self, key: ConnectionKey) -> BackendModel {
        BackendModel { connections: self.connections.marked(key@), ..self }
    }

    /// The backend with one more event.
    pub open spec fn pushed(self, event: Event<QuicheConnectionId>) -> BackendModel {
        BackendModel { events: self.events.push(event), ..self }
    }

    /// The backend without the scheduled event of a kind of a connection.
    pub open spec fn descheduled(self, connection: Connection, kind: TimerKind) -> BackendModel {
        BackendModel {
            scheduled: Time::<TimerEvent>::without_previous(
                self.scheduled,
                connection.timer_key(kind),
            ),
            ..self
        }
    }

    /// The backend without any scheduled event of a connection.
    pub open spec fn all_descheduled(self, connection: Connection) -> BackendModel {
        self.descheduled(connection, TimerKind::Pacer).descheduled(
            connection,
            TimerKind::QuicheTimeout,
        ).descheduled(connection, TimerKind::EstablishTimeout)
    }

    /// An event of a connection is scheduled at a time, in place of the one of its kind before.
    pub open spec fn is_scheduled(
        self,
        key: ConnectionKey,
        kind: TimerKind,
        at: Instant,
        after: BackendModel,
    ) -> bool {
        let connection = self.connection(key);
        &&& after.connection(key).timer_key(kind) is Some
        &&& after == (BackendModel {
            scheduled: self.descheduled(connection, kind).scheduled.push(
                Scheduled {
                    key: after.connection(key).timer_key(kind)->0,
                    at,
                    event: TimerEvent { connection_key: key, kind },
                },
            ),
            ..self.with(
                key,
                connection.with_timer_key(kind, after.connection(key).timer_key(kind)),
            )
        })
    }

    /// An event of a connection is scheduled, if the connection is present and there is a time.
    pub open spec fn is_scheduled_if(
        self,
        key: ConnectionKey,
        kind: TimerKind,
        at: Option<Instant>,
        after: BackendModel,
    ) -> bool {
        match at {
            Some(at) if self.has(key) => self.is_scheduled(key, kind, at, after),
            _ => after == self,
        }
    }

    /// The time at which a connection has to be established.
    pub open spec fn establish_deadline(self, settings: Settings, is_server: bool) -> Option<
        Instant,
    > {
        let timeout = if is_server {
            settings.server
        } else {
            match settings.client {
                Some(timeout) => timeout,
                None => None,
            }
        };
        match timeout {
            Some(timeout) => Some(Instant { nanos: (self.now.nanos + timeout.nanos) as u128 }),
            None => None,
        }
    }

    /// A connection is registered: it is inserted and marked as active, its timeouts are scheduled,
    /// and there is an event for it.
    pub open spec fn is_registered(
        self,
        settings: Settings,
        connection: Connection,
        source_cid: Seq<u8>,
        peer_addr: SocketAddr,
        timeout_at: Option<Instant>,
        id: QuicheConnectionId,
        after: BackendModel,
    ) -> bool {
        let inserted = BackendModel {
            connections: self.connections.inserted(id.key@, connection, source_cid, peer_addr),
            ..self
        };
        &&& !self.has(id.key)
        &&& id == connection.spec_id(id.key)
        &&& exists|timed: BackendModel, established: BackendModel|
            #![trigger inserted.is_scheduled_if(
                id.key,
                TimerKind::QuicheTimeout,
                timeout_at,
                timed,
            ), established.pushed(
                Event::Connection(
                    ConnectionEvent::New { connection_id: id, is_server: connection.is_server },
                ),
            )]
            {
                &&& inserted.is_scheduled_if(
                    id.key,
                    TimerKind::QuicheTimeout,
                    timeout_at,
                    timed,
                )
                &&& timed.is_scheduled_if(
                    id.key,
                    TimerKind::EstablishTimeout,
                    self.establish_deadline(settings, connection.is_server),
                    established,
                )
                &&& after == established.pushed(
                    Event::Connection(
                        ConnectionEvent::New { connection_id: id, is_server: connection.is_server },
                    ),
                )
            }
    }

    /// The connection is forgotten, with an event that says how it was closed,
    /// unless such an event was there before.
    pub open spec fn is_forgotten(
        self,
        key: ConnectionKey,
        status: CloseStatus,
        after: BackendModel,
    ) -> bool {
        let connection = self.connection(key);
        let gone = BackendModel { connections: self.connections.removed(key@), ..self };
        if !self.has(key) {
            after == self
        } else if connection.closed_event_sent {
            after == gone.all_descheduled(connection)
        } else {
            exists|event: ConnectionEvent<QuicheConnectionId>|
                #![trigger connection::is_close_event_of(event, connection.spec_id(key), status)]
                connection::is_close_event_of(event, connection.spec_id(key), status) && after
                    == gone.all_descheduled(connection).pushed(Event::Connection(event))
        }
    }

    /// The events of the streams of a connection that have become available.
    pub open spec fn stream_events(id: QuicheConnectionId, streams: Seq<u64>) -> Seq<
        Event<QuicheConnectionId>,
    >
        decreases streams.len(),
    {
        if streams.len() == 0 {
            Seq::empty()
        } else if streams.last() <= StreamId::MAX {
            Self::stream_events(id, streams.drop_last()).push(
                Event::Stream(StreamEvent::Available(id, StreamId::of(streams.last()))),
            )
        } else {
            Self::stream_events(id, streams.drop_last())
        }
    }

    /// The context of a connection after its application was told what it can read and write.
    pub open spec fn told(connection: Connection, readiness: Readiness) -> Connection {
        Connection {
            streams_bidi_exhausted: connection.streams_bidi_exhausted
                && !connection.streams_available(true, readiness.streams_left_bidi),
            streams_uni_exhausted: connection.streams_uni_exhausted
                && !connection.streams_available(false, readiness.streams_left_uni),
            dgram_in_drained: connection.dgram_in_drained && readiness.dgram_recv_queue_full,
            dgram_out_drained: connection.dgram_out_drained && readiness.dgram_send_queue_full,
            dgram_out_max_size: Connection::told_size(readiness.dgram_max_writable_len),
            ..connection
        }
    }

    /// What the application of a connection is told that it can read and write.
    pub open spec fn readiness_events(
        connection: Connection,
        key: ConnectionKey,
        readiness: Readiness,
    ) -> Seq<Event<QuicheConnectionId>> {
        let id = connection.spec_id(key);
        let size = Connection::told_size(readiness.dgram_max_writable_len);
        connection.streams_available_events(
            key,
            readiness.streams_left_bidi,
            readiness.streams_left_uni,
        ).map_values(|event: ConnectionEvent<QuicheConnectionId>| Event::Connection(event))
            + Self::stream_events(id, readiness.readable@) + Self::stream_events(
            id,
            readiness.writable@,
        ) + (if connection.dgram_in_drained && !readiness.dgram_recv_queue_full {
            seq![Event::Datagram(DatagramEvent::InAvailable(id))]
        } else {
            Seq::empty()
        }) + (if connection.dgram_out_drained && !readiness.dgram_send_queue_full {
            seq![Event::Datagram(DatagramEvent::OutAvailable(id))]
        } else {
            Seq::empty()
        }) + (if connection.dgram_out_max_size != size {
            seq![Event::Datagram(DatagramEvent::OutNewSize(id, size))]
        } else {
            Seq::empty()
        })
    }

    /// The backend after the application of a connection was told what it can read and write.
    pub open spec fn told_readiness(self, key: ConnectionKey, readiness: Readiness) -> BackendModel {
        if self.has(key) {
            let connection = self.connection(key);
            BackendModel {
                events: self.events + Self::readiness_events(connection, key, readiness),
                ..self.with(key, Self::told(connection, readiness))
            }
        } else {
            self
        }
    }
}

/// It is told once that a connection is closed: neither that it is closed or halted again
/// nor that it is forgotten then is told.
pub proof fn law_close_is_told_once(
    m: BackendModel,
    key: ConnectionKey,
    status: CloseStatus,
    closed: BackendModel,
    later_status: CloseStatus,
    later: BackendModel,
    kind: HaltKind,
    forgotten: BackendModel,
)
    requires
        m.has(key),
        m.is_closed(key, status, closed),
        closed.is_closed(key, later_status, later),
        closed.is_forgotten(key, later_status, forgotten),
    ensures
        closed.events.len() <= m.events.len() + 1,
        later.events == closed.events,
        closed.halted(key, kind).events == closed.events,
        forgotten.events == closed.events,
{
    assert(closed.connection(key).closed_event_sent);
    assert(closed.has(key));
}

/// A connection that was forgotten, a closed one for instance, is known no more:
/// no packet leads to it, and it does not wait to be polled.
pub proof fn law_forgotten_connection_gets_no_packet(
    m: BackendModel,
    key: ConnectionKey,
    status: CloseStatus,
    forgotten: BackendModel,
    peer_dcid: Seq<u8>,
    peer_addr: SocketAddr,
)
    requires
        m.connections.wf(),
        m.has(key),
        m.is_forgotten(key, status, forgotten),
    ensures
        !forgotten.has(key),
        forgotten.connections.found(peer_dcid, peer_addr) != Some(key@),
        !forgotten.connections.active.contains(key@),
{
    connections::law_forgotten_connection_is_not_found(
        m.connections,
        key@,
        peer_dcid,
        peer_addr,
    );
}

/// A connection is to be established exactly the configured timeout after it was registered,
/// so that it is not late at once. Without a timeout there is no such time.
pub proof fn law_connection_has_its_time_to_be_established(
    m: BackendModel,
    settings: Settings,
    is_server: bool,
)
    ensures
        ({
            let timeout = if is_server {
                settings.server
            } else if settings.client is Some {
                settings.client->0
            } else {
                None
            };
            match (timeout, m.establish_deadline(settings, is_server)) {
                (None, deadline) => deadline is None,
                (Some(timeout), None) => false,
                (Some(timeout), Some(at)) => m.now.nanos + timeout.nanos <= u128::MAX ==> {
                    &&& at.nanos - m.now.nanos == timeout.nanos
                    &&& timeout.nanos > 0 ==> at.nanos > m.now.nanos
                },
            }
        }),
{
}

/// An event of a connection is scheduled at the given time, and the one of its kind before
/// is cancelled. No other connection, no other event and nothing else of the backend changes.
pub proof fn law_scheduled_event_replaces_the_one_before(
    m: BackendModel,
    key: ConnectionKey,
    kind: TimerKind,
    at: Instant,
    after: BackendModel,
)
    requires
        m.has(key),
        m.is_scheduled(key, kind, at, after),
    ensures
        after.scheduled.len() > 0,
        after.scheduled.last().at == at,
        after.scheduled.last().event.connection_key == key,
        after.scheduled.last().event.kind == kind,
        Some(after.scheduled.last().key) == after.connection(key).timer_key(kind),
        m.connection(key).timer_key(kind) is None ==> after.scheduled.drop_last() == m.scheduled,
        m.connection(key).timer_key(kind) matches Some(previous) ==> !deadline::holds_key(
            after.scheduled.drop_last(),
            previous,
        ),
        forall|entry: Scheduled<TimerEvent>|
            m.scheduled.contains(entry) && Some(entry.key) != m.connection(key).timer_key(kind)
                ==> #[trigger] after.scheduled.contains(entry),
        forall|other: TimerKind|
            other != kind ==> #[trigger] after.connection(key).timer_key(other) == m.connection(
                key,
            ).timer_key(other),
        forall|other: u64|
            other != key@ ==> (m.connections.all.contains_key(other)
                <==> #[trigger] after.connections.all.contains_key(other))
                && after.connections.all[other] == m.connections.all[other],
        after.has(key),
        after.events == m.events,
        after.fired == m.fired,
        after.now == m.now,
        after.connections.active == m.connections.active,
        after.connections.cids == m.connections.cids,
        after.connections.addrs == m.connections.addrs,
{
    let connection = m.connection(key);
    let rest = m.descheduled(connection, kind).scheduled;
    assert(after.scheduled.drop_last() =~= rest);
    if let Some(previous) = connection.timer_key(kind) {
        deadline::law_cancelled_event_is_gone(m.scheduled, previous);
    }
    assert forall|entry: Scheduled<TimerEvent>|
        m.scheduled.contains(entry) && Some(entry.key) != connection.timer_key(
            kind,
        ) implies #[trigger] after.scheduled.contains(entry) by {
        if let Some(previous) = connection.timer_key(kind) {
            lemma_cancelled_contains(m.scheduled, previous, entry);
        }
        let i = choose|i: int| 0 <= i < rest.len() && rest[i] == entry;
        assert(after.scheduled[i] == entry);
    }
}

proof fn lemma_cancelled_contains(
    scheduled: Seq<Scheduled<TimerEvent>>,
    key: DeadlineKey,
    entry: Scheduled<TimerEvent>,
)
    requires
        scheduled.contains(entry),
        entry.key != key,
    ensures
        deadline::cancelled(scheduled, key).contains(entry),
    decreases scheduled.len(),
{
    let init = scheduled.drop_last();
    let rest = deadline::cancelled(init, key);
    if init.contains(entry) {
        lemma_cancelled_contains(init, key, entry);
        let i = choose|i: int| 0 <= i < rest.len() && rest[i] == entry;
        assert(deadline::cancelled(scheduled, key)[i] == entry);
    } else {
        let i = choose|i: int| 0 <= i < scheduled.len() && scheduled[i] == entry;
        if i < init.len() {
            assert(init[i] == entry);
        }
        assert(deadline::cancelled(scheduled, key)[rest.len() as int] == entry);
    }
}

/// A connection that was registered is told once, waits to be polled, and is left as it was given.
/// Its establishment timeout is scheduled the configured time ahead, and the one of `quiche`
/// at the time that `quiche` says.
pub proof fn law_registered_connection_is_told_and_timed(
    m: BackendModel,
    settings: Settings,
    connection: Connection,
    source_cid: Seq<u8>,
    peer_addr: SocketAddr,
    timeout_at: Option<Instant>,
    id: QuicheConnectionId,
    after: BackendModel,
)
    requires
        connection.timer_key(TimerKind::QuicheTimeout) is None,
        connection.timer_key(TimerKind::EstablishTimeout) is None,
        m.is_registered(settings, connection, source_cid, peer_addr, timeout_at, id, after),
    ensures
        !m.has(id.key),
        after.has(id.key),
        id.trace == connection.trace,
        after.events.len() == m.events.len() + 1,
        after.events.drop_last() == m.events,
        after.events.last() == Event::Connection(
            ConnectionEvent::New { connection_id: id, is_server: connection.is_server },
        ),
        after.connections.active.contains(id.key@),
        after.connection(id.key) == (Connection {
            timer_quiche_timeout_key: after.connection(id.key).timer_quiche_timeout_key,
            timer_establish_timeout_key: after.connection(id.key).timer_establish_timeout_key,
            ..connection
        }),
        forall|other: u64|
            other != id.key@ ==> (m.connections.all.contains_key(other)
                <==> #[trigger] after.connections.all.contains_key(other))
                && after.connections.all[other] == m.connections.all[other],
        m.scheduled.is_prefix_of(after.scheduled),
        ({
            let timeout = if connection.is_server {
                settings.server
            } else if settings.client is Some {
                settings.client->0
            } else {
                None
            };
            let rest = after.scheduled.skip(m.scheduled.len() as int);
            let last = rest.last();
            &&& rest.len() == (if timeout_at is Some {
                1int
            } else {
                0
            }) + (if timeout is Some {
                1int
            } else {
                0
            })
            &&& timeout_at matches Some(at) ==> {
                &&& rest[0].at == at
                &&& rest[0].event == (TimerEvent {
                    connection_key: id.key,
                    kind: TimerKind::QuicheTimeout,
                })
            }
            &&& timeout matches Some(timeout) ==> {
                &&& m.now.nanos + timeout.nanos <= u128::MAX ==> last.at.nanos == m.now.nanos
                    + timeout.nanos
                &&& last.event == (TimerEvent {
                    connection_key: id.key,
                    kind: TimerKind::EstablishTimeout,
                })
            }
        }),
{
    let inserted = BackendModel {
        connections: m.connections.inserted(id.key@, connection, source_cid, peer_addr),
        ..m
    };
    let event = Event::Connection(
        ConnectionEvent::New { connection_id: id, is_server: connection.is_server },
    );
    let (timed, established) = choose|timed: BackendModel, established: BackendModel|
        #![trigger inserted.is_scheduled_if(
            id.key,
            TimerKind::QuicheTimeout,
            timeout_at,
            timed,
        ), established.pushed(event)]
        {
            &&& inserted.is_scheduled_if(id.key, TimerKind::QuicheTimeout, timeout_at, timed)
            &&& timed.is_scheduled_if(
                id.key,
                TimerKind::EstablishTimeout,
                m.establish_deadline(settings, connection.is_server),
                established,
            )
            &&& after == established.pushed(event)
        };
    queue::law_marking_twice_is_marking_once(m.connections.active, id.key@);
    assert(after.events.drop_last() =~= m.events);
    assert(inserted.connection(id.key) == connection);
    assert(timed.has(id.key));
    let rest = after.scheduled.skip(m.scheduled.len() as int);
    if timeout_at is Some {
        assert(timed.scheduled.drop_last() =~= m.scheduled);
        assert(rest[0] == timed.scheduled.last());
    } else {
        assert(timed.scheduled == m.scheduled);
    }
    if m.establish_deadline(settings, connection.is_server) is Some {
        assert(after.scheduled.drop_last() =~= timed.scheduled);
        assert(rest.last() == after.scheduled.last());
    } else {
        assert(after.scheduled == timed.scheduled);
    }
}

/// A connection that is halted is told so, unless it was told before that it is closed.
/// Nothing is told of it later, and other connections are as they were.
pub proof fn law_halt_is_told(m: BackendModel, key: ConnectionKey, kind: HaltKind, other: u64)
    requires
        m.has(key),
        other != key@,
    ensures
        m.connection(key).closed_event_sent ==> m.halted(key, kind).events == m.events,
        !m.connection(key).closed_event_sent ==> {
            &&& m.halted(key, kind).events.len() == m.events.len() + 1
            &&& m.halted(key, kind).events.drop_last() == m.events
            &&& m.halted(key, kind).events.last() matches Event::Connection(
                ConnectionEvent::Halted { connection_id, kind: told },
            ) && connection_id.key == key && connection_id.trace == m.connection(key).trace && told
                == kind
        },
        m.halted(key, kind).connection(key) == (Connection {
            closed_event_sent: true,
            ..m.connection(key)
        }),
        m.halted(key, kind).connections.all.contains_key(other)
            <==> m.connections.all.contains_key(other),
        m.halted(key, kind).connections.all[other] == m.connections.all[other],
        m.halted(key, kind).scheduled == m.scheduled,
        m.halted(key, kind).connections.active == m.connections.active,
{
    assert(m.halted(key, kind).events.len() > m.events.len() ==> m.halted(
        key,
        kind,
    ).events.drop_last() =~= m.events);
}

/// It is told how a connection was closed, unless it was told before. Only that is told.
pub proof fn law_close_is_told(
    m: BackendModel,
    key: ConnectionKey,
    status: CloseStatus,
    after: BackendModel,
)
    requires
        m.has(key),
        m.is_closed(key, status, after),
    ensures
        after.connection(key) == (Connection { closed_event_sent: true, ..m.connection(key) }),
        after.scheduled == m.scheduled,
        m.connection(key).closed_event_sent ==> after.events == m.events,
        !m.connection(key).closed_event_sent ==> {
            &&& after.events.len() == m.events.len() + 1
            &&& after.events.drop_last() == m.events
            &&& after.events.last() matches Event::Connection(event)
                && connection::is_close_event_of(
                event,
                QuicheConnectionId { key, trace: m.connection(key).trace },
                status,
            )
        },
{
    if !m.connection(key).closed_event_sent {
        assert(after.events.drop_last() =~= m.events);
    }
}

/// A packet that `quiche` has taken tells nothing by itself. One that it has refused tells
/// that the connection is closed, if it is closing: an unknown version before all other reasons.
pub proof fn law_refused_packet_tells_why_a_connection_closes(
    m: BackendModel,
    settings: Settings,
    key: ConnectionKey,
    received: Received,
    after: BackendModel,
)
    requires
        m.has(key),
        m.is_after_recv(settings, key, received, after),
    ensures
        received.error is None ==> after.events == m.events,
        received.error is Some && !received.is_closing ==> after == m,
        received.error is None && !received.is_handshake ==> after == m,
        received.error is Some && received.is_closing ==> {
            &&& after.connection(key).closed_event_sent
            &&& m.connection(key).closed_event_sent ==> after.events == m.events
            &&& !m.connection(key).closed_event_sent ==> {
                &&& after.events.len() == m.events.len() + 1
                &&& after.events.drop_last() == m.events
                &&& after.events.last() matches Event::Connection(event) && if received.error->0.kind
                    == QuicheErrorKind::UnknownVersion {
                    event matches ConnectionEvent::Halted { connection_id, kind }
                        && connection_id.key == key && kind == HaltKind::UnknownVersion
                } else {
                    connection::is_close_event_of(
                        event,
                        QuicheConnectionId { key, trace: m.connection(key).trace },
                        received.status,
                    )
                }
            }
        },
{
    if received.error is Some && received.is_closing && !m.connection(key).closed_event_sent {
        assert(after.events.drop_last() =~= m.events);
    }
}

/// An established connection has no establishment timeout any more: neither is its key kept,
/// nor does its event fire. The other timeouts stay.
pub proof fn law_established_connection_does_not_time_out(
    m: BackendModel,
    settings: Settings,
    key: ConnectionKey,
    handshake: Handshake,
    after: BackendModel,
)
    requires
        m.has(key),
        m.is_progressed(settings, key, handshake, after),
    ensures
        !handshake.is_established ==> after == m,
        handshake.is_established ==> {
            &&& after.connection(key) == (Connection {
                timer_establish_timeout_key: None,
                ..m.connection(key)
            })
            &&& m.connection(key).timer_establish_timeout_key matches Some(previous)
                ==> !deadline::holds_key(after.scheduled, previous)
            &&& forall|entry: Scheduled<TimerEvent>|
                m.scheduled.contains(entry) && Some(entry.key) != m.connection(
                    key,
                ).timer_establish_timeout_key ==> #[trigger] after.scheduled.contains(entry)
            &&& settings.server is Some && settings.cid_len > 0
                ==> after.connections.active.contains(key@)
            &&& BackendModel::is_session_stored(
                m.sessions,
                m.connection(key).is_server,
                handshake,
                after.sessions,
            )
            &&& m.connection(key).is_server ==> after.sessions == m.sessions
        },
        after.events == m.events,
{
    if handshake.is_established {
        let connection = m.connection(key);
        if let Some(previous) = connection.timer_establish_timeout_key {
            deadline::law_cancelled_event_is_gone(m.scheduled, previous);
            assert forall|entry: Scheduled<TimerEvent>|
                m.scheduled.contains(entry) && entry.key
                    != previous implies #[trigger] after.scheduled.contains(entry) by {
                lemma_cancelled_contains(m.scheduled, previous, entry);
            }
        }
        queue::law_marking_twice_is_marking_once(m.connections.active, key@);
    }
}

/// A session is kept of a client connection only, under no name but the one of the server,
/// and as it was given.
pub proof fn law_sessions_of_clients_are_kept(
    before: SessionCache,
    is_server: bool,
    handshake: Handshake,
    after: SessionCache,
    text: Seq<char>,
)
    requires
        BackendModel::is_session_stored(before, is_server, handshake, after),
    ensures
        is_server || handshake.session is None || handshake.server_name is None ==> after == before,
        after@.contains_key(text) && !(before@.contains_key(text) && before@[text] == after@[text])
            ==> handshake.session is Some && after@[text] == handshake.session->0@,
        handshake.server_name matches Some(name) ==> {
            let (ip, domain) = (name::ip_of_text(name@), name::domain_of_text(name@));
            &&& ip is None && domain is None ==> after == before
            &&& !is_server && handshake.session is Some && (ip is Some || domain is Some) ==> exists|
                server_name: ServerName,
            |
                #![trigger name::name_of(ip, domain, Ok(server_name))]
                name::name_of(ip, domain, Ok(server_name)) && before.is_inserted(
                    server_name.text(),
                    handshake.session->0@,
                    after,
                )
        },
{
}

/// A peer whose path was validated has verified its address, if it has connected to us;
/// no other event of a path and no other connection does so. Nothing is told of it.
pub proof fn law_validated_path_verifies_the_peer(
    m: BackendModel,
    settings: Settings,
    key: ConnectionKey,
    events: Seq<PathEvent>,
    other: u64,
)
    requires
        m.has(key),
        other != key@,
    ensures
        ({
            let after = m.after_path_events(settings, key, events);
            let before = m.connection(key);
            &&& after.connection(key) == (Connection {
                peer_address_verified: before.peer_address_verified || (before.is_server
                    && exists|i: int| 0 <= i < events.len() && events[i] == PathEvent::Validated),
                ..before
            })
            &&& after.connections.all[other] == m.connections.all[other]
            &&& after.connections.all.contains_key(other) <==> m.connections.all.contains_key(other)
            &&& after.events == m.events
            &&& after.scheduled == m.scheduled
            &&& (exists|i: int| 0 <= i < events.len() && events[i] == PathEvent::PeerMigrated)
                && settings.server is Some && settings.cid_len > 0
                ==> after.connections.active.contains(key@)
            &&& !(exists|i: int| 0 <= i < events.len() && events[i] == PathEvent::PeerMigrated)
                ==> after.connections.active == m.connections.active
        }),
{
    assert(m.connections.all.insert(key@, m.connection(key)) =~= m.connections.all);
    queue::law_marking_twice_is_marking_once(m.connections.active, key@);
}

/// Source connection IDs are allocated for established connections of a server that has some,
/// as many as `quiche` takes, when the handshake goes on or the peer has migrated.
pub proof fn law_connection_ids_are_allocated(
    m: BackendModel,
    settings: Settings,
    key: ConnectionKey,
    received: Received,
)
    ensures
        m.updates_scids(settings, key, received) <==> {
            &&& settings.server is Some && settings.cid_len > 0
            &&& m.connections.all.contains_key(key@)
            &&& received.handshake.is_established
            &&& (received.is_handshake && received.error is None) || exists|i: int|
                0 <= i < received.path_events@.len() && received.path_events@[i]
                    == PathEvent::PeerMigrated
        },
        m.updates_scids(settings, key, received) ==> m.allocated_count(
            settings,
            key,
            received.handshake.is_established,
            received.handshake.scids_left,
        ) == received.handshake.scids_left,
        m.allocated_count(
            settings,
            key,
            received.handshake.is_established,
            received.handshake.scids_left,
        ) > 0 ==> received.handshake.is_established && settings.server is Some && settings.cid_len
            > 0 && m.connections.all.contains_key(key@),
{
}

/// The timeouts of a forgotten connection do not fire, those of other connections stay,
/// and how it was closed is told if it was not told before.
pub proof fn law_forgotten_connection_does_not_time_out(
    m: BackendModel,
    key: ConnectionKey,
    status: CloseStatus,
    after: BackendModel,
    kind: TimerKind,
    entry: Scheduled<TimerEvent>,
    other: u64,
)
    requires
        m.has(key),
        other != key@,
        m.is_forgotten(key, status, after),
    ensures
        m.connection(key).timer_key(kind) matches Some(previous) ==> !deadline::holds_key(
            after.scheduled,
            previous,
        ),
        m.scheduled.contains(entry) && (forall|k: TimerKind|
            Some(entry.key) != #[trigger] m.connection(key).timer_key(k))
            ==> after.scheduled.contains(entry),
        m.connections.all.contains_key(other) <==> after.connections.all.contains_key(other),
        m.connections.all[other] == after.connections.all[other],
        m.connection(key).closed_event_sent ==> after.events == m.events,
        !m.connection(key).closed_event_sent ==> {
            &&& after.events.len() == m.events.len() + 1
            &&& after.events.drop_last() == m.events
            &&& after.events.last() matches Event::Connection(event)
                && connection::is_close_event_of(
                event,
                QuicheConnectionId { key, trace: m.connection(key).trace },
                status,
            )
        },
{
    let c = m.connection(key);
    let s0 = m.scheduled;
    let s1 = Time::<TimerEvent>::without_previous(s0, c.timer_key(TimerKind::Pacer));
    let s2 = Time::<TimerEvent>::without_previous(s1, c.timer_key(TimerKind::QuicheTimeout));
    let s3 = Time::<TimerEvent>::without_previous(s2, c.timer_key(TimerKind::EstablishTimeout));
    assert(after.scheduled == s3);
    if let Some(previous) = c.timer_key(kind) {
        lemma_descheduled(s0, c.timer_key(TimerKind::Pacer), previous, entry);
        lemma_descheduled(s1, c.timer_key(TimerKind::QuicheTimeout), previous, entry);
        lemma_descheduled(s2, c.timer_key(TimerKind::EstablishTimeout), previous, entry);
    } else {
        lemma_descheduled(s0, c.timer_key(TimerKind::Pacer), entry.key, entry);
        lemma_descheduled(s1, c.timer_key(TimerKind::QuicheTimeout), entry.key, entry);
        lemma_descheduled(s2, c.timer_key(TimerKind::EstablishTimeout), entry.key, entry);
    }
    if !c.closed_event_sent {
        assert(after.events.drop_last() =~= m.events);
    }
}

proof fn lemma_descheduled(
    scheduled: Seq<Scheduled<TimerEvent>>,
    previous: Option<DeadlineKey>,
    key: DeadlineKey,
    entry: Scheduled<TimerEvent>,
)
    ensures
        previous == Some(key) ==> !deadline::holds_key(
            Time::<TimerEvent>::without_previous(scheduled, previous),
            key,
        ),
        !deadline::holds_key(scheduled, key) ==> !deadline::holds_key(
            Time::<TimerEvent>::without_previous(scheduled, previous),
            key,
        ),
        scheduled.contains(entry) && previous != Some(entry.key)
            ==> Time::<TimerEvent>::without_previous(scheduled, previous).contains(entry),
{
    if let Some(p) = previous {
        deadline::law_cancelled_event_is_gone(scheduled, p);
        if scheduled.contains(entry) && p != entry.key {
            lemma_cancelled_contains(scheduled, p, entry);
        }
        if !deadline::holds_key(scheduled, key) {
            lemma_cancelled_adds_no_key(scheduled, p, key);
        }
    }
}

proof fn lemma_cancelled_adds_no_key(
    scheduled: Seq<Scheduled<TimerEvent>>,
    cancelled: DeadlineKey,
    key: DeadlineKey,
)
    requires
        !deadline::holds_key(scheduled, key),
    ensures
        !deadline::holds_key(deadline::cancelled(scheduled, cancelled), key),
    decreases scheduled.len(),
{
    if scheduled.len() > 0 {
        let init = scheduled.drop_last();
        assert forall|i: int| 0 <= i < init.len() implies (#[trigger] init[i]).key != key by {
            assert(scheduled[i].key != key);
        }
        lemma_cancelled_adds_no_key(init, cancelled, key);
        assert(scheduled[scheduled.len() - 1].key != key);
        let rest = deadline::cancelled(init, cancelled);
        let all = deadline::cancelled(scheduled, cancelled);
        assert forall|i: int| 0 <= i < all.len() implies (#[trigger] all[i]).key != key by {
            if i < rest.len() {
                assert(all[i] == rest[i]);
            }
        }
    }
}

proof fn lemma_contains_in_both<T>(a: Seq<T>, b: Seq<T>, x: T)
    ensures
        (a + b).contains(x) <==> a.contains(x) || b.contains(x),
{
    if a.contains(x) {
        let i = choose|i: int| 0 <= i < a.len() && a[i] == x;
        assert((a + b)[i] == x);
    }
    if b.contains(x) {
        let i = choose|i: int| 0 <= i < b.len() && b[i] == x;
        assert((a + b)[a.len() + i] == x);
    }
    if (a + b).contains(x) {
        let i = choose|i: int| 0 <= i < (a + b).len() && (a + b)[i] == x;
        if i < a.len() {
            assert(a[i] == x);
        } else {
            assert(b[i - a.len()] == x);
        }
    }
}

/// A stream that has become available is told, if there can be such a stream, and no other is.
pub proof fn law_available_streams_are_told(id: QuicheConnectionId, streams: Seq<u64>, stream: u64)
    requires
        stream < 0x4000_0000_0000_0000,
    ensures
        BackendModel::stream_events(id, streams).contains(
            Event::Stream(StreamEvent::Available(id, StreamId::of(stream))),
        ) <==> streams.contains(stream),
        forall|i: int|
            0 <= i < BackendModel::stream_events(id, streams).len() ==> ((
            #[trigger] BackendModel::stream_events(id, streams)[i]) matches Event::Stream(
                StreamEvent::Available(told, _),
            ) && told == id),
        BackendModel::stream_events(id, streams.push(stream)) == BackendModel::stream_events(
            id,
            streams,
        ).push(Event::Stream(StreamEvent::Available(id, StreamId::of(stream)))),
    decreases streams.len(),
{
    let event: Event<QuicheConnectionId> = Event::Stream(
        StreamEvent::Available(id, StreamId::of(stream)),
    );
    assert(streams.push(stream).drop_last() =~= streams);
    if streams.len() > 0 {
        let init = streams.drop_last();
        let last = streams.last();
        law_available_streams_are_told(id, init, stream);
        let rest = BackendModel::stream_events(id, init);
        let all = BackendModel::stream_events(id, streams);
        StreamId::lemma_of_is_injective(last, stream);
        assert(streams =~= init + seq![last]);
        lemma_contains_in_both(init, seq![last], stream);
        assert(seq![last].contains(stream) <==> last == stream) by {
            assert(seq![last][0] == last);
        }
        if last <= StreamId::MAX {
            let told: Event<QuicheConnectionId> = Event::Stream(
                StreamEvent::Available(id, StreamId::of(last)),
            );
            assert(all =~= rest + seq![told]);
            lemma_contains_in_both(rest, seq![told], event);
            assert(seq![told].contains(event) <==> told == event) by {
                assert(seq![told][0] == told);
            }
        }
        assert forall|i: int| 0 <= i < all.len() implies ((
        #[trigger] all[i]) matches Event::Stream(StreamEvent::Available(told, _)) && told
            == id) by {
            if i < rest.len() {
                assert(all[i] == rest[i]);
            }
        }
    }
}

/// An application that has waited for datagrams is told once that there are some, one that has
/// waited for room is told once that there is some, and a new size is told once.
/// Nothing of that is told otherwise.
pub proof fn law_awaited_datagrams_are_told(
    connection: Connection,
    key: ConnectionKey,
    readiness: Readiness,
)
    ensures
        ({
            let id = QuicheConnectionId { key, trace: connection.trace };
            let events = BackendModel::readiness_events(connection, key, readiness);
            let told = BackendModel::told(connection, readiness);
            let again = BackendModel::readiness_events(told, key, readiness);
            let size = told.dgram_out_max_size;
            let available = Event::Datagram(DatagramEvent::InAvailable(id));
            let room = Event::Datagram(DatagramEvent::OutAvailable(id));
            &&& events.contains(available) <==> connection.dgram_in_drained
                && !readiness.dgram_recv_queue_full
            &&& events.contains(room) <==> connection.dgram_out_drained
                && !readiness.dgram_send_queue_full
            &&& events.contains(Event::Datagram(DatagramEvent::OutNewSize(id, size))) <==> size
                != connection.dgram_out_max_size
            &&& !again.contains(available)
            &&& !again.contains(room)
            &&& !again.contains(Event::Datagram(DatagramEvent::OutNewSize(id, size)))
            &&& readiness.dgram_max_writable_len is None ==> size == 0
            &&& readiness.dgram_max_writable_len matches Some(len) ==> (size == len || (len > 0xffff
                && size == 0xffff))
            &&& told.streams_bidi_exhausted <==> connection.streams_bidi_exhausted && (
            readiness.streams_left_bidi == 0 || connection.stream_bidi_sequence@ + 4
                >= 0x4000_0000_0000_0000)
            &&& told.streams_uni_exhausted <==> connection.streams_uni_exhausted && (
            readiness.streams_left_uni == 0 || connection.stream_uni_sequence@ + 4
                >= 0x4000_0000_0000_0000)
            &&& told.closed_event_sent == connection.closed_event_sent
            &&& told.stream_bidi_sequence == connection.stream_bidi_sequence
            &&& told.stream_uni_sequence == connection.stream_uni_sequence
        }),
{
    let told = BackendModel::told(connection, readiness);
    let id = connection.spec_id(key);
    let size = told.dgram_out_max_size;
    lemma_readiness_contains(
        connection,
        key,
        readiness,
        Event::Datagram(DatagramEvent::InAvailable(id)),
    );
    lemma_readiness_contains(
        connection,
        key,
        readiness,
        Event::Datagram(DatagramEvent::OutAvailable(id)),
    );
    lemma_readiness_contains(
        connection,
        key,
        readiness,
        Event::Datagram(DatagramEvent::OutNewSize(id, size)),
    );
    lemma_readiness_contains(
        told,
        key,
        readiness,
        Event::Datagram(DatagramEvent::InAvailable(id)),
    );
    lemma_readiness_contains(
        told,
        key,
        readiness,
        Event::Datagram(DatagramEvent::OutAvailable(id)),
    );
    lemma_readiness_contains(
        told,
        key,
        readiness,
        Event::Datagram(DatagramEvent::OutNewSize(id, size)),
    );
}

/// A stream that can be read or written is told, whichever it is.
pub proof fn law_ready_streams_are_told(
    connection: Connection,
    key: ConnectionKey,
    readiness: Readiness,
    stream: u64,
)
    requires
        stream < 0x4000_0000_0000_0000,
    ensures
        BackendModel::readiness_events(connection, key, readiness).contains(
            Event::Stream(
                StreamEvent::Available(
                    QuicheConnectionId { key, trace: connection.trace },
                    StreamId::of(stream),
                ),
            ),
        ) <==> readiness.readable@.contains(stream) || readiness.writable@.contains(stream),
{
    let id = connection.spec_id(key);
    let event = Event::Stream(StreamEvent::Available(id, StreamId::of(stream)));
    lemma_readiness_contains(connection, key, readiness, event);
    law_available_streams_are_told(id, readiness.readable@, stream);
    law_available_streams_are_told(id, readiness.writable@, stream);
}

/// The events of a readiness are those of its parts.
proof fn lemma_readiness_contains(
    connection: Connection,
    key: ConnectionKey,
    readiness: Readiness,
    event: Event<QuicheConnectionId>,
)
    requires
        event is Datagram || event is Stream,
    ensures
        ({
            let id = connection.spec_id(key);
            let size = Connection::told_size(readiness.dgram_max_writable_len);
            BackendModel::readiness_events(connection, key, readiness).contains(event) <==> {
                ||| BackendModel::stream_events(id, readiness.readable@).contains(event)
                ||| BackendModel::stream_events(id, readiness.writable@).contains(event)
                ||| connection.dgram_in_drained && !readiness.dgram_recv_queue_full && event
                    == Event::Datagram(DatagramEvent::InAvailable(id))
                ||| connection.dgram_out_drained && !readiness.dgram_send_queue_full && event
                    == Event::Datagram(DatagramEvent::OutAvailable(id))
                ||| connection.dgram_out_max_size != size && event == Event::Datagram(
                    DatagramEvent::OutNewSize(id, size),
                )
            }
        }),
        event is Datagram ==> !BackendModel::stream_events(
            connection.spec_id(key),
            readiness.readable@,
        ).contains(event) && !BackendModel::stream_events(
            connection.spec_id(key),
            readiness.writable@,
        ).contains(event),
{
    let id = connection.spec_id(key);
    let size = Connection::told_size(readiness.dgram_max_writable_len);
    let a = connection.streams_available_events(
        key,
        readiness.streams_left_bidi,
        readiness.streams_left_uni,
    ).map_values(|event: ConnectionEvent<QuicheConnectionId>| Event::Connection(event));
    let b = BackendModel::stream_events(id, readiness.readable@);
    let c = BackendModel::stream_events(id, readiness.writable@);
    let d: Seq<Event<QuicheConnectionId>> = if connection.dgram_in_drained
        && !readiness.dgram_recv_queue_full {
        seq![Event::Datagram(DatagramEvent::InAvailable(id))]
    } else {
        Seq::empty()
    };
    let e: Seq<Event<QuicheConnectionId>> = if connection.dgram_out_drained
        && !readiness.dgram_send_queue_full {
        seq![Event::Datagram(DatagramEvent::OutAvailable(id))]
    } else {
        Seq::empty()
    };
    let f: Seq<Event<QuicheConnectionId>> = if connection.dgram_out_max_size != size {
        seq![Event::Datagram(DatagramEvent::OutNewSize(id, size))]
    } else {
        Seq::empty()
    };
    lemma_contains_in_both(a, b, event);
    lemma_contains_in_both(a + b, c, event);
    lemma_contains_in_both(a + b + c, d, event);
    lemma_contains_in_both(a + b + c + d, e, event);
    lemma_contains_in_both(a + b + c + d + e, f, event);
    if d.len() > 0 {
        assert(d[0] == Event::Datagram(DatagramEvent::InAvailable(id)));
    }
    if e.len() > 0 {
        assert(e[0] == Event::Datagram(DatagramEvent::OutAvailable(id)));
    }
    if f.len() > 0 {
        assert(f[0] == Event::Datagram(DatagramEvent::OutNewSize(id, size)));
    }
    law_available_streams_are_told(id, readiness.readable@, 0);
    law_available_streams_are_told(id, readiness.writable@, 0);
}

/// What an application is told changes nothing but what is known of its connection:
/// the events come behind those that were there.
pub proof fn law_readiness_changes_no_other_connection(
    m: BackendModel,
    key: ConnectionKey,
    readiness: Readiness,
    other: u64,
)
    requires
        other != key@,
    ensures
        m.events.is_prefix_of(m.told_readiness(key, readiness).events),
        m.told_readiness(key, readiness).connections.all[other] == m.connections.all[other],
        m.told_readiness(key, readiness).connections.all.contains_key(other)
            <==> m.connections.all.contains_key(other),
        m.told_readiness(key, readiness).connections.active == m.connections.active,
        m.told_readiness(key, readiness).scheduled == m.scheduled,
        m.has(key) ==> m.told_readiness(key, readiness).events == m.events
            + BackendModel::readiness_events(m.connection(key), key, readiness),
{
}

} // verus!

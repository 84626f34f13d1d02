use crate::backend::quinn::config::Config;
use crate::backend::quinn::connection;
use crate::backend::quinn::connection::{Connection, Context, QuinnConnectionId};
use crate::backend::quinn::connections;
use crate::backend::quinn::connections::{Connections, ConnectionsModel};
use crate::backend::quinn::io;
use crate::backend::quinn::io::{IoModel, VecBuf, Writing, IO};
use crate::backend::quinn::proto;
use crate::backend::quinn::proto::{
    Datagram, DatagramFailure, FinishFailure, Identity, Lost, PeerIdentity, Polled, Queued, Read,
    ReadEnd, ReadFailure, ReadableFailure, StreamChange, Unreadable, WriteFailure,
};
use crate::backend::util::deadline;
use crate::backend::util::queue;
use crate::backend::util::{DeadlineKey, Scheduled, Time};
use crate::backend::{
    BackendEvents, ConnectionEvent, DatagramEvent, Error, Event, HaltKind, StreamEvent,
};
use crate::net::msg;
use crate::net::{
    BufMut, IpAddr, MultiMsgFlattenIter, Packet, PacketModel, SendMsg, ServerName, SoFeat,
    SocketAddr,
};
use crate::stream::{Priority, StreamId};
use crate::time::Instant;
use crate::util::{data, octets};
use bytes::Bytes;
use quinn_proto::ClientConfig as QuinnClientConfig;
use quinn_proto::Connection as QuinnConnection;
use quinn_proto::ConnectionEvent as QuinnConnectionEvent;
use quinn_proto::Incoming as QuinnIncoming;
use quinn_proto::ServerConfig as QuinnServerConfig;
use quinn_proto::StreamEvent as QuinnStreamEvent;
use std::sync::Arc;
use std::time::Instant as StdInstant;
use vstd::prelude::*;
use vstd::string::StringSliceAdditionalSpecFns;

verus! {

/// A connection has to be polled: its timeout has come.
#[derive(Debug, Clone, Copy)]
pub struct TimerEvent(pub QuinnConnectionId);

/// What is known of the backend.
#[verifier::ext_equal]
pub struct BackendModel {
    /// Whether backend is open or not.
    pub open: bool,
    /// Everything related to connections.
    pub connections: ConnectionsModel,
    /// Everything related to I/O.
    pub io: IoModel,
    /// Scheduled events.
    pub scheduled: Seq<Scheduled<TimerEvent>>,
    /// Events that have fired, and are not handled yet.
    pub fired: Seq<TimerEvent>,
    /// Current monotonical time.
    pub now: Instant,
    /// Events produced by this backend.
    pub events: Seq<Event<QuinnConnectionId>>,
    /// What all connections share, as `quinn-proto` sees it.
    pub endpoint: quinn_proto::Endpoint,
    /// The configuration of client connections, if the backend serves as a client.
    pub client: Option<QuinnClientConfig>,
    /// The configuration of server connections, if the backend serves as a server.
    pub server: Option<Arc<QuinnServerConfig>>,
    /// When the backend was created.
    pub origin: StdInstant,
    /// Current monotonical time, as `quinn-proto` sees it.
    pub clock: StdInstant,
}

impl BackendModel {
    /// The connection that the ID was made for is present.
    pub open spec fn has(self, id: QuinnConnectionId) -> bool {
        self.connections.has(id)
    }

    /// The keys of the connections that the endpoint knows.
    pub open spec fn keys(self) -> Set<usize> {
        proto::known_keys(self.endpoint)
    }

    /// The backend with another endpoint.
    pub open spec fn with_endpoint(self, endpoint: quinn_proto::Endpoint) -> BackendModel {
        BackendModel { endpoint, ..self }
    }

    /// The endpoint knows all connections that are present.
    pub open spec fn is_covered(self) -> bool {
        forall|key: usize| #[trigger]
            self.connections.all.contains_key(key) ==> self.keys().contains(key)
    }

    /// The context of a connection.
    pub open spec fn context(self, key: usize) -> Context {
        self.connections.all[key].context
    }

    /// A connection, as `quinn-proto` sees it.
    pub open spec fn inner(self, key: usize) -> QuinnConnection {
        self.connections.all[key].inner
    }

    /// The connection that the ID was made for is present, and neither closed nor drained.
    pub open spec fn is_usable(self, id: QuinnConnectionId) -> bool {
        self.has(id) && !proto::closed(self.inner(id.key)) && !proto::drained(self.inner(id.key))
    }

    /// The connection waits to be polled.
    pub open spec fn marked(self, key: usize) -> BackendModel {
        BackendModel { connections: self.connections.marked(key), ..self }
    }

    /// The context of a connection is changed.
    pub open spec fn with(self, key: usize, context: Context) -> BackendModel {
        BackendModel {
            connections: self.connections.with(
                key,
                Connection { context, ..self.connections.all[key] },
            ),
            ..self
        }
    }

    /// A connection is changed, as `quinn-proto` sees it.
    pub open spec fn with_inner(self, key: usize, inner: QuinnConnection) -> BackendModel {
        BackendModel {
            connections: self.connections.with(
                key,
                Connection { inner, ..self.connections.all[key] },
            ),
            ..self
        }
    }

    /// When timers of a connection are to be handled.
    pub open spec fn timeout(self, key: usize) -> Option<Instant> {
        match proto::next_timeout(self.inner(key)) {
            Some(at) => Some(Instant { nanos: proto::nanos_between(self.origin, at) }),
            None => None,
        }
    }

    /// The maximum size of an outgoing datagram of a connection is told, if it has changed.
    pub open spec fn sized(self, key: usize) -> BackendModel {
        let max_size = proto::max_dgram(self.inner(key));
        self.with(key, self.context(key).sized(max_size)).pushed_if(
            match self.context(key).size_event(key, max_size) {
                Some(event) => Some(Event::Datagram(event)),
                None => None,
            },
        )
    }

    /// The backend with other events.
    pub open spec fn with_events(self, events: Seq<Event<QuinnConnectionId>>) -> BackendModel {
        BackendModel { events, ..self }
    }

    /// The backend with one more event.
    pub open spec fn pushed(self, event: Event<QuinnConnectionId>) -> BackendModel {
        BackendModel { events: self.events.push(event), ..self }
    }

    /// The backend with one more event, if there is one.
    pub open spec fn pushed_if(self, event: Option<Event<QuinnConnectionId>>) -> BackendModel {
        match event {
            Some(event) => self.pushed(event),
            None => self,
        }
    }

    /// The timeout of a connection is scheduled, if there is one.
    pub open spec fn is_scheduled(
        self,
        id: QuinnConnectionId,
        at: Option<Instant>,
        after: BackendModel,
    ) -> bool {
        if !self.has(id) || at is None {
            after == self
        } else {
            let context = self.context(id.key);
            let key = after.context(id.key).timer_quinn_timeout_key;
            &&& key is Some
            &&& after == (BackendModel {
                scheduled: Time::<TimerEvent>::without_previous(
                    self.scheduled,
                    context.timer_quinn_timeout_key,
                ).push(Scheduled { key: key->0, at: at->0, event: TimerEvent(id) }),
                ..self
            }).with(id.key, Context { timer_quinn_timeout_key: key, ..context })
        }
    }

    /// The connection is forgotten.
    pub open spec fn is_forgotten(self, id: QuinnConnectionId, after: BackendModel) -> bool {
        if !self.has(id) {
            after == self
        } else {
            let context = self.context(id.key);
            let gone = BackendModel {
                connections: self.connections.removed(id.key),
                scheduled: Time::<TimerEvent>::without_previous(
                    self.scheduled,
                    context.timer_quinn_timeout_key,
                ),
                ..self
            };
            if context.closed_event_sent {
                after == gone
            } else {
                &&& after.events.len() == self.events.len() + 1
                &&& after == gone.pushed(after.events.last())
                &&& after.events.last() matches Event::Connection(event)
                    && connection::is_error_event(
                    event,
                    context.spec_id(id.key),
                    "close event should've been already produced".spec_bytes(),
                )
            }
        }
    }

    /// Nothing but what belongs to one connection has changed: the connection is the same one or
    /// forgotten, other connections are as they were, and all new events are about it.
    pub open spec fn touches_only(self, id: QuinnConnectionId, after: BackendModel) -> bool {
        &&& after.open == self.open
        &&& after.io == self.io
        &&& after.now == self.now
        &&& after.fired == self.fired
        &&& after.client == self.client
        &&& after.server == self.server
        &&& after.origin == self.origin
        &&& after.clock == self.clock
        &&& after.connections.version_sequence == self.connections.version_sequence
        &&& after.connections.all.remove(id.key) == self.connections.all.remove(id.key)
        &&& after.connections.all.contains_key(id.key) ==> self.connections.all.contains_key(id.key)
            && after.context(id.key).trace == self.context(id.key).trace
            && after.context(id.key).version == self.context(id.key).version
        &&& after.connections.all.contains_key(id.key) ==> after.connections.active
            == self.connections.active || after.connections.active == self.connections.marked(
            id.key,
        ).active
        &&& self.events.is_prefix_of(after.events)
        &&& forall|i: int|
            self.events.len() <= i < after.events.len() ==> event_id(#[trigger] after.events[i])
                == id
    }
}

/// The connection that an event is about.
pub open spec fn event_id(event: Event<QuinnConnectionId>) -> QuinnConnectionId {
    match event {
        Event::Connection(event) => event.spec_connection_id(),
        Event::Stream(StreamEvent::Available(id, _)) => id,
        Event::Stream(StreamEvent::Reset(id, _, _)) => id,
        Event::Datagram(DatagramEvent::InAvailable(id)) => id,
        Event::Datagram(DatagramEvent::OutAvailable(id)) => id,
        Event::Datagram(DatagramEvent::OutNewSize(id, _)) => id,
    }
}

/// The `quinn-proto` QUIC implementation provider.
///
/// # Privacy Warning
///
/// **It is forbidden** to perform an active migration using old connection IDs,
/// but active migration is not strictly implemented in `quinn-proto`:
/// if there is no spare server destination ID, `quinn-proto` will ignore that,
/// leading to an external observer being able to correlate new and old connection IDs,
/// and thus track the connection across migrations.
pub struct QuinnBackend {
    /// Client configuration.
    client: Option<QuinnClientConfig>,
    /// Server configuration.
    server: Option<Arc<QuinnServerConfig>>,
    /// `quinn-proto` endpoint.
    endpoint: quinn_proto::Endpoint,
    /// Everything related to connections.
    connections: Connections,
    /// Everything related to I/O.
    io: IO,
    /// Everything related to time & scheduling.
    time: Time<TimerEvent>,
    /// When the backend was created.
    origin: StdInstant,
    /// Current monotonical time.
    clock: StdInstant,
    /// Events produced by this backend.
    events: BackendEvents<QuinnConnectionId>,
    /// Whether backend is open or not.
    open: bool,
}

impl View for QuinnBackend {
    type V = BackendModel;

    closed spec fn view(&self) -> BackendModel {
        BackendModel {
            open: self.open,
            connections: self.connections@,
            io: self.io@,
            scheduled: self.time.scheduled(),
            fired: self.time.fired(),
            now: self.time.spec_now(),
            events: self.events@,
            endpoint: self.endpoint,
            client: self.client,
            server: self.server,
            origin: self.origin,
            clock: self.clock,
        }
    }
}

impl QuinnBackend {
    /// The parts of the backend are well-formed.
    pub closed spec fn wf_parts(&self) -> bool {
        &&& self.connections.wf()
        &&& self.io.wf()
        &&& self.time.wf()
    }

    /// The backend is well-formed: the endpoint knows all connections that are present.
    pub closed spec fn wf(&self) -> bool {
        &&& self.wf_parts()
        &&& self@.is_covered()
    }

    /// Creates a new backend.
    ///
    /// * `listen_addr`: address where the local socket is bound to, **may** be unspecified.
    /// * `socket_features`: set of features that the I/O loop socket supports (per msg) and enabled (before binding).
    pub fn new(
        config: Config,
        listen_addr: IpAddr,
        socket_features: &Vec<SoFeat>,
        now: StdInstant,
    ) -> (r: Self)
        ensures
            r.wf(),
            r@ == (BackendModel {
                open: true,
                connections: ConnectionsModel {
                    all: Map::empty(),
                    active: Seq::empty(),
                    version_sequence: 0,
                },
                io: io::fresh(config.fixed(), listen_addr, socket_features@),
                scheduled: Seq::empty(),
                fired: Seq::empty(),
                now: Instant { nanos: 0 },
                events: Seq::empty(),
                endpoint: r@.endpoint,
                client: r@.client,
                server: r@.server,
                origin: now,
                clock: now,
            }),
            match config.client {
                Some(client) => r@.client is Some && client.is_used(
                    socket_features@.contains(SoFeat::GenericSegOffload),
                    r@.client->0,
                ),
                None => r@.client is None,
            },
            match config.server {
                Some(server) => r@.server is Some && server.is_used(
                    socket_features@.contains(SoFeat::GenericSegOffload),
                    *r@.server->0,
                ),
                None => r@.server is None,
            },
            proto::may_create(
                config.endpoint,
                r@.server,
                socket_features@.contains(SoFeat::DontFragment),
                r@.endpoint,
            ),
            r@.keys() == Set::<usize>::empty(),
    {
        let mut config = config;
        config.fix();
        let io = IO::new(&config, listen_addr, socket_features);
        let has_offload = msg::supports(socket_features, SoFeat::GenericSegOffload);
        let client = match config.client {
            Some(client) => Some(client.into_quinn(has_offload)),
            None => None,
        };
        let server = match config.server {
            Some(server) => Some(Arc::new(server.into_quinn(has_offload))),
            None => None,
        };
        let endpoint = proto::endpoint_new(
            config.endpoint,
            &server,
            msg::supports(socket_features, SoFeat::DontFragment),
        );
        Self {
            client,
            server,
            endpoint,
            connections: Connections::new(),
            io,
            time: Time::new(Instant { nanos: 0 }),
            origin: now,
            clock: now,
            events: BackendEvents::new(),
            open: true,
        }
    }

    /// Provides a hint, that current clocks can be updated with current time.
    pub fn clock_update(&mut self, now: StdInstant)
        requires
            old(self).wf(),
        ensures
            final(self).wf(),
            final(self)@ == (BackendModel {
                now: Instant { nanos: proto::nanos_between(old(self)@.origin, now) },
                clock: now,
                ..old(self)@
            }),
    {
        let nanos: u128 = proto::nanos_since(&self.origin, &now);
        self.time.update_clock(Instant { nanos });
        self.clock = now;
    }

    /// Takes out previously written backend events.
    pub fn events(&mut self) -> (r: Vec<Event<QuinnConnectionId>>)
        requires
            old(self).wf(),
        ensures
            final(self).wf(),
            r@ == old(self)@.events,
            final(self)@ == (BackendModel { events: Seq::empty(), ..old(self)@ }),
    {
        self.events.take()
    }

    /// Takes a buffer back whose data was sent.
    pub fn give_back(&mut self, buffer: VecBuf)
        requires
            old(self).wf(),
        ensures
            final(self).wf(),
            final(self)@ == (BackendModel {
                io: old(self)@.io.returned(buffer),
                ..old(self)@
            }),
    {
        self.io.give_back(buffer);
    }

    /// Returns `true` if the backend is ready to be closed.
    pub fn close_ready(&self) -> (r: bool)
        ensures
            r == (self@.keys().len() == 0),
    {
        proto::open_connections(&self.endpoint) == 0
    }

    /// Schedules a Quinn timeout event.
    ///
    /// If `timeout_at` is `None`, the default one of `quinn-proto` is used.
    fn schedule_quinn_timeout(
        &mut self,
        connection_id: QuinnConnectionId,
        timeout_at: Option<Instant>,
    )
        requires
            old(self).wf_parts(),
        ensures
            final(self).wf_parts(),
            old(self)@.is_scheduled(
                connection_id,
                if timeout_at is Some {
                    timeout_at
                } else {
                    old(self)@.timeout(connection_id.key)
                },
                final(self)@,
            ),
    {
        let ghost before = self@;
        let Some(connection) = self.connections.get_mut(connection_id) else {
            return;
        };
        let timeout_at: Option<Instant> = match timeout_at {
            Some(at) => Some(at),
            None => match proto::poll_timeout(&mut connection.inner) {
                Some(at) => Some(Instant { nanos: proto::nanos_since(&self.origin, &at) }),
                None => None,
            },
        };
        assert(self@.connections.all =~= before.connections.all);
        self.schedule_at(connection_id, timeout_at);
    }

    /// Schedules the timeout of a connection, if there is one.
    ///
    /// A timeout that was scheduled before is cancelled.
    fn schedule_at(&mut self, connection_id: QuinnConnectionId, timeout_at: Option<Instant>)
        requires
            old(self).wf_parts(),
        ensures
            final(self).wf_parts(),
            old(self)@.is_scheduled(connection_id, timeout_at, final(self)@),
    {
        let Some(connection) = self.connections.get_mut(connection_id) else {
            return;
        };
        let Some(timeout_at) = timeout_at else {
            assert(self@.connections.all =~= old(self)@.connections.all);
            return;
        };
        let previous = connection.pop_timer_key();
        let key = self.time.reschedule(TimerEvent(connection_id), timeout_at, previous);
        connection.set_timer_key(Some(key));
    }
}

/// How many events are polled at once.
///
/// It is never reached, and bounds loops that end when there is nothing left to poll.
pub const POLL_BUDGET: u64 = 0xFFFF_FFFF_FFFF_FFFF;

/// How far a connection and its endpoint have exchanged events.
#[verifier::ext_equal]
pub struct Exchange {
    /// The connection, as `quinn-proto` sees it.
    pub inner: QuinnConnection,
    /// The endpoint.
    pub endpoint: quinn_proto::Endpoint,
    /// The event that the connection takes next.
    pub next_event: Option<QuinnConnectionEvent>,
    /// The connection tells the endpoint its events.
    pub is_telling: bool,
    /// The endpoint knows the connection no more.
    pub is_last_told: bool,
}

impl Exchange {
    /// A connection is to take an event of its endpoint.
    pub open spec fn begin(
        inner: QuinnConnection,
        endpoint: quinn_proto::Endpoint,
        event: QuinnConnectionEvent,
    ) -> Exchange {
        Exchange {
            inner,
            endpoint,
            next_event: Some(event),
            is_telling: false,
            is_last_told: false,
        }
    }

    /// The connection takes an event of the endpoint, or the endpoint takes one of the connection,
    /// or the connection has no more to tell.
    pub open spec fn is_step(self, key: usize, after: Exchange) -> bool {
        let (told, inner) = proto::endpoint_event_polled(self.inner);
        if !self.is_telling {
            &&& self.next_event is Some
            &&& proto::may_take(self.inner, self.next_event->0, after.inner)
            &&& after == (Exchange {
                inner: after.inner,
                next_event: None,
                is_telling: true,
                ..self
            })
        } else if self.is_last_told {
            after == (Exchange { is_telling: false, ..self })
        } else {
            match told {
                Some(event) => exists|reply: Option<QuinnConnectionEvent>|
                    #[trigger] proto::may_reply(self.endpoint, key, event, reply, after.endpoint)
                        && after == (Exchange {
                        inner,
                        endpoint: after.endpoint,
                        next_event: if reply is Some {
                            reply
                        } else {
                            self.next_event
                        },
                        is_telling: true,
                        is_last_told: proto::is_last_event(event),
                    }),
                None => after == (Exchange { inner, is_telling: false, ..self }),
            }
        }
    }

    /// There is no event left.
    pub open spec fn is_done(self) -> bool {
        !self.is_telling && self.next_event is None
    }

    /// A connection and its endpoint have exchanged events, until there was none left.
    pub open spec fn is_exchanged(self, key: usize, after: Exchange) -> bool {
        exists|steps: Seq<Exchange>|
            #[trigger] are_exchanges(steps, key) && steps[0] == self && steps.last() == after && (
            after.is_done() || steps.len() > POLL_BUDGET)
    }
}

/// A connection and its endpoint have exchanged events, one after another.
pub open spec fn are_exchanges(steps: Seq<Exchange>, key: usize) -> bool {
    &&& steps.len() > 0
    &&& forall|i: int| 0 <= i < steps.len() - 1 ==> (#[trigger] steps[i]).is_step(key, steps[i + 1])
}

proof fn lemma_exchanges_push(steps: Seq<Exchange>, key: usize, next: Exchange)
    requires
        are_exchanges(steps, key),
        steps.last().is_step(key, next),
    ensures
        are_exchanges(steps.push(next), key),
{
    let all = steps.push(next);
    assert forall|i: int| 0 <= i < all.len() - 1 implies (#[trigger] all[i]).is_step(
        key,
        all[i + 1],
    ) by {
        if i < steps.len() - 1 {
            assert(steps[i].is_step(key, steps[i + 1]));
        }
    }
}

/// Hands an event to a connection, and the events of the connection to its endpoint,
/// as long as the endpoint knows the connection.
///
/// Returns `true` if the endpoint knows the connection no more.
fn exchange_events(
    connection: &mut Connection,
    endpoint: &mut quinn_proto::Endpoint,
    key: usize,
    event: QuinnConnectionEvent,
) -> (r: bool)
    requires
        proto::known_keys(*old(endpoint)).contains(key),
    ensures
        final(connection).context == old(connection).context,
        proto::known_keys(*final(endpoint)) == if r {
            proto::known_keys(*old(endpoint)).remove(key)
        } else {
            proto::known_keys(*old(endpoint))
        },
        exists|after: Exchange|
            #[trigger] Exchange::begin(old(connection).inner, *old(endpoint), event).is_exchanged(
                key,
                after,
            ) && after.inner == final(connection).inner && after.endpoint == *final(endpoint)
                && after.is_last_told == r,
{
    let mut next_event: Option<QuinnConnectionEvent> = Some(event);
    let mut is_last_told = false;
    let mut budget: u64 = POLL_BUDGET;
    let ghost start = Exchange::begin(connection.inner, *endpoint, event);
    let ghost mut steps: Seq<Exchange> = seq![start];
    while budget > 0
        invariant_except_break
            !steps.last().is_telling || budget == 0,
            steps.len() > POLL_BUDGET - budget,
        invariant
            connection.context == old(connection).context,
            proto::known_keys(*old(endpoint)).contains(key),
            proto::known_keys(*endpoint) == if is_last_told {
                proto::known_keys(*old(endpoint)).remove(key)
            } else {
                proto::known_keys(*old(endpoint))
            },
            are_exchanges(steps, key),
            steps[0] == start,
            steps.last() == (Exchange {
                inner: connection.inner,
                endpoint: *endpoint,
                next_event,
                is_telling: steps.last().is_telling,
                is_last_told,
            }),
        ensures
            steps.last().is_done() || steps.len() > POLL_BUDGET,
        decreases budget,
    {
        budget = budget - 1;
        let Some(event) = next_event else {
            break ;
        };
        next_event = None;
        proto::connection_event(&mut connection.inner, event);
        let ghost left = budget;
        proof {
            let next = Exchange {
                inner: connection.inner,
                next_event: None,
                is_telling: true,
                ..steps.last()
            };
            lemma_exchanges_push(steps, key, next);
            steps = steps.push(next);
        }
        while budget > 0 && !is_last_told
            invariant_except_break
                steps.last().is_telling,
            invariant
                budget <= left,
                steps.len() > POLL_BUDGET - budget,
                connection.context == old(connection).context,
                proto::known_keys(*old(endpoint)).contains(key),
                proto::known_keys(*endpoint) == if is_last_told {
                    proto::known_keys(*old(endpoint)).remove(key)
                } else {
                    proto::known_keys(*old(endpoint))
                },
                are_exchanges(steps, key),
                steps[0] == start,
                steps.last() == (Exchange {
                    inner: connection.inner,
                    endpoint: *endpoint,
                    next_event,
                    is_telling: steps.last().is_telling,
                    is_last_told,
                }),
            ensures
                !steps.last().is_telling || budget == 0 || is_last_told,
            decreases budget,
        {
            budget = budget - 1;
            let ghost before = steps.last();
            let Some(endpoint_event) = proto::poll_endpoint_events(&mut connection.inner) else {
                proof {
                    let next = Exchange {
                        inner: connection.inner,
                        is_telling: false,
                        ..before
                    };
                    lemma_exchanges_push(steps, key, next);
                    steps = steps.push(next);
                }
                break ;
            };
            is_last_told = proto::is_drained_event(&endpoint_event);
            let reply = proto::endpoint_event(endpoint, key, endpoint_event);
            proof {
                let next = Exchange {
                    inner: connection.inner,
                    endpoint: *endpoint,
                    next_event: if reply is Some {
                        reply
                    } else {
                        next_event
                    },
                    is_telling: true,
                    is_last_told,
                };
                assert(proto::may_reply(before.endpoint, key, endpoint_event, reply, next.endpoint));
                assert(before.is_step(key, next));
                lemma_exchanges_push(steps, key, next);
                steps = steps.push(next);
            }
            if let Some(reply) = reply {
                next_event = Some(reply);
            }
        }
        proof {
            if is_last_told && steps.last().is_telling {
                let next = Exchange { is_telling: false, ..steps.last() };
                lemma_exchanges_push(steps, key, next);
                steps = steps.push(next);
            }
        }
    }
    assert(start.is_exchanged(key, steps.last()));
    is_last_told
}

impl QuinnBackend {
    /// Registers a new, unestablished connection.
    ///
    /// Schedules connection events,
    /// that are available on this moment.
    ///
    /// Returns a unique assigned ID for this connection,
    /// that will never change and should be used to get this connection next time.
    fn register_new_connection(&mut self, connection_key: usize, connection: QuinnConnection) -> (r:
        QuinnConnectionId)
        requires
            old(self).wf_parts(),
            connection_key < usize::MAX,
        ensures
            final(self).wf_parts(),
            final(self)@.endpoint == old(self)@.endpoint,
            r.key == connection_key,
            final(self)@.inner(connection_key) == connection,
            old(self)@.is_registered(r, final(self)@),
    {
        let is_server = proto::is_server(&connection);
        let ghost before = self@;
        let connection_id = self.connections.insert_raw(connection_key, connection);
        let ghost inserted = self@;
        self.schedule_quinn_timeout(connection_id, None);
        let ghost scheduled = self@;
        self.events.push(Event::Connection(ConnectionEvent::New { connection_id, is_server }));
        assert(scheduled =~= self@.with_events(before.events));
        connection_id
    }

    /// Forgets closed connection, clean ups its resources.
    fn forget_connection(&mut self, connection_id: QuinnConnectionId)
        requires
            old(self).wf_parts(),
        ensures
            final(self).wf_parts(),
            old(self)@.is_forgotten(connection_id, final(self)@),
    {
        let Some(mut connection) = self.connections.remove(connection_id) else {
            return;
        };
        let event = connection.get_halt_event(
            connection_id.key,
            HaltKind::Error(
                data::copy_from_slice("close event should've been already produced".as_bytes()),
            ),
        );
        self.events.push_connection(event);
        let key = connection.pop_timer_key();
        self.time.cancel(key);
    }

    /// Handles a connection that is lost.
    fn handle_quinn_connection_lost_event(
        &mut self,
        connection_id: QuinnConnectionId,
        error: quinn_proto::ConnectionError,
    )
        requires
            old(self).wf_parts(),
            old(self)@.is_own_id(connection_id),
        ensures
            final(self).wf_parts(),
            final(self)@.endpoint == old(self)@.endpoint,
            old(self)@.is_loss_handled(connection_id, error, final(self)@),
            old(self)@.touches_only(connection_id, final(self)@),
    {
        let lost = proto::lost(error);
        let _ = self.tell_lost(connection_id, lost);
        let ghost told = self@;
        assert(old(self)@.touches_only(connection_id, told)) by {
            assert(told.connections.all.remove(connection_id.key) =~= old(self)@.connections.all.remove(
                connection_id.key,
            ));
        }
        if let Some(connection) = self.connections.get(connection_id) {
            if proto::is_drained(&connection.inner) {
                self.forget_connection(connection_id);
                proof {
                    lemma_forgotten_touches_only(told, connection_id, self@);
                }
            }
        }
        assert(old(self)@.is_told_lost(connection_id, proto::lost_of(error), told));
    }

    /// Tells that a connection is lost, and marks it as active.
    ///
    /// Returns `false` if there is no such connection.
    pub fn tell_lost(&mut self, connection_id: QuinnConnectionId, lost: Lost) -> (r: bool)
        requires
            old(self).wf_parts(),
        ensures
            final(self).wf_parts(),
            r == old(self)@.has(connection_id),
            old(self)@.is_told_lost(connection_id, lost, final(self)@),
    {
        let Some(connection) = self.connections.get_mark_active(connection_id) else {
            return false;
        };
        let event = connection.get_lost_event(connection_id.key, lost);
        self.events.push_connection(event);
        proof {
            if lost is LocallyClosed {
                assert(self@.connections.all =~= old(self)@.connections.all);
            }
        }
        true
    }

    /// Handles an event of a stream.
    fn handle_quinn_stream_event(
        &mut self,
        connection_id: QuinnConnectionId,
        stream_event: QuinnStreamEvent,
    )
        requires
            old(self).wf_parts(),
        ensures
            final(self).wf_parts(),
            final(self)@ == old(self)@.stream_changed(connection_id, stream_event),
            old(self)@.touches_only(connection_id, final(self)@),
    {
        let change = proto::stream_change(stream_event);
        let Some(connection) = self.connections.get_mark_active(connection_id) else {
            return;
        };
        let accepted: Option<u64> = match change {
            StreamChange::Opened(bidirectional) => proto::accept_stream(
                &mut connection.inner,
                bidirectional,
            ),
            _ => None,
        };
        if let Some(event) = connection::make_stream_event(connection_id, change, accepted) {
            self.events.push(event);
        }
        proof {
            let after = old(self)@.stream_changed(connection_id, stream_event);
            assert(self@ =~= after) by {
                assert(self@.connections.all =~= after.connections.all);
            }
            assert(self@.connections.all.remove(connection_id.key)
                =~= old(self)@.connections.all.remove(connection_id.key));
        }
    }
}

impl BackendModel {
    /// The ID is the one that the connection itself has.
    pub open spec fn is_own_id(self, id: QuinnConnectionId) -> bool {
        self.has(id) ==> self.context(id.key).spec_id(id.key) == id
    }

    /// A new connection is registered.
    pub open spec fn is_registered(self, id: QuinnConnectionId, after: BackendModel) -> bool {
        let inner = after.inner(id.key);
        let inserted = BackendModel {
            connections: self.connections.inserted(id.key, id.trace, inner),
            ..self
        };
        &&& id.version == self.connections.version_sequence
        &&& after.events == self.events.push(
            Event::Connection(
                ConnectionEvent::New {
                    connection_id: id,
                    is_server: proto::is_server_side(inner),
                },
            ),
        )
        &&& inserted.is_scheduled(id, inserted.timeout(id.key), after.with_events(self.events))
    }

    /// A connection that is lost was handled: it was told, and the connection is forgotten
    /// if it is drained.
    pub open spec fn is_loss_handled(
        self,
        id: QuinnConnectionId,
        error: quinn_proto::ConnectionError,
        after: BackendModel,
    ) -> bool {
        exists|told: BackendModel|
            #[trigger] self.is_told_lost(id, proto::lost_of(error), told) && if told.has(id)
                && proto::drained(told.inner(id.key)) {
                told.is_forgotten(id, after)
            } else {
                after == told
            }
    }

    /// The event of a stream was handled: a stream that the peer has opened is accepted,
    /// and the event is told.
    pub open spec fn stream_changed(
        self,
        id: QuinnConnectionId,
        event: QuinnStreamEvent,
    ) -> BackendModel {
        let change = proto::change_of(event);
        let (accepted, inner) = match change {
            StreamChange::Opened(bidirectional) => proto::stream_accepted(
                self.inner(id.key),
                bidirectional,
            ),
            _ => (None, self.inner(id.key)),
        };
        if self.has(id) {
            self.marked(id.key).with_inner(id.key, inner).pushed_if(
                connection::stream_event_of(id, change, accepted),
            )
        } else {
            self
        }
    }

    /// The event of a connection was handled.
    pub open spec fn is_handled(
        self,
        id: QuinnConnectionId,
        event: Polled,
        after: BackendModel,
    ) -> bool {
        match event {
            Polled::HandshakeDataReady => after == self,
            Polled::Connected => after == self.pushed(
                Event::Connection(ConnectionEvent::Established(id)),
            ),
            Polled::Lost(error) => self.is_loss_handled(id, error, after),
            Polled::Stream(event) => after == self.stream_changed(id, event),
            Polled::DatagramReceived => after == self.pushed(
                Event::Datagram(DatagramEvent::InAvailable(id)),
            ),
            Polled::DatagramsUnblocked => after == self.pushed(
                Event::Datagram(DatagramEvent::OutAvailable(id)),
            ),
        }
    }

    /// The next event of a connection was handled.
    pub open spec fn is_polled_once(self, id: QuinnConnectionId, after: BackendModel) -> bool {
        let (event, inner) = proto::polled(self.inner(id.key));
        &&& self.has(id)
        &&& event is Some
        &&& self.with_inner(id.key, inner).is_handled(id, event->0, after)
    }

    /// There is no event of a connection left.
    pub open spec fn is_polled_out(self, id: QuinnConnectionId, after: BackendModel) -> bool {
        let (event, inner) = proto::polled(self.inner(id.key));
        if self.has(id) {
            event is None && after == self.with_inner(id.key, inner)
        } else {
            after == self
        }
    }

    /// All events of a connection were handled, in order,
    /// until there is none or the connection is forgotten.
    pub open spec fn is_polled(self, id: QuinnConnectionId, after: BackendModel) -> bool {
        exists|steps: Seq<BackendModel>|
            #[trigger] are_polls(steps, id) && steps[0] == self && if steps.len() <= POLL_BUDGET {
                steps.last().is_polled_out(id, after)
            } else {
                after == steps.last()
            }
    }

    /// A connection and its endpoint have exchanged events.
    pub open spec fn exchanged(self, key: usize, exchange: Exchange) -> BackendModel {
        self.marked(key).with_inner(key, exchange.inner).with_endpoint(exchange.endpoint)
    }

    /// A connection whose events were handled is forgotten if it is needed no more. Otherwise,
    /// the maximum size of a datagram is told, and its timeout is scheduled.
    pub open spec fn is_settled(
        self,
        id: QuinnConnectionId,
        is_last_told: bool,
        after: BackendModel,
    ) -> bool {
        if !self.has(id) {
            after == self
        } else if is_last_told || proto::drained(self.inner(id.key)) {
            self.is_forgotten(id, after)
        } else {
            self.sized(id.key).is_scheduled(id, self.timeout(id.key), after)
        }
    }

    /// An event of the endpoint for a connection was handled. An event for a connection
    /// that is not present is dropped.
    pub open spec fn is_event_handled(
        self,
        key: usize,
        event: QuinnConnectionEvent,
        after: BackendModel,
    ) -> bool {
        let id = self.context(key).spec_id(key);
        if self.connections.all.contains_key(key) {
            exists|exchange: Exchange, polled: BackendModel|
                #[trigger] self.is_exchange(key, event, exchange, polled) && polled.is_settled(
                    id,
                    exchange.is_last_told,
                    after,
                )
        } else {
            after == self
        }
    }

    /// A connection has taken an event of its endpoint, and its own events were handled.
    pub open spec fn is_exchange(
        self,
        key: usize,
        event: QuinnConnectionEvent,
        exchange: Exchange,
        polled: BackendModel,
    ) -> bool {
        &&& Exchange::begin(self.inner(key), self.endpoint, event).is_exchanged(key, exchange)
        &&& self.exchanged(key, exchange).is_polled(self.context(key).spec_id(key), polled)
    }

    /// It was told that a connection is lost.
    pub open spec fn is_told_lost(
        self,
        id: QuinnConnectionId,
        lost: Lost,
        after: BackendModel,
    ) -> bool {
        let context = self.context(id.key);
        if !self.has(id) {
            after == self
        } else if lost is LocallyClosed {
            after == self.marked(id.key)
        } else {
            let told = self.marked(id.key).with(
                id.key,
                Context { closed_event_sent: true, ..context },
            );
            if context.closed_event_sent {
                after == told
            } else {
                &&& after.events.len() == self.events.len() + 1
                &&& after == told.pushed(after.events.last())
                &&& after.events.last() matches Event::Connection(event)
                    && connection::is_lost_event(event, context.spec_id(id.key), lost)
            }
        }
    }
}

/// Events of a connection were handled, one after another.
pub open spec fn are_polls(steps: Seq<BackendModel>, id: QuinnConnectionId) -> bool {
    &&& 0 < steps.len() <= POLL_BUDGET + 1
    &&& forall|i: int|
        0 <= i < steps.len() - 1 ==> (#[trigger] steps[i]).is_polled_once(id, steps[i + 1])
}

impl QuinnBackend {
    /// Handles an event of the endpoint for a connection.
    fn handle_quinn_connection_event(
        &mut self,
        connection_key: usize,
        connection_event: QuinnConnectionEvent,
    )
        requires
            old(self).wf(),
        ensures
            final(self).wf(),
            old(self)@.is_event_handled(connection_key, connection_event, final(self)@),
            final(self)@.open == old(self)@.open,
            final(self)@.io == old(self)@.io,
    {
        let Some(connection) = self.connections.get_mark_active_raw(connection_key) else {
            return;
        };
        let connection_id = connection.id(connection_key);
        let is_last_told = exchange_events(
            connection,
            &mut self.endpoint,
            connection_key,
            connection_event,
        );
        let ghost exchange = choose|exchange: Exchange|
            #[trigger] Exchange::begin(
                old(self)@.inner(connection_key),
                old(self)@.endpoint,
                connection_event,
            ).is_exchanged(connection_key, exchange) && exchange.inner == self@.inner(
                connection_key,
            ) && exchange.endpoint == self@.endpoint && exchange.is_last_told == is_last_told;
        let ghost marked = old(self)@.exchanged(connection_key, exchange);
        proof {
            assert(self@ =~= marked);
            assert(marked.connections.all.remove(connection_key)
                =~= old(self)@.connections.all.remove(connection_key));
            assert(old(self)@.touches_only(connection_id, marked));
        }
        self.poll_connection(connection_id);
        proof {
            lemma_touches_only_twice(old(self)@, marked, self@, connection_id);
        }
        let ghost polled = self@;
        assert(old(self)@.is_exchange(connection_key, connection_event, exchange, polled));
        self.settle_connection(connection_id, is_last_told);
        proof {
            lemma_touches_only_twice(old(self)@, polled, self@, connection_id);
            lemma_stays_covered(old(self)@, self@, connection_id);
        }
    }

    /// Forgets a connection whose events were handled, if it is needed no more. Otherwise,
    /// tells the maximum size of a datagram, and schedules its timeout.
    ///
    /// * `is_last_told`: the endpoint knows the connection no more.
    fn settle_connection(&mut self, connection_id: QuinnConnectionId, is_last_told: bool)
        requires
            old(self).wf_parts(),
            old(self)@.is_own_id(connection_id),
        ensures
            final(self).wf_parts(),
            final(self)@.endpoint == old(self)@.endpoint,
            old(self)@.is_settled(connection_id, is_last_told, final(self)@),
            old(self)@.touches_only(connection_id, final(self)@),
            is_last_told ==> !final(self)@.has(connection_id),
    {
        let ghost before = self@;
        let key: usize = connection_id.key;
        let Some(connection) = self.connections.get_mut(connection_id) else {
            return;
        };
        // An endpoint that knows the connection no more was told that it is drained.
        if is_last_told || proto::is_drained(&connection.inner) {
            assert(self@.connections.all =~= before.connections.all);
            self.forget_connection(connection_id);
            proof {
                lemma_forgotten_touches_only(before, connection_id, self@);
            }
        } else {
            let event = connection.get_dgram_out_size_event(key);
            self.events.push_datagram(event);
            let ghost told = self@;
            assert(told =~= before.sized(key));
            self.schedule_quinn_timeout(connection_id, None);
            proof {
                assert(self@.connections.all.remove(key) =~= before.connections.all.remove(key));
            }
        }
    }

    /// Handles all events of a connection.
    fn poll_connection(&mut self, connection_id: QuinnConnectionId)
        requires
            old(self).wf_parts(),
            old(self)@.is_own_id(connection_id),
        ensures
            final(self).wf_parts(),
            final(self)@.endpoint == old(self)@.endpoint,
            old(self)@.is_polled(connection_id, final(self)@),
            old(self)@.touches_only(connection_id, final(self)@),
    {
        let mut budget: u64 = POLL_BUDGET;
        let ghost mut steps: Seq<BackendModel> = seq![self@];
        while budget > 0
            invariant
                self.wf_parts(),
                self@.endpoint == old(self)@.endpoint,
                old(self)@.touches_only(connection_id, self@),
                old(self)@.is_own_id(connection_id),
                are_polls(steps, connection_id),
                steps.len() == POLL_BUDGET - budget + 1,
                steps[0] == old(self)@,
                steps.last() == self@,
            decreases budget,
        {
            budget = budget - 1;
            let ghost before = self@;
            // Already marked as active, so no need to mark it again.
            let Some(connection) = self.connections.get_mut(connection_id) else {
                return;
            };
            let polled_event = proto::poll(&mut connection.inner);
            let ghost polled = before.with_inner(
                connection_id.key,
                proto::polled(before.inner(connection_id.key)).1,
            );
            proof {
                assert(self@ =~= polled);
                assert(polled.connections.all.remove(connection_id.key)
                    =~= before.connections.all.remove(connection_id.key));
                assert(before.touches_only(connection_id, polled));
                lemma_touches_only_twice(old(self)@, before, polled, connection_id);
            }
            let Some(event) = polled_event else {
                return;
            };
            match event {
                Polled::Connected => {
                    self.events.push(
                        Event::Connection(ConnectionEvent::Established(connection_id)),
                    );
                },
                Polled::Lost(reason) => {
                    self.handle_quinn_connection_lost_event(connection_id, reason);
                },
                Polled::Stream(stream_event) => {
                    self.handle_quinn_stream_event(connection_id, stream_event);
                },
                Polled::DatagramReceived => {
                    self.events.push(Event::Datagram(DatagramEvent::InAvailable(connection_id)));
                },
                Polled::DatagramsUnblocked => {
                    self.events.push(Event::Datagram(DatagramEvent::OutAvailable(connection_id)));
                },
                Polled::HandshakeDataReady => {},
            }
            proof {
                assert(polled.is_handled(connection_id, event, self@));
                assert(polled.touches_only(connection_id, self@));
                lemma_touches_only_twice(old(self)@, polled, self@, connection_id);
                let ghost done = steps;
                steps = done.push(self@);
                assert forall|i: int| 0 <= i < steps.len() - 1 implies (
                #[trigger] steps[i]).is_polled_once(connection_id, steps[i + 1]) by {
                    if i < done.len() - 1 {
                        assert(done[i].is_polled_once(connection_id, done[i + 1]));
                    } else {
                        assert(before.is_polled_once(connection_id, self@));
                    }
                }
            }
        }
    }
}

impl BackendModel {
    /// The backend with other buffers.
    pub open spec fn with_io(self, io: IoModel) -> BackendModel {
        BackendModel { io, ..self }
    }

    /// A new connection is registered, by a key that the endpoint has not known before.
    pub open spec fn is_accepted(
        self,
        is_server: bool,
        id: QuinnConnectionId,
        after: BackendModel,
    ) -> bool {
        &&& !self.keys().contains(id.key)
        &&& after.keys() == self.keys().insert(id.key)
        &&& proto::is_server_side(after.inner(id.key)) == is_server
        &&& self.with_endpoint(after.endpoint).is_registered(id, after)
    }

    /// What the endpoint has made of an attempt to connect was handled.
    pub open spec fn is_connected(
        self,
        connected: Result<(usize, QuinnConnection), Seq<char>>,
        r: Result<QuinnConnectionId, Error>,
        after: BackendModel,
    ) -> bool {
        match connected {
            Ok((key, inner)) => {
                &&& r matches Ok(id)
                &&& id.key == key
                &&& after.inner(key) == inner
                &&& self.is_accepted(false, id, after)
            },
            Err(message) => {
                &&& r matches Err(Error::Other(text))
                &&& text@ == message
                &&& after == self.with_endpoint(after.endpoint)
                &&& after.keys() == self.keys()
            },
        }
    }

    /// An attempt of a peer to connect is ignored, and a buffer is given back.
    ///
    /// * `is_reserved`: the buffer is a reserved one.
    pub open spec fn ignored(
        self,
        endpoint: quinn_proto::Endpoint,
        incoming: QuinnIncoming,
        is_reserved: bool,
    ) -> BackendModel {
        self.with_io(self.io.given_back(is_reserved)).with_endpoint(
            proto::after_ignore(endpoint, incoming),
        )
    }

    /// A response is to be sent.
    ///
    /// * `is_reserved`: the response is in a reserved buffer.
    pub open spec fn is_responded(
        self,
        response: quinn_proto::Transmit,
        packet: Seq<u8>,
        is_reserved: bool,
        messages: Seq<SendMsg<VecBuf>>,
        after: BackendModel,
        answered: Seq<SendMsg<VecBuf>>,
    ) -> bool {
        &&& after == self.with_io(after.io)
        &&& self.io.is_response(
            proto::described(response),
            packet,
            is_reserved,
            messages,
            after.io,
            answered,
        )
    }

    /// An attempt of a peer to connect was retried: the peer is asked to validate its address.
    pub open spec fn is_retried(
        self,
        messages: Seq<SendMsg<VecBuf>>,
        incoming: QuinnIncoming,
        is_reserved: bool,
        after: BackendModel,
        answered: Seq<SendMsg<VecBuf>>,
    ) -> bool {
        exists|
            retried: Result<quinn_proto::Transmit, QuinnIncoming>,
            packet: Seq<u8>,
            endpoint: quinn_proto::Endpoint,
        |
            #[trigger] proto::may_retry(self.endpoint, incoming, retried, packet, endpoint)
                && match retried {
                Ok(response) => self.with_endpoint(endpoint).is_responded(
                    response,
                    packet,
                    is_reserved,
                    messages,
                    after,
                    answered,
                ),
                Err(incoming) => after == self.ignored(endpoint, incoming, is_reserved) && answered
                    == messages,
            }
    }

    /// An attempt of a peer to connect was accepted, or answered if it could not be.
    pub open spec fn is_admitted(
        self,
        messages: Seq<SendMsg<VecBuf>>,
        incoming: QuinnIncoming,
        is_reserved: bool,
        after: BackendModel,
        answered: Seq<SendMsg<VecBuf>>,
    ) -> bool {
        let given_back = self.with_io(self.io.given_back(is_reserved));
        exists|
            accepted: Result<(usize, QuinnConnection), Option<quinn_proto::Transmit>>,
            packet: Seq<u8>,
        |
            #[trigger] proto::may_accept(
                self.endpoint,
                incoming,
                self.clock,
                self.server->0,
                accepted,
                packet,
                after.endpoint,
            ) && match accepted {
                Ok((key, inner)) => {
                    &&& answered == messages
                    &&& after.inner(key) == inner
                    &&& exists|id: QuinnConnectionId|
                        id.key == key && #[trigger] given_back.is_accepted(true, id, after)
                },
                Err(Some(response)) => self.with_endpoint(after.endpoint).is_responded(
                    response,
                    packet,
                    is_reserved,
                    messages,
                    after,
                    answered,
                ),
                Err(None) => after == given_back.with_endpoint(after.endpoint) && answered
                    == messages,
            }
    }

    /// An attempt of a peer to connect was handled: it is ignored, unless the backend serves
    /// as a server. A peer whose address is not validated is asked to validate it.
    pub open spec fn is_attempt_handled(
        self,
        messages: Seq<SendMsg<VecBuf>>,
        incoming: QuinnIncoming,
        is_reserved: bool,
        after: BackendModel,
        answered: Seq<SendMsg<VecBuf>>,
    ) -> bool {
        if self.server is None {
            after == self.ignored(self.endpoint, incoming, is_reserved) && answered == messages
        } else if !proto::is_address_validated(incoming) {
            self.is_retried(messages, incoming, is_reserved, after, answered)
        } else {
            self.is_admitted(messages, incoming, is_reserved, after, answered)
        }
    }

    /// What the endpoint has made of a datagram was handled.
    ///
    /// * `response`: what the endpoint has written.
    /// * `is_reserved`: the response is in a reserved buffer.
    pub open spec fn is_datagram_handled(
        self,
        messages: Seq<SendMsg<VecBuf>>,
        event: Datagram,
        response: Seq<u8>,
        is_reserved: bool,
        after: BackendModel,
        answered: Seq<SendMsg<VecBuf>>,
    ) -> bool {
        match event {
            Datagram::Event(key, event) => {
                &&& self.with_io(self.io.given_back(is_reserved)).is_event_handled(
                    key,
                    event,
                    after,
                )
                &&& answered == messages
            },
            Datagram::Response(transmit) => self.is_responded(
                transmit,
                response,
                is_reserved,
                messages,
                after,
                answered,
            ),
            Datagram::Incoming(incoming) => self.is_attempt_handled(
                messages,
                incoming,
                is_reserved,
                after,
                answered,
            ),
        }
    }

    /// A datagram was handed to the endpoint, and what it has made of the datagram was handled.
    ///
    /// * `self`: the backend, without the buffer that a response is written into.
    /// * `is_reserved`: the buffer is a reserved one.
    #[verifier::opaque]
    pub open spec fn is_payload_handled(
        self,
        messages: Seq<SendMsg<VecBuf>>,
        packet: PacketModel,
        is_reserved: bool,
        after: BackendModel,
        answered: Seq<SendMsg<VecBuf>>,
    ) -> bool {
        exists|handled: Option<Datagram>, response: Seq<u8>, endpoint: quinn_proto::Endpoint|
            #[trigger] proto::may_handle(
                self.endpoint,
                self.clock,
                packet.from.without_flow(),
                packet.to,
                packet.ecn.spec_bits(),
                packet.payload,
                handled,
                response,
                endpoint,
            ) && match handled {
                None => {
                    &&& after == self.with_io(self.io.given_back(is_reserved)).with_endpoint(
                        endpoint,
                    )
                    &&& answered == messages
                },
                Some(event) => self.with_endpoint(endpoint).is_datagram_handled(
                    messages,
                    event,
                    response,
                    is_reserved,
                    after,
                    answered,
                ),
            }
    }

    /// A packet was handled, with a buffer for the response to it.
    pub open spec fn is_packet_handled(
        self,
        messages: Seq<SendMsg<VecBuf>>,
        packet: PacketModel,
        after: BackendModel,
        answered: Seq<SendMsg<VecBuf>>,
    ) -> bool {
        &&& self.io.has_response_buffer()
        &&& self.with_io(self.io.taken()).is_payload_handled(
            messages,
            packet,
            self.io.is_reserving,
            after,
            answered,
        )
    }
}

/// The backend, and the messages that are to be sent.
#[verifier::ext_equal]
pub struct Progress {
    /// The backend.
    pub backend: BackendModel,
    /// The messages.
    pub messages: Seq<SendMsg<VecBuf>>,
}

/// Packets were handled, one after another.
pub open spec fn are_receptions(steps: Seq<Progress>, packets: Seq<PacketModel>) -> bool {
    &&& 0 < steps.len() <= packets.len() + 1
    &&& forall|i: int|
        0 <= i < steps.len() - 1 ==> (#[trigger] steps[i]).backend.is_packet_handled(
            steps[i].messages,
            packets[i],
            steps[i + 1].backend,
            steps[i + 1].messages,
        )
}

/// One more packet was handled.
proof fn lemma_receptions_push(steps: Seq<Progress>, packets: Seq<PacketModel>, next: Progress)
    requires
        are_receptions(steps, packets),
        steps.len() <= packets.len(),
        steps.last().backend.is_packet_handled(
            steps.last().messages,
            packets[steps.len() - 1],
            next.backend,
            next.messages,
        ),
    ensures
        are_receptions(steps.push(next), packets),
{
    let all = steps.push(next);
    assert forall|i: int| 0 <= i < all.len() - 1 implies (
    #[trigger] all[i]).backend.is_packet_handled(
        all[i].messages,
        packets[i],
        all[i + 1].backend,
        all[i + 1].messages,
    ) by {
        if i < steps.len() - 1 {
            assert(steps[i].backend.is_packet_handled(
                steps[i].messages,
                packets[i],
                steps[i + 1].backend,
                steps[i + 1].messages,
            ));
        }
    }
}

impl QuinnBackend {
    /// Handles an attempt of a peer to connect.
    ///
    /// The provided `buffer` is used to write a response datagram, e.g., a retry packet.
    fn handle_quinn_new_connection_event(
        &mut self,
        incoming: QuinnIncoming,
        buffer: VecBuf,
        out: &mut Vec<SendMsg<VecBuf>>,
    )
        requires
            old(self).wf(),
            proto::is_pending(old(self)@.endpoint, incoming),
            buffer@.len() == 0,
            buffer.pooled(),
        ensures
            final(self).wf(),
            old(self)@.is_attempt_handled(
                old(out)@,
                incoming,
                buffer.reserved(),
                final(self)@,
                final(out)@,
            ),
            final(self)@.open == old(self)@.open,
    {
        let ghost is_reserved = buffer.reserved();
        let mut buffer = buffer;
        if self.server.is_none() {
            proto::ignore(&mut self.endpoint, incoming);
            self.io.give_back(buffer);
            return;
        }
        if !proto::is_validated(&incoming) {
            let retried = proto::retry(&mut self.endpoint, incoming, buffer.bytes_mut());
            let ghost retried_endpoint = self.endpoint;
            let ghost packet = buffer@;
            assert(proto::may_retry(
                old(self)@.endpoint,
                incoming,
                retried,
                packet,
                retried_endpoint,
            ));
            match retried {
                Ok(response) => {
                    self.io.write_response(proto::outgoing(&response), buffer, out);
                    assert(self@ =~= old(self)@.with_endpoint(retried_endpoint).with_io(self@.io));
                },
                Err(incoming) => {
                    // This should never happen: an attempt from an address
                    // that is not validated can be retried.
                    proto::ignore(&mut self.endpoint, incoming);
                    self.io.give_back(buffer);
                    assert(self@ =~= old(self)@.ignored(retried_endpoint, incoming, is_reserved));
                },
            }
            return;
        }
        let ghost before = self@;
        let accepted = match &self.server {
            Some(server) => proto::accept(
                &mut self.endpoint,
                incoming,
                &self.clock,
                buffer.bytes_mut(),
                server,
            ),
            None => {
                return;
            },
        };
        let ghost packet = buffer@;
        assert(proto::may_accept(
            before.endpoint,
            incoming,
            before.clock,
            before.server->0,
            accepted,
            packet,
            self@.endpoint,
        ));
        match accepted {
            Ok((connection_key, connection)) => {
                self.io.give_back(buffer);
                let ghost given_back = before.with_io(before.io.given_back(is_reserved));
                assert(self@ =~= given_back.with_endpoint(self@.endpoint));
                let id = self.register_new_connection(connection_key, connection);
                assert(given_back.is_accepted(true, id, self@));
                proof {
                    lemma_registered_is_covered(given_back, true, id, self@);
                }
            },
            Err(Some(response)) => {
                self.io.write_response(proto::outgoing(&response), buffer, out);
                assert(self@ =~= before.with_endpoint(self@.endpoint).with_io(self@.io));
            },
            Err(None) => {
                self.io.give_back(buffer);
                assert(self@ =~= before.with_io(
                    before.io.given_back(is_reserved),
                ).with_endpoint(self@.endpoint));
            },
        }
    }
}

/// The endpoint knows all connections that are present, the new one too.
proof fn lemma_registered_is_covered(
    m: BackendModel,
    is_server: bool,
    id: QuinnConnectionId,
    after: BackendModel,
)
    requires
        m.is_covered(),
        m.is_accepted(is_server, id, after),
    ensures
        after.is_covered(),
        after.keys() == m.keys().insert(id.key),
        after.has(id),
        after.io == m.io,
        after.open == m.open,
{
    let known = m.with_endpoint(after.endpoint);
    let inserted = BackendModel {
        connections: known.connections.inserted(id.key, id.trace, after.inner(id.key)),
        ..known
    };
    assert(inserted.has(id));
    assert forall|key: usize| #[trigger]
        after.connections.all.contains_key(key) implies after.keys().contains(key) by {
        if key != id.key {
            assert(m.connections.all.contains_key(key));
        }
    }
}

/// The timeout of a connection has come: the connection handles its timers, and is marked
/// as active, if it is known.
pub open spec fn is_timed(
    m: ConnectionsModel,
    event: TimerEvent,
    clock: StdInstant,
    after: ConnectionsModel,
) -> bool {
    let id = event.0;
    let connection = m.all[id.key];
    if m.has(id) {
        exists|inner: QuinnConnection|
            #[trigger] proto::may_time_out(connection.inner, clock, inner) && after == m.marked(
                id.key,
            ).with(id.key, Connection { inner, ..connection })
    } else {
        after == m
    }
}

/// The timeouts of connections have come, in order.
pub open spec fn are_timed(
    steps: Seq<ConnectionsModel>,
    events: Seq<TimerEvent>,
    clock: StdInstant,
) -> bool {
    &&& steps.len() == events.len() + 1
    &&& forall|i: int|
        0 <= i < events.len() ==> is_timed(
            #[trigger] steps[i],
            events[i],
            clock,
            steps[i + 1],
        )
}

/// One more timeout has come.
proof fn lemma_timed_push(
    steps: Seq<ConnectionsModel>,
    events: Seq<TimerEvent>,
    i: int,
    clock: StdInstant,
    next: ConnectionsModel,
)
    requires
        0 <= i < events.len(),
        are_timed(steps, events.take(i), clock),
        is_timed(steps.last(), events[i], clock, next),
    ensures
        are_timed(steps.push(next), events.take(i + 1), clock),
{
    let all = steps.push(next);
    assert forall|k: int| 0 <= k < events.take(i + 1).len() implies is_timed(
        #[trigger] all[k],
        events.take(i + 1)[k],
        clock,
        all[k + 1],
    ) by {
        if k < i {
            assert(is_timed(steps[k], events.take(i)[k], clock, steps[k + 1]));
        }
    }
}

impl QuinnBackend {
    /// Handles what the endpoint has made of a datagram.
    ///
    /// The provided `buffer` is used to write a response datagram.
    fn handle_quinn_datagram_event(
        &mut self,
        event: Datagram,
        buffer: VecBuf,
        out: &mut Vec<SendMsg<VecBuf>>,
    )
        requires
            old(self).wf(),
            event matches Datagram::Incoming(incoming) ==> proto::is_pending(
                old(self)@.endpoint,
                incoming,
            ),
            buffer.pooled(),
        ensures
            final(self).wf(),
            old(self)@.is_datagram_handled(
                old(out)@,
                event,
                buffer@,
                buffer.reserved(),
                final(self)@,
                final(out)@,
            ),
            final(self)@.open == old(self)@.open,
    {
        match event {
            Datagram::Event(key, event) => {
                self.io.give_back(buffer);
                let ghost given_back = old(self)@.with_io(
                    old(self)@.io.given_back(buffer.reserved()),
                );
                assert(self@ =~= given_back);
                self.handle_quinn_connection_event(key, event);
            },
            Datagram::Response(transmit) => {
                self.io.write_response(proto::outgoing(&transmit), buffer, out);
                assert(self@ =~= old(self)@.with_io(self@.io));
            },
            Datagram::Incoming(incoming) => {
                let mut buffer = buffer;
                buffer.bytes_mut().clear();
                self.handle_quinn_new_connection_event(incoming, buffer, out);
            },
        }
    }

    /// Hands a packet to the endpoint, and handles what the endpoint has made of it.
    ///
    /// The provided `buffer` is used to write a response datagram.
    fn handle_packet<'a>(
        &mut self,
        packet: Packet<'a>,
        buffer: VecBuf,
        out: &mut Vec<SendMsg<VecBuf>>,
    )
        requires
            old(self).wf(),
            buffer@.len() == 0,
            buffer.pooled(),
        ensures
            final(self).wf(),
            final(self)@.open == old(self)@.open,
            old(self)@.is_payload_handled(
                old(out)@,
                packet.model(),
                buffer.reserved(),
                final(self)@,
                final(out)@,
            ),
            final(packet.payload)@ == packet.model().payload,
    {
        let ghost is_reserved = buffer.reserved();
        let mut buffer = buffer;
        let event = proto::handle(
            &mut self.endpoint,
            &self.clock,
            &proto::sent_to(packet.from),
            packet.to,
            packet.ecn.bits(),
            &*packet.payload,
            buffer.bytes_mut(),
        );
        let ghost endpoint = self.endpoint;
        let ghost response = buffer@;
        assert(self@ =~= old(self)@.with_endpoint(endpoint));
        assert(proto::may_handle(
            old(self)@.endpoint,
            old(self)@.clock,
            packet.from.without_flow(),
            packet.to,
            packet.ecn.spec_bits(),
            packet.payload@,
            event,
            response,
            endpoint,
        ));
        let ghost handled = event;
        match event {
            Some(event) => {
                let ghost entered = self@;
                assert(buffer.reserved() == is_reserved);
                self.handle_quinn_datagram_event(event, buffer, out);
                assert(entered.is_datagram_handled(
                    old(out)@,
                    handled->0,
                    response,
                    is_reserved,
                    self@,
                    out@,
                ));
            },
            None => {
                self.io.give_back(buffer);
                assert(self@ =~= old(self)@.with_io(
                    old(self)@.io.given_back(is_reserved),
                ).with_endpoint(endpoint));
            },
        }
        proof {
            reveal(BackendModel::is_payload_handled);
            let packet = packet.model();
            assert(proto::may_handle(
                old(self)@.endpoint,
                old(self)@.clock,
                packet.from.without_flow(),
                packet.to,
                packet.ecn.spec_bits(),
                packet.payload,
                handled,
                response,
                endpoint,
            ));
        }
    }

    /// Receives packets from peers.
    ///
    /// Generates events; writes immediate outgoing packets into `&mut out_messages`.
    ///
    /// All packets are handled, unless there is no buffer left for an answer. An answer is written
    /// into a reserved buffer, or into a primary one if there are no reserved buffers at all.
    pub fn recv<'a, B: BufMut>(
        &mut self,
        in_packets: &mut MultiMsgFlattenIter<'a, B>,
        out_messages: &mut Vec<SendMsg<VecBuf>>,
    )
        requires
            old(self).wf(),
            old(in_packets).wf(),
        ensures
            final(self).wf(),
            final(in_packets).wf(),
            final(self)@.open == old(self)@.open,
            final(in_packets).remaining().len() <= old(in_packets).remaining().len(),
            final(in_packets).remaining() == old(in_packets).remaining().skip(
                old(in_packets).remaining().len() - final(in_packets).remaining().len(),
            ),
            final(in_packets).remaining().len() == 0 || !final(self)@.io.has_response_buffer(),
            old(self)@.io.has_response_buffer() && old(in_packets).remaining().len() > 0
                ==> final(in_packets).remaining().len() < old(in_packets).remaining().len(),
            exists|steps: Seq<Progress>|
                #[trigger] are_receptions(steps, old(in_packets).remaining()) && steps[0] == (Progress {
                    backend: old(self)@,
                    messages: old(out_messages)@,
                }) && steps.last() == (Progress {
                    backend: final(self)@,
                    messages: final(out_messages)@,
                }) && steps.len() - 1 == old(in_packets).remaining().len()
                    - final(in_packets).remaining().len(),
    {
        let ghost all = in_packets.remaining();
        let ghost mut steps: Seq<Progress> = seq![
            Progress { backend: self@, messages: out_messages@ },
        ];
        assert(all.skip(0) =~= all);
        loop
            invariant_except_break
                self.wf(),
                in_packets.wf(),
                all == old(in_packets).remaining(),
                self@.open == old(self)@.open,
                steps.len() - 1 <= all.len(),
                in_packets.remaining() == all.skip(steps.len() - 1),
                are_receptions(steps, all),
                steps[0] == (Progress { backend: old(self)@, messages: old(out_messages)@ }),
                steps.last() == (Progress { backend: self@, messages: out_messages@ }),
            ensures
                self.wf(),
                in_packets.wf(),
                self@.open == old(self)@.open,
                steps.len() - 1 <= all.len(),
                in_packets.remaining() == all.skip(steps.len() - 1),
                are_receptions(steps, all),
                steps[0] == (Progress { backend: old(self)@, messages: old(out_messages)@ }),
                steps.last() == (Progress { backend: self@, messages: out_messages@ }),
                in_packets.remaining().len() == 0 || !self@.io.has_response_buffer(),
            decreases all.len() - (steps.len() - 1),
        {
            let ghost before = self@;
            let ghost messages = out_messages@;
            let ghost done: int = steps.len() - 1;
            let Some(packet) = in_packets.peek() else {
                break ;
            };
            let Some(buffer) = self.io.pop_response_buffer() else {
                assert(in_packets.remaining() =~= all.skip(done));
                break ;
            };
            assert(self@ =~= before.with_io(before.io.taken()));
            assert(self@.is_covered()) by {
                assert forall|key: usize| #[trigger]
                    self@.connections.all.contains_key(key) implies self@.keys().contains(key) by {
                    assert(before.connections.all.contains_key(key));
                }
            }
            self.handle_packet(packet, buffer, out_messages);
            assert(in_packets.remaining() =~= all.skip(done));
            assert(all.skip(done)[0] == all[done]);
            in_packets.next();
            proof {
                assert(all.skip(done).drop_first() =~= all.skip(done + 1));
                assert(before.is_packet_handled(messages, all[done], self@, out_messages@));
                let next = Progress { backend: self@, messages: out_messages@ };
                lemma_receptions_push(steps, all, next);
                steps = steps.push(next);
            }
        }
    }

    /// Ticks, storing all events whose time has come.
    ///
    /// Returns the instant at which this method should be called again,
    /// and whether there are events to be handled by [`send`](Self::send).
    pub fn tick(&mut self) -> (r: (Option<Instant>, bool))
        requires
            old(self).wf(),
        ensures
            final(self).wf(),
            final(self)@ == (BackendModel {
                scheduled: deadline::waiting(old(self)@.scheduled, old(self)@.now),
                fired: old(self)@.fired + deadline::due(old(self)@.scheduled, old(self)@.now),
                ..old(self)@
            }),
            deadline::is_earliest(final(self)@.scheduled, r.0),
            r.1 == (final(self)@.fired.len() > 0),
    {
        self.time.tick()
    }

    /// Handles fired, previously scheduled events.
    fn handle_scheduled_events(&mut self)
        requires
            old(self).wf(),
        ensures
            final(self).wf(),
            old(self)@.is_timed(final(self)@),
    {
        let events: Vec<TimerEvent> = self.time.fired_events();
        let mut i: usize = 0;
        let ghost mut steps: Seq<ConnectionsModel> = seq![self@.connections];
        assert(self@ =~= (BackendModel { fired: Seq::empty(), ..old(self)@ }));
        assert forall|key: usize| #[trigger] self@.connections.all.contains_key(key) implies
            self@.keys().contains(key) by {
            assert(old(self)@.connections.all.contains_key(key));
        }
        while i < events.len()
            invariant
                self.wf(),
                events@ == old(self)@.fired,
                i <= events@.len(),
                are_timed(steps, events@.take(i as int), old(self)@.clock),
                steps[0] == old(self)@.connections,
                self@ == (BackendModel {
                    fired: Seq::empty(),
                    connections: steps.last(),
                    ..old(self)@
                }),
            decreases events@.len() - i,
        {
            let ghost before = self@;
            if let Some(connection) = self.connections.get_mark_active(events[i].0) {
                proto::handle_timeout(&mut connection.inner, &self.clock);
            }
            proof {
                let id = events@[i as int].0;
                if before.connections.has(id) {
                    let inner = self@.connections.all[id.key].inner;
                    assert(proto::may_time_out(
                        before.connections.all[id.key].inner,
                        before.clock,
                        inner,
                    ));
                    assert(self@.connections =~= before.connections.marked(id.key).with(
                        id.key,
                        Connection { inner, ..before.connections.all[id.key] },
                    ));
                }
                assert(is_timed(
                    before.connections,
                    events@[i as int],
                    before.clock,
                    self@.connections,
                ));
                lemma_timed_push(steps, events@, i as int, before.clock, self@.connections);
                steps = steps.push(self@.connections);
                assert forall|key: usize| #[trigger]
                    self@.connections.all.contains_key(key) implies self@.keys().contains(key) by {
                    assert(before.connections.all.contains_key(key));
                }
            }
            i = i + 1;
        }
        assert(events@.take(i as int) =~= events@);
        assert(are_timed(steps, old(self)@.fired, old(self)@.clock));
    }

    /// Writes packets to be sent to peers into `&mut out`.
    /// May write nothing, if there is no packet or buffer available.
    ///
    /// Additionally, handles events whose time has come.
    ///
    /// Connections are handled in the order in which they wait.
    pub fn send(&mut self, out: &mut Vec<SendMsg<VecBuf>>)
        requires
            old(self).wf(),
        ensures
            final(self).wf(),
            final(self)@.open == old(self)@.open,
            exists|steps: Seq<Progress>|
                #[trigger] are_transmissions(steps) && old(self)@.is_timed(steps[0].backend)
                    && steps[0].messages == old(out)@ && is_transmitted(
                    steps.last(),
                    Progress { backend: final(self)@, messages: final(out)@ },
                ),
    {
        self.handle_scheduled_events();
        let ghost mut steps: Seq<Progress> = seq![
            Progress { backend: self@, messages: out@ },
        ];
        loop
            invariant_except_break
                self.wf(),
                self@.open == old(self)@.open,
                are_transmissions(steps),
                old(self)@.is_timed(steps[0].backend),
                steps[0].messages == old(out)@,
                steps.last() == (Progress { backend: self@, messages: out@ }),
            ensures
                self.wf(),
                self@.open == old(self)@.open,
                are_transmissions(steps),
                old(self)@.is_timed(steps[0].backend),
                steps[0].messages == old(out)@,
                is_transmitted(steps.last(), Progress { backend: self@, messages: out@ }),
            decreases self@.connections.active.len(),
        {
            let Some(connection_id) = self.connections.peek_active() else {
                break ;
            };
            if !self.io.has_primary_buffer() {
                break ;
            }
            let ghost before = self@;
            let ghost messages = out@;
            let ghost active = before.connections.active;
            let Some(connection) = self.connections.get_mut(connection_id) else {
                break ;
            };
            if proto::is_drained(&connection.inner) {
                assert(self@.connections.all =~= before.connections.all);
                assert(self@ =~= before);
                self.forget_connection(connection_id);
                proof {
                    lemma_forgotten_touches_only(before, connection_id, self@);
                    lemma_stays_covered(before, self@, connection_id);
                    lemma_without_front(active);
                    assert(before.is_transmission(messages, true, self@, out@));
                    lemma_transmissions_push(
                        steps,
                        Progress { backend: self@, messages: out@ },
                    );
                    steps = steps.push(Progress { backend: self@, messages: out@ });
                }
                continue ;
            }
            let is_complete = self.io.write_pending(connection, out, &self.clock);
            let ghost written = before.with_inner(
                connection_id.key,
                self@.inner(connection_id.key),
            ).with_io(IoModel { primary: self@.io.primary, ..before.io });
            assert(self@ =~= written);
            assert(written.is_covered()) by {
                assert forall|key: usize| #[trigger]
                    written.connections.all.contains_key(key) implies written.keys().contains(
                    key,
                ) by {
                    assert(before.connections.all.contains_key(key));
                }
            }
            if !is_complete {
                assert(before.is_transmission(messages, false, self@, out@));
                break ;
            }
            self.connections.next_active();
            let ghost moved = self@;
            assert(moved =~= written.moved());
            self.schedule_quinn_timeout(connection_id, None);
            proof {
                assert forall|key: usize| #[trigger]
                    self@.connections.all.contains_key(key) implies self@.keys().contains(key) by {
                    assert(written.connections.all.contains_key(key));
                }
                assert(before.is_transmission(messages, true, self@, out@));
                lemma_transmissions_push(steps, Progress { backend: self@, messages: out@ });
                steps = steps.push(Progress { backend: self@, messages: out@ });
            }
        }
    }
}

impl BackendModel {
    /// The events that have fired were handled.
    pub open spec fn is_timed(self, after: BackendModel) -> bool {
        exists|steps: Seq<ConnectionsModel>|
            #[trigger] are_timed(steps, self.fired, self.clock) && steps[0] == self.connections
                && after == (BackendModel {
                fired: Seq::empty(),
                connections: steps.last(),
                ..self
            })
    }

    /// The connection that has waited longest waits no more.
    pub open spec fn moved(self) -> BackendModel {
        BackendModel {
            connections: ConnectionsModel {
                active: self.connections.active.drop_first(),
                ..self.connections
            },
            ..self
        }
    }

    /// Packets of the connection that has waited longest are to be sent, out of primary buffers,
    /// or the connection is forgotten if it is drained.
    ///
    /// * `is_complete`: there is no packet left, and the connection waits no more.
    pub open spec fn is_transmission(
        self,
        messages: Seq<SendMsg<VecBuf>>,
        is_complete: bool,
        after: BackendModel,
        written: Seq<SendMsg<VecBuf>>,
    ) -> bool {
        let key = self.connections.active[0] as usize;
        let id = self.context(key).spec_id(key);
        let sent = self.with_inner(key, after.inner(key)).with_io(
            IoModel { primary: after.io.primary, ..self.io },
        );
        &&& self.connections.active.len() > 0
        &&& self.io.primary > 0
        &&& if proto::drained(self.inner(key)) {
            is_complete && self.is_forgotten(id, after) && written == messages
        } else {
            &&& self.io.is_written(
                self.clock,
                Writing { inner: self.inner(key), messages },
                is_complete,
                Writing { inner: after.inner(key), messages: written },
            )
            &&& messages.is_prefix_of(written)
            &&& after.io.primary + io::pooled_buffers(written) == self.io.primary
                + io::pooled_buffers(messages)
            &&& io::are_valid_from(written, messages.len())
            &&& if is_complete {
                sent.moved().is_scheduled(id, sent.moved().timeout(key), after)
            } else {
                after == sent
            }
        }
    }
}

/// Packets of connections are to be sent, in the order in which the connections wait.
pub open spec fn are_transmissions(steps: Seq<Progress>) -> bool {
    &&& steps.len() > 0
    &&& forall|i: int|
        0 <= i < steps.len() - 1 ==> (#[trigger] steps[i]).backend.is_transmission(
            steps[i].messages,
            true,
            steps[i + 1].backend,
            steps[i + 1].messages,
        )
}

/// Packets of no more connections can be sent: no connection waits, there is no buffer,
/// or the buffers do not suffice for the packets of the connection that has waited longest.
pub open spec fn is_transmitted(before: Progress, after: Progress) -> bool {
    ||| after == before && (before.backend.connections.active.len() == 0 || before.backend.io.primary
        == 0)
    ||| before.backend.is_transmission(before.messages, false, after.backend, after.messages)
}

proof fn lemma_transmissions_push(steps: Seq<Progress>, next: Progress)
    requires
        are_transmissions(steps),
        steps.last().backend.is_transmission(
            steps.last().messages,
            true,
            next.backend,
            next.messages,
        ),
    ensures
        are_transmissions(steps.push(next)),
{
    let all = steps.push(next);
    assert forall|i: int| 0 <= i < all.len() - 1 implies (
    #[trigger] all[i]).backend.is_transmission(
        all[i].messages,
        true,
        all[i + 1].backend,
        all[i + 1].messages,
    ) by {
        if i < steps.len() - 1 {
            assert(steps[i].backend.is_transmission(
                steps[i].messages,
                true,
                steps[i + 1].backend,
                steps[i + 1].messages,
            ));
        }
    }
}

/// The first of several different keys is the one that is in front.
proof fn lemma_without_front(active: Seq<u64>)
    requires
        active.len() > 0,
        active.no_duplicates(),
    ensures
        queue::without(active, active[0]) == active.drop_first(),
{
    let rest = active.drop_first();
    assert(active =~= seq![active[0]] + rest);
    lemma_without_absent(rest, active[0]);
    let different = |other: u64| other != active[0];
    assert(seq![active[0]].filter(different) =~= Seq::<u64>::empty()) by {
        reveal(Seq::filter);
        let first = seq![active[0]];
        assert(first.drop_last() =~= Seq::<u64>::empty());
        assert(first.drop_last().filter(different) =~= Seq::<u64>::empty());
        assert(!different(first.last()));
    }
    Seq::<u64>::filter_distributes_over_add(seq![active[0]], rest, different);
    assert(Seq::<u64>::empty() + rest =~= rest);
}

/// A queue without a key that is not in it is the queue.
proof fn lemma_without_absent(active: Seq<u64>, key: u64)
    requires
        !active.contains(key),
    ensures
        queue::without(active, key) == active,
    decreases active.len(),
{
    reveal(Seq::filter);
    if active.len() > 0 {
        assert(!active.drop_last().contains(key)) by {
            if active.drop_last().contains(key) {
                let i = choose|i: int|
                    0 <= i < active.drop_last().len() && active.drop_last()[i] == key;
                assert(active[i] == key);
            }
        }
        lemma_without_absent(active.drop_last(), key);
        assert(active.last() != key) by {
            assert(active[active.len() - 1] == active.last());
        }
        assert(active =~= active.drop_last().push(active.last()));
    }
}

/// The keys of all connections, in ascending order.
pub open spec fn is_all_keys(m: ConnectionsModel, keys: Seq<usize>) -> bool {
    &&& forall|key: usize| m.all.contains_key(key) <==> #[trigger] keys.contains(key)
    &&& forall|i: int, j: int| 0 <= i < j < keys.len() ==> keys[i] < keys[j]
}

/// Why an application is refused that asks for a connection, `None` if it is not.
///
/// * `is_connection_open`: the connection is neither closed nor drained.
/// * `illegal`: the stream has no such direction.
/// * `short`: the buffer is too short.
pub open spec fn refusal(
    m: BackendModel,
    id: QuinnConnectionId,
    is_connection_open: bool,
    illegal: bool,
    short: bool,
) -> Option<Error> {
    if !m.open {
        Some(Error::Closed)
    } else if illegal {
        Some(Error::Illegal)
    } else if short {
        Some(Error::BufferSize)
    } else if !m.has(id) || !is_connection_open {
        Some(Error::UnknownConnection)
    } else {
        None
    }
}

/// What becomes of a request that is refused, or not.
pub open spec fn is_entered(
    m: BackendModel,
    id: QuinnConnectionId,
    refused: Option<Error>,
    after: BackendModel,
) -> bool {
    after == if refused is None {
        m.marked(id.key)
    } else {
        m
    }
}

/// The stream is one that only a client writes into.
pub open spec fn is_client_uni(stream_id: StreamId) -> bool {
    !stream_id.by_server() && stream_id.one_way()
}

/// The stream is one that only a server writes into.
pub open spec fn is_server_uni(stream_id: StreamId) -> bool {
    stream_id.by_server() && stream_id.one_way()
}

impl QuinnBackend {
    /// Closes the backend, and then all its connections
    /// with the specified application `err` and `reason`.
    ///
    /// If backend is already closed, this operation is no-op.
    pub fn close(&mut self, err: u64, reason: Bytes)
        requires
            old(self).wf(),
            err <= proto::MAX_VARINT,
        ensures
            final(self).wf(),
            !final(self)@.open,
            if !old(self)@.open {
                final(self)@ == old(self)@
            } else {
                exists|keys: Seq<usize>|
                    #[trigger] is_all_keys(old(self)@.connections, keys) && final(self)@ == old(
                        self,
                    )@.all_closed(keys, err, data::content(reason))
            },
    {
        if !self.open {
            return;
        }
        self.open = false;
        let ids = self.connections.all_iter_mark_active();
        let ghost keys = ids@.map_values(|id: QuinnConnectionId| id.key);
        let ghost marked = self@;
        proof {
            lemma_ids_are_keys(old(self)@.connections, ids@);
            connections::lemma_all_marked(old(self)@.connections, keys);
        }
        let ghost closed = old(self)@.all_closed(keys, err, data::content(reason));
        let mut i: usize = 0;
        while i < ids.len()
            invariant
                self.wf_parts(),
                err <= proto::MAX_VARINT,
                i <= ids@.len(),
                marked.clock == old(self)@.clock,
                marked.connections.all == old(self)@.connections.all,
                closed == old(self)@.all_closed(keys, err, data::content(reason)),
                keys == ids@.map_values(|id: QuinnConnectionId| id.key),
                is_all_keys(old(self)@.connections, keys),
                forall|k: int|
                    0 <= k < ids@.len() ==> (#[trigger] ids@[k]) == old(
                        self,
                    )@.connections.all[ids@[k].key].context.spec_id(ids@[k].key),
                self@ == (BackendModel {
                    connections: ConnectionsModel {
                        all: self@.connections.all,
                        ..marked.connections
                    },
                    ..marked
                }),
                self@.connections.all.dom() == marked.connections.all.dom(),
                forall|k: int|
                    0 <= k < ids@.len() ==> #[trigger] self@.connections.all[ids@[k].key] == if k
                        < i {
                        closed.connections.all[ids@[k].key]
                    } else {
                        marked.connections.all[ids@[k].key]
                    },
            decreases ids@.len() - i,
        {
            let ghost before = self@;
            proof {
                assert(keys[i as int] == ids@[i as int].key);
                assert(keys.contains(ids@[i as int].key));
                assert(before.connections.all.dom().contains(ids@[i as int].key));
                assert(before.connections.all[ids@[i as int].key]
                    == marked.connections.all[ids@[i as int].key]);
            }
            if let Some(connection) = self.connections.get_mut(ids[i]) {
                proto::close(&mut connection.inner, &self.clock, err, data::clone(&reason));
            }
            proof {
                assert(self@.connections.all.dom() =~= marked.connections.all.dom());
                assert forall|k: int| 0 <= k < ids@.len() implies #[trigger] self@.connections.all[ids@[k].key]
                    == if k < i + 1 {
                    closed.connections.all[ids@[k].key]
                } else {
                    marked.connections.all[ids@[k].key]
                } by {
                    assert(keys[k] == ids@[k].key);
                    assert(keys[i as int] == ids@[i as int].key);
                    assert(before.connections.all[ids@[k].key] == if k < i {
                        closed.connections.all[ids@[k].key]
                    } else {
                        marked.connections.all[ids@[k].key]
                    });
                }
            }
            i = i + 1;
        }
        proof {
            assert(self@.connections.all =~= closed.connections.all) by {
                assert(closed.connections.all.dom() =~= marked.connections.all.dom());
                assert forall|key: usize| self@.connections.all.contains_key(key) implies
                    self@.connections.all[key] == closed.connections.all[key] by {
                    assert(marked.connections.all.dom().contains(key));
                    assert(keys.contains(key));
                    let k = choose|k: int| 0 <= k < keys.len() && keys[k] == key;
                    assert(ids@[k].key == key);
                    assert(self@.connections.all[ids@[k].key]
                        == closed.connections.all[ids@[k].key]);
                }
            }
            assert(self@ =~= closed);
            assert(self@.is_covered()) by {
                assert forall|key: usize| #[trigger]
                    self@.connections.all.contains_key(key) implies self@.keys().contains(key) by {
                    assert(old(self)@.connections.all.contains_key(key));
                }
            }
        }
    }

    /// Queues an attempt to connect to the specified peer,
    /// and returns a stable connection ID on success.
    pub fn connect(&mut self, server_name: &ServerName, peer_addr: SocketAddr) -> (r: Result<
        QuinnConnectionId,
        Error,
    >)
        requires
            old(self).wf(),
        ensures
            final(self).wf(),
            !old(self)@.open ==> r == Err::<QuinnConnectionId, Error>(Error::Closed)
                && final(self)@ == old(self)@,
            old(self)@.open && old(self)@.client is None ==> r == Err::<QuinnConnectionId, Error>(
                Error::Illegal,
            ) && final(self)@ == old(self)@,
            old(self)@.open && old(self)@.client is Some ==> exists|
                connected: Result<(usize, QuinnConnection), Seq<char>>,
            |
                #[trigger] proto::may_connect(
                    old(self)@.endpoint,
                    old(self)@.clock,
                    old(self)@.client->0,
                    peer_addr.without_flow(),
                    server_name.text(),
                    connected,
                    final(self)@.endpoint,
                ) && old(self)@.is_connected(connected, r, final(self)@),
    {
        if !self.open {
            return Err(Error::Closed);
        }
        let name = server_name.to_text();
        let ghost before = self@;
        let connected = match &self.client {
            Some(config) => proto::connect(
                &mut self.endpoint,
                &self.clock,
                config,
                &proto::sent_to(peer_addr),
                name.as_str(),
            ),
            None => {
                return Err(Error::Illegal);
            },
        };
        assert(proto::may_connect(
            before.endpoint,
            before.clock,
            before.client->0,
            peer_addr.without_flow(),
            server_name.text(),
            proto::outcome(connected),
            self@.endpoint,
        ));
        assert(self@ =~= before.with_endpoint(self@.endpoint));
        match connected {
            Ok((key, connection)) => {
                let id = self.register_new_connection(key, connection);
                proof {
                    assert(before.is_accepted(false, id, self@));
                    lemma_registered_is_covered(before, false, id, self@);
                }
                Ok(id)
            },
            Err(message) => Err(Error::Other(message)),
        }
    }

    /// Returns `true` if a connection is neither closed nor drained.
    fn is_connection_open(&self, connection_id: QuinnConnectionId) -> (r: bool)
        ensures
            r == self@.is_usable(connection_id),
    {
        match self.connections.get(connection_id) {
            Some(connection) => !proto::is_closed(&connection.inner) && !proto::is_drained(
                &connection.inner,
            ),
            None => false,
        }
    }

    /// Checks whether an application may ask for a connection, and marks it as active.
    ///
    /// * `is_connection_open`: the connection is neither closed nor drained.
    /// * `illegal`: the stream has no such direction.
    /// * `short`: the buffer is too short.
    pub fn enter(
        &mut self,
        connection_id: QuinnConnectionId,
        is_connection_open: bool,
        illegal: bool,
        short: bool,
    ) -> (r: Option<Error>)
        requires
            old(self).wf(),
        ensures
            final(self).wf(),
            r == refusal(old(self)@, connection_id, is_connection_open, illegal, short),
            is_entered(old(self)@, connection_id, r, final(self)@),
    {
        if !self.open {
            return Some(Error::Closed);
        }
        if illegal {
            return Some(Error::Illegal);
        }
        if short {
            return Some(Error::BufferSize);
        }
        if self.connections.get_mark_active_if(connection_id, is_connection_open).is_none() {
            return Some(Error::UnknownConnection);
        }
        assert(self@.connections.all =~= old(self)@.connections.all);
        None
    }

    /// Closes a connection with the specified application `err` and `reason`.
    ///
    /// Backend will **not** wait until all connection streams are finished/closed.
    pub fn connection_close(
        &mut self,
        connection_id: QuinnConnectionId,
        err: u64,
        reason: Bytes,
    ) -> (r: Result<(), Error>)
        requires
            old(self).wf(),
            err <= proto::MAX_VARINT,
        ensures
            final(self).wf(),
            r is Ok ==> !final(self)@.is_usable(connection_id),
            ({
                let m = old(self)@;
                let refused = m.refused(connection_id, false, false);
                if refused is Some {
                    r == Err::<(), Error>(refused->0) && final(self)@ == m
                } else {
                    r is Ok && is_closed_here(m, connection_id, err, reason, final(self)@)
                }
            }),
    {
        let is_connection_open = self.is_connection_open(connection_id);
        if let Some(error) = self.enter(connection_id, is_connection_open, false, false) {
            return Err(error);
        }
        if let Some(connection) = self.connections.get_mut(connection_id) {
            proto::close(&mut connection.inner, &self.clock, err, data::clone(&reason));
            let event = connection.get_close_event(connection_id.key, err, reason, true, true);
            self.events.push_connection(event);
        }
        proof {
            let m = old(self)@;
            let inner = proto::after_close(
                m.inner(connection_id.key),
                m.clock,
                err,
                data::content(reason),
            );
            let closed = m.marked(connection_id.key).with_inner(connection_id.key, inner).with(
                connection_id.key,
                Context { closed_event_sent: true, ..m.context(connection_id.key) },
            );
            assert(self@.connections.all =~= closed.connections.all);
            lemma_inner_is_covered(m, connection_id.key, self@);
        }
        Ok(())
    }

    /// Notifies that **client** application switched the network.
    ///
    /// Optionally provides a new address the socket listens to.
    ///
    /// Active migration will be performed on every client (locally-initiated) connection.
    ///
    /// # Error
    ///
    /// - [Error::Closed]  backend is closed.
    /// - [Error::Illegal] `new_listen_addr` is `Some(unspecified)`.
    pub fn migrate_network(&mut self, new_listen_addr: Option<IpAddr>) -> (r: Result<(), Error>)
        requires
            old(self).wf(),
        ensures
            final(self).wf(),
            !old(self)@.open ==> r == Err::<(), Error>(Error::Closed) && final(self)@ == old(
                self,
            )@,
            old(self)@.open && (new_listen_addr matches Some(addr) && addr.unspecified()) ==> r
                == Err::<(), Error>(Error::Illegal) && final(self)@ == old(self)@,
            old(self)@.open && (new_listen_addr matches Some(addr) ==> !addr.unspecified()) ==> {
                &&& r is Ok
                &&& exists|keys: Seq<usize>, inners: Seq<QuinnConnection>|
                    #[trigger] is_all_keys(old(self)@.connections, keys)
                        && #[trigger] are_changed_paths(old(self)@, keys, inners) && final(self)@
                        == all_migrated(
                        old(self)@.listening(new_listen_addr).all_waiting(keys),
                        keys,
                        inners,
                    )
            },
    {
        if !self.open {
            return Err(Error::Closed);
        }
        if let Some(new_listen_addr) = new_listen_addr {
            if new_listen_addr.is_unspecified() {
                return Err(Error::Illegal);
            }
            self.io.update_socket_addr(new_listen_addr);
        }
        let ids = self.connections.all_iter_mark_active();
        let ghost keys = ids@.map_values(|id: QuinnConnectionId| id.key);
        let ghost marked = self@;
        proof {
            lemma_ids_are_keys(old(self)@.connections, ids@);
            connections::lemma_all_marked(old(self)@.connections, keys);
        }
        let mut i: usize = 0;
        let ghost mut inners: Seq<QuinnConnection> = Seq::empty();
        assert(keys.take(0) =~= Seq::<usize>::empty());
        assert(marked =~= old(self)@.listening(new_listen_addr).all_waiting(keys));
        while i < ids.len()
            invariant
                self.wf_parts(),
                i <= ids@.len(),
                marked.connections.all == old(self)@.connections.all,
                marked.clock == old(self)@.clock,
                keys == ids@.map_values(|id: QuinnConnectionId| id.key),
                is_all_keys(old(self)@.connections, keys),
                forall|k: int|
                    0 <= k < ids@.len() ==> (#[trigger] ids@[k]) == old(
                        self,
                    )@.connections.all[ids@[k].key].context.spec_id(ids@[k].key),
                are_changed_paths(old(self)@, keys.take(i as int), inners),
                self@ == all_migrated(marked, keys.take(i as int), inners),
            decreases ids@.len() - i,
        {
            let ghost before = self@;
            proof {
                assert(keys[i as int] == ids@[i as int].key);
                assert(keys.contains(ids@[i as int].key));
                assert(keys.take(i + 1).drop_last() =~= keys.take(i as int));
                assert forall|k: int| 0 <= k < keys.take(i as int).len() implies
                    marked.connections.all.contains_key(#[trigger] keys.take(i as int)[k]) by {
                    assert(keys.contains(keys[k]));
                }
                assert(!keys.take(i as int).contains(ids@[i as int].key)) by {
                    if keys.take(i as int).contains(ids@[i as int].key) {
                        let k = keys.take(i as int).index_of(ids@[i as int].key);
                        assert(keys[k] < keys[i as int]);
                    }
                }
                lemma_all_migrated(marked, keys.take(i as int), inners);
                assert(before.inner(ids@[i as int].key) == old(self)@.inner(ids@[i as int].key));
                assert(marked.connections.all.contains_key(ids@[i as int].key));
                assert(before.connections.all.dom().contains(ids@[i as int].key));
                assert(before.context(ids@[i as int].key).version == marked.context(
                    ids@[i as int].key,
                ).version);
            }
            if let Some(connection) = self.connections.get_mut(ids[i]) {
                if !proto::is_server(&connection.inner) {
                    proto::local_address_changed(&mut connection.inner);
                    proto::path_changed(&mut connection.inner, &self.clock);
                    let event = connection.get_dgram_out_size_event(ids[i].key);
                    self.events.push_datagram(event);
                }
            }
            proof {
                let key = ids@[i as int].key;
                let inner = self@.inner(key);
                assert(self@ =~= before.migrated(key, inner));
                let changed = inners.push(inner);
                assert forall|k: int| 0 <= k < changed.len() && !proto::is_server_side(
                    old(self)@.inner(keys.take(i + 1)[k]),
                ) implies proto::may_change_path(
                    proto::after_address_change(old(self)@.inner(keys.take(i + 1)[k])),
                    old(self)@.clock,
                    #[trigger] changed[k],
                ) by {
                    if k < i {
                        assert(changed[k] == inners[k]);
                        assert(keys.take(i + 1)[k] == keys.take(i as int)[k]);
                    }
                }
                assert(changed.drop_last() =~= inners);
                inners = changed;
            }
            i = i + 1;
        }
        proof {
            assert(keys.take(i as int) =~= keys);
            assert forall|k: int| 0 <= k < keys.len() implies marked.connections.all.contains_key(
                #[trigger] keys[k],
            ) by {
                assert(keys.contains(keys[k]));
            }
            lemma_all_migrated(marked, keys, inners);
            assert(self@.is_covered()) by {
                assert forall|key: usize| #[trigger]
                    self@.connections.all.contains_key(key) implies self@.keys().contains(key) by {
                    assert(self@.connections.all.dom().contains(key));
                    assert(old(self)@.connections.all.contains_key(key));
                }
            }
        }
        Ok(())
    }

    /// Returns the peer's certificate chain (if any) as a vector of DER-encoded
    /// buffers.
    ///
    /// The certificate at index 0 is the peer's leaf certificate, the other
    /// certificates (if any) are the chain certificate authorities used to
    /// sign the leaf certificate.
    pub fn peer_cert_chain(&self, connection_id: QuinnConnectionId) -> (r: Result<
        Vec<Vec<u8>>,
        Error,
    >)
        ensures
            !self@.open ==> r == Err::<Vec<Vec<u8>>, Error>(Error::Closed),
            self@.open && !self@.has(connection_id) ==> r == Err::<Vec<Vec<u8>>, Error>(
                Error::UnknownConnection,
            ),
            self@.open && self@.has(connection_id) ==> is_cert_chain(
                proto::identity_of(self@.inner(connection_id.key)),
                r,
            ),
    {
        if !self.open {
            return Err(Error::Closed);
        }
        let Some(connection) = self.connections.get(connection_id) else {
            return Err(Error::UnknownConnection);
        };
        cert_chain(proto::peer_identity(&connection.inner))
    }
}

/// The certificates of a peer, if it is known by certificates or not at all.
pub open spec fn is_cert_chain(identity: Identity, r: Result<Vec<Vec<u8>>, Error>) -> bool {
    match identity {
        Identity::Absent => r is Ok && r->Ok_0@.len() == 0,
        Identity::Certificates(certificates) => r is Ok && r->Ok_0@.map_values(
            |certificate: Vec<u8>| certificate@,
        ) == certificates,
        Identity::Foreign => r matches Err(Error::Other(message)) && message@
            == "unable to cast peer_identity as 'Vec<CertificateDer>'"@,
    }
}

/// Returns the certificates of a peer.
pub fn cert_chain(identity: PeerIdentity) -> (r: Result<Vec<Vec<u8>>, Error>)
    ensures
        is_cert_chain(identity@, r),
{
    match identity {
        PeerIdentity::Absent => Ok(Vec::new()),
        PeerIdentity::Certificates(certificates) => Ok(certificates),
        PeerIdentity::Foreign => Err(
            Error::Other("unable to cast peer_identity as 'Vec<CertificateDer>'".to_string()),
        ),
    }
}

impl BackendModel {
    /// Why an application is refused that asks for a connection, `None` if it is not.
    pub open spec fn refused(
        self,
        id: QuinnConnectionId,
        illegal: bool,
        short: bool,
    ) -> Option<Error> {
        refusal(self, id, self.is_usable(id), illegal, short)
    }

    /// All connections wait to be polled.
    pub open spec fn all_waiting(self, keys: Seq<usize>) -> BackendModel {
        BackendModel { connections: connections::all_marked(self.connections, keys), ..self }
    }

    /// The backend and all its connections are closed.
    pub open spec fn all_closed(self, keys: Seq<usize>, err: u64, reason: Seq<u8>) -> BackendModel {
        BackendModel {
            open: false,
            connections: ConnectionsModel {
                all: self.connections.all.map_values(
                    |connection: Connection|
                        Connection {
                            inner: proto::after_close(connection.inner, self.clock, err, reason),
                            ..connection
                        },
                ),
                ..connections::all_marked(self.connections, keys)
            },
            ..self
        }
    }

    /// Packets are sent from another address, if there is one.
    pub open spec fn listening(self, new_listen_addr: Option<IpAddr>) -> BackendModel {
        match new_listen_addr {
            Some(listen_addr) => self.with_io(IoModel { listen_addr, ..self.io }),
            None => self,
        }
    }

    /// A client connection is used from a new address, and has forgotten what is known of its path.
    /// Servers do not migrate.
    ///
    /// * `inner`: the connection then, as `quinn-proto` sees it.
    pub open spec fn migrated(self, key: usize, inner: QuinnConnection) -> BackendModel {
        if proto::is_server_side(self.inner(key)) {
            self
        } else {
            self.with_inner(key, inner).sized(key)
        }
    }
}

/// What client connections may be that are used from a new address, and have forgotten
/// what is known of their paths.
pub open spec fn are_changed_paths(
    m: BackendModel,
    keys: Seq<usize>,
    inners: Seq<QuinnConnection>,
) -> bool {
    &&& inners.len() == keys.len()
    &&& forall|i: int|
        0 <= i < inners.len() && !proto::is_server_side(m.inner(keys[i]))
            ==> proto::may_change_path(
            proto::after_address_change(m.inner(keys[i])),
            m.clock,
            #[trigger] inners[i],
        )
}

/// Connections are used from a new address, in order.
pub open spec fn all_migrated(
    m: BackendModel,
    keys: Seq<usize>,
    inners: Seq<QuinnConnection>,
) -> BackendModel
    decreases keys.len(),
{
    if keys.len() == 0 {
        m
    } else {
        all_migrated(m, keys.drop_last(), inners.drop_last()).migrated(keys.last(), inners.last())
    }
}

/// Migration keeps the connections and their IDs, and changes no other connections.
proof fn lemma_all_migrated(m: BackendModel, keys: Seq<usize>, inners: Seq<QuinnConnection>)
    requires
        inners.len() == keys.len(),
        forall|i: int|
            0 <= i < keys.len() ==> m.connections.all.contains_key(#[trigger] keys[i]),
    ensures
        all_migrated(m, keys, inners).connections.all.dom() == m.connections.all.dom(),
        all_migrated(m, keys, inners).endpoint == m.endpoint,
        all_migrated(m, keys, inners).clock == m.clock,
        forall|key: usize|
            (#[trigger] all_migrated(m, keys, inners).context(key)).version == m.context(key).version
                && all_migrated(m, keys, inners).context(key).trace == m.context(key).trace,
        forall|key: usize|
            !keys.contains(key) ==> #[trigger] all_migrated(m, keys, inners).inner(key) == m.inner(
                key,
            ),
    decreases keys.len(),
{
    if keys.len() > 0 {
        let before = all_migrated(m, keys.drop_last(), inners.drop_last());
        assert forall|i: int| 0 <= i < keys.drop_last().len() implies m.connections.all.contains_key(
            #[trigger] keys.drop_last()[i],
        ) by {
            assert(keys.drop_last()[i] == keys[i]);
        }
        lemma_all_migrated(m, keys.drop_last(), inners.drop_last());
        let after = all_migrated(m, keys, inners);
        assert(keys.last() == keys[keys.len() - 1]);
        assert(before.connections.all.dom().contains(keys.last()));
        assert(after.connections.all.dom() =~= before.connections.all.dom());
        assert forall|key: usize|
            (#[trigger] after.context(key)).version == m.context(key).version && after.context(
                key,
            ).trace == m.context(key).trace by {
            assert(before.context(key).version == m.context(key).version);
        }
        assert forall|key: usize| !keys.contains(key) implies #[trigger] after.inner(key)
            == m.inner(key) by {
            assert(!keys.drop_last().contains(key)) by {
                if keys.drop_last().contains(key) {
                    let k = keys.drop_last().index_of(key);
                    assert(keys[k] == key);
                }
            }
            assert(before.inner(key) == m.inner(key));
            assert(key != keys.last());
        }
    }
}

/// The connection was closed by the application.
pub open spec fn is_closed_here(
    m: BackendModel,
    id: QuinnConnectionId,
    err: u64,
    reason: Bytes,
    after: BackendModel,
) -> bool {
    let context = m.context(id.key);
    let inner = proto::after_close(m.inner(id.key), m.clock, err, data::content(reason));
    let closed = m.marked(id.key).with_inner(id.key, inner).with(
        id.key,
        Context { closed_event_sent: true, ..context },
    );
    after == if context.closed_event_sent {
        closed
    } else {
        closed.pushed(
            Event::Connection(
                ConnectionEvent::Closed {
                    connection_id: context.spec_id(id.key),
                    code: err,
                    reason,
                    is_application: true,
                    is_local: true,
                },
            ),
        )
    }
}

proof fn lemma_ids_are_keys(m: ConnectionsModel, ids: Seq<QuinnConnectionId>)
    requires
        forall|key: usize|
            m.all.contains_key(key) <==> exists|i: int|
                0 <= i < ids.len() && (#[trigger] ids[i]).key == key,
        forall|i: int, j: int| 0 <= i < j < ids.len() ==> ids[i].key < ids[j].key,
    ensures
        is_all_keys(m, ids.map_values(|id: QuinnConnectionId| id.key)),
{
    let keys = ids.map_values(|id: QuinnConnectionId| id.key);
    assert forall|key: usize| m.all.contains_key(key) <==> #[trigger] keys.contains(key) by {
        if m.all.contains_key(key) {
            let i = choose|i: int| 0 <= i < ids.len() && (#[trigger] ids[i]).key == key;
            assert(keys[i] == key);
        }
        if keys.contains(key) {
            let i = choose|i: int| 0 <= i < keys.len() && keys[i] == key;
            assert(ids[i].key == key);
        }
    }
}

/// The error that an application gets that reads from a stream that cannot be read.
pub fn after_read(failure: ReadableFailure) -> (r: Error)
    ensures
        r == match failure {
            ReadableFailure::Closed => Error::UnknownStream,
            ReadableFailure::IllegalOrder(message) => Error::Other(message),
        },
{
    match failure {
        ReadableFailure::Closed => Error::UnknownStream,
        ReadableFailure::IllegalOrder(message) => Error::Other(message),
    }
}

/// Takes the next data of a stream, and writes it into `&mut out`, behind `offset` bytes.
///
/// Returns how many bytes of `out` are written then, and whether the stream has ended,
/// if there is nothing more to read.
pub fn take_chunk(out: &mut [u8], offset: usize, chunk: Result<Option<Bytes>, ReadFailure>) -> (r:
    Result<(usize, Option<bool>), Error>)
    requires
        offset <= old(out)@.len(),
        chunk matches Ok(Some(bytes)) ==> offset + data::content(bytes).len() <= old(out)@.len(),
    ensures
        match chunk {
            Ok(Some(bytes)) => {
                &&& r matches Ok((written, None)) && written == offset + data::content(bytes).len()
                &&& final(out)@ == octets::overwritten(
                    old(out)@,
                    offset as int,
                    data::content(bytes),
                )
            },
            Ok(None) => r == Ok::<(usize, Option<bool>), Error>((offset, Some(true))) && final(out)@
                == old(out)@,
            Err(ReadFailure::Blocked) => r == Ok::<(usize, Option<bool>), Error>(
                (offset, Some(false)),
            ) && final(out)@ == old(out)@,
            Err(ReadFailure::Reset(code)) => r == Err::<(usize, Option<bool>), Error>(
                Error::StreamReset(code),
            ) && final(out)@ == old(out)@,
        },
{
    match chunk {
        Ok(Some(bytes)) => {
            let length: usize = data::len(&bytes);
            assert(offset + length <= out.len());
            let written: usize = offset + length;
            octets::copy_into_slice(out, offset, data::as_slice(&bytes));
            Ok((written, None))
        },
        Ok(None) => Ok((offset, Some(true))),
        Err(ReadFailure::Blocked) => Ok((offset, Some(false))),
        Err(ReadFailure::Reset(code)) => Err(Error::StreamReset(code)),
    }
}

/// What an application gets that reads from a stream.
///
/// * `length`: how many bytes it reads at most.
pub open spec fn is_read(
    readable: Result<(Seq<u8>, ReadEnd), Unreadable>,
    length: nat,
    r: Result<(usize, bool), Error>,
) -> bool {
    match readable {
        Err(Unreadable::Closed) => r == Err::<(usize, bool), Error>(Error::UnknownStream),
        Err(Unreadable::IllegalOrder) => r matches Err(Error::Other(message)) && message@
            == "ordered read after unordered read"@,
        Ok((data, end)) => if length <= data.len() {
            r == Ok::<(usize, bool), Error>((length as usize, false))
        } else {
            r == match end {
                ReadEnd::Finished => Ok::<(usize, bool), Error>((data.len() as usize, true)),
                ReadEnd::Blocked => Ok::<(usize, bool), Error>((data.len() as usize, false)),
                ReadEnd::Reset(code) => Err::<(usize, bool), Error>(Error::StreamReset(code)),
            }
        },
    }
}

/// The data that an application gets that reads from a stream.
pub open spec fn read_data(
    readable: Result<(Seq<u8>, ReadEnd), Unreadable>,
    length: nat,
) -> Seq<u8> {
    match readable {
        Err(_) => Seq::empty(),
        Ok((data, _)) => if length <= data.len() {
            data.take(length as int)
        } else {
            data
        },
    }
}

/// What of a stream can be read after an application has read from it.
///
/// * `length`: how many bytes it has read at most.
pub open spec fn left(readable: Result<(Seq<u8>, ReadEnd), Unreadable>, length: nat) -> Result<
    (Seq<u8>, ReadEnd),
    Unreadable,
> {
    match readable {
        Err(_) => Err(Unreadable::Closed),
        Ok((data, end)) => if length <= data.len() {
            Ok((data.skip(length as int), end))
        } else if end is Blocked {
            Ok((Seq::empty(), end))
        } else {
            Err(Unreadable::Closed)
        },
    }
}

/// A connection after an application has read from a stream of it.
///
/// * `length`: how many bytes it has read at most.
pub open spec fn after_reads(connection: QuinnConnection, raw: u64, length: nat) -> QuinnConnection
    decreases length,
{
    if length == 0 {
        connection
    } else {
        let (read, after) = proto::chunk_read(connection, raw, length as usize);
        match read {
            Read::Chunk(chunk) if 0 < chunk.len() <= length => after_reads(
                after,
                raw,
                (length - chunk.len()) as nat,
            ),
            _ => after,
        }
    }
}

/// Several reads give the data of a stream in order, each byte of it once.
pub proof fn law_reads_continue(
    readable: Result<(Seq<u8>, ReadEnd), Unreadable>,
    first: nat,
    second: nat,
)
    ensures
        read_data(readable, first) + read_data(left(readable, first), second) == read_data(
            readable,
            first + second,
        ),
        readable is Ok && first + second <= readable->Ok_0.0.len() ==> left(
            left(readable, first),
            second,
        ) == left(readable, first + second),
{
    if let Ok((data, _)) = readable {
        if first <= data.len() {
            let rest = data.skip(first as int);
            if first + second <= data.len() {
                assert(data.take(first as int) + rest.take(second as int) =~= data.take(
                    (first + second) as int,
                ));
                assert(rest.skip(second as int) =~= data.skip((first + second) as int));
            } else {
                assert(data.take(first as int) + rest =~= data);
            }
        } else {
            assert(data + Seq::<u8>::empty() =~= data);
        }
    }
}

/// Reads data of a stream into `&mut out`, as much as there is.
///
/// Returns the number of bytes, and whether the stream has ended.
fn read_stream(connection: &mut QuinnConnection, raw: u64, out: &mut [u8]) -> (r: Result<
    (usize, bool),
    Error,
>)
    requires
        raw <= proto::MAX_VARINT,
        proto::is_received(*old(connection), raw),
        old(out)@.len() > 0,
    ensures
        proto::is_same_state(*old(connection), *final(connection)),
        *final(connection) == after_reads(*old(connection), raw, old(out)@.len()),
        is_read(proto::readable(*old(connection), raw), old(out)@.len(), r),
        proto::readable(*final(connection), raw) == left(
            proto::readable(*old(connection), raw),
            old(out)@.len(),
        ),
        final(out)@ == octets::overwritten(
            old(out)@,
            0,
            read_data(proto::readable(*old(connection), raw), old(out)@.len()),
        ),
{
    let ghost readable = proto::readable(*connection, raw);
    let ghost length = out@.len();
    let ghost (data, end) = if readable is Ok {
        readable->Ok_0
    } else {
        (Seq::empty(), ReadEnd::Blocked)
    };
    let mut offset: usize = 0;
    assert(octets::overwritten(old(out)@, 0, data.take(0)) =~= old(out)@);
    assert(data.skip(0) =~= data);
    while offset < out.len()
        invariant
            raw <= proto::MAX_VARINT,
            readable == proto::readable(*old(connection), raw),
            length == old(out)@.len(),
            length > 0,
            proto::is_received(*connection, raw),
            proto::is_same_state(*old(connection), *connection),
            offset <= length,
            out@.len() == length,
            offset <= data.len(),
            readable is Ok ==> readable->Ok_0 == (data, end),
            readable is Err ==> offset == 0 && data.len() == 0,
            proto::readable(*connection, raw) == if readable is Ok {
                Ok((data.skip(offset as int), end))
            } else {
                readable
            },
            after_reads(*old(connection), raw, length) == after_reads(
                *connection,
                raw,
                (length - offset) as nat,
            ),
            out@ == octets::overwritten(old(out)@, 0, data.take(offset as int)),
        decreases length - offset,
    {
        let ghost rest = data.skip(offset as int);
        let chunk = match proto::read_chunk(connection, raw, out.len() - offset) {
            Ok(chunk) => chunk,
            Err(failure) => {
                assert(octets::overwritten(old(out)@, 0, Seq::empty()) =~= old(out)@);
                assert(data.take(0) =~= Seq::<u8>::empty());
                return Err(after_read(failure));
            },
        };
        match take_chunk(out, offset, chunk) {
            Ok((written, None)) => {
                proof {
                    let taken = rest.take(written - offset);
                    assert(data.take(offset as int) + taken =~= data.take(written as int));
                    assert(out@ =~= octets::overwritten(
                        old(out)@,
                        0,
                        data.take(written as int),
                    ));
                    assert(rest.skip(written - offset) =~= data.skip(written as int));
                }
                offset = written;
            },
            Ok((written, Some(is_end))) => {
                assert(data.take(offset as int) =~= data);
                assert(rest =~= Seq::<u8>::empty());
                return Ok((written, is_end));
            },
            Err(error) => {
                assert(data.take(offset as int) =~= data);
                return Err(error);
            },
        }
    }
    Ok((offset, false))
}

/// Returns whether data was written completely into a stream, as an application sees it.
pub fn after_write(written: Result<bool, WriteFailure>) -> (r: Result<bool, Error>)
    ensures
        r == match written {
            Ok(is_complete) => Ok::<bool, Error>(is_complete),
            Err(WriteFailure::Blocked) => Ok::<bool, Error>(false),
            Err(WriteFailure::Stopped(code)) => Err::<bool, Error>(Error::StreamStop(code)),
            Err(WriteFailure::Closed) => Err::<bool, Error>(Error::UnknownStream),
        },
{
    match written {
        Ok(is_complete) => Ok(is_complete),
        Err(WriteFailure::Blocked) => Ok(false),
        Err(WriteFailure::Stopped(code)) => Err(Error::StreamStop(code)),
        Err(WriteFailure::Closed) => Err(Error::UnknownStream),
    }
}

/// The error that an application gets if a stream is not finished.
pub fn after_finish(failure: FinishFailure) -> (r: Error)
    ensures
        r == match failure {
            FinishFailure::Stopped(code) => Error::StreamStop(code),
            FinishFailure::Closed => Error::UnknownStream,
        },
{
    match failure {
        FinishFailure::Stopped(code) => Error::StreamStop(code),
        FinishFailure::Closed => Error::UnknownStream,
    }
}

/// What an application gets that writes into a stream, and the connection of the stream then.
///
/// If all data was written, the stream is finished, if `fin`.
pub open spec fn sent(connection: QuinnConnection, raw: u64, bytes: Seq<u8>, fin: bool) -> (
    Result<Option<Seq<u8>>, Error>,
    QuinnConnection,
) {
    let (result, rest, written) = if bytes.len() > 0 {
        proto::stream_written(connection, raw, bytes)
    } else {
        (Ok(true), bytes, connection)
    };
    match result {
        Err(WriteFailure::Blocked) => (Ok(Some(bytes)), written),
        Err(WriteFailure::Stopped(code)) => (Err(Error::StreamStop(code)), written),
        Err(WriteFailure::Closed) => (Err(Error::UnknownStream), written),
        Ok(false) => (Ok(Some(rest)), written),
        Ok(true) => if fin {
            let (result, finished) = proto::stream_finished(written, raw);
            match result {
                Ok(_) => (Ok(None), finished),
                Err(FinishFailure::Stopped(code)) => (Err(Error::StreamStop(code)), finished),
                Err(FinishFailure::Closed) => (Err(Error::UnknownStream), finished),
            }
        } else {
            (Ok(None), written)
        },
    }
}

/// The end of data, of which there is something.
pub open spec fn is_rest(bytes: Seq<u8>, rest: Seq<u8>) -> bool {
    &&& 0 < rest.len() <= bytes.len()
    &&& rest == bytes.skip(bytes.len() - rest.len())
}

/// The bytes that come back, if there are any.
pub open spec fn unsent(r: Result<Option<Bytes>, Error>) -> Result<Option<Seq<u8>>, Error> {
    match r {
        Ok(bytes) => Ok(data::optional(bytes)),
        Err(error) => Err(error),
    }
}

/// Writes data into a stream. If all data was written, finishes the stream, if asked to.
///
/// Returns the data that was not written.
fn write_stream(connection: &mut QuinnConnection, raw: u64, bytes: Bytes, fin: bool) -> (r: Result<
    Option<Bytes>,
    Error,
>)
    requires
        raw <= proto::MAX_VARINT,
        proto::is_sent(*old(connection), raw),
    ensures
        (unsent(r), *final(connection)) == sent(
            *old(connection),
            raw,
            data::content(bytes),
            fin,
        ),
        proto::is_same_state(*old(connection), *final(connection)),
        r matches Ok(Some(rest)) ==> is_rest(data::content(bytes), data::content(rest)),
{
    let mut chunk = bytes;
    let mut is_complete = true;
    if data::len(&chunk) > 0 {
        match after_write(proto::write_chunk(connection, raw, &mut chunk)) {
            Ok(written) => {
                is_complete = written;
            },
            Err(error) => {
                return Err(error);
            },
        }
    }
    if !is_complete {
        assert(data::content(bytes).skip(0) =~= data::content(bytes));
        return Ok(Some(chunk));
    }
    if fin {
        if let Err(failure) = proto::finish(connection, raw) {
            return Err(after_finish(failure));
        }
    }
    Ok(None)
}

impl QuinnBackend {
    /// Writes an ordered stream data into `&mut out`,
    /// returning the number of bytes received, and whether it's a successful end of the stream or not.
    ///
    /// A stream that this side alone writes into is no stream to read from.
    pub fn stream_recv(
        &mut self,
        connection_id: QuinnConnectionId,
        stream_id: StreamId,
        out: &mut [u8],
    ) -> (r: Result<(usize, bool), Error>)
        requires
            old(self).wf(),
        ensures
            final(self).wf(),
            final(self)@.is_usable(connection_id) == old(self)@.is_usable(connection_id),
            ({
                let m = old(self)@;
                let key = connection_id.key;
                let refused = m.refused(
                    connection_id,
                    is_client_uni(stream_id),
                    old(out)@.len() == 0,
                );
                let readable = proto::readable(m.inner(key), stream_id@ as u64);
                if refused is Some {
                    &&& r == Err::<(usize, bool), Error>(refused->0)
                    &&& final(self)@ == m
                    &&& final(out)@ == old(out)@
                } else if !proto::is_received(m.inner(key), stream_id@ as u64) {
                    &&& r == Err::<(usize, bool), Error>(Error::Illegal)
                    &&& final(self)@ == m.marked(key)
                    &&& final(out)@ == old(out)@
                } else {
                    &&& is_read(readable, old(out)@.len(), r)
                    &&& final(out)@ == octets::overwritten(
                        old(out)@,
                        0,
                        read_data(readable, old(out)@.len()),
                    )
                    &&& final(self)@ == m.marked(key).with_inner(
                        key,
                        after_reads(m.inner(key), stream_id@ as u64, old(out)@.len()),
                    )
                    &&& proto::readable(final(self)@.inner(key), stream_id@ as u64) == left(
                        readable,
                        old(out)@.len(),
                    )
                    &&& proto::is_same_state(m.inner(key), final(self)@.inner(key))
                }
            }),
    {
        let raw: u64 = stream_id.raw();
        let is_open = self.is_connection_open(connection_id);
        let illegal = stream_id.is_client() && stream_id.is_uni();
        if let Some(error) = self.enter(connection_id, is_open, illegal, out.len() == 0) {
            return Err(error);
        }
        let ghost entered = self@;
        let Some(connection) = self.connections.get_mut(connection_id) else {
            return Err(Error::UnknownConnection);
        };
        if stream_id.is_uni() && stream_id.is_server() == proto::is_server(&connection.inner) {
            assert(self@.connections.all =~= entered.connections.all);
            return Err(Error::Illegal);
        }
        let r = read_stream(&mut connection.inner, raw, out);
        proof {
            lemma_inner_is_covered(entered, connection_id.key, self@);
        }
        r
    }

    /// Tries to open a stream of a certain directionality,
    /// and performs [`stream_send()`][Self::stream_send] on success.
    ///
    /// Generates an event that the stream is available.
    pub fn stream_open_send(
        &mut self,
        connection_id: QuinnConnectionId,
        bidirectional: bool,
        bytes: Bytes,
        fin: bool,
    ) -> (r: Result<(StreamId, Option<Bytes>), Error>)
        requires
            old(self).wf(),
        ensures
            final(self).wf(),
            final(self)@.is_usable(connection_id) == old(self)@.is_usable(connection_id),
            ({
                let m = old(self)@;
                let key = connection_id.key;
                let refused = m.refused(connection_id, false, false);
                let (raw, opened) = proto::stream_opened(m.inner(key), bidirectional);
                let after = m.marked(key).with_inner(key, opened);
                let told = after.pushed_if(connection::available(connection_id, raw->0));
                if refused is Some {
                    &&& r == Err::<(StreamId, Option<Bytes>), Error>(refused->0)
                    &&& final(self)@ == m
                } else if raw is None {
                    &&& r == Err::<(StreamId, Option<Bytes>), Error>(Error::StreamsExhausted)
                    &&& final(self)@ == after
                    &&& proto::is_opened(m.inner(key), bidirectional, raw, opened)
                } else {
                    &&& proto::is_opened(m.inner(key), bidirectional, raw, opened)
                    &&& raw->0 <= StreamId::MAX
                    &&& StreamId::of(raw->0).one_way() == !bidirectional
                    &&& is_stream_sent(
                        told,
                        connection_id,
                        StreamId::of(raw->0),
                        data::content(bytes),
                        fin,
                        match r {
                            Ok((_, unsent)) => Ok(unsent),
                            Err(error) => Err(error),
                        },
                        final(self)@,
                    )
                    &&& r matches Ok((stream_id, _)) ==> stream_id == StreamId::of(raw->0)
                }
            }),
    {
        let is_open = self.is_connection_open(connection_id);
        if let Some(error) = self.enter(connection_id, is_open, false, false) {
            return Err(error);
        }
        let ghost entered = self@;
        let Some(connection) = self.connections.get_mut(connection_id) else {
            return Err(Error::UnknownConnection);
        };
        let opened: Option<u64> = proto::open_stream(&mut connection.inner, bidirectional);
        proof {
            lemma_inner_is_covered(entered, connection_id.key, self@);
        }
        let Some(raw) = opened else {
            return Err(Error::StreamsExhausted);
        };
        let Ok(stream_id) = StreamId::new(raw) else {
            return Err(Error::StreamsExhausted);
        };
        self.events.push(Event::Stream(StreamEvent::Available(connection_id, stream_id)));
        match self.stream_send(connection_id, stream_id, bytes, fin) {
            Ok(unsent) => Ok((stream_id, unsent)),
            Err(error) => Err(error),
        }
    }

    /// Sends `bytes` with an optional `FIN` flag (if `true`),
    /// which means a successful end of the stream direction.
    ///
    /// Returns `None` on complete send operation,
    /// or `Some(unsent_bytes)` on a partial write.
    ///
    /// A stream that the peer alone writes into is no stream to write into.
    pub fn stream_send(
        &mut self,
        connection_id: QuinnConnectionId,
        stream_id: StreamId,
        bytes: Bytes,
        fin: bool,
    ) -> (r: Result<Option<Bytes>, Error>)
        requires
            old(self).wf(),
        ensures
            final(self).wf(),
            final(self)@.is_usable(connection_id) == old(self)@.is_usable(connection_id),
            is_stream_sent(
                old(self)@,
                connection_id,
                stream_id,
                data::content(bytes),
                fin,
                r,
                final(self)@,
            ),
    {
        let raw: u64 = stream_id.raw();
        let is_open = self.is_connection_open(connection_id);
        let illegal = stream_id.is_server() && stream_id.is_uni();
        if let Some(error) = self.enter(connection_id, is_open, illegal, false) {
            return Err(error);
        }
        let ghost entered = self@;
        let Some(connection) = self.connections.get_mut(connection_id) else {
            return Err(Error::UnknownConnection);
        };
        if stream_id.is_uni() && stream_id.is_server() != proto::is_server(&connection.inner) {
            assert(self@.connections.all =~= entered.connections.all);
            return Err(Error::Illegal);
        }
        let r = write_stream(&mut connection.inner, raw, bytes, fin);
        proof {
            lemma_inner_is_covered(entered, connection_id.key, self@);
        }
        r
    }

    /// Tells the peer that application is no longer interested in its data on a stream.
    ///
    /// If the backend, connection or direction is already closed,
    /// this operation is no-op.
    pub fn stream_stop_sending(
        &mut self,
        connection_id: QuinnConnectionId,
        stream_id: StreamId,
        err: u64,
    )
        requires
            old(self).wf(),
            err <= proto::MAX_VARINT,
        ensures
            final(self).wf(),
            final(self)@.is_usable(connection_id) == old(self)@.is_usable(connection_id),
            ({
                let m = old(self)@;
                let key = connection_id.key;
                let raw = stream_id@ as u64;
                final(self)@ == if m.refused(connection_id, is_client_uni(stream_id), false)
                    is Some {
                    m
                } else if !proto::is_received(m.inner(key), raw) {
                    m.marked(key)
                } else {
                    m.marked(key).with_inner(key, proto::after_stop(m.inner(key), raw, err))
                }
            }),
    {
        let raw: u64 = stream_id.raw();
        let is_open = self.is_connection_open(connection_id);
        let illegal = stream_id.is_client() && stream_id.is_uni();
        if self.enter(connection_id, is_open, illegal, false).is_some() {
            return;
        }
        let ghost entered = self@;
        let Some(connection) = self.connections.get_mut(connection_id) else {
            return;
        };
        if !stream_id.is_uni() || stream_id.is_server() != proto::is_server(&connection.inner) {
            proto::stop(&mut connection.inner, raw, err);
        }
        proof {
            lemma_inner_is_covered(entered, connection_id.key, self@);
        }
    }

    /// Tells the peer that application wants to abort a stream direction and won't send more data.
    ///
    /// If the backend, connection or direction is already closed,
    /// this operation is no-op.
    pub fn stream_reset_sending(
        &mut self,
        connection_id: QuinnConnectionId,
        stream_id: StreamId,
        err: u64,
    )
        requires
            old(self).wf(),
            err <= proto::MAX_VARINT,
        ensures
            final(self).wf(),
            final(self)@.is_usable(connection_id) == old(self)@.is_usable(connection_id),
            ({
                let m = old(self)@;
                let key = connection_id.key;
                let raw = stream_id@ as u64;
                final(self)@ == if m.refused(connection_id, is_server_uni(stream_id), false)
                    is Some {
                    m
                } else if !proto::is_sent(m.inner(key), raw) {
                    m.marked(key)
                } else {
                    m.marked(key).with_inner(
                        key,
                        proto::after_reset(m.inner(key), raw, err),
                    )
                }
            }),
    {
        let raw: u64 = stream_id.raw();
        let is_open = self.is_connection_open(connection_id);
        let illegal = stream_id.is_server() && stream_id.is_uni();
        if self.enter(connection_id, is_open, illegal, false).is_some() {
            return;
        }
        let ghost entered = self@;
        let Some(connection) = self.connections.get_mut(connection_id) else {
            return;
        };
        if !stream_id.is_uni() || stream_id.is_server() == proto::is_server(&connection.inner) {
            proto::reset(&mut connection.inner, raw, err);
        }
        proof {
            lemma_inner_is_covered(entered, connection_id.key, self@);
        }
    }

    /// Sets a priority for the specified stream.
    ///
    /// If the backend, connection or direction is closed,
    /// this operation is no-op.
    pub fn stream_set_priority(
        &mut self,
        connection_id: QuinnConnectionId,
        stream_id: StreamId,
        priority: Priority,
    )
        requires
            old(self).wf(),
        ensures
            final(self).wf(),
            final(self)@.is_usable(connection_id) == old(self)@.is_usable(connection_id),
            ({
                let m = old(self)@;
                let key = connection_id.key;
                let raw = stream_id@ as u64;
                final(self)@ == if m.refused(connection_id, is_server_uni(stream_id), false)
                    is Some {
                    m
                } else if !proto::is_sent(m.inner(key), raw) {
                    m.marked(key)
                } else {
                    m.marked(key).with_inner(
                        key,
                        proto::after_priority(m.inner(key), raw, priority.urgency as i32),
                    )
                }
            }),
    {
        let raw: u64 = stream_id.raw();
        let is_open = self.is_connection_open(connection_id);
        let illegal = stream_id.is_server() && stream_id.is_uni();
        if self.enter(connection_id, is_open, illegal, false).is_some() {
            return;
        }
        let ghost entered = self@;
        let Some(connection) = self.connections.get_mut(connection_id) else {
            return;
        };
        if !stream_id.is_uni() || stream_id.is_server() == proto::is_server(&connection.inner) {
            proto::set_priority(
                &mut connection.inner,
                raw,
                priority.urgency as i32,
            );
        }
        proof {
            lemma_inner_is_covered(entered, connection_id.key, self@);
        }
    }

    /// Returns a single datagram, `None` if there is none.
    pub fn dgram_recv_zc(&mut self, connection_id: QuinnConnectionId) -> (r: Result<
        Option<Bytes>,
        Error,
    >)
        requires
            old(self).wf(),
        ensures
            final(self).wf(),
            final(self)@.is_usable(connection_id) == old(self)@.is_usable(connection_id),
            ({
                let m = old(self)@;
                let key = connection_id.key;
                let refused = m.refused(connection_id, false, false);
                let (datagram, received) = proto::dgram_received(m.inner(key));
                if refused is Some {
                    r == Err::<Option<Bytes>, Error>(refused->0) && final(self)@ == m
                } else {
                    &&& r is Ok
                    &&& data::optional(r->Ok_0) == datagram
                    &&& final(self)@ == m.with_inner(key, received)
                }
            }),
    {
        if !self.open {
            return Err(Error::Closed);
        }
        if !self.is_connection_open(connection_id) {
            return Err(Error::UnknownConnection);
        }
        let Some(connection) = self.connections.get_mut(connection_id) else {
            return Err(Error::UnknownConnection);
        };
        let datagram = proto::dgram_recv(&mut connection.inner);
        proof {
            lemma_inner_is_covered(old(self)@, connection_id.key, self@);
        }
        Ok(datagram)
    }

    /// Writes a single datagram into `&mut out`,
    /// returning the size of the datagram, zero if there is none.
    pub fn dgram_recv(&mut self, connection_id: QuinnConnectionId, out: &mut [u8]) -> (r: Result<
        usize,
        Error,
    >)
        requires
            old(self).wf(),
        ensures
            final(self).wf(),
            final(self)@.is_usable(connection_id) == old(self)@.is_usable(connection_id),
            ({
                let m = old(self)@;
                let key = connection_id.key;
                let refused = m.refused(connection_id, false, false);
                let (datagram, received) = proto::dgram_received(m.inner(key));
                if refused is Some {
                    &&& r == Err::<usize, Error>(refused->0)
                    &&& final(self)@ == m
                    &&& final(out)@ == old(out)@
                } else {
                    &&& is_datagram_taken(datagram, old(out)@, r, final(out)@)
                    &&& final(self)@ == m.with_inner(key, received)
                }
            }),
    {
        match self.dgram_recv_zc(connection_id) {
            Ok(datagram) => {
                let r = take_datagram(out, datagram);
                r
            },
            Err(error) => Err(error),
        }
    }

    /// Sends a datagram.
    ///
    /// Returns `None` on success, or the original datagram if internal buffers are full.
    pub fn dgram_send(&mut self, connection_id: QuinnConnectionId, bytes: Bytes) -> (r: Result<
        Option<Bytes>,
        Error,
    >)
        requires
            old(self).wf(),
        ensures
            final(self).wf(),
            final(self)@.is_usable(connection_id) == old(self)@.is_usable(connection_id),
            ({
                let m = old(self)@;
                let key = connection_id.key;
                let refused = m.refused(connection_id, false, false);
                let (queued, sent) = proto::dgram_queued(m.inner(key), data::content(bytes));
                if refused is Some {
                    r == Err::<Option<Bytes>, Error>(refused->0) && final(self)@ == m
                } else {
                    &&& unsent(r) == match queued {
                        Queued::Sent => Ok::<Option<Seq<u8>>, Error>(None),
                        Queued::UnsupportedByPeer => Err(Error::DgramDisabled),
                        Queued::Disabled => Err(Error::DgramDisabled),
                        Queued::TooLarge => Err(Error::BufferSize),
                        Queued::Blocked => Ok(Some(data::content(bytes))),
                    }
                    &&& final(self)@ == m.marked(key).with_inner(key, sent)
                }
            }),
    {
        let is_open = self.is_connection_open(connection_id);
        if let Some(error) = self.enter(connection_id, is_open, false, false) {
            return Err(error);
        }
        let ghost entered = self@;
        let Some(connection) = self.connections.get_mut(connection_id) else {
            return Err(Error::UnknownConnection);
        };
        let sent = proto::dgram_send(&mut connection.inner, bytes);
        proof {
            lemma_inner_is_covered(entered, connection_id.key, self@);
        }
        after_dgram_send(sent)
    }

    /// Returns a maximum size of a single outgoing datagram, or `zero` if it's disabled.
    pub fn dgram_send_max_size(&mut self, connection_id: QuinnConnectionId) -> (r: Result<
        usize,
        Error,
    >)
        requires
            old(self).wf(),
        ensures
            final(self).wf(),
            final(self)@ == old(self)@,
            r == match old(self)@.refused(connection_id, false, false) {
                Some(error) => Err::<usize, Error>(error),
                None => Ok(
                    match proto::max_dgram(old(self)@.inner(connection_id.key)) {
                        Some(size) => size,
                        None => 0,
                    },
                ),
            },
    {
        if !self.open {
            return Err(Error::Closed);
        }
        if !self.is_connection_open(connection_id) {
            return Err(Error::UnknownConnection);
        }
        let Some(connection) = self.connections.get_mut(connection_id) else {
            return Err(Error::UnknownConnection);
        };
        let max_size: Option<usize> = proto::dgram_max_size(&mut connection.inner);
        assert(self@.connections.all =~= old(self)@.connections.all);
        match max_size {
            Some(size) => Ok(size),
            None => Ok(0),
        }
    }
}

/// A datagram was written, if it fits.
pub open spec fn is_datagram_taken(
    datagram: Option<Seq<u8>>,
    before: Seq<u8>,
    r: Result<usize, Error>,
    after: Seq<u8>,
) -> bool {
    match datagram {
        None => r == Ok::<usize, Error>(0) && after == before,
        Some(bytes) => if bytes.len() > before.len() {
            r == Err::<usize, Error>(Error::BufferSize) && after == before
        } else {
            &&& r == Ok::<usize, Error>(bytes.len() as usize)
            &&& after == octets::overwritten(before, 0, bytes)
        },
    }
}

/// Data was sent on a stream, unless the application is refused.
/// What was not sent, if there is any, is the end of the data.
pub open spec fn is_stream_sent(
    m: BackendModel,
    id: QuinnConnectionId,
    stream_id: StreamId,
    bytes: Seq<u8>,
    fin: bool,
    r: Result<Option<Bytes>, Error>,
    after: BackendModel,
) -> bool {
    let key = id.key;
    let raw = stream_id@ as u64;
    let refused = m.refused(id, is_server_uni(stream_id), false);
    let (result, inner) = sent(m.inner(key), raw, bytes, fin);
    if refused is Some {
        r == Err::<Option<Bytes>, Error>(refused->0) && after == m
    } else if !proto::is_sent(m.inner(key), raw) {
        r == Err::<Option<Bytes>, Error>(Error::Illegal) && after == m.marked(key)
    } else {
        &&& unsent(r) == result
        &&& after == m.marked(key).with_inner(key, inner)
        &&& r matches Ok(Some(rest)) ==> is_rest(bytes, data::content(rest))
        &&& proto::is_same_state(m.inner(key), inner)
    }
}

/// Takes a datagram, and writes it into `&mut out`.
///
/// Returns its length, zero if there is none.
pub fn take_datagram(out: &mut [u8], datagram: Option<Bytes>) -> (r: Result<usize, Error>)
    ensures
        is_datagram_taken(data::optional(datagram), old(out)@, r, final(out)@),
{
    let Some(datagram) = datagram else {
        return Ok(0);
    };
    let length: usize = data::len(&datagram);
    if length > out.len() {
        return Err(Error::BufferSize);
    }
    octets::copy_into_slice(out, 0, data::as_slice(&datagram));
    Ok(length)
}

/// Returns what an application gets that sends a datagram.
pub fn after_dgram_send(sent: Result<(), DatagramFailure>) -> (r: Result<Option<Bytes>, Error>)
    ensures
        r == match sent {
            Ok(_) => Ok::<Option<Bytes>, Error>(None),
            Err(DatagramFailure::UnsupportedByPeer) => Err::<Option<Bytes>, Error>(
                Error::DgramDisabled,
            ),
            Err(DatagramFailure::Disabled) => Err::<Option<Bytes>, Error>(Error::DgramDisabled),
            Err(DatagramFailure::TooLarge) => Err::<Option<Bytes>, Error>(Error::BufferSize),
            Err(DatagramFailure::Blocked(bytes)) => Ok::<Option<Bytes>, Error>(Some(bytes)),
        },
{
    match sent {
        Ok(_) => Ok(None),
        Err(DatagramFailure::UnsupportedByPeer) => Err(Error::DgramDisabled),
        Err(DatagramFailure::Disabled) => Err(Error::DgramDisabled),
        Err(DatagramFailure::TooLarge) => Err(Error::BufferSize),
        Err(DatagramFailure::Blocked(bytes)) => Ok(Some(bytes)),
    }
}

/// The endpoint knows all connections that are present, whatever `quinn-proto` knows of one.
proof fn lemma_inner_is_covered(m: BackendModel, key: usize, after: BackendModel)
    requires
        m.is_covered(),
        m.connections.all.contains_key(key),
        after.connections.all.dom() =~= m.connections.all.dom(),
        after.keys() == m.keys(),
    ensures
        after.is_covered(),
{
    assert forall|key: usize| #[trigger]
        after.connections.all.contains_key(key) implies after.keys().contains(key) by {
        assert(after.connections.all.dom().contains(key));
        assert(m.connections.all.contains_key(key));
    }
}

/// To forget a connection changes nothing else.
proof fn lemma_forgotten_touches_only(
    m: BackendModel,
    id: QuinnConnectionId,
    after: BackendModel,
)
    requires
        m.is_forgotten(id, after),
        m.has(id) ==> m.context(id.key).spec_id(id.key) == id,
    ensures
        m.touches_only(id, after),
        after.keys() == m.keys(),
{
    assert(after.connections.all.remove(id.key) =~= m.connections.all.remove(id.key));
}

/// The endpoint knows all connections that are present, if it knew them before,
/// and knows only a connection no more that is not present.
proof fn lemma_stays_covered(m: BackendModel, after: BackendModel, id: QuinnConnectionId)
    requires
        m.is_covered(),
        m.touches_only(id, after),
        after.keys() == m.keys() || (after.keys() == m.keys().remove(id.key)
            && !after.connections.all.contains_key(id.key)),
    ensures
        after.is_covered(),
{
    assert forall|key: usize| #[trigger]
        after.connections.all.contains_key(key) implies after.keys().contains(key) by {
        if key != id.key {
            assert(after.connections.all.remove(id.key).contains_key(key));
            assert(m.connections.all.remove(id.key).contains_key(key));
            assert(m.connections.all.contains_key(key));
        } else {
            assert(m.connections.all.contains_key(key));
        }
    }
}

/// What touches only one connection, twice, touches only this connection.
proof fn lemma_touches_only_twice(
    a: BackendModel,
    b: BackendModel,
    c: BackendModel,
    id: QuinnConnectionId,
)
    requires
        a.touches_only(id, b),
        b.touches_only(id, c),
    ensures
        a.touches_only(id, c),
{
    queue::law_marking_twice_is_marking_once(a.connections.active, id.key as u64);
    assert forall|i: int| a.events.len() <= i < c.events.len() implies event_id(
        #[trigger] c.events[i],
    ) == id by {
        if i < b.events.len() {
            assert(c.events[i] == b.events[i]);
        }
    }
}

/// It is told once that a connection is lost: neither that it is lost again nor that it is
/// forgotten then is told.
pub proof fn law_lost_connection_is_told_once(
    m: BackendModel,
    id: QuinnConnectionId,
    lost: Lost,
    told: BackendModel,
    later_lost: Lost,
    later: BackendModel,
    forgotten: BackendModel,
)
    requires
        m.has(id),
        !(lost is LocallyClosed),
        m.is_told_lost(id, lost, told),
        told.is_told_lost(id, later_lost, later),
        told.is_forgotten(id, forgotten),
    ensures
        told.events.len() <= m.events.len() + 1,
        later.events == told.events,
        forgotten.events == told.events,
        !forgotten.has(id),
{
}

/// A connection that the application has closed is told to be closed by it,
/// and not to be lost or forgotten then.
pub proof fn law_closed_connection_is_told_once(
    m: BackendModel,
    id: QuinnConnectionId,
    err: u64,
    reason: Bytes,
    closed: BackendModel,
    lost: Lost,
    later: BackendModel,
    forgotten: BackendModel,
)
    requires
        m.has(id),
        is_closed_here(m, id, err, reason, closed),
        closed.is_told_lost(id, lost, later),
        closed.is_forgotten(id, forgotten),
    ensures
        closed.events.len() <= m.events.len() + 1,
        later.events == closed.events,
        forgotten.events == closed.events,
{
}

/// A connection has one timeout at most: the one before is cancelled when another is scheduled,
/// and the last one when the connection is forgotten.
pub proof fn law_timeout_is_replaced(
    m: BackendModel,
    id: QuinnConnectionId,
    first: Instant,
    once: BackendModel,
    second: Instant,
    twice: BackendModel,
    key: DeadlineKey,
)
    requires
        m.has(id),
        m.is_scheduled(id, Some(first), once),
        once.is_scheduled(id, Some(second), twice),
        once.context(id.key).timer_quinn_timeout_key == Some(key),
        twice.context(id.key).timer_quinn_timeout_key != Some(key),
    ensures
        !deadline::holds_key(twice.scheduled, key),
{
    deadline::law_cancelled_event_is_gone(once.scheduled, key);
    let rest = deadline::cancelled(once.scheduled, key);
    assert forall|i: int| 0 <= i < twice.scheduled.len() implies (
    #[trigger] twice.scheduled[i]).key != key by {
        if i < rest.len() {
            assert(twice.scheduled[i] == rest[i]);
        }
    }
}

/// An event stays scheduled if another one is cancelled.
proof fn lemma_cancel_keeps(
    entries: Seq<Scheduled<TimerEvent>>,
    key: DeadlineKey,
    entry: Scheduled<TimerEvent>,
)
    requires
        entry.key != key,
        entries.contains(entry),
    ensures
        deadline::cancelled(entries, key).contains(entry),
    decreases entries.len(),
{
    let init = entries.drop_last();
    let rest = deadline::cancelled(init, key);
    if entries.last() == entry {
        assert(rest.push(entry).last() == entry);
    } else {
        let i = choose|i: int| 0 <= i < entries.len() && entries[i] == entry;
        assert(init[i] == entry);
        lemma_cancel_keeps(init, key, entry);
        if entries.last().key != key {
            let k = choose|k: int| 0 <= k < rest.len() && rest[k] == entry;
            assert(rest.push(entries.last())[k] == entry);
        }
    }
}

/// A timeout that is scheduled comes at its time, for its connection, in place of the one before.
/// Other timeouts stay, and nothing else changes. Without a timeout, nothing changes at all.
pub proof fn law_timeout_comes_at_its_time(
    m: BackendModel,
    id: QuinnConnectionId,
    at: Instant,
    after: BackendModel,
    entry: Scheduled<TimerEvent>,
    other: usize,
)
    requires
        m.has(id),
        other != id.key,
        m.is_scheduled(id, Some(at), after),
    ensures
        after.scheduled.len() > 0,
        after.scheduled.last().at == at,
        after.scheduled.last().event == TimerEvent(id),
        after.connections.all[id.key].context.timer_quinn_timeout_key == Some(
            after.scheduled.last().key,
        ),
        m.connections.all[id.key].context.timer_quinn_timeout_key matches Some(previous)
            ==> !deadline::holds_key(after.scheduled.drop_last(), previous),
        m.connections.all[id.key].context.timer_quinn_timeout_key is None
            ==> after.scheduled.drop_last() == m.scheduled,
        m.scheduled.contains(entry)
            && m.connections.all[id.key].context.timer_quinn_timeout_key != Some(entry.key)
            ==> after.scheduled.contains(entry),
        after.connections.all.contains_key(other) == m.connections.all.contains_key(other),
        after.connections.all[other] == m.connections.all[other],
        after.connections.all.contains_key(id.key),
        after.connections.all[id.key].inner == m.connections.all[id.key].inner,
        after.connections.active == m.connections.active,
        after.events == m.events,
        after.fired == m.fired,
        after.endpoint == m.endpoint,
        after.io == m.io,
        after.open == m.open,
        forall|unchanged: BackendModel| #[trigger]
            m.is_scheduled(id, None, unchanged) ==> unchanged == m,
{
    let previous = m.context(id.key).timer_quinn_timeout_key;
    let rest = Time::<TimerEvent>::without_previous(m.scheduled, previous);
    assert(after.scheduled.drop_last() =~= rest);
    if let Some(key) = previous {
        deadline::law_cancelled_event_is_gone(m.scheduled, key);
        if m.scheduled.contains(entry) && entry.key != key {
            lemma_cancel_keeps(m.scheduled, key, entry);
        }
    }
    if rest.contains(entry) {
        let k = choose|k: int| 0 <= k < rest.len() && rest[k] == entry;
        assert(after.scheduled[k] == entry);
    }
}

/// A connection that is forgotten does not time out, and cannot be reached. It is told once that
/// it is no more. Other connections and their timeouts stay.
pub proof fn law_forgotten_connection_does_not_time_out(
    m: BackendModel,
    id: QuinnConnectionId,
    after: BackendModel,
    entry: Scheduled<TimerEvent>,
    other: usize,
)
    requires
        m.has(id),
        other != id.key,
        m.is_forgotten(id, after),
    ensures
        !after.connections.all.contains_key(id.key),
        !after.connections.active.contains(id.key as u64),
        m.connections.all[id.key].context.timer_quinn_timeout_key matches Some(previous)
            ==> !deadline::holds_key(after.scheduled, previous),
        m.scheduled.contains(entry)
            && m.connections.all[id.key].context.timer_quinn_timeout_key != Some(entry.key)
            ==> after.scheduled.contains(entry),
        after.connections.all.contains_key(other) == m.connections.all.contains_key(other),
        after.connections.all[other] == m.connections.all[other],
        after.connections.active.contains(other as u64) == m.connections.active.contains(
            other as u64,
        ),
        m.connections.all[id.key].context.closed_event_sent ==> after.events == m.events,
        !m.connections.all[id.key].context.closed_event_sent ==> {
            &&& after.events.len() == m.events.len() + 1
            &&& after.events.drop_last() == m.events
            &&& after.events.last() matches Event::Connection(
                ConnectionEvent::Halted { connection_id, kind: HaltKind::Error(text) },
            )
            &&& connection_id.key == id.key
            &&& connection_id.version == id.version
            &&& connection_id.trace == m.connections.all[id.key].context.trace
            &&& data::content(text) == "close event should've been already produced".spec_bytes()
        },
        after.io == m.io,
        after.endpoint == m.endpoint,
        after.open == m.open,
{
    queue::lemma_filter_contains(m.connections.active, id.key as u64, id.key as u64);
    queue::lemma_filter_contains(m.connections.active, id.key as u64, other as u64);
    if let Some(key) = m.context(id.key).timer_quinn_timeout_key {
        deadline::law_cancelled_event_is_gone(m.scheduled, key);
        if m.scheduled.contains(entry) && entry.key != key {
            lemma_cancel_keeps(m.scheduled, key, entry);
        }
    }
    if !m.context(id.key).closed_event_sent {
        assert(m.events.push(after.events.last()).drop_last() =~= m.events);
    }
}

/// That a connection is lost is told by its own ID, unless the application has closed it itself.
/// The connection waits to be polled, and is otherwise as it was.
pub proof fn law_loss_is_told(
    m: BackendModel,
    id: QuinnConnectionId,
    lost: Lost,
    after: BackendModel,
)
    requires
        m.has(id),
        m.is_told_lost(id, lost, after),
    ensures
        after.connections.active.contains(id.key as u64),
        m.connections.active.is_prefix_of(after.connections.active),
        after.connections.all[id.key].inner == m.connections.all[id.key].inner,
        after.has(id),
        lost is LocallyClosed ==> after.events == m.events && after.connections.all
            == m.connections.all,
        !(lost is LocallyClosed) ==> after.connections.all[id.key].context.closed_event_sent,
        m.connections.all[id.key].context.closed_event_sent ==> after.events == m.events,
        !(lost is LocallyClosed) && !m.connections.all[id.key].context.closed_event_sent ==> {
            &&& after.events.len() == m.events.len() + 1
            &&& after.events.drop_last() == m.events
            &&& after.events.last() matches Event::Connection(event)
            &&& connection::is_lost_event(
                event,
                QuinnConnectionId {
                    key: id.key,
                    trace: m.connections.all[id.key].context.trace,
                    version: id.version,
                },
                lost,
            )
        },
        after.scheduled == m.scheduled,
        after.io == m.io,
        after.endpoint == m.endpoint,
{
    queue::law_marking_twice_is_marking_once(m.connections.active, id.key as u64);
    queue::law_queue_is_fair(m.connections.active, id.key as u64);
    if !(lost is LocallyClosed) && !m.context(id.key).closed_event_sent {
        assert(m.events.push(after.events.last()).drop_last() =~= m.events);
    }
}

/// A lost connection is forgotten if and only if it is drained.
pub proof fn law_drained_connection_is_forgotten(
    m: BackendModel,
    id: QuinnConnectionId,
    error: quinn_proto::ConnectionError,
    after: BackendModel,
)
    requires
        m.has(id),
        m.is_loss_handled(id, error, after),
    ensures
        after.connections.all.contains_key(id.key) <==> !proto::drained(
            m.connections.all[id.key].inner,
        ),
        m.events.is_prefix_of(after.events),
        after.events.len() <= m.events.len() + 1,
{
    let told = choose|told: BackendModel|
        #[trigger] m.is_told_lost(id, proto::lost_of(error), told) && if told.has(id)
            && proto::drained(told.inner(id.key)) {
            told.is_forgotten(id, after)
        } else {
            after == told
        };
    law_loss_is_told(m, id, proto::lost_of(error), told);
}

/// A new connection is told with the side that it is on, is found by its ID, waits to be polled,
/// and times out when it has to. Other connections and their timeouts stay.
pub proof fn law_registered_connection_is_told_and_timed(
    m: BackendModel,
    id: QuinnConnectionId,
    after: BackendModel,
    other: usize,
)
    requires
        other != id.key,
        m.is_registered(id, after),
    ensures
        after.events.len() == m.events.len() + 1,
        after.events.drop_last() == m.events,
        after.events.last() == Event::Connection(
            ConnectionEvent::New {
                connection_id: id,
                is_server: proto::is_server_side(after.connections.all[id.key].inner),
            },
        ),
        after.has(id),
        after.connections.all[id.key].context.trace == id.trace,
        !after.connections.all[id.key].context.closed_event_sent,
        after.connections.active.contains(id.key as u64),
        after.connections.all.contains_key(other) == m.connections.all.contains_key(other),
        after.connections.all[other] == m.connections.all[other],
        proto::next_timeout(after.connections.all[id.key].inner) is None ==> after.scheduled
            == m.scheduled,
        proto::next_timeout(after.connections.all[id.key].inner) matches Some(at) ==> {
            &&& after.scheduled == m.scheduled.push(after.scheduled.last())
            &&& after.scheduled.last().at.nanos == proto::nanos_between(m.origin, at)
            &&& after.scheduled.last().event == TimerEvent(id)
        },
        after.io == m.io,
        after.open == m.open,
{
    let inner = after.inner(id.key);
    let inserted = BackendModel {
        connections: m.connections.inserted(id.key, id.trace, inner),
        ..m
    };
    let quiet = after.with_events(m.events);
    connections::law_other_connections_stay(m.connections, id.key, id.trace, inner, other);
    queue::law_marking_twice_is_marking_once(
        m.connections.removed(id.key).active,
        id.key as u64,
    );
    assert(after.events.drop_last() =~= m.events);
    assert(inserted.has(id));
    assert(inserted.connections.all[id.key].inner == inner);
    assert(quiet.scheduled == after.scheduled);
    assert(quiet.connections == after.connections);
    if let Some(at) = inserted.timeout(id.key) {
        law_timeout_comes_at_its_time(
            inserted,
            id,
            at,
            quiet,
            after.scheduled.last(),
            other,
        );
        assert(after.scheduled =~= m.scheduled.push(after.scheduled.last()));
    }
}

/// What happens to a connection is told, by one event and the ID of the connection: that it is
/// established, that datagrams have come, or that datagrams can be sent again.
pub proof fn law_what_happens_is_told(
    m: BackendModel,
    id: QuinnConnectionId,
    event: Polled,
    after: BackendModel,
)
    requires
        m.is_handled(id, event, after),
        !(event is Lost),
        !(event is Stream),
    ensures
        event is HandshakeDataReady ==> after == m,
        !(event is HandshakeDataReady) ==> {
            &&& after.events.len() == m.events.len() + 1
            &&& after.events.drop_last() == m.events
            &&& after.connections == m.connections
            &&& after.scheduled == m.scheduled
            &&& after.endpoint == m.endpoint
        },
        event is Connected ==> after.events.last() == Event::Connection(
            ConnectionEvent::Established(id),
        ),
        event is DatagramReceived ==> after.events.last() == Event::Datagram(
            DatagramEvent::InAvailable(id),
        ),
        event is DatagramsUnblocked ==> after.events.last() == Event::Datagram(
            DatagramEvent::OutAvailable(id),
        ),
{
    if !(event is HandshakeDataReady) {
        assert(m.events.push(after.events.last()).drop_last() =~= m.events);
    }
}

/// A stream that the peer has opened is accepted, no other one is. What has happened to a stream
/// is told, and the connection waits to be polled.
pub proof fn law_stream_is_accepted_and_told(
    m: BackendModel,
    id: QuinnConnectionId,
    event: QuinnStreamEvent,
    other: usize,
)
    requires
        m.has(id),
        other != id.key,
    ensures
        ({
            let after = m.stream_changed(id, event);
            let inner = m.connections.all[id.key].inner;
            let change = proto::change_of(event);
            &&& after.connections.active.contains(id.key as u64)
            &&& after.connections.all[other] == m.connections.all[other]
            &&& after.connections.all[id.key].context == m.connections.all[id.key].context
            &&& after.scheduled == m.scheduled
            &&& after.endpoint == m.endpoint
            &&& change matches StreamChange::Opened(bidirectional) ==> {
                let accepted = proto::stream_accepted(inner, bidirectional);
                &&& after.connections.all[id.key].inner == accepted.1
                &&& after.events == match connection::stream_event_of(id, change, accepted.0) {
                    Some(told) => m.events.push(told),
                    None => m.events,
                }
            }
            &&& !(change is Opened) ==> {
                &&& after.connections.all[id.key].inner == inner
                &&& after.events == match connection::stream_event_of(id, change, None) {
                    Some(told) => m.events.push(told),
                    None => m.events,
                }
            }
        }),
{
    queue::law_marking_twice_is_marking_once(m.connections.active, id.key as u64);
}

/// A connection whose events were handled is forgotten if and only if it is needed no more.
/// Otherwise, it times out when it has to, and the size of its datagrams is the one that
/// was told last.
pub proof fn law_settled_connection_is_timed(
    m: BackendModel,
    id: QuinnConnectionId,
    is_last_told: bool,
    after: BackendModel,
)
    requires
        m.has(id),
        m.is_settled(id, is_last_told, after),
    ensures
        ({
            let inner = m.connections.all[id.key].inner;
            let is_needed = !is_last_told && !proto::drained(inner);
            let size = match proto::max_dgram(inner) {
                None => 0int,
                Some(size) => if size <= 0xffff {
                    size as int
                } else {
                    0xffff
                },
            };
            &&& after.connections.all.contains_key(id.key) <==> is_needed
            &&& is_needed ==> {
                &&& after.connections.all[id.key].context.dgram_out_max_size == size
                &&& after.connections.all[id.key].inner == inner
                &&& m.connections.all[id.key].context.dgram_out_max_size == size ==> after.events
                    == m.events
                &&& m.connections.all[id.key].context.dgram_out_max_size != size ==> {
                    &&& after.events == m.events.push(after.events.last())
                    &&& after.events.last() matches Event::Datagram(
                        DatagramEvent::OutNewSize(told_id, told),
                    )
                    &&& told == size
                    &&& told_id.key == id.key
                    &&& told_id.version == id.version
                    &&& told_id.trace == m.connections.all[id.key].context.trace
                }
                &&& proto::next_timeout(inner) is None ==> after.scheduled == m.scheduled
                &&& proto::next_timeout(inner) matches Some(at) ==> {
                    &&& after.scheduled.len() > 0
                    &&& after.scheduled.last().at.nanos == proto::nanos_between(m.origin, at)
                    &&& after.scheduled.last().event == TimerEvent(id)
                }
            }
        }),
{
    let inner = m.inner(id.key);
    if !(is_last_told || proto::drained(inner)) {
        let sized = m.sized(id.key);
        let max_size = proto::max_dgram(inner);
        connection::law_datagram_size_is_told_once(m.context(id.key), id.key, max_size);
        assert(sized.has(id));
        assert(sized.inner(id.key) == inner);
        let other: usize = if id.key == 0 {
            1
        } else {
            0
        };
        if let Some(at) = m.timeout(id.key) {
            law_timeout_comes_at_its_time(sized, id, at, after, after.scheduled.last(), other);
        }
    }
}

/// A connection and its endpoint tell each other in turns: what the endpoint has for the
/// connection is taken before the connection tells more, and nothing is told after the last event.
pub proof fn law_events_are_exchanged_in_turns(
    exchange: Exchange,
    key: usize,
    after: Exchange,
)
    requires
        exchange.is_step(key, after),
    ensures
        !exchange.is_telling ==> {
            &&& after.is_telling
            &&& after.next_event is None
            &&& after.endpoint == exchange.endpoint
            &&& exchange.next_event matches Some(event) && proto::may_take(
                exchange.inner,
                event,
                after.inner,
            )
        },
        exchange.is_telling && exchange.is_last_told ==> {
            &&& !after.is_telling
            &&& after.inner == exchange.inner
            &&& after.endpoint == exchange.endpoint
            &&& after.next_event == exchange.next_event
        },
        exchange.is_telling && !exchange.is_last_told ==> {
            let told = proto::endpoint_event_polled(exchange.inner);
            &&& after.inner == told.1
            &&& after.is_telling <==> told.0 is Some
            &&& told.0 is None ==> after.endpoint == exchange.endpoint && after.next_event
                == exchange.next_event && !after.is_last_told
            &&& told.0 matches Some(event) ==> {
                &&& after.is_last_told == proto::is_last_event(event)
                &&& exists|reply: Option<QuinnConnectionEvent>|
                    {
                        &&& #[trigger] proto::may_reply(
                            exchange.endpoint,
                            key,
                            event,
                            reply,
                            after.endpoint,
                        )
                        &&& reply is Some ==> after.next_event == reply
                        &&& reply is None ==> after.next_event == exchange.next_event
                    }
            }
        },
{
}

/// All events are exchanged: neither side has anything left, unless there is no end of it.
pub proof fn law_exchange_is_complete(exchange: Exchange, key: usize, after: Exchange)
    requires
        exchange.is_exchanged(key, after),
    ensures
        (!after.is_telling && after.next_event is None) || exists|steps: Seq<Exchange>|
            #[trigger] are_exchanges(steps, key) && steps.last() == after && steps[0] == exchange
                && steps.len() > 0xFFFF_FFFF_FFFF_FFFFu64,
{
}

/// A new connection is given a key that was free, and is told with the side that was asked for.
pub proof fn law_accepted_connection_is_new(
    m: BackendModel,
    is_server: bool,
    id: QuinnConnectionId,
    after: BackendModel,
)
    requires
        m.is_covered(),
        m.is_accepted(is_server, id, after),
    ensures
        !m.connections.all.contains_key(id.key),
        forall|key: usize|
            m.connections.all.contains_key(key) ==> #[trigger] after.connections.all.contains_key(
                key,
            ) && after.connections.all[key] == m.connections.all[key],
        after.events.last() == Event::Connection(
            ConnectionEvent::New { connection_id: id, is_server },
        ),
        after.events.drop_last() == m.events,
        after.connections.all[id.key].context.version == id.version,
{
    let quiet = m.with_endpoint(after.endpoint);
    if m.connections.all.contains_key(id.key) {
        assert(m.keys().contains(id.key));
    }
    let any: usize = if id.key == 0 {
        1
    } else {
        0
    };
    law_registered_connection_is_told_and_timed(quiet, id, after, any);
    assert forall|key: usize|
        m.connections.all.contains_key(key) implies #[trigger] after.connections.all.contains_key(
        key,
    ) && after.connections.all[key] == m.connections.all[key] by {
        law_registered_connection_is_told_and_timed(quiet, id, after, key);
    }
}

/// A connection attempt that has failed leaves no connection behind, and is not told.
/// One that has succeeded is told as a client connection.
pub proof fn law_connection_attempt_is_told(
    m: BackendModel,
    connected: Result<(usize, QuinnConnection), Seq<char>>,
    r: Result<QuinnConnectionId, Error>,
    after: BackendModel,
)
    requires
        m.is_covered(),
        m.is_connected(connected, r, after),
    ensures
        r is Ok <==> connected is Ok,
        connected matches Err(message) ==> {
            &&& r matches Err(Error::Other(text)) && text@ == message
            &&& after.connections == m.connections
            &&& after.events == m.events
            &&& after.scheduled == m.scheduled
        },
        r matches Ok(id) ==> {
            &&& after.connections.all.contains_key(id.key)
            &&& !m.connections.all.contains_key(id.key)
            &&& after.events.last() == Event::Connection(
                ConnectionEvent::New { connection_id: id, is_server: false },
            )
            &&& connected matches Ok((key, inner)) && id.key == key
                && after.connections.all[id.key].inner == inner
        },
{
    if let Ok(id) = r {
        law_accepted_connection_is_new(m, false, id, after);
        let any: usize = if id.key == 0 {
            1
        } else {
            0
        };
        law_registered_connection_is_told_and_timed(m.with_endpoint(after.endpoint), id, after, any);
    }
}

/// A peer is accepted only if the backend serves as a server and the peer's address is validated.
/// Otherwise, there is no new connection, and nothing is told.
pub proof fn law_only_validated_peers_are_accepted(
    m: BackendModel,
    messages: Seq<SendMsg<VecBuf>>,
    incoming: QuinnIncoming,
    is_reserved: bool,
    after: BackendModel,
    answered: Seq<SendMsg<VecBuf>>,
)
    requires
        m.is_attempt_handled(messages, incoming, is_reserved, after, answered),
        m.server is None || !proto::is_address_validated(incoming),
    ensures
        after.connections == m.connections,
        after.events == m.events,
        after.scheduled == m.scheduled,
        m.server is None ==> answered == messages && after.io == m.io.given_back(is_reserved)
            && after.endpoint == proto::after_ignore(m.endpoint, incoming),
        messages.is_prefix_of(answered),
        answered.len() == messages.len() ==> after.io == m.io.given_back(is_reserved),
        answered.len() != messages.len() ==> after.io == m.io,
{
    if m.server is Some {
        let (retried, packet, endpoint) = choose|
            retried: Result<quinn_proto::Transmit, QuinnIncoming>,
            packet: Seq<u8>,
            endpoint: quinn_proto::Endpoint,
        |
            #[trigger] proto::may_retry(m.endpoint, incoming, retried, packet, endpoint)
                && match retried {
                Ok(response) => m.with_endpoint(endpoint).is_responded(
                    response,
                    packet,
                    is_reserved,
                    messages,
                    after,
                    answered,
                ),
                Err(incoming) => after == m.ignored(endpoint, incoming, is_reserved) && answered
                    == messages,
            };
        if let Ok(response) = retried {
            io::law_response_is_sent_or_lost(
                m.io,
                proto::described(response),
                packet,
                is_reserved,
                messages,
                after.io,
                answered,
            );
        }
    }
}

/// A peer whose address is validated is accepted as a connection of a server, by a key that was
/// free, or answered, or refused without an answer. Its buffer is given back unless it is answered.
pub proof fn law_validated_peer_is_accepted_or_answered(
    m: BackendModel,
    messages: Seq<SendMsg<VecBuf>>,
    incoming: QuinnIncoming,
    is_reserved: bool,
    after: BackendModel,
    answered: Seq<SendMsg<VecBuf>>,
)
    requires
        m.is_covered(),
        m.server is Some,
        proto::is_address_validated(incoming),
        m.is_attempt_handled(messages, incoming, is_reserved, after, answered),
    ensures
        after.connections == m.connections ==> after.events == m.events && after.scheduled
            == m.scheduled,
        after.connections != m.connections ==> {
            &&& answered == messages
            &&& after.io == m.io.given_back(is_reserved)
            &&& after.events.len() == m.events.len() + 1
            &&& after.events.drop_last() == m.events
            &&& after.events.last() matches Event::Connection(
                ConnectionEvent::New { connection_id, is_server },
            )
            &&& is_server
            &&& after.connections.all.contains_key(connection_id.key)
            &&& !m.connections.all.contains_key(connection_id.key)
        },
        messages.is_prefix_of(answered),
{
    let given_back = m.with_io(m.io.given_back(is_reserved));
    let (accepted, packet) = choose|
        accepted: Result<(usize, QuinnConnection), Option<quinn_proto::Transmit>>,
        packet: Seq<u8>,
    |
        #[trigger] proto::may_accept(
            m.endpoint,
            incoming,
            m.clock,
            m.server->0,
            accepted,
            packet,
            after.endpoint,
        ) && match accepted {
            Ok((key, inner)) => {
                &&& answered == messages
                &&& after.inner(key) == inner
                &&& exists|id: QuinnConnectionId|
                    id.key == key && #[trigger] given_back.is_accepted(true, id, after)
            },
            Err(Some(response)) => m.with_endpoint(after.endpoint).is_responded(
                response,
                packet,
                is_reserved,
                messages,
                after,
                answered,
            ),
            Err(None) => after == given_back.with_endpoint(after.endpoint) && answered == messages,
        };
    match accepted {
        Ok((key, inner)) => {
            let id = choose|id: QuinnConnectionId|
                id.key == key && #[trigger] given_back.is_accepted(true, id, after);
            assert(given_back.is_covered());
            law_accepted_connection_is_new(given_back, true, id, after);
            let any: usize = if key == 0 {
                1
            } else {
                0
            };
            law_registered_connection_is_told_and_timed(
                given_back.with_endpoint(after.endpoint),
                id,
                after,
                any,
            );
        },
        Err(Some(response)) => {
            io::law_response_is_sent_or_lost(
                m.io,
                proto::described(response),
                packet,
                is_reserved,
                messages,
                after.io,
                answered,
            );
        },
        Err(None) => {},
    }
}

/// All events of a connection are handled: there is none left afterwards, or the connection
/// is forgotten.
pub proof fn law_all_events_are_handled(m: BackendModel, id: QuinnConnectionId, after: BackendModel)
    requires
        m.is_polled(id, after),
    ensures
        exists|steps: Seq<BackendModel>|
            {
                &&& #[trigger] are_polls(steps, id)
                &&& steps[0] == m
                &&& steps.len() <= 0xFFFF_FFFF_FFFF_FFFFu64 ==> {
                    let last = steps.last();
                    let polled = proto::polled(last.connections.all[id.key].inner);
                    &&& after.events == last.events
                    &&& after.scheduled == last.scheduled
                    &&& after.connections.active == last.connections.active
                    &&& last.has(id) ==> polled.0 is None && after.connections.all[id.key].inner
                        == polled.1
                    &&& !last.has(id) ==> after == last
                }
            },
{
    let steps = choose|steps: Seq<BackendModel>|
        #[trigger] are_polls(steps, id) && steps[0] == m && if steps.len() <= POLL_BUDGET {
            steps.last().is_polled_out(id, after)
        } else {
            after == steps.last()
        };
    assert(are_polls(steps, id));
}

/// A timeout that comes is handled by its connection, at the current time, and the connection
/// waits to be polled. Other connections are left alone, and a timeout of a connection that
/// is no more is dropped.
pub proof fn law_timeout_is_handled(
    m: ConnectionsModel,
    event: TimerEvent,
    clock: StdInstant,
    after: ConnectionsModel,
    other: usize,
)
    requires
        is_timed(m, event, clock, after),
        other != event.0.key,
    ensures
        !m.has(event.0) ==> after == m,
        m.has(event.0) ==> {
            &&& after.active.contains(event.0.key as u64)
            &&& proto::may_time_out(
                m.all[event.0.key].inner,
                clock,
                after.all[event.0.key].inner,
            )
            &&& after.all[event.0.key].context == m.all[event.0.key].context
        },
        m.active.is_prefix_of(after.active),
        after.all.contains_key(other) == m.all.contains_key(other),
        after.all[other] == m.all[other],
        after.all.contains_key(event.0.key) == m.all.contains_key(event.0.key),
        after.version_sequence == m.version_sequence,
{
    queue::law_marking_twice_is_marking_once(m.active, event.0.key as u64);
    queue::law_queue_is_fair(m.active, event.0.key as u64);
}

/// All timeouts that have come are handled: their connections wait to be polled, and none
/// of the timeouts is left. Nothing is told by it.
pub proof fn law_all_timeouts_are_handled(m: BackendModel, after: BackendModel, i: int)
    requires
        m.is_timed(after),
        0 <= i < m.fired.len(),
    ensures
        after.fired.len() == 0,
        after.events == m.events,
        after.scheduled == m.scheduled,
        after.endpoint == m.endpoint,
        after.connections.all.dom() == m.connections.all.dom(),
        m.has(m.fired[i].0) ==> after.connections.active.contains(m.fired[i].0.key as u64),
{
    let steps = choose|steps: Seq<ConnectionsModel>|
        #[trigger] are_timed(steps, m.fired, m.clock) && steps[0] == m.connections && after == (
        BackendModel { fired: Seq::empty(), connections: steps.last(), ..m });
    lemma_timed_connections(steps, m.fired, m.clock, m.fired.len() as int, i);
}

proof fn lemma_timed_connections(
    steps: Seq<ConnectionsModel>,
    events: Seq<TimerEvent>,
    clock: StdInstant,
    n: int,
    i: int,
)
    requires
        are_timed(steps, events, clock),
        0 <= n <= events.len(),
        0 <= i < events.len(),
    ensures
        steps[n].all.dom() == steps[0].all.dom(),
        forall|key: usize| #[trigger]
            steps[0].all.contains_key(key) ==> steps[n].all[key].context == steps[0].all[key].context,
        i < n && steps[0].has(events[i].0) ==> steps[n].active.contains(events[i].0.key as u64),
    decreases n,
{
    if n > 0 {
        lemma_timed_connections(steps, events, clock, n - 1, i);
        let before = steps[n - 1];
        let event = events[n - 1];
        assert(is_timed(before, event, clock, steps[n - 1 + 1]));
        let any: usize = if event.0.key == 0 {
            1
        } else {
            0
        };
        law_timeout_is_handled(before, event, clock, steps[n], any);
        assert forall|key: usize| steps[n].all.contains_key(key) == before.all.contains_key(key) by {
            if key != event.0.key {
                law_timeout_is_handled(before, event, clock, steps[n], key);
            }
        }
        assert(steps[n].all.dom() =~= before.all.dom());
        assert forall|key: usize| #[trigger]
            steps[0].all.contains_key(key) implies steps[n].all[key].context
            == steps[0].all[key].context by {
            assert(before.all.dom().contains(key));
            if key != event.0.key {
                law_timeout_is_handled(before, event, clock, steps[n], key);
            }
        }
        if i < n - 1 && steps[0].has(events[i].0) {
            let k = choose|k: int|
                0 <= k < before.active.len() && before.active[k] == events[i].0.key as u64;
            assert(steps[n].active[k] == events[i].0.key as u64);
        }
        if i == n - 1 && steps[0].has(events[i].0) {
            assert(before.all.dom().contains(event.0.key));
            assert(before.has(event.0));
        }
    }
}

/// A connection whose packets are all sent waits no more, and times out when it has to.
/// One that has more to send than there are buffers stays the next one.
/// Packets are added behind those that are to be sent already.
pub proof fn law_connections_send_in_turns(
    m: BackendModel,
    messages: Seq<SendMsg<VecBuf>>,
    is_complete: bool,
    after: BackendModel,
    written: Seq<SendMsg<VecBuf>>,
    key: usize,
)
    requires
        m.is_transmission(messages, is_complete, after, written),
        key == m.connections.active[0],
    ensures
        m.connections.active.len() > 0,
        messages.is_prefix_of(written),
        after.io.primary + io::pooled_buffers(written) == m.io.primary + io::pooled_buffers(messages)
            || proto::drained(m.connections.all[key].inner),
        after.io.reserved == m.io.reserved,
        proto::drained(m.connections.all[key].inner) ==> is_complete && written == messages,
        !is_complete ==> {
            &&& after.connections.active == m.connections.active
            &&& after.scheduled == m.scheduled
            &&& after.events == m.events
        },
        is_complete && !proto::drained(m.connections.all[key].inner) && m.connections.all.contains_key(
            key,
        ) ==> {
            &&& after.connections.active == m.connections.active.drop_first()
            &&& after.events == m.events
            &&& proto::next_timeout(after.connections.all[key].inner) matches Some(at) ==> {
                &&& after.scheduled.len() > 0
                &&& after.scheduled.last().at.nanos == proto::nanos_between(m.origin, at)
                &&& after.scheduled.last().event.0.key == key
            }
        },
        is_complete && proto::drained(m.connections.all[key].inner) && m.connections.all.contains_key(
            key,
        ) ==> !after.connections.all.contains_key(key),
{
    let id = m.context(key).spec_id(key);
    let any: usize = if key == 0 {
        1
    } else {
        0
    };
    if !proto::drained(m.inner(key)) && is_complete && m.connections.all.contains_key(key) {
        let sent = m.with_inner(key, after.inner(key)).with_io(
            IoModel { primary: after.io.primary, ..m.io },
        ).moved();
        assert(sent.has(id));
        assert(sent.inner(key) == after.inner(key));
        if let Some(at) = sent.timeout(key) {
            law_timeout_comes_at_its_time(sent, id, at, after, after.scheduled.last(), any);
        }
    }
}

/// An application is refused for one reason, the first that holds of these: the backend is closed,
/// the stream has no such direction, the buffer is too short, there is no such connection
/// that is open. It is not refused otherwise, and the connection waits to be polled then.
pub proof fn law_refusals_have_a_reason(
    m: BackendModel,
    id: QuinnConnectionId,
    illegal: bool,
    short: bool,
)
    ensures
        ({
            let inner = m.connections.all[id.key].inner;
            let is_usable = m.connections.all.contains_key(id.key)
                && m.connections.all[id.key].context.version == id.version && !proto::closed(inner)
                && !proto::drained(inner);
            let refused = m.refused(id, illegal, short);
            &&& refused is None <==> m.open && !illegal && !short && is_usable
            &&& refused == Some(Error::Closed) <==> !m.open
            &&& refused == Some(Error::Illegal) <==> m.open && illegal
            &&& refused == Some(Error::BufferSize) <==> m.open && !illegal && short
            &&& refused == Some(Error::UnknownConnection) <==> m.open && !illegal && !short
                && !is_usable
        }),
{
}

/// A request that is refused changes nothing, one that is not makes its connection wait
/// to be polled, behind the others.
pub proof fn law_entered_connection_waits(
    m: BackendModel,
    id: QuinnConnectionId,
    refused: Option<Error>,
    after: BackendModel,
)
    requires
        is_entered(m, id, refused, after),
    ensures
        refused is Some ==> after == m,
        refused is None ==> {
            &&& after.connections.active.contains(id.key as u64)
            &&& m.connections.active.is_prefix_of(after.connections.active)
            &&& after.connections.all == m.connections.all
            &&& after.events == m.events
            &&& after.scheduled == m.scheduled
        },
{
    queue::law_marking_twice_is_marking_once(m.connections.active, id.key as u64);
    queue::law_queue_is_fair(m.connections.active, id.key as u64);
}

/// Two bits of the ID of a stream tell which side alone writes into it, if one does.
pub proof fn law_sides_of_streams(stream_id: StreamId)
    ensures
        is_client_uni(stream_id) <==> stream_id@ % 4 == 2,
        is_server_uni(stream_id) <==> stream_id@ % 4 == 3,
{
}

/// The backend is closed with all its connections, each with the code and the reason.
/// Their packets are still to be sent: all of them wait to be polled.
pub proof fn law_all_connections_are_closed(
    m: BackendModel,
    keys: Seq<usize>,
    err: u64,
    reason: Seq<u8>,
    key: usize,
)
    requires
        is_all_keys(m.connections, keys),
        m.connections.all.contains_key(key),
    ensures
        ({
            let after = m.all_closed(keys, err, reason);
            &&& !after.open
            &&& after.connections.all.contains_key(key)
            &&& after.connections.all[key].inner == proto::after_close(
                m.connections.all[key].inner,
                m.clock,
                err,
                reason,
            )
            &&& after.connections.all[key].context == m.connections.all[key].context
            &&& after.connections.active.contains(key as u64)
            &&& after.events == m.events
            &&& after.scheduled == m.scheduled
            &&& after.io == m.io
        }),
{
    assert(keys.contains(key));
    let i = choose|i: int| 0 <= i < keys.len() && keys[i] == key;
    connections::law_all_marked_connections_wait(m.connections, keys, i);
}

/// All keys are listed, each of them once.
pub proof fn law_all_keys_are_listed(m: ConnectionsModel, keys: Seq<usize>, key: usize)
    requires
        is_all_keys(m, keys),
    ensures
        keys.no_duplicates(),
        m.all.contains_key(key) <==> exists|i: int| 0 <= i < keys.len() && keys[i] == key,
{
    assert(m.all.contains_key(key) <==> keys.contains(key));
}

/// Client connections are used from the new address, connections of servers stay as they are.
/// The size of datagrams is told if it has changed by it, and nothing else is.
pub proof fn law_clients_migrate(m: BackendModel, key: usize, inner: QuinnConnection, other: usize)
    requires
        m.connections.all.contains_key(key),
        other != key,
    ensures
        ({
            let after = m.migrated(key, inner);
            let size = match proto::max_dgram(inner) {
                None => 0int,
                Some(size) => if size <= 0xffff {
                    size as int
                } else {
                    0xffff
                },
            };
            &&& after.connections.all.contains_key(other) == m.connections.all.contains_key(other)
            &&& after.connections.all[other] == m.connections.all[other]
            &&& after.connections.all.contains_key(key)
            &&& after.connections.active == m.connections.active
            &&& after.scheduled == m.scheduled
            &&& proto::is_server_side(m.connections.all[key].inner) ==> after == m
            &&& !proto::is_server_side(m.connections.all[key].inner) ==> {
                &&& after.connections.all[key].inner == inner
                &&& after.connections.all[key].context.dgram_out_max_size == size
                &&& size == m.connections.all[key].context.dgram_out_max_size ==> after.events
                    == m.events
                &&& size != m.connections.all[key].context.dgram_out_max_size ==> {
                    &&& after.events == m.events.push(after.events.last())
                    &&& after.events.last() matches Event::Datagram(
                        DatagramEvent::OutNewSize(id, told),
                    )
                    &&& id.key == key
                    &&& id.version == m.connections.all[key].context.version
                    &&& told == size
                }
            }
        }),
{
    connection::law_datagram_size_is_told_once(
        m.context(key),
        key,
        proto::max_dgram(inner),
    );
}

/// Connections migrate one after another, and each of them once: those that stand before others
/// are as they are left by their own migration.
pub proof fn law_connections_migrate_in_order(
    m: BackendModel,
    keys: Seq<usize>,
    inners: Seq<QuinnConnection>,
    i: int,
)
    requires
        keys.no_duplicates(),
        keys.len() == inners.len(),
        forall|k: int| 0 <= k < keys.len() ==> m.connections.all.contains_key(#[trigger] keys[k]),
        0 <= i < keys.len(),
    ensures
        all_migrated(m, keys, inners).connections.all.dom() == m.connections.all.dom(),
        proto::is_server_side(m.connections.all[keys[i]].inner) ==> all_migrated(
            m,
            keys,
            inners,
        ).connections.all[keys[i]] == m.connections.all[keys[i]],
        !proto::is_server_side(m.connections.all[keys[i]].inner) ==> all_migrated(
            m,
            keys,
            inners,
        ).connections.all[keys[i]].inner == inners[i],
        m.events.is_prefix_of(all_migrated(m, keys, inners).events),
{
    lemma_migrated(m, keys, inners, i);
}

proof fn lemma_migrated(
    m: BackendModel,
    keys: Seq<usize>,
    inners: Seq<QuinnConnection>,
    i: int,
)
    requires
        keys.no_duplicates(),
        keys.len() == inners.len(),
        forall|k: int| 0 <= k < keys.len() ==> m.connections.all.contains_key(#[trigger] keys[k]),
    ensures
        all_migrated(m, keys, inners).connections.all.dom() == m.connections.all.dom(),
        forall|key: usize|
            !keys.contains(key) ==> #[trigger] all_migrated(m, keys, inners).connections.all[key]
                == m.connections.all[key],
        0 <= i < keys.len() && proto::is_server_side(m.connections.all[keys[i]].inner)
            ==> all_migrated(m, keys, inners).connections.all[keys[i]]
            == m.connections.all[keys[i]],
        0 <= i < keys.len() && !proto::is_server_side(m.connections.all[keys[i]].inner)
            ==> all_migrated(m, keys, inners).connections.all[keys[i]].inner == inners[i],
        m.events.is_prefix_of(all_migrated(m, keys, inners).events),
    decreases keys.len(),
{
    if keys.len() > 0 {
        let init = keys.drop_last();
        let last = keys.last();
        let before = all_migrated(m, init, inners.drop_last());
        let after = all_migrated(m, keys, inners);
        assert(forall|k: int| 0 <= k < init.len() ==> init[k] == keys[k]);
        lemma_migrated(m, init, inners.drop_last(), i);
        assert(keys[keys.len() - 1] == last);
        assert(before.connections.all.dom().contains(last));
        assert(!init.contains(last));
        let any: usize = if last == 0 {
            1
        } else {
            0
        };
        law_clients_migrate(before, last, inners.last(), any);
        assert forall|key: usize| key != last implies #[trigger] after.connections.all[key]
            == before.connections.all[key] && after.connections.all.contains_key(key)
            == before.connections.all.contains_key(key) by {
            law_clients_migrate(before, last, inners.last(), key);
        }
        assert(after.connections.all.dom() =~= before.connections.all.dom()) by {
            assert forall|key: usize|
                after.connections.all.contains_key(key) == before.connections.all.contains_key(
                    key,
                ) by {
                if key != last {
                    assert(after.connections.all[key] == before.connections.all[key]);
                }
            }
        }
        assert forall|key: usize| !keys.contains(key) implies #[trigger] after.connections.all[key]
            == m.connections.all[key] by {
            if init.contains(key) {
                let k = choose|k: int| 0 <= k < init.len() && init[k] == key;
                assert(keys[k] == key);
            }
        }
        if 0 <= i < init.len() {
            assert(keys[i] != last);
            assert(init[i] == keys[i]);
        }
    }
}

/// The address that packets are sent from changes if a new one is given, and nothing else does.
pub proof fn law_new_address_is_listened_on(m: BackendModel, new_listen_addr: Option<IpAddr>)
    ensures
        new_listen_addr is None ==> m.listening(new_listen_addr) == m,
        new_listen_addr matches Some(addr) ==> m.listening(new_listen_addr).io.listen_addr == addr,
        m.listening(new_listen_addr).io.primary == m.io.primary,
        m.listening(new_listen_addr).io.reserved == m.io.reserved,
        m.listening(new_listen_addr).connections == m.connections,
        m.listening(new_listen_addr).events == m.events,
{
}

/// A connection that the application closes is told to be closed by it, on this side, with the
/// code and the reason that were given. Those go to the peer, too.
pub proof fn law_close_is_told(
    m: BackendModel,
    id: QuinnConnectionId,
    err: u64,
    reason: Bytes,
    after: BackendModel,
)
    requires
        m.has(id),
        is_closed_here(m, id, err, reason, after),
    ensures
        after.connections.all[id.key].inner == proto::after_close(
            m.connections.all[id.key].inner,
            m.clock,
            err,
            data::content(reason),
        ),
        after.connections.all[id.key].context.closed_event_sent,
        after.connections.active.contains(id.key as u64),
        m.connections.all[id.key].context.closed_event_sent ==> after.events == m.events,
        !m.connections.all[id.key].context.closed_event_sent ==> {
            &&& after.events.len() == m.events.len() + 1
            &&& after.events.drop_last() == m.events
            &&& after.events.last() matches Event::Connection(
                ConnectionEvent::Closed {
                    connection_id,
                    code,
                    reason: told,
                    is_application,
                    is_local,
                },
            )
            &&& connection_id.key == id.key
            &&& connection_id.version == id.version
            &&& connection_id.trace == m.connections.all[id.key].context.trace
            &&& code == err
            &&& told == reason
            &&& is_application
            &&& is_local
        },
{
    queue::law_marking_twice_is_marking_once(m.connections.active, id.key as u64);
    if !m.context(id.key).closed_event_sent {
        assert(m.events.push(after.events.last()).drop_last() =~= m.events);
    }
}

/// An application gets as much data as there is and as it has room for. It is told the end
/// of the stream, or that the peer has reset it, only once it has got all data.
pub proof fn law_end_comes_after_the_data(
    readable: Result<(Seq<u8>, ReadEnd), Unreadable>,
    length: nat,
    r: Result<(usize, bool), Error>,
)
    requires
        length <= usize::MAX,
        is_read(readable, length, r),
    ensures
        read_data(readable, length).len() <= length,
        readable matches Ok((data, end)) ==> {
            &&& read_data(readable, length).is_prefix_of(data)
            &&& read_data(readable, length).len() == length || read_data(readable, length) == data
            &&& r matches Ok((count, fin)) ==> {
                &&& count == read_data(readable, length).len()
                &&& fin <==> end is Finished && data.len() < length
            }
            &&& r is Err <==> end is Reset && data.len() < length
            &&& r matches Err(error) ==> (end matches ReadEnd::Reset(code) && error
                == Error::StreamReset(code))
        },
        readable == Err::<(Seq<u8>, ReadEnd), Unreadable>(Unreadable::Closed) ==> r == Err::<
            (usize, bool),
            Error,
        >(Error::UnknownStream),
        readable is Err ==> r is Err && read_data(readable, length).len() == 0,
        readable == Err::<(Seq<u8>, ReadEnd), Unreadable>(Unreadable::IllegalOrder) ==> (
        r matches Err(Error::Other(message)) && message@ == "ordered read after unordered read"@),
{
    if let Ok((data, _)) = readable {
        if length <= data.len() {
            assert(data.take(length as int).len() == length);
        }
    }
}

/// What was read cannot be read again: the rest is left, with the same end. Once the end was
/// told, the stream is unknown.
pub proof fn law_read_data_is_gone(readable: Result<(Seq<u8>, ReadEnd), Unreadable>, length: nat)
    ensures
        readable is Err ==> left(readable, length) == Err::<(Seq<u8>, ReadEnd), Unreadable>(
            Unreadable::Closed,
        ),
        readable matches Ok((data, end)) ==> {
            &&& left(readable, length) matches Ok((rest, rest_end)) ==> {
                &&& read_data(readable, length) + rest == data
                &&& rest_end == end
            }
            &&& left(readable, length) is Err <==> data.len() < length && !(end is Blocked)
            &&& left(readable, length) matches Err(failure) ==> failure is Closed
        },
{
    if let Ok((data, _)) = readable {
        if length <= data.len() {
            assert(data.take(length as int) + data.skip(length as int) =~= data);
        } else {
            assert(data + Seq::<u8>::empty() =~= data);
        }
    }
}

/// A stream is finished only if all data was written and the application has asked for it.
/// What was not written comes back, and a stream that the peer has stopped is told with its code.
pub proof fn law_written_data_does_not_come_back(
    connection: QuinnConnection,
    raw: u64,
    bytes: Seq<u8>,
    fin: bool,
)
    ensures
        ({
            let (result, after) = sent(connection, raw, bytes, fin);
            let (written, rest, then) = proto::stream_written(connection, raw, bytes);
            &&& bytes.len() == 0 && !fin ==> result == Ok::<Option<Seq<u8>>, Error>(None) && after
                == connection
            &&& bytes.len() > 0 && written == Ok::<bool, WriteFailure>(true) && !fin ==> result
                == Ok::<Option<Seq<u8>>, Error>(None) && after == then
            &&& bytes.len() > 0 && written == Ok::<bool, WriteFailure>(false) ==> result == Ok::<
                Option<Seq<u8>>,
                Error,
            >(Some(rest)) && after == then
            &&& bytes.len() > 0 && written is Err ==> {
                &&& after == then
                &&& written == Err::<bool, WriteFailure>(WriteFailure::Blocked) ==> result == Ok::<
                    Option<Seq<u8>>,
                    Error,
                >(Some(bytes))
                &&& written == Err::<bool, WriteFailure>(WriteFailure::Closed) ==> result == Err::<
                    Option<Seq<u8>>,
                    Error,
                >(Error::UnknownStream)
                &&& written matches Err(WriteFailure::Stopped(code)) ==> result == Err::<
                    Option<Seq<u8>>,
                    Error,
                >(Error::StreamStop(code))
            }
            &&& fin && (bytes.len() == 0 || written == Ok::<bool, WriteFailure>(true)) ==> {
                let (finished, end) = proto::stream_finished(
                    if bytes.len() == 0 {
                        connection
                    } else {
                        then
                    },
                    raw,
                );
                &&& after == end
                &&& finished is Ok ==> result == Ok::<Option<Seq<u8>>, Error>(None)
                &&& finished matches Err(FinishFailure::Stopped(code)) ==> result == Err::<
                    Option<Seq<u8>>,
                    Error,
                >(Error::StreamStop(code))
                &&& finished matches Err(FinishFailure::Closed) ==> result == Err::<
                    Option<Seq<u8>>,
                    Error,
                >(Error::UnknownStream)
            }
        }),
{
}

/// A request to write into a stream of the peer alone is refused. Otherwise, data that comes back
/// is the end of what was to be sent, and other connections are left alone.
pub proof fn law_unsent_data_is_the_end(
    m: BackendModel,
    id: QuinnConnectionId,
    stream_id: StreamId,
    bytes: Seq<u8>,
    fin: bool,
    r: Result<Option<Bytes>, Error>,
    after: BackendModel,
    other: usize,
)
    requires
        is_stream_sent(m, id, stream_id, bytes, fin, r, after),
        stream_id@ < 0x4000_0000_0000_0000,
        other != id.key,
    ensures
        r matches Ok(Some(rest)) ==> {
            &&& 0 < data::content(rest).len() <= bytes.len()
            &&& data::content(rest) == bytes.skip(bytes.len() - data::content(rest).len())
        },
        stream_id@ % 4 == 3 ==> r is Err && after == m,
        stream_id@ % 4 == 2 && proto::is_server_side(m.connections.all[id.key].inner) ==> r is Err
            && after.connections.all == m.connections.all,
        !m.open ==> r == Err::<Option<Bytes>, Error>(Error::Closed) && after == m,
        !m.has(id) ==> r is Err && after == m,
        after.connections.all[other] == m.connections.all[other],
        after.events == m.events,
        after.scheduled == m.scheduled,
{
}

/// A datagram is handed over as a whole, or not at all if there is no room for it.
pub proof fn law_datagram_is_handed_over_whole(
    datagram: Option<Seq<u8>>,
    before: Seq<u8>,
    r: Result<usize, Error>,
    after: Seq<u8>,
)
    requires
        is_datagram_taken(datagram, before, r, after),
        before.len() <= usize::MAX,
    ensures
        after.len() == before.len(),
        r is Err <==> (datagram matches Some(bytes) && bytes.len() > before.len()),
        r matches Err(error) ==> error == Error::BufferSize && after == before,
        r matches Ok(length) ==> match datagram {
            Some(bytes) => length == bytes.len() && after.take(length as int) == bytes && after.skip(
                length as int,
            ) == before.skip(length as int),
            None => length == 0 && after == before,
        },
{
    if let Some(bytes) = datagram {
        if bytes.len() <= before.len() {
            octets::law_overwritten_bytes(before, 0, bytes);
            assert(after.take(bytes.len() as int) =~= after.subrange(0, bytes.len() as int));
        }
    }
}

/// The certificates of a peer are returned in their order, and none for a peer without any.
pub proof fn law_certificates_are_returned(identity: Identity, r: Result<Vec<Vec<u8>>, Error>)
    requires
        is_cert_chain(identity, r),
    ensures
        r is Err <==> identity is Foreign,
        identity is Absent ==> (r matches Ok(chain) && chain@.len() == 0),
        identity matches Identity::Certificates(certificates) ==> (r matches Ok(chain)
            && chain@.len() == certificates.len() && forall|i: int|
            0 <= i < certificates.len() ==> (#[trigger] chain@[i])@ == certificates[i]),
        r matches Err(error) ==> (error matches Error::Other(message) && message@
            == "unable to cast peer_identity as 'Vec<CertificateDer>'"@),
{
    if let Identity::Certificates(certificates) = identity {
        let chain = r->Ok_0@;
        assert forall|i: int| 0 <= i < certificates.len() implies (#[trigger] chain[i])@
            == certificates[i] by {
            assert(chain.map_values(|certificate: Vec<u8>| certificate@)[i] == chain[i]@);
        }
    }
}

/// A datagram goes to the endpoint as it has come: with the addresses, the congestion bits,
/// its payload and the current time.
pub proof fn law_datagram_goes_to_the_endpoint(
    m: BackendModel,
    messages: Seq<SendMsg<VecBuf>>,
    packet: PacketModel,
    is_reserved: bool,
    after: BackendModel,
    answered: Seq<SendMsg<VecBuf>>,
)
    requires
        m.is_payload_handled(messages, packet, is_reserved, after, answered),
    ensures
        exists|handled: Option<Datagram>, response: Seq<u8>, endpoint: quinn_proto::Endpoint|
            {
                &&& #[trigger] proto::may_handle(
                    m.endpoint,
                    m.clock,
                    packet.from.without_flow(),
                    packet.to,
                    packet.ecn.spec_bits(),
                    packet.payload,
                    handled,
                    response,
                    endpoint,
                )
                &&& handled is None ==> {
                    &&& after.endpoint == endpoint
                    &&& after.io == m.io.given_back(is_reserved)
                    &&& after.connections == m.connections
                    &&& after.events == m.events
                    &&& answered == messages
                }
            },
{
    reveal(BackendModel::is_payload_handled);
}

/// An event is about the connection whose ID it has.
pub proof fn law_events_are_about_their_connections(id: QuinnConnectionId, event: Event<QuinnConnectionId>)
    requires
        event_id(event) == id,
    ensures
        event matches Event::Connection(ConnectionEvent::New { connection_id, .. }) ==> connection_id
            == id,
        event matches Event::Connection(ConnectionEvent::Established(of)) ==> of == id,
        event matches Event::Connection(ConnectionEvent::Closed { connection_id, .. })
            ==> connection_id == id,
        event matches Event::Connection(ConnectionEvent::Halted { connection_id, .. })
            ==> connection_id == id,
        event matches Event::Connection(ConnectionEvent::StreamsAvailable { connection_id, .. })
            ==> connection_id == id,
        event matches Event::Stream(StreamEvent::Available(of, _)) ==> of == id,
        event matches Event::Stream(StreamEvent::Reset(of, _, _)) ==> of == id,
        event matches Event::Datagram(DatagramEvent::InAvailable(of)) ==> of == id,
        event matches Event::Datagram(DatagramEvent::OutAvailable(of)) ==> of == id,
        event matches Event::Datagram(DatagramEvent::OutNewSize(of, _)) ==> of == id,
{
}

/// A packet is handled as soon as there is a buffer for the answer to it: a reserved one,
/// or a primary one if there are no reserved buffers at all.
pub proof fn law_packet_is_handled_with_a_buffer(
    m: BackendModel,
    messages: Seq<SendMsg<VecBuf>>,
    packet: PacketModel,
    after: BackendModel,
    answered: Seq<SendMsg<VecBuf>>,
)
    requires
        m.is_packet_handled(messages, packet, after, answered),
    ensures
        m.io.is_reserving ==> m.io.reserved > 0,
        !m.io.is_reserving ==> m.io.primary > 0,
        exists|
            handled: Option<Datagram>,
            response: Seq<u8>,
            endpoint: quinn_proto::Endpoint,
        | #[trigger]
            proto::may_handle(
                m.endpoint,
                m.clock,
                packet.from.without_flow(),
                packet.to,
                packet.ecn.spec_bits(),
                packet.payload,
                handled,
                response,
                endpoint,
            ),
{
    law_datagram_goes_to_the_endpoint(
        m.with_io(m.io.taken()),
        messages,
        packet,
        m.io.is_reserving,
        after,
        answered,
    );
}

/// Packets are sent until no connection waits or there is no buffer left.
pub proof fn law_sending_stops_for_a_reason(before: Progress, after: Progress)
    requires
        is_transmitted(before, after),
    ensures
        before.messages.is_prefix_of(after.messages),
        before.backend.connections.active.len() == 0 || before.backend.io.primary == 0
            ==> after == before,
        before.backend.connections.active.len() > 0 && before.backend.io.primary > 0 ==> {
            &&& before.backend.is_transmission(
                before.messages,
                false,
                after.backend,
                after.messages,
            )
            &&& after.backend.connections.active == before.backend.connections.active
        },
{
}

/// A client connection that migrates forgets its old path: what `quinn-proto` makes of it
/// follows from the change of the address, at the current time.
pub proof fn law_clients_forget_their_paths(
    m: BackendModel,
    keys: Seq<usize>,
    inners: Seq<QuinnConnection>,
    i: int,
)
    requires
        are_changed_paths(m, keys, inners),
        0 <= i < keys.len(),
    ensures
        inners.len() == keys.len(),
        !proto::is_server_side(m.connections.all[keys[i]].inner) ==> proto::may_change_path(
            proto::after_address_change(m.connections.all[keys[i]].inner),
            m.clock,
            inners[i],
        ),
{
    assert(inners[i] == inners[i]);
}

/// All connections wait to be polled when the network has changed, and nothing else changes by it.
pub proof fn law_all_connections_wait(m: BackendModel, keys: Seq<usize>, key: usize)
    requires
        is_all_keys(m.connections, keys),
        m.connections.all.contains_key(key),
    ensures
        m.all_waiting(keys).connections.active.contains(key as u64),
        m.all_waiting(keys).connections.all == m.connections.all,
        m.all_waiting(keys).events == m.events,
        m.all_waiting(keys).io == m.io,
        m.all_waiting(keys).open == m.open,
{
    assert(keys.contains(key));
    let i = choose|i: int| 0 <= i < keys.len() && keys[i] == key;
    connections::law_all_marked_connections_wait(m.connections, keys, i);
}

/// What is done for one connection touches no other one: neither is it changed, nor is it told of.
pub proof fn law_other_connections_are_left_alone(
    m: BackendModel,
    id: QuinnConnectionId,
    after: BackendModel,
    other: usize,
    i: int,
)
    requires
        m.touches_only(id, after),
        other != id.key,
        m.events.len() <= i < after.events.len(),
    ensures
        after.connections.all.contains_key(other) == m.connections.all.contains_key(other),
        m.connections.all.contains_key(other) ==> after.connections.all[other]
            == m.connections.all[other],
        m.events.is_prefix_of(after.events),
        event_id(after.events[i]) == id,
        after.io == m.io,
        after.open == m.open,
        after.fired == m.fired,
{
    assert(after.connections.all.remove(id.key).contains_key(other)
        == m.connections.all.remove(id.key).contains_key(other));
    if m.connections.all.contains_key(other) {
        assert(after.connections.all.remove(id.key)[other] == after.connections.all[other]);
        assert(m.connections.all.remove(id.key)[other] == m.connections.all[other]);
    }
}

/// An application that reads nothing changes nothing, and reads go on as long as there is data
/// and room for it.
pub proof fn law_reads_go_on_while_there_is_data(connection: QuinnConnection, raw: u64, length: nat)
    requires
        length <= usize::MAX,
    ensures
        after_reads(connection, raw, 0) == connection,
        length > 0 ==> {
            let (read, after) = proto::chunk_read(connection, raw, length as usize);
            &&& !(read is Chunk) ==> after_reads(connection, raw, length) == after
            &&& read matches Read::Chunk(chunk) ==> (0 < chunk.len() <= length ==> after_reads(
                connection,
                raw,
                length,
            ) == after_reads(after, raw, (length - chunk.len()) as nat))
        },
{
}

/// Each event of a connection that is polled is handled, and the connection has one event less.
pub proof fn law_polled_event_is_handled(m: BackendModel, id: QuinnConnectionId, after: BackendModel)
    requires
        m.is_polled_once(id, after),
    ensures
        m.has(id),
        ({
            let polled = proto::polled(m.connections.all[id.key].inner);
            &&& polled.0 matches Some(event)
            &&& (BackendModel {
                connections: ConnectionsModel {
                    all: m.connections.all.insert(
                        id.key,
                        Connection { inner: polled.1, context: m.connections.all[id.key].context },
                    ),
                    active: m.connections.active,
                    version_sequence: m.connections.version_sequence,
                },
                ..m
            }).is_handled(id, event, after)
        }),
{
}

/// An event of the endpoint is taken by its own connection, which waits to be polled then.
/// An event for a connection that is no more is dropped.
pub proof fn law_event_is_taken_by_its_connection(
    m: BackendModel,
    key: usize,
    event: QuinnConnectionEvent,
    after: BackendModel,
)
    requires
        m.is_event_handled(key, event, after),
    ensures
        !m.connections.all.contains_key(key) ==> after == m,
        m.connections.all.contains_key(key) ==> exists|exchange: Exchange, polled: BackendModel|
            {
                &&& #[trigger] m.is_exchange(key, event, exchange, polled)
                &&& (Exchange {
                    inner: m.connections.all[key].inner,
                    endpoint: m.endpoint,
                    next_event: Some(event),
                    is_telling: false,
                    is_last_told: false,
                }).is_exchanged(key, exchange)
                &&& m.exchanged(key, exchange).connections.all[key].inner == exchange.inner
                &&& m.exchanged(key, exchange).connections.all[key].context
                    == m.connections.all[key].context
                &&& m.exchanged(key, exchange).connections.active.contains(key as u64)
                &&& m.exchanged(key, exchange).endpoint == exchange.endpoint
                &&& m.exchanged(key, exchange).events == m.events
            },
{
    if m.connections.all.contains_key(key) {
        let id = m.context(key).spec_id(key);
        let (exchange, polled) = choose|exchange: Exchange, polled: BackendModel|
            #[trigger] m.is_exchange(key, event, exchange, polled) && polled.is_settled(
                id,
                exchange.is_last_told,
                after,
            );
        queue::law_marking_twice_is_marking_once(m.connections.active, key as u64);
        assert(m.is_exchange(key, event, exchange, polled));
    }
}

} // verus!

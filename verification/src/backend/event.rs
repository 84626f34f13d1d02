use crate::stream::StreamId;
use bytes::Bytes;
use vstd::prelude::*;

verus! {

/// Why a connection is halted, without a `CONNECTION_CLOSE` frame.
#[derive(Debug)]
pub enum HaltKind {
    /// Connection is timed out.
    Timeout,
    /// Peer sent a Stateless Reset.
    StatelessReset,
    /// No QUIC version is supported by both sides.
    UnknownVersion,
    /// Connection is unable to perform active migration.
    MigrationFailed,
    /// Other, uncovered error.
    Error(Bytes),
}

/// A QUIC connection related event.
#[derive(Debug)]
pub enum ConnectionEvent<CId> {
    /// A new connection is created.
    ///
    /// It may be just exist in memory, or on a handshake stage.
    New {
        /// Connection ID.
        connection_id: CId,
        /// Whether the peer initiated the connection.
        is_server: bool,
    },
    /// Connection is established.
    Established(CId),
    /// Connection is draining or closed
    /// with an application or transport error.
    Closed {
        /// Connection ID.
        connection_id: CId,
        /// Code the connection was closed with.
        code: u64,
        /// Close reason in UTF-8.
        reason: Bytes,
        /// Is this an application, or transport close kind.
        is_application: bool,
        /// Is the initiator our application, or the peer.
        is_local: bool,
    },
    /// Connection is halted.
    Halted {
        /// Connection ID.
        connection_id: CId,
        /// Why it is halted.
        kind: HaltKind,
    },
    /// Application may open a new stream of certain directionality.
    StreamsAvailable {
        /// Connection ID.
        connection_id: CId,
        /// Whether the streams are bidirectional or write-only.
        is_bidirectional: bool,
    },
}

/// A QUIC stream related event.
#[derive(Debug)]
pub enum StreamEvent<CId> {
    /// Stream is opened, has new data to read, or has capacity for new data to write.
    Available(CId, StreamId),
    /// Stream is terminated by the peer with an error code.
    Reset(CId, StreamId, u64),
}

/// A QUIC datagram related event.
#[derive(Debug)]
pub enum DatagramEvent<CId> {
    /// There are datagrams to receive after a break.
    InAvailable(CId),
    /// Datagrams can be sent again after a break.
    OutAvailable(CId),
    /// The maximum size of an outgoing datagram has changed.
    OutNewSize(CId, u16),
}

/// An event of a QUIC backend.
#[derive(Debug)]
pub enum Event<CId> {
    /// A connection related event.
    Connection(ConnectionEvent<CId>),
    /// A stream related event.
    Stream(StreamEvent<CId>),
    /// A datagram related event.
    Datagram(DatagramEvent<CId>),
}

impl<CId> ConnectionEvent<CId> {
    /// The connection that the event is about.
    pub open spec fn spec_connection_id(&self) -> CId {
        match *self {
            ConnectionEvent::New { connection_id, .. } => connection_id,
            ConnectionEvent::Established(connection_id) => connection_id,
            ConnectionEvent::Closed { connection_id, .. } => connection_id,
            ConnectionEvent::Halted { connection_id, .. } => connection_id,
            ConnectionEvent::StreamsAvailable { connection_id, .. } => connection_id,
        }
    }

    /// The place of the event among the events of a connection.
    pub open spec fn spec_order(&self) -> u8 {
        match *self {
            ConnectionEvent::New { .. } => 0,
            ConnectionEvent::Established(_) => 1,
            ConnectionEvent::StreamsAvailable { .. } => 2,
            ConnectionEvent::Closed { .. } => 3,
            ConnectionEvent::Halted { .. } => 3,
        }
    }

    /// Returns the connection that the event is about.
    pub fn connection_id(&self) -> (r: &CId)
        ensures
            *r == self.spec_connection_id(),
    {
        match self {
            ConnectionEvent::New { connection_id, .. } => connection_id,
            ConnectionEvent::Established(connection_id) => connection_id,
            ConnectionEvent::Closed { connection_id, .. } => connection_id,
            ConnectionEvent::Halted { connection_id, .. } => connection_id,
            ConnectionEvent::StreamsAvailable { connection_id, .. } => connection_id,
        }
    }

    /// Returns an order in which events should generally appear.
    pub fn order(&self) -> (r: u8)
        ensures
            r == self.spec_order(),
    {
        match self {
            ConnectionEvent::New { .. } => 0,
            ConnectionEvent::Established(_) => 1,
            ConnectionEvent::StreamsAvailable { .. } => 2,
            ConnectionEvent::Closed { .. } => 3,
            ConnectionEvent::Halted { .. } => 3,
        }
    }
}

/// Events that a QUIC backend has produced, in order.
pub struct BackendEvents<CId> {
    events: Vec<Event<CId>>,
}

impl<CId> View for BackendEvents<CId> {
    type V = Seq<Event<CId>>;

    closed spec fn view(&self) -> Seq<Event<CId>> {
        self.events@
    }
}

impl<CId> BackendEvents<CId> {
    /// Creates a container without events.
    pub fn new() -> (r: Self)
        ensures
            r@ == Seq::<Event<CId>>::empty(),
    {
        Self { events: Vec::new() }
    }

    /// Appends an event.
    pub fn push(&mut self, event: Event<CId>)
        ensures
            final(self)@ == old(self)@.push(event),
    {
        self.events.push(event);
    }

    /// Appends a connection related event, if there is one.
    pub fn push_connection(&mut self, event: Option<ConnectionEvent<CId>>)
        ensures
            final(self)@ == match event {
                Some(event) => old(self)@.push(Event::Connection(event)),
                None => old(self)@,
            },
    {
        if let Some(event) = event {
            self.events.push(Event::Connection(event));
        }
    }

    /// Appends a datagram related event, if there is one.
    pub fn push_datagram(&mut self, event: Option<DatagramEvent<CId>>)
        ensures
            final(self)@ == match event {
                Some(event) => old(self)@.push(Event::Datagram(event)),
                None => old(self)@,
            },
    {
        if let Some(event) = event {
            self.events.push(Event::Datagram(event));
        }
    }

    /// Appends events, in order.
    pub fn extend(&mut self, events: Vec<Event<CId>>)
        ensures
            final(self)@ == old(self)@ + events@,
    {
        let mut events = events;
        self.events.append(&mut events);
    }

    /// Takes out all events.
    pub fn take(&mut self) -> (r: Vec<Event<CId>>)
        ensures
            r@ == old(self)@,
            final(self)@ == Seq::<Event<CId>>::empty(),
    {
        let mut events: Vec<Event<CId>> = Vec::new();
        core::mem::swap(&mut events, &mut self.events);
        events
    }
}

/// Appendable connection and stream events.
pub struct OutEvents<'a, CId> {
    connection_events: &'a mut Vec<ConnectionEvent<CId>>,
    stream_events: &'a mut Vec<StreamEvent<CId>>,
    /// When I/O loop decides to close QUIC backend,
    /// there might be a huge burst of `close` events for both: connections and streams.
    ///
    /// To prevent this memory burst and its potential harmful consequences,
    /// we will just ignore any event.
    immutable: bool,
    modified: bool,
}

impl<'a, CId> OutEvents<'a, CId> {
    /// The connection events.
    pub closed spec fn connection_events(&self) -> Seq<ConnectionEvent<CId>> {
        self.connection_events@
    }

    /// The stream events.
    pub closed spec fn stream_events(&self) -> Seq<StreamEvent<CId>> {
        self.stream_events@
    }

    /// All events are ignored.
    pub closed spec fn is_noop(&self) -> bool {
        self.immutable
    }

    /// Events were appended.
    pub closed spec fn spec_is_modified(&self) -> bool {
        self.modified
    }

    /// Creates a container that appends to both vectors.
    pub fn new(
        connection_events: &'a mut Vec<ConnectionEvent<CId>>,
        stream_events: &'a mut Vec<StreamEvent<CId>>,
    ) -> (r: Self)
        ensures
            !r.is_noop(),
            !r.spec_is_modified(),
            r.connection_events() == old(connection_events)@,
            r.stream_events() == old(stream_events)@,
    {
        Self { connection_events, stream_events, immutable: false, modified: false }
    }

    /// Creates a container that ignores all events.
    pub fn new_noop(
        connection_events: &'a mut Vec<ConnectionEvent<CId>>,
        stream_events: &'a mut Vec<StreamEvent<CId>>,
    ) -> (r: Self)
        ensures
            r.is_noop(),
            !r.spec_is_modified(),
            r.connection_events() == old(connection_events)@,
            r.stream_events() == old(stream_events)@,
    {
        Self { connection_events, stream_events, immutable: true, modified: false }
    }

    /// Returns `true` if there are new events available.
    pub fn is_modified(&self) -> (r: bool)
        ensures
            r == self.spec_is_modified(),
    {
        self.modified
    }

    /// See [Vec::push].
    pub fn push_connection_event(&mut self, event: ConnectionEvent<CId>)
        ensures
            final(self).is_noop() == old(self).is_noop(),
            final(self).spec_is_modified() == (old(self).spec_is_modified() || !old(
                self,
            ).is_noop()),
            final(self).connection_events() == if old(self).is_noop() {
                old(self).connection_events()
            } else {
                old(self).connection_events().push(event)
            },
            final(self).stream_events() == old(self).stream_events(),
    {
        if !self.immutable {
            self.modified = true;
            self.connection_events.push(event);
        }
    }

    /// See [Vec::push].
    pub fn push_stream_event(&mut self, event: StreamEvent<CId>)
        ensures
            final(self).is_noop() == old(self).is_noop(),
            final(self).spec_is_modified() == (old(self).spec_is_modified() || !old(
                self,
            ).is_noop()),
            final(self).stream_events() == if old(self).is_noop() {
                old(self).stream_events()
            } else {
                old(self).stream_events().push(event)
            },
            final(self).connection_events() == old(self).connection_events(),
    {
        if !self.immutable {
            self.modified = true;
            self.stream_events.push(event);
        }
    }

    /// See [Vec::append].
    pub fn append_connection_events(&mut self, events: &mut Vec<ConnectionEvent<CId>>)
        ensures
            final(self).is_noop() == old(self).is_noop(),
            final(self).spec_is_modified() == (old(self).spec_is_modified() || !old(
                self,
            ).is_noop()),
            final(self).connection_events() == if old(self).is_noop() {
                old(self).connection_events()
            } else {
                old(self).connection_events() + old(events)@
            },
            final(events)@ == if old(self).is_noop() {
                old(events)@
            } else {
                Seq::empty()
            },
            final(self).stream_events() == old(self).stream_events(),
    {
        if !self.immutable {
            self.modified = true;
            self.connection_events.append(events);
        }
    }

    /// See [Vec::append].
    pub fn append_stream_events(&mut self, events: &mut Vec<StreamEvent<CId>>)
        ensures
            final(self).is_noop() == old(self).is_noop(),
            final(self).spec_is_modified() == (old(self).spec_is_modified() || !old(
                self,
            ).is_noop()),
            final(self).stream_events() == if old(self).is_noop() {
                old(self).stream_events()
            } else {
                old(self).stream_events() + old(events)@
            },
            final(events)@ == if old(self).is_noop() {
                old(events)@
            } else {
                Seq::empty()
            },
            final(self).connection_events() == old(self).connection_events(),
    {
        if !self.immutable {
            self.modified = true;
            self.stream_events.append(events);
        }
    }

    /// See [Extend].
    pub fn extend_connection_events(&mut self, events: Vec<ConnectionEvent<CId>>)
        ensures
            final(self).is_noop() == old(self).is_noop(),
            final(self).spec_is_modified() == (old(self).spec_is_modified() || !old(
                self,
            ).is_noop()),
            final(self).connection_events() == if old(self).is_noop() {
                old(self).connection_events()
            } else {
                old(self).connection_events() + events@
            },
            final(self).stream_events() == old(self).stream_events(),
    {
        let mut events = events;
        self.append_connection_events(&mut events);
    }

    /// See [Extend].
    pub fn extend_stream_events(&mut self, events: Vec<StreamEvent<CId>>)
        ensures
            final(self).is_noop() == old(self).is_noop(),
            final(self).spec_is_modified() == (old(self).spec_is_modified() || !old(
                self,
            ).is_noop()),
            final(self).stream_events() == if old(self).is_noop() {
                old(self).stream_events()
            } else {
                old(self).stream_events() + events@
            },
            final(self).connection_events() == old(self).connection_events(),
    {
        let mut events = events;
        self.append_stream_events(&mut events);
    }
}

/// The events of a connection have their order: it is new, then established, then in use,
/// and at last closed or halted.
pub proof fn law_events_have_their_order<CId>(
    first: ConnectionEvent<CId>,
    second: ConnectionEvent<CId>,
)
    ensures
        first is New && !(second is New) ==> first.spec_order() < second.spec_order(),
        first is Established && !(second is New) && !(second is Established)
            ==> first.spec_order() < second.spec_order(),
        first is StreamsAvailable && (second is Closed || second is Halted) ==> first.spec_order()
            < second.spec_order(),
        (first is Closed || first is Halted) && (second is Closed || second is Halted)
            ==> first.spec_order() == second.spec_order(),
        first is New && second is New ==> first.spec_order() == second.spec_order(),
        first is New ==> first.spec_order() == 0,
        first is Halted ==> first.spec_order() == 3,
{
}

} // verus!

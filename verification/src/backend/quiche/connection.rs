use crate::backend::event::{ConnectionEvent, DatagramEvent, HaltKind};
use crate::backend::util::DeadlineKey;
use crate::stream::{StreamId, StreamIdError};
use crate::time::Instant;
use crate::util::data;
use crate::util::trace::Trace;
use vstd::prelude::*;
use vstd::std_specs::cmp::PartialEqSpec;

verus! {

/// A key of a connection, which no other connection has as long as it is present.
#[derive(Debug, Clone, Copy, PartialEq, Eq, Structural, Hash)]
pub struct ConnectionKey {
    raw: u64,
}

/// The upper half of a key is a version, and those of present connections are odd.
pub open spec fn is_key(raw: u64) -> bool {
    (raw / 0x1_0000_0000) % 2 == 1
}

impl ConnectionKey {
    #[verifier::type_invariant]
    spec fn inv(&self) -> bool {
        is_key(self.raw)
    }

    /// The raw value of the key.
    pub closed spec fn view(&self) -> u64 {
        self.raw
    }

    /// The key with the given raw value.
    pub closed spec fn of(raw: u64) -> ConnectionKey {
        ConnectionKey { raw }
    }

    pub(crate) proof fn lemma_of_view(key: ConnectionKey)
        ensures
            ConnectionKey::of(key@) == key,
    {
    }

    pub(crate) fn new(raw: u64) -> (r: Self)
        requires
            is_key(raw),
        ensures
            r@ == raw,
            r == Self::of(raw),
    {
        Self { raw }
    }

    /// Returns the raw value of the key.
    pub fn raw(&self) -> (r: u64)
        ensures
            r == self@,
            is_key(r),
    {
        proof {
            use_type_invariant(self);
        }
        self.raw
    }
}

/// A Quiche stable connection ID.
#[derive(Debug, Clone, Copy)]
pub struct QuicheConnectionId {
    /// The key of the connection.
    pub key: ConnectionKey,
    /// A unique trace for logging and debugging.
    pub trace: Trace,
}

impl PartialEq for QuicheConnectionId {
    fn eq(&self, other: &Self) -> (r: bool) {
        self.key == other.key
    }
}

impl vstd::std_specs::cmp::PartialEqSpecImpl for QuicheConnectionId {
    open spec fn obeys_eq_spec() -> bool {
        true
    }

    open spec fn eq_spec(&self, other: &Self) -> bool {
        self.key == other.key
    }
}

impl Eq for QuicheConnectionId {

}

/// What a scheduled event of a connection is about.
#[derive(Debug, Clone, Copy, PartialEq, Eq, Structural)]
pub enum TimerKind {
    /// A next packet may be sent.
    Pacer,
    /// `quiche` has to handle a timeout.
    QuicheTimeout,
    /// Connection has to be established by now.
    EstablishTimeout,
}

/// When a next packet may be sent, as `quiche` says.
#[derive(Debug, Clone, Copy)]
pub struct ReleaseDecision {
    /// Packets may be sent in a burst.
    pub can_burst: bool,
    /// The time of the next packet, if it is to come.
    pub time: Option<Instant>,
}

/// The error of a `CONNECTION_CLOSE` frame.
#[derive(Debug)]
pub struct CloseInfo {
    /// Is this an application, or transport error.
    pub is_app: bool,
    /// The code of the error.
    pub error_code: u64,
    /// The reason of the error.
    pub reason: Vec<u8>,
}

/// How a connection was closed, as `quiche` says.
#[derive(Debug)]
pub struct CloseStatus {
    /// The connection is timed out.
    pub is_timed_out: bool,
    /// The error that our application, or `quiche` itself, closed the connection with.
    pub local_error: Option<CloseInfo>,
    /// The error that the peer closed the connection with.
    pub peer_error: Option<CloseInfo>,
}

/// Packets less than this many nanoseconds ahead are sent at once.
pub const PACER_GRANULARITY_NANOS: u128 = 50_000;

/// Context of a QUIC connection.
#[derive(Debug)]
pub struct Connection {
    /// Whether the peer initiated the connection.
    pub is_server: bool,
    /// Key for a scheduled pacer event.
    ///
    /// When the event is fired, we're allowed to send a next packet.
    pub timer_pacer_key: Option<DeadlineKey>,
    /// Key for a scheduled Quiche timeout event.
    pub timer_quiche_timeout_key: Option<DeadlineKey>,
    /// Key for a scheduled establish timeout event.
    ///
    /// When event fires and connection is not established yet,
    /// it gets removed.
    pub timer_establish_timeout_key: Option<DeadlineKey>,
    /// It's unique trace ID: the same as [QuicheConnectionId::trace].
    pub trace: Trace,
    /// An outgoing bidirectional stream ID sequence.
    pub stream_bidi_sequence: StreamId,
    /// An outgoing unidirectional stream ID sequence.
    pub stream_uni_sequence: StreamId,
    /// `true` if the peer has verified its address against spoofing.
    pub peer_address_verified: bool,
    /// `true` if an application hit the peer's bidirectional stream limit.
    ///
    /// It is used for tracking whether to send a [ConnectionEvent::StreamsAvailable] or not.
    pub streams_bidi_exhausted: bool,
    /// `true` if an application hit the peer's unidirectional stream limit.
    ///
    /// It is used for tracking whether to send a [ConnectionEvent::StreamsAvailable] or not.
    pub streams_uni_exhausted: bool,
    /// `true` if an application read all available datagrams, at this moment.
    ///
    /// It is used for tracking whether to send a [DatagramEvent::InAvailable] or not.
    pub dgram_in_drained: bool,
    /// `true` if an application hit the writing datagram limit, at this moment.
    ///
    /// It is used for tracking whether to send a [DatagramEvent::OutAvailable] or not.
    pub dgram_out_drained: bool,
    /// Last known maximum size for an outgoing datagram.
    ///
    /// It is used for tracking whether to send a [DatagramEvent::OutNewSize] or not.
    pub dgram_out_max_size: u16,
    /// `true` if a [ConnectionEvent::Closed] or similar event was sent.
    ///
    /// It is used to avoid close events duplications.
    pub closed_event_sent: bool,
}

/// The event is a [ConnectionEvent::Closed] with the given fields.
pub open spec fn is_closed_event<CId>(
    event: ConnectionEvent<CId>,
    id: CId,
    code: u64,
    reason_bytes: Seq<u8>,
    application: bool,
    local: bool,
) -> bool {
    match event {
        ConnectionEvent::Closed { connection_id, code: c, reason, is_application, is_local } => {
            &&& connection_id == id
            &&& c == code
            &&& data::content(reason) == reason_bytes
            &&& is_application == application
            &&& is_local == local
        },
        _ => false,
    }
}

/// The event that a connection with the status is closed with.
pub open spec fn is_close_event_of(
    event: ConnectionEvent<QuicheConnectionId>,
    id: QuicheConnectionId,
    status: CloseStatus,
) -> bool {
    if status.is_timed_out {
        event == (ConnectionEvent::Halted { connection_id: id, kind: HaltKind::Timeout })
    } else {
        match (status.local_error, status.peer_error) {
            (Some(error), _) => is_closed_event(
                event,
                id,
                error.error_code,
                error.reason@,
                error.is_app,
                true,
            ),
            (None, Some(error)) => is_closed_event(
                event,
                id,
                error.error_code,
                error.reason@,
                error.is_app,
                false,
            ),
            (None, None) => event == (ConnectionEvent::Halted {
                connection_id: id,
                kind: HaltKind::StatelessReset,
            }),
        }
    }
}

/// The stream ID that follows in its sequence exists.
pub open spec fn has_next(id: StreamId) -> bool {
    id@ + 4 <= StreamId::MAX
}

impl Connection {
    /// Nothing has happened to the connection yet.
    pub open spec fn is_fresh(&self) -> bool {
        &&& self.timer_pacer_key is None
        &&& self.timer_quiche_timeout_key is None
        &&& self.timer_establish_timeout_key is None
        &&& self.stream_bidi_sequence@ == if self.is_server {
            1nat
        } else {
            0
        }
        &&& self.stream_uni_sequence@ == if self.is_server {
            3nat
        } else {
            2
        }
        &&& !self.streams_bidi_exhausted
        &&& !self.streams_uni_exhausted
        &&& !self.dgram_in_drained
        &&& !self.dgram_out_drained
        &&& self.dgram_out_max_size == 0
        &&& !self.closed_event_sent
    }

    /// Creates a new connection context.
    ///
    /// # Arguments:
    ///
    /// - `is_server`: `true` if the peer initiated the connection.
    /// - `peer_address_verified`: `true` if the connection is a server connection,
    ///   and peer has verified its address using an `Initial` token.
    pub fn new(is_server: bool, peer_address_verified: bool) -> (r: Self)
        ensures
            r.is_fresh(),
            r.is_server == is_server,
            r.peer_address_verified == (!is_server || peer_address_verified),
    {
        let is_client: bool = !is_server;
        let r = Self {
            is_server,
            timer_pacer_key: None,
            timer_quiche_timeout_key: None,
            timer_establish_timeout_key: None,
            trace: Trace::random(),
            stream_bidi_sequence: StreamId::initial(is_client, true),
            stream_uni_sequence: StreamId::initial(is_client, false),
            peer_address_verified: is_client || peer_address_verified,
            streams_bidi_exhausted: false,
            streams_uni_exhausted: false,
            dgram_in_drained: false,
            dgram_out_drained: false,
            dgram_out_max_size: 0,
            closed_event_sent: false,
        };
        r
    }

    /// The timer key of a kind.
    pub open spec fn timer_key(&self, kind: TimerKind) -> Option<DeadlineKey> {
        match kind {
            TimerKind::Pacer => self.timer_pacer_key,
            TimerKind::QuicheTimeout => self.timer_quiche_timeout_key,
            TimerKind::EstablishTimeout => self.timer_establish_timeout_key,
        }
    }

    /// The connection with another timer key of a kind.
    pub open spec fn with_timer_key(self, kind: TimerKind, key: Option<DeadlineKey>) -> Connection {
        match kind {
            TimerKind::Pacer => Connection { timer_pacer_key: key, ..self },
            TimerKind::QuicheTimeout => Connection { timer_quiche_timeout_key: key, ..self },
            TimerKind::EstablishTimeout => Connection { timer_establish_timeout_key: key, ..self },
        }
    }

    /// Returns a timer key associated with the specified `kind`.
    ///
    /// The original key is removed afterwards.
    pub fn pop_timer_key(&mut self, kind: TimerKind) -> (r: Option<DeadlineKey>)
        ensures
            r == old(self).timer_key(kind),
            *final(self) == old(self).with_timer_key(kind, None),
    {
        match kind {
            TimerKind::Pacer => self.timer_pacer_key.take(),
            TimerKind::QuicheTimeout => self.timer_quiche_timeout_key.take(),
            TimerKind::EstablishTimeout => self.timer_establish_timeout_key.take(),
        }
    }

    /// Sets the specified timer `key`, may be `None` to reset.
    pub fn set_timer_key(&mut self, kind: TimerKind, key: Option<DeadlineKey>)
        ensures
            *final(self) == old(self).with_timer_key(kind, key),
    {
        match kind {
            TimerKind::Pacer => {
                self.timer_pacer_key = key;
            },
            TimerKind::QuicheTimeout => {
                self.timer_quiche_timeout_key = key;
            },
            TimerKind::EstablishTimeout => {
                self.timer_establish_timeout_key = key;
            },
        }
    }

    /// The stream ID that is opened next on a direction.
    pub open spec fn sequence(&self, bidirectional: bool) -> StreamId {
        if bidirectional {
            self.stream_bidi_sequence
        } else {
            self.stream_uni_sequence
        }
    }

    /// Returns an ID of the last locally opened stream on the specified directionality.
    pub fn get_last_local_stream_id(&self, bidirectional: bool) -> (r: Option<StreamId>)
        ensures
            r is Some <==> self.sequence(bidirectional)@ >= 4,
            r matches Some(id) ==> id@ == self.sequence(bidirectional)@ - 4,
    {
        let sequence: StreamId = if bidirectional {
            self.stream_bidi_sequence
        } else {
            self.stream_uni_sequence
        };
        match sequence.previous() {
            Ok(id) => Some(id),
            Err(_) => None,
        }
    }

    /// Returns the number of streams of the specified directionality
    /// that can be created before the peer's stream count limit is reached.
    pub fn peer_streams_left(bidirectional: bool, left_bidi: u64, left_uni: u64) -> (r: u64)
        ensures
            r == if bidirectional {
                left_bidi
            } else {
                left_uni
            },
    {
        if bidirectional {
            left_bidi
        } else {
            left_uni
        }
    }

    /// Allocates a new stream ID for the specified direction, incrementing it locally afterwards.
    pub fn allocate_stream_id(&mut self, bidirectional: bool) -> (r: Result<
        StreamId,
        StreamIdError,
    >)
        ensures
            r is Ok <==> has_next(old(self).sequence(bidirectional)),
            r matches Ok(id) ==> {
                &&& id == old(self).sequence(bidirectional)
                &&& final(self).sequence(bidirectional)@ == id@ + 4
                &&& *final(self) == if bidirectional {
                    Connection {
                        stream_bidi_sequence: final(self).stream_bidi_sequence,
                        ..*old(self)
                    }
                } else {
                    Connection { stream_uni_sequence: final(self).stream_uni_sequence, ..*old(self) }
                }
            },
            r is Err ==> *final(self) == *old(self),
    {
        let sequence: StreamId = if bidirectional {
            self.stream_bidi_sequence
        } else {
            self.stream_uni_sequence
        };
        match sequence.next() {
            Ok(next) => {
                if bidirectional {
                    self.stream_bidi_sequence = next;
                } else {
                    self.stream_uni_sequence = next;
                }
                Ok(sequence)
            },
            Err(error) => Err(error),
        }
    }

    /// Returns a timestamp when a next packet can be released and sent to a peer,
    /// or `None` if it can be done immediately.
    pub fn get_next_release_time(decision: Option<ReleaseDecision>, now: Instant) -> (r: Option<
        Instant,
    >)
        ensures
            r == match decision {
                Some(ReleaseDecision { can_burst: false, time: Some(time) }) if time.since(now)
                    > PACER_GRANULARITY_NANOS => Some(time),
                _ => None,
            },
    {
        let Some(decision) = decision else {
            return None;
        };
        if decision.can_burst {
            return None;
        }
        let Some(time) = decision.time else {
            return None;
        };
        if time.saturating_duration_since(now).nanos <= PACER_GRANULARITY_NANOS {
            return None;
        }
        Some(time)
    }

    /// Notifies that an application exhausted the peer's stream limit
    /// on the specified direction.
    pub fn set_streams_exhausted(&mut self, bidirectional: bool)
        ensures
            *final(self) == if bidirectional {
                Connection { streams_bidi_exhausted: true, ..*old(self) }
            } else {
                Connection { streams_uni_exhausted: true, ..*old(self) }
            },
    {
        if bidirectional {
            self.streams_bidi_exhausted = true;
        } else {
            self.streams_uni_exhausted = true;
        }
    }

    /// An application waits for streams on a direction, and can open one now.
    pub open spec fn streams_available(&self, bidirectional: bool, left: u64) -> bool {
        &&& if bidirectional {
            self.streams_bidi_exhausted
        } else {
            self.streams_uni_exhausted
        }
        &&& left != 0
        &&& has_next(self.sequence(bidirectional))
    }

    /// The events that an application gets that waits for streams.
    pub open spec fn streams_available_events(
        &self,
        key: ConnectionKey,
        left_bidi: u64,
        left_uni: u64,
    ) -> Seq<ConnectionEvent<QuicheConnectionId>> {
        let id = self.spec_id(key);
        (if self.streams_available(true, left_bidi) {
            seq![ConnectionEvent::StreamsAvailable { connection_id: id, is_bidirectional: true }]
        } else {
            Seq::empty()
        }) + (if self.streams_available(false, left_uni) {
            seq![ConnectionEvent::StreamsAvailable { connection_id: id, is_bidirectional: false }]
        } else {
            Seq::empty()
        })
    }

    /// Returns [ConnectionEvent::StreamsAvailable] events,
    /// if an application waits for one of them.
    ///
    /// * `left_bidi`, `left_uni`: the number of streams that can be created
    ///   before the peer's stream count limit is reached.
    pub fn get_connection_streams_available_events(
        &mut self,
        key: ConnectionKey,
        left_bidi: u64,
        left_uni: u64,
    ) -> (r: Vec<ConnectionEvent<QuicheConnectionId>>)
        ensures
            r@ == old(self).streams_available_events(key, left_bidi, left_uni),
            *final(self) == (Connection {
                streams_bidi_exhausted: old(self).streams_bidi_exhausted && !old(
                    self,
                ).streams_available(true, left_bidi),
                streams_uni_exhausted: old(self).streams_uni_exhausted && !old(
                    self,
                ).streams_available(false, left_uni),
                ..*old(self)
            }),
    {
        let mut events: Vec<ConnectionEvent<QuicheConnectionId>> = Vec::new();
        if self.streams_bidi_exhausted && left_bidi != 0
            && self.stream_bidi_sequence.next().is_ok() {
            self.streams_bidi_exhausted = false;
            events.push(
                ConnectionEvent::StreamsAvailable {
                    connection_id: self.id(key),
                    is_bidirectional: true,
                },
            );
        }
        if self.streams_uni_exhausted && left_uni != 0 && self.stream_uni_sequence.next().is_ok() {
            self.streams_uni_exhausted = false;
            events.push(
                ConnectionEvent::StreamsAvailable {
                    connection_id: self.id(key),
                    is_bidirectional: false,
                },
            );
        }
        assert(events@ =~= old(self).streams_available_events(key, left_bidi, left_uni));
        events
    }

    /// Notifies that application read all incoming datagrams,
    /// and waits for a next [DatagramEvent::InAvailable] event.
    pub fn set_dgram_in_drained(&mut self)
        ensures
            *final(self) == (Connection { dgram_in_drained: true, ..*old(self) }),
    {
        self.dgram_in_drained = true;
    }

    /// Notifies that application hit the outgoint datagram limit (internal buffers are full),
    /// and waits for a next [DatagramEvent::OutAvailable] event.
    pub fn set_dgram_out_drained(&mut self)
        ensures
            *final(self) == (Connection { dgram_out_drained: true, ..*old(self) }),
    {
        self.dgram_out_drained = true;
    }

    /// Returns an [DatagramEvent::InAvailable] event if an application waits for it.
    pub fn get_dgram_in_available_event(&mut self, key: ConnectionKey) -> (r: Option<
        DatagramEvent<QuicheConnectionId>,
    >)
        ensures
            r == if old(self).dgram_in_drained {
                Some(DatagramEvent::InAvailable(old(self).spec_id(key)))
            } else {
                None
            },
            *final(self) == (Connection { dgram_in_drained: false, ..*old(self) }),
    {
        if !self.dgram_in_drained {
            return None;
        }
        self.dgram_in_drained = false;
        Some(DatagramEvent::InAvailable(self.id(key)))
    }

    /// Returns an [DatagramEvent::OutAvailable] event if an application waits for it.
    pub fn get_dgram_out_available_event(&mut self, key: ConnectionKey) -> (r: Option<
        DatagramEvent<QuicheConnectionId>,
    >)
        ensures
            r == if old(self).dgram_out_drained {
                Some(DatagramEvent::OutAvailable(old(self).spec_id(key)))
            } else {
                None
            },
            *final(self) == (Connection { dgram_out_drained: false, ..*old(self) }),
    {
        if !self.dgram_out_drained {
            return None;
        }
        self.dgram_out_drained = false;
        Some(DatagramEvent::OutAvailable(self.id(key)))
    }

    /// The size that an application is told for a maximum of writable bytes.
    pub open spec fn told_size(max_writable_len: Option<usize>) -> u16 {
        match max_writable_len {
            None => 0,
            Some(len) => if len < u16::MAX {
                len as u16
            } else {
                u16::MAX
            },
        }
    }

    /// Returns an [DatagramEvent::OutNewSize] event if the maximum outgoing datagram size has changed.
    pub fn get_dgram_out_size_event(
        &mut self,
        key: ConnectionKey,
        max_writable_len: Option<usize>,
    ) -> (r: Option<DatagramEvent<QuicheConnectionId>>)
        ensures
            ({
                let size = Self::told_size(max_writable_len);
                &&& r == if old(self).dgram_out_max_size == size {
                    None
                } else {
                    Some(DatagramEvent::OutNewSize(old(self).spec_id(key), size))
                }
                &&& *final(self) == (Connection { dgram_out_max_size: size, ..*old(self) })
            }),
    {
        let max_size: u16 = match max_writable_len {
            None => 0,
            Some(len) => if len < u16::MAX as usize {
                len as u16
            } else {
                u16::MAX
            },
        };
        if self.dgram_out_max_size == max_size {
            return None;
        }
        self.dgram_out_max_size = max_size;
        Some(DatagramEvent::OutNewSize(self.id(key), max_size))
    }

    /// Returns a [ConnectionEvent::Closed] or [ConnectionEvent::Halted] event,
    /// if it wasn't created previously.
    pub fn get_close_event(&mut self, key: ConnectionKey, status: &CloseStatus) -> (r: Option<
        ConnectionEvent<QuicheConnectionId>,
    >)
        ensures
            r is Some <==> !old(self).closed_event_sent,
            r matches Some(event) ==> is_close_event_of(event, old(self).spec_id(key), *status),
            *final(self) == (Connection { closed_event_sent: true, ..*old(self) }),
    {
        if self.closed_event_sent {
            return None;
        }
        self.closed_event_sent = true;
        if status.is_timed_out {
            return Some(
                ConnectionEvent::Halted { connection_id: self.id(key), kind: HaltKind::Timeout },
            );
        }
        if let Some(error) = &status.local_error {
            return Some(
                ConnectionEvent::Closed {
                    connection_id: self.id(key),
                    code: error.error_code,
                    reason: data::copy_from_slice(error.reason.as_slice()),
                    is_application: error.is_app,
                    is_local: true,
                },
            );
        }
        if let Some(error) = &status.peer_error {
            return Some(
                ConnectionEvent::Closed {
                    connection_id: self.id(key),
                    code: error.error_code,
                    reason: data::copy_from_slice(error.reason.as_slice()),
                    is_application: error.is_app,
                    is_local: false,
                },
            );
        }
        Some(
            ConnectionEvent::Halted { connection_id: self.id(key), kind: HaltKind::StatelessReset },
        )
    }

    /// Returns a [ConnectionEvent::Halted] event,
    /// if a close event wasn't created previously.
    pub fn get_halt_event(&mut self, key: ConnectionKey, kind: HaltKind) -> (r: Option<
        ConnectionEvent<QuicheConnectionId>,
    >)
        ensures
            r == if old(self).closed_event_sent {
                None
            } else {
                Some(ConnectionEvent::Halted { connection_id: old(self).spec_id(key), kind })
            },
            *final(self) == (Connection { closed_event_sent: true, ..*old(self) }),
    {
        if self.closed_event_sent {
            return None;
        }
        self.closed_event_sent = true;
        Some(ConnectionEvent::Halted { connection_id: self.id(key), kind })
    }

    /// The stable ID of the connection.
    pub open spec fn spec_id(&self, key: ConnectionKey) -> QuicheConnectionId {
        QuicheConnectionId { key, trace: self.trace }
    }

    /// Recreates a [QuicheConnectionId] for the specified `key`.
    pub fn id(&self, key: ConnectionKey) -> (r: QuicheConnectionId)
        ensures
            r == self.spec_id(key),
    {
        QuicheConnectionId { key, trace: self.trace }
    }
}

/// Whoever closes a connection, it is told by whom, with the code and the reason of the error,
/// and as an error of the application if and only if the error is one.
/// An error of our side comes first. Without an error, or after a timeout, the connection has halted.
pub proof fn law_close_event_tells_the_error(
    event: ConnectionEvent<QuicheConnectionId>,
    id: QuicheConnectionId,
    status: CloseStatus,
)
    requires
        is_close_event_of(event, id, status),
    ensures
        event is Closed <==> !status.is_timed_out && (status.local_error is Some
            || status.peer_error is Some),
        event matches ConnectionEvent::Closed {
            connection_id,
            code,
            reason,
            is_application,
            is_local,
        } ==> {
            let error = if is_local {
                status.local_error
            } else {
                status.peer_error
            };
            &&& connection_id == id
            &&& is_local == (status.local_error is Some)
            &&& error is Some
            &&& code == error->0.error_code
            &&& data::content(reason) == error->0.reason@
            &&& is_application == error->0.is_app
        },
        event matches ConnectionEvent::Halted { connection_id, kind } ==> {
            &&& connection_id == id
            &&& status.is_timed_out ==> kind == HaltKind::Timeout
            &&& !status.is_timed_out ==> kind == HaltKind::StatelessReset
        },
        event is Closed || event is Halted,
{
}

/// A timer key that was set is the one of its kind, and of no other kind;
/// nothing else of the connection changes.
pub proof fn law_timer_keys_are_kept_by_kind(
    connection: Connection,
    kind: TimerKind,
    key: Option<DeadlineKey>,
    other: TimerKind,
)
    ensures
        connection.with_timer_key(kind, key).timer_key(kind) == key,
        other != kind ==> connection.with_timer_key(kind, key).timer_key(other)
            == connection.timer_key(other),
        connection.with_timer_key(kind, key).with_timer_key(kind, connection.timer_key(kind))
            == connection,
        connection.with_timer_key(kind, key) == (Connection {
            timer_pacer_key: connection.with_timer_key(kind, key).timer_pacer_key,
            timer_quiche_timeout_key: connection.with_timer_key(kind, key).timer_quiche_timeout_key,
            timer_establish_timeout_key: connection.with_timer_key(
                kind,
                key,
            ).timer_establish_timeout_key,
            ..connection
        }),
{
}

/// An application is told that it can open streams if and only if it waits for them,
/// the peer allows one, and there is a stream ID left, for each directionality on its own.
pub proof fn law_awaited_streams_are_told(
    connection: Connection,
    key: ConnectionKey,
    left_bidi: u64,
    left_uni: u64,
    bidirectional: bool,
)
    ensures
        ({
            let events = connection.streams_available_events(key, left_bidi, left_uni);
            let told = ConnectionEvent::StreamsAvailable {
                connection_id: connection.spec_id(key),
                is_bidirectional: bidirectional,
            };
            let next = if bidirectional {
                connection.stream_bidi_sequence@
            } else {
                connection.stream_uni_sequence@
            };
            &&& events.contains(told) <==> {
                &&& if bidirectional {
                    connection.streams_bidi_exhausted && left_bidi > 0
                } else {
                    connection.streams_uni_exhausted && left_uni > 0
                }
                &&& next + 4 < 0x4000_0000_0000_0000
            }
            &&& events.no_duplicates()
            &&& forall|i: int| 0 <= i < events.len() ==> (#[trigger] events[i]) is StreamsAvailable
        }),
{
    let events = connection.streams_available_events(key, left_bidi, left_uni);
    let id = connection.spec_id(key);
    let bidi: ConnectionEvent<QuicheConnectionId> = ConnectionEvent::StreamsAvailable {
        connection_id: id,
        is_bidirectional: true,
    };
    let uni: ConnectionEvent<QuicheConnectionId> = ConnectionEvent::StreamsAvailable {
        connection_id: id,
        is_bidirectional: false,
    };
    if connection.streams_available(true, left_bidi) {
        assert(events[0] == bidi);
        if connection.streams_available(false, left_uni) {
            assert(events[1] == uni);
        }
    } else if connection.streams_available(false, left_uni) {
        assert(events[0] == uni);
    }
}

/// An application is told the size of a datagram that it can send, as far as sixteen bits
/// can tell it, and zero if it can send none.
pub proof fn law_told_size_is_the_size(max_writable_len: Option<usize>)
    ensures
        max_writable_len is None ==> Connection::told_size(max_writable_len) == 0,
        max_writable_len matches Some(len) ==> {
            &&& len <= 0xffff ==> Connection::told_size(max_writable_len) == len
            &&& len > 0xffff ==> Connection::told_size(max_writable_len) == 0xffff
        },
{
}

/// A new connection has opened no stream: its first streams are those that its side starts with.
/// It has told nothing, and nothing is scheduled for it.
pub proof fn law_new_connection_has_no_history(connection: Connection, kind: TimerKind)
    requires
        connection.is_fresh(),
    ensures
        connection.timer_key(kind) is None,
        connection.stream_bidi_sequence@ < 4,
        connection.stream_uni_sequence@ < 4,
        connection.stream_bidi_sequence.by_server() == connection.is_server,
        connection.stream_uni_sequence.by_server() == connection.is_server,
        !connection.stream_bidi_sequence.one_way(),
        connection.stream_uni_sequence.one_way(),
        !connection.streams_bidi_exhausted,
        !connection.streams_uni_exhausted,
        !connection.dgram_in_drained,
        !connection.dgram_out_drained,
        connection.dgram_out_max_size == 0,
        !connection.closed_event_sent,
{
}

/// A packet is deferred only if it is due more than fifty microseconds ahead.
pub proof fn law_pacing_is_as_fine_as_the_clock(time: Instant, now: Instant)
    ensures
        time.since(now) > PACER_GRANULARITY_NANOS <==> time.nanos > now.nanos + 50_000,
{
}

/// The ID of a connection is its key, whatever it is traced as.
pub proof fn law_ids_are_keys(a: QuicheConnectionId, b: QuicheConnectionId)
    ensures
        a.eq_spec(&b) <==> a.key == b.key,
        a.eq_spec(&a),
{
}

/// The keys of present connections have their thirty-third bit set.
pub proof fn law_keys_have_odd_versions(raw: u64)
    ensures
        is_key(raw) <==> raw & 0x1_0000_0000 != 0,
{
    assert(((raw / 0x1_0000_0000) % 2 == 1) == (raw & 0x1_0000_0000 != 0)) by (bit_vector);
}

} // verus!

use crate::backend::quinn::proto;
use crate::backend::quinn::proto::{Lost, StreamChange};
use crate::backend::util::DeadlineKey;
use crate::backend::{ConnectionEvent, DatagramEvent, Event, HaltKind, StreamEvent};
use crate::stream::StreamId;
use crate::util::data;
use crate::util::trace::Trace;
use bytes::Bytes;
use quinn_proto::Connection as QuinnConnection;
use vstd::prelude::*;
use vstd::std_specs::cmp::PartialEqSpec;
use vstd::string::StringSliceAdditionalSpecFns;

verus! {

/// A Quinn stable connection ID.
#[derive(Debug, Clone, Copy)]
pub struct QuinnConnectionId {
    /// A `quinn-proto` generated key.
    pub key: usize,
    /// A unique trace for logging and debugging.
    pub trace: Trace,
    /// `key` version to avoid ABA bugs.
    pub version: u32,
}

impl PartialEq for QuinnConnectionId {
    fn eq(&self, other: &Self) -> (r: bool) {
        self.key == other.key && self.version == other.version
    }
}

impl vstd::std_specs::cmp::PartialEqSpecImpl for QuinnConnectionId {
    open spec fn obeys_eq_spec() -> bool {
        true
    }

    open spec fn eq_spec(&self, other: &Self) -> bool {
        self.key == other.key && self.version == other.version
    }
}

impl Eq for QuinnConnectionId {

}

/// What the backend knows of a connection, besides what `quinn-proto` does.
#[derive(Debug, Clone, Copy)]
pub struct Context {
    /// Key of a scheduled Quinn timeout event.
    pub timer_quinn_timeout_key: Option<DeadlineKey>,
    /// Its unique trace ID: the same as in its [QuinnConnectionId].
    pub trace: Trace,
    /// Connection unique version for ABA bug avoidance.
    pub version: u32,
    /// Last known maximum size for an outgoing datagram.
    ///
    /// It is used for tracking whether to send a [DatagramEvent::OutNewSize] or not.
    pub dgram_out_max_size: u16,
    /// `true` if a [ConnectionEvent::Closed] or similar event was sent.
    ///
    /// It is used to avoid close events duplications.
    pub closed_event_sent: bool,
}

/// QUIC connection and its context.
pub struct Connection {
    /// `quinn-proto` connection.
    pub inner: QuinnConnection,
    /// The context.
    pub context: Context,
}

/// The maximum size of a datagram, as an event tells it.
pub open spec fn told_size(max_size: Option<usize>) -> u16 {
    match max_size {
        None => 0,
        Some(size) => if size <= u16::MAX {
            size as u16
        } else {
            u16::MAX
        },
    }
}

/// The event tells that the connection is lost, and why.
pub open spec fn is_lost_event(
    event: ConnectionEvent<QuinnConnectionId>,
    id: QuinnConnectionId,
    lost: Lost,
) -> bool {
    match lost {
        Lost::VersionMismatch => event == (ConnectionEvent::Halted {
            connection_id: id,
            kind: HaltKind::UnknownVersion,
        }),
        Lost::Transport(code, reason) => event == (ConnectionEvent::Closed {
            connection_id: id,
            code,
            reason,
            is_application: false,
            is_local: true,
        }),
        Lost::ConnectionClosed(code, reason) => event == (ConnectionEvent::Closed {
            connection_id: id,
            code,
            reason,
            is_application: false,
            is_local: false,
        }),
        Lost::ApplicationClosed(code, reason) => event == (ConnectionEvent::Closed {
            connection_id: id,
            code,
            reason,
            is_application: true,
            is_local: false,
        }),
        Lost::TimedOut => event == (ConnectionEvent::Halted {
            connection_id: id,
            kind: HaltKind::Timeout,
        }),
        Lost::Reset => event == (ConnectionEvent::Halted {
            connection_id: id,
            kind: HaltKind::StatelessReset,
        }),
        Lost::CidsExhausted => is_error_event(event, id, "not enough CID space".spec_bytes()),
        Lost::LocallyClosed => false,
    }
}

/// The event tells that the connection is halted with an error.
pub open spec fn is_error_event(
    event: ConnectionEvent<QuinnConnectionId>,
    id: QuinnConnectionId,
    reason: Seq<u8>,
) -> bool {
    &&& event matches ConnectionEvent::Halted { connection_id, kind }
    &&& connection_id == id
    &&& kind matches HaltKind::Error(bytes)
    &&& data::content(bytes) == reason
}

/// The event that tells what has happened to a stream.
///
/// * `accepted`: the raw ID of a stream that the peer has opened, if there is one.
pub open spec fn stream_event_of(
    id: QuinnConnectionId,
    change: StreamChange,
    accepted: Option<u64>,
) -> Option<Event<QuinnConnectionId>> {
    match change {
        StreamChange::Opened(_) => match accepted {
            Some(raw) => available(id, raw),
            None => None,
        },
        StreamChange::Available(bidirectional) => Some(
            Event::Connection(
                ConnectionEvent::StreamsAvailable {
                    connection_id: id,
                    is_bidirectional: bidirectional,
                },
            ),
        ),
        StreamChange::Readable(raw) => available(id, raw),
        StreamChange::Writable(raw) => available(id, raw),
        StreamChange::Finished(raw) => available(id, raw),
        StreamChange::Stopped(raw, code) => if raw <= StreamId::MAX {
            Some(Event::Stream(StreamEvent::Reset(id, StreamId::of(raw), code)))
        } else {
            None
        },
    }
}

/// The event that a stream is available. There is none if the raw ID is not one of a stream.
pub open spec fn available(id: QuinnConnectionId, raw: u64) -> Option<Event<QuinnConnectionId>> {
    if raw <= StreamId::MAX {
        Some(Event::Stream(StreamEvent::Available(id, StreamId::of(raw))))
    } else {
        None
    }
}

fn make_available(id: QuinnConnectionId, raw: u64) -> (r: Option<Event<QuinnConnectionId>>)
    ensures
        r == available(id, raw),
{
    match StreamId::new(raw) {
        Ok(stream_id) => Some(Event::Stream(StreamEvent::Available(id, stream_id))),
        Err(_) => None,
    }
}

/// Returns the event that tells what has happened to a stream.
///
/// * `accepted`: the raw ID of a stream that the peer has opened, if there is one.
pub fn make_stream_event(
    id: QuinnConnectionId,
    change: StreamChange,
    accepted: Option<u64>,
) -> (r: Option<Event<QuinnConnectionId>>)
    ensures
        r == stream_event_of(id, change, accepted),
{
    match change {
        StreamChange::Opened(_) => match accepted {
            Some(raw) => make_available(id, raw),
            None => None,
        },
        StreamChange::Available(bidirectional) => Some(
            Event::Connection(
                ConnectionEvent::StreamsAvailable {
                    connection_id: id,
                    is_bidirectional: bidirectional,
                },
            ),
        ),
        StreamChange::Readable(raw) => make_available(id, raw),
        StreamChange::Writable(raw) => make_available(id, raw),
        StreamChange::Finished(raw) => make_available(id, raw),
        StreamChange::Stopped(raw, code) => match StreamId::new(raw) {
            Ok(stream_id) => Some(Event::Stream(StreamEvent::Reset(id, stream_id, code))),
            Err(_) => None,
        },
    }
}

impl Context {
    /// The context of a new connection.
    pub open spec fn fresh(trace: Trace, version: u32) -> Context {
        Context {
            timer_quinn_timeout_key: None,
            dgram_out_max_size: 0,
            closed_event_sent: false,
            trace,
            version,
        }
    }

    /// The context of a connection whose maximum size of an outgoing datagram was told.
    pub open spec fn sized(self, max_size: Option<usize>) -> Context {
        Context { dgram_out_max_size: told_size(max_size), ..self }
    }

    /// The event that tells the maximum size of an outgoing datagram, if it has changed.
    pub open spec fn size_event(self, key: usize, max_size: Option<usize>) -> Option<
        DatagramEvent<QuinnConnectionId>,
    > {
        if told_size(max_size) == self.dgram_out_max_size {
            None
        } else {
            Some(DatagramEvent::OutNewSize(self.spec_id(key), told_size(max_size)))
        }
    }

    /// The ID of the connection.
    pub open spec fn spec_id(&self, key: usize) -> QuinnConnectionId {
        QuinnConnectionId { key, trace: self.trace, version: self.version }
    }
}

impl Connection {
    /// Creates a new connection context, wrapping original quinn connection.
    pub fn new(quinn_connection: QuinnConnection, trace: Trace, version: u32) -> (r: Self)
        ensures
            r.inner == quinn_connection,
            r.context == Context::fresh(trace, version),
    {
        Self {
            inner: quinn_connection,
            context: Context {
                timer_quinn_timeout_key: None,
                dgram_out_max_size: 0,
                closed_event_sent: false,
                trace,
                version,
            },
        }
    }

    /// Returns a Quinn timer key.
    ///
    /// The original key is removed afterwards.
    pub fn pop_timer_key(&mut self) -> (r: Option<DeadlineKey>)
        ensures
            r == old(self).context.timer_quinn_timeout_key,
            final(self).inner == old(self).inner,
            final(self).context == (Context {
                timer_quinn_timeout_key: None,
                ..old(self).context
            }),
    {
        let key = self.context.timer_quinn_timeout_key;
        self.context.timer_quinn_timeout_key = None;
        key
    }

    /// Sets the specified timer `key`, may be `None` to reset.
    pub fn set_timer_key(&mut self, key: Option<DeadlineKey>)
        ensures
            final(self).inner == old(self).inner,
            final(self).context == (Context { timer_quinn_timeout_key: key, ..old(self).context }),
    {
        self.context.timer_quinn_timeout_key = key;
    }

    /// Returns an [DatagramEvent::OutNewSize] event if the maximum outgoing datagram size
    /// has changed.
    pub fn get_dgram_out_size_event(&mut self, key: usize) -> (r: Option<
        DatagramEvent<QuinnConnectionId>,
    >)
        ensures
            final(self).inner == old(self).inner,
            final(self).context == old(self).context.sized(proto::max_dgram(old(self).inner)),
            r == old(self).context.size_event(key, proto::max_dgram(old(self).inner)),
    {
        let max_size: Option<usize> = proto::dgram_max_size(&mut self.inner);
        self.tell_dgram_out_size(key, max_size)
    }

    /// Takes the maximum size of an outgoing datagram, `None` if datagrams are not supported.
    ///
    /// Returns an [DatagramEvent::OutNewSize] event if it has changed.
    pub fn tell_dgram_out_size(&mut self, key: usize, max_size: Option<usize>) -> (r: Option<
        DatagramEvent<QuinnConnectionId>,
    >)
        ensures
            final(self).inner == old(self).inner,
            final(self).context == old(self).context.sized(max_size),
            r == old(self).context.size_event(key, max_size),
    {
        let max_size: u16 = match max_size {
            None => 0,
            Some(size) => if size <= u16::MAX as usize {
                size as u16
            } else {
                u16::MAX
            },
        };
        if self.context.dgram_out_max_size == max_size {
            return None;
        }
        self.context.dgram_out_max_size = max_size;
        Some(DatagramEvent::OutNewSize(self.id(key), max_size))
    }

    /// Returns a [ConnectionEvent::Closed] event,
    /// if a close event wasn't created previously.
    pub fn get_close_event(
        &mut self,
        key: usize,
        code: u64,
        reason: Bytes,
        is_application: bool,
        is_local: bool,
    ) -> (r: Option<ConnectionEvent<QuinnConnectionId>>)
        ensures
            final(self).inner == old(self).inner,
            final(self).context == (Context { closed_event_sent: true, ..old(self).context }),
            r == if old(self).context.closed_event_sent {
                None
            } else {
                Some(
                    ConnectionEvent::Closed {
                        connection_id: old(self).context.spec_id(key),
                        code,
                        reason,
                        is_application,
                        is_local,
                    },
                )
            },
    {
        if self.context.closed_event_sent {
            return None;
        }
        self.context.closed_event_sent = true;
        Some(
            ConnectionEvent::Closed {
                connection_id: self.id(key),
                code,
                reason,
                is_application,
                is_local,
            },
        )
    }

    /// Returns a [ConnectionEvent::Halted] event,
    /// if a close event wasn't created previously.
    pub fn get_halt_event(&mut self, key: usize, kind: HaltKind) -> (r: Option<
        ConnectionEvent<QuinnConnectionId>,
    >)
        ensures
            final(self).inner == old(self).inner,
            final(self).context == (Context { closed_event_sent: true, ..old(self).context }),
            r == if old(self).context.closed_event_sent {
                None
            } else {
                Some(
                    ConnectionEvent::Halted { connection_id: old(self).context.spec_id(key), kind },
                )
            },
    {
        if self.context.closed_event_sent {
            return None;
        }
        self.context.closed_event_sent = true;
        Some(ConnectionEvent::Halted { connection_id: self.id(key), kind })
    }

    /// Returns the event of a connection that is lost,
    /// if a close event wasn't created previously.
    pub fn get_lost_event(&mut self, key: usize, lost: Lost) -> (r: Option<
        ConnectionEvent<QuinnConnectionId>,
    >)
        ensures
            final(self).inner == old(self).inner,
            final(self).context == if lost is LocallyClosed {
                old(self).context
            } else {
                Context { closed_event_sent: true, ..old(self).context }
            },
            r is Some <==> !old(self).context.closed_event_sent && !(lost is LocallyClosed),
            r matches Some(event) ==> is_lost_event(event, old(self).context.spec_id(key), lost),
    {
        match lost {
            Lost::VersionMismatch => self.get_halt_event(key, HaltKind::UnknownVersion),
            Lost::Transport(code, reason) => self.get_close_event(key, code, reason, false, true),
            Lost::ConnectionClosed(code, reason) => self.get_close_event(
                key,
                code,
                reason,
                false,
                false,
            ),
            Lost::ApplicationClosed(code, reason) => self.get_close_event(
                key,
                code,
                reason,
                true,
                false,
            ),
            Lost::TimedOut => self.get_halt_event(key, HaltKind::Timeout),
            Lost::Reset => self.get_halt_event(key, HaltKind::StatelessReset),
            Lost::CidsExhausted => self.get_halt_event(
                key,
                HaltKind::Error(data::copy_from_slice("not enough CID space".as_bytes())),
            ),
            // The event should have already been sent when the connection was closed.
            Lost::LocallyClosed => None,
        }
    }

    /// Recreates a [QuinnConnectionId] for the specified `key`.
    pub fn id(&self, key: usize) -> (r: QuinnConnectionId)
        ensures
            r == self.context.spec_id(key),
    {
        QuinnConnectionId { key, trace: self.context.trace, version: self.context.version }
    }
}

/// Whoever closes a connection, it is told by whom, with the code and the reason, and as an error
/// of the application if and only if the peer's application has closed it.
/// A connection that was not closed has halted, and it is told why.
pub proof fn law_lost_connection_is_told_why(
    event: ConnectionEvent<QuinnConnectionId>,
    id: QuinnConnectionId,
    lost: Lost,
)
    requires
        is_lost_event(event, id, lost),
    ensures
        !(lost is LocallyClosed),
        event matches ConnectionEvent::Closed {
            connection_id,
            code,
            reason,
            is_application,
            is_local,
        } ==> {
            &&& connection_id == id
            &&& is_application == (lost is ApplicationClosed)
            &&& is_local == (lost is Transport)
            &&& lost == Lost::Transport(code, reason) || lost == Lost::ConnectionClosed(
                code,
                reason,
            ) || lost == Lost::ApplicationClosed(code, reason)
        },
        event matches ConnectionEvent::Halted { connection_id, kind } ==> {
            &&& connection_id == id
            &&& kind == HaltKind::Timeout <==> lost is TimedOut
            &&& kind == HaltKind::StatelessReset <==> lost is Reset
            &&& kind == HaltKind::UnknownVersion <==> lost is VersionMismatch
            &&& kind is Error <==> lost is CidsExhausted
            &&& kind matches HaltKind::Error(text) ==> data::content(text)
                == "not enough CID space".spec_bytes()
        },
        event is Closed <==> lost is Transport || lost is ConnectionClosed
            || lost is ApplicationClosed,
        event is Closed || event is Halted,
{
}

/// An application is told of a stream that has changed, by the ID of the stream:
/// that it can be used, or with which code the peer has stopped it.
pub proof fn law_stream_changes_are_told(
    id: QuinnConnectionId,
    change: StreamChange,
    accepted: Option<u64>,
    raw: u64,
)
    requires
        raw < 0x4000_0000_0000_0000,
    ensures
        ({
            let told = stream_event_of(id, change, accepted);
            let is_available = told == Some(
                Event::Stream(StreamEvent::Available(id, StreamId::of(raw))),
            );
            &&& is_available <==> change == StreamChange::Readable(raw) || change
                == StreamChange::Writable(raw) || change == StreamChange::Finished(raw) || (
            change is Opened && accepted == Some(raw))
            &&& change matches StreamChange::Stopped(stopped, code) ==> stopped
                < 0x4000_0000_0000_0000 ==> told == Some(
                Event::Stream(StreamEvent::Reset(id, StreamId::of(stopped), code)),
            )
            &&& change matches StreamChange::Available(bidirectional) ==> told == Some(
                Event::Connection(
                    ConnectionEvent::StreamsAvailable {
                        connection_id: id,
                        is_bidirectional: bidirectional,
                    },
                ),
            )
            &&& change is Opened && accepted is None ==> told is None
        }),
{
    match change {
        StreamChange::Readable(other)
        | StreamChange::Writable(other)
        | StreamChange::Finished(other) => {
            StreamId::lemma_of_is_injective(other, raw);
        },
        _ => {},
    }
    if let Some(other) = accepted {
        StreamId::lemma_of_is_injective(other, raw);
    }
}

/// The size of an outgoing datagram is told once, as far as sixteen bits can tell it,
/// and zero if there are no datagrams. Nothing else of the connection changes.
pub proof fn law_datagram_size_is_told_once(context: Context, key: usize, max_size: Option<usize>)
    ensures
        context.sized(max_size).size_event(key, max_size) is None,
        context.sized(max_size) == (Context {
            dgram_out_max_size: context.sized(max_size).dgram_out_max_size,
            ..context
        }),
        max_size is None ==> context.sized(max_size).dgram_out_max_size == 0,
        max_size matches Some(size) ==> {
            &&& size <= 0xffff ==> context.sized(max_size).dgram_out_max_size == size
            &&& size > 0xffff ==> context.sized(max_size).dgram_out_max_size == 0xffff
        },
        context.size_event(key, max_size) is Some <==> context.sized(max_size).dgram_out_max_size
            != context.dgram_out_max_size,
        context.size_event(key, max_size) matches Some(event) ==> event
            == DatagramEvent::OutNewSize(
            QuinnConnectionId { key, trace: context.trace, version: context.version },
            context.sized(max_size).dgram_out_max_size,
        ),
{
}

/// A new connection has told nothing, and nothing is scheduled for it.
pub proof fn law_new_context_has_no_history(trace: Trace, version: u32, key: usize)
    ensures
        Context::fresh(trace, version).timer_quinn_timeout_key is None,
        !Context::fresh(trace, version).closed_event_sent,
        Context::fresh(trace, version).dgram_out_max_size == 0,
        Context::fresh(trace, version).spec_id(key).key == key,
        Context::fresh(trace, version).spec_id(key).trace == trace,
        Context::fresh(trace, version).spec_id(key).version == version,
{
}

/// The ID of a connection is its key and its version, whatever it is traced as.
pub proof fn law_ids_are_keys_and_versions(a: QuinnConnectionId, b: QuinnConnectionId)
    ensures
        a.eq_spec(&b) <==> a.key == b.key && a.version == b.version,
        a.eq_spec(&a),
        a.eq_spec(&b) ==> b.eq_spec(&a),
{
}

} // verus!

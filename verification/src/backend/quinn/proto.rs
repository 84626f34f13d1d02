//! The `quinn-proto` implementation.
//!
//! An endpoint and its connections are state machines that nothing but `quinn-proto` can look
//! into. What they return is turned into plain values here.
//!
//! Most of what a connection does depends on nothing but the connection and what is given to it:
//! there are names for what it returns and for what becomes of it. What an endpoint does,
//! and what a connection makes of packets, depends on chance and on time, too: the names that begin
//! with `may` only say that this is an outcome of that call.

use crate::net::{IpAddr, SocketAddr};
use crate::stream::StreamId;
use crate::util::data;
use bytes::Bytes;
use quinn_proto::ClientConfig as QuinnClientConfig;
use quinn_proto::Connection as QuinnConnection;
use quinn_proto::ConnectionEvent as QuinnConnectionEvent;
use quinn_proto::Incoming as QuinnIncoming;
use quinn_proto::ServerConfig as QuinnServerConfig;
use quinn_proto::StreamEvent as QuinnStreamEvent;
use std::sync::Arc;
use std::time::Instant as StdInstant;
use vstd::prelude::*;

verus! {

/// An outside point in time.
#[verifier::external_type_specification]
#[verifier::external_body]
pub struct ExStdInstant(StdInstant);

/// An outside endpoint: what all connections of a socket share.
#[verifier::external_type_specification]
#[verifier::external_body]
pub struct ExEndpoint(quinn_proto::Endpoint);

/// An outside connection.
#[verifier::external_type_specification]
#[verifier::external_body]
pub struct ExConnection(QuinnConnection);

/// An outside configuration of an endpoint.
#[verifier::external_type_specification]
#[verifier::external_body]
pub struct ExEndpointConfig(quinn_proto::EndpointConfig);

/// An outside configuration of client connections.
#[verifier::external_type_specification]
#[verifier::external_body]
pub struct ExClientConfig(QuinnClientConfig);

/// An outside configuration of server connections.
#[verifier::external_type_specification]
#[verifier::external_body]
pub struct ExServerConfig(QuinnServerConfig);

/// An outside configuration of the transport of connections.
#[verifier::external_type_specification]
#[verifier::external_body]
pub struct ExTransportConfig(quinn_proto::TransportConfig);

/// An outside attempt of a peer to connect.
#[verifier::external_type_specification]
#[verifier::external_body]
pub struct ExIncoming(QuinnIncoming);

/// An outside event of an endpoint for a connection.
#[verifier::external_type_specification]
#[verifier::external_body]
pub struct ExConnectionEvent(QuinnConnectionEvent);

/// An outside event of a connection for its endpoint.
#[verifier::external_type_specification]
#[verifier::external_body]
pub struct ExEndpointEvent(quinn_proto::EndpointEvent);

/// An outside description of a packet to be sent.
#[verifier::external_type_specification]
#[verifier::external_body]
pub struct ExTransmit(quinn_proto::Transmit);

/// An outside reason of a closed connection.
#[verifier::external_type_specification]
#[verifier::external_body]
pub struct ExConnectionError(quinn_proto::ConnectionError);

/// An outside event of a stream.
#[verifier::external_type_specification]
#[verifier::external_body]
pub struct ExStreamEvent(QuinnStreamEvent);

/// The nanoseconds from one point in time to another, zero if the other one is earlier.
pub uninterp spec fn nanos_between(origin: StdInstant, at: StdInstant) -> u128;

/// The keys of the connections that an endpoint knows.
pub uninterp spec fn known_keys(endpoint: quinn_proto::Endpoint) -> Set<usize>;

/// A transport configuration that turns segmentation offload off.
pub uninterp spec fn without_offload(
    transport: quinn_proto::TransportConfig,
) -> quinn_proto::TransportConfig;

/// A configuration of client connections with another transport configuration.
pub uninterp spec fn with_client_transport(
    config: QuinnClientConfig,
    transport: quinn_proto::TransportConfig,
) -> QuinnClientConfig;

/// A configuration of server connections with another transport configuration.
pub uninterp spec fn with_server_transport(
    config: QuinnServerConfig,
    transport: quinn_proto::TransportConfig,
) -> QuinnServerConfig;

/// A new endpoint may be this one.
pub uninterp spec fn may_create(
    config: quinn_proto::EndpointConfig,
    server: Option<Arc<QuinnServerConfig>>,
    allow_mtud: bool,
    endpoint: quinn_proto::Endpoint,
) -> bool;

/// An endpoint that is asked to connect may return this, and may be that one then.
pub uninterp spec fn may_connect(
    endpoint: quinn_proto::Endpoint,
    now: StdInstant,
    config: QuinnClientConfig,
    peer: SocketAddr,
    server_name: Seq<char>,
    connected: Result<(usize, QuinnConnection), Seq<char>>,
    after: quinn_proto::Endpoint,
) -> bool;

/// An endpoint may make this of a datagram, write that response, and be that one then.
pub uninterp spec fn may_handle(
    endpoint: quinn_proto::Endpoint,
    now: StdInstant,
    from: SocketAddr,
    to: IpAddr,
    ecn_bits: u8,
    payload: Seq<u8>,
    handled: Option<Datagram>,
    response: Seq<u8>,
    after: quinn_proto::Endpoint,
) -> bool;

/// An endpoint that takes an event of a connection may reply this, and may be that one then.
pub uninterp spec fn may_reply(
    endpoint: quinn_proto::Endpoint,
    key: usize,
    event: quinn_proto::EndpointEvent,
    reply: Option<QuinnConnectionEvent>,
    after: quinn_proto::Endpoint,
) -> bool;

/// An endpoint has reported an attempt to connect, and was not told yet what to make of it.
pub uninterp spec fn is_pending(
    endpoint: quinn_proto::Endpoint,
    incoming: QuinnIncoming,
) -> bool;

/// An endpoint that has forgotten an attempt to connect.
pub uninterp spec fn after_ignore(
    endpoint: quinn_proto::Endpoint,
    incoming: QuinnIncoming,
) -> quinn_proto::Endpoint;

/// An endpoint that retries an attempt to connect may return this, write that packet,
/// and be that one then.
pub uninterp spec fn may_retry(
    endpoint: quinn_proto::Endpoint,
    incoming: QuinnIncoming,
    retried: Result<quinn_proto::Transmit, QuinnIncoming>,
    packet: Seq<u8>,
    after: quinn_proto::Endpoint,
) -> bool;

/// An endpoint that accepts an attempt to connect may return this, write that packet,
/// and be that one then.
pub uninterp spec fn may_accept(
    endpoint: quinn_proto::Endpoint,
    incoming: QuinnIncoming,
    now: StdInstant,
    server: Arc<QuinnServerConfig>,
    accepted: Result<(usize, QuinnConnection), Option<quinn_proto::Transmit>>,
    packet: Seq<u8>,
    after: quinn_proto::Endpoint,
) -> bool;

/// An event says that its connection needs its endpoint no more.
pub uninterp spec fn is_last_event(event: quinn_proto::EndpointEvent) -> bool;

/// The address of a peer that attempts to connect is validated.
pub uninterp spec fn is_address_validated(incoming: QuinnIncoming) -> bool;

/// Where a packet is sent to. Flow information is left out.
pub uninterp spec fn destination_of(transmit: quinn_proto::Transmit) -> SocketAddr;

/// Where a packet is sent from.
pub uninterp spec fn source_of(transmit: quinn_proto::Transmit) -> Option<IpAddr>;

/// The Explicit Congestion Notification of a packet.
pub uninterp spec fn ecn_bits_of(transmit: quinn_proto::Transmit) -> u8;

/// The length of a segment of a packet.
pub uninterp spec fn segment_size_of(transmit: quinn_proto::Transmit) -> Option<usize>;

/// Why a connection is lost.
pub uninterp spec fn lost_of(error: quinn_proto::ConnectionError) -> Lost;

/// What has happened to a stream.
pub uninterp spec fn change_of(event: QuinnStreamEvent) -> StreamChange;

/// The peer of a connection has initiated it.
pub uninterp spec fn is_server_side(connection: QuinnConnection) -> bool;

/// The connection cannot transport any further data.
pub uninterp spec fn closed(connection: QuinnConnection) -> bool;

/// The connection needs to be kept no longer.
pub uninterp spec fn drained(connection: QuinnConnection) -> bool;

/// The maximum length of a packet of a connection.
pub uninterp spec fn max_packet(connection: QuinnConnection) -> u16;

/// The maximum size of a datagram of a connection.
pub uninterp spec fn max_dgram(connection: QuinnConnection) -> Option<usize>;

/// When timers of a connection are to be handled.
pub uninterp spec fn next_timeout(connection: QuinnConnection) -> Option<StdInstant>;

/// What is known of the peer of a connection.
pub uninterp spec fn identity_of(connection: QuinnConnection) -> Identity;

/// A connection that is closed with an error code and a reason.
pub uninterp spec fn after_close(
    connection: QuinnConnection,
    now: StdInstant,
    code: u64,
    reason: Seq<u8>,
) -> QuinnConnection;

/// A connection that takes an event of its endpoint may be that one then.
pub uninterp spec fn may_take(
    connection: QuinnConnection,
    event: QuinnConnectionEvent,
    after: QuinnConnection,
) -> bool;

/// The next event of a connection for its endpoint, and the connection without it.
pub uninterp spec fn endpoint_event_polled(connection: QuinnConnection) -> (
    Option<quinn_proto::EndpointEvent>,
    QuinnConnection,
);

/// A connection that is asked for packets may return this, write these, and be that one then.
pub uninterp spec fn may_transmit(
    connection: QuinnConnection,
    now: StdInstant,
    max_datagrams: usize,
    transmit: Option<quinn_proto::Transmit>,
    packets: Seq<u8>,
    after: QuinnConnection,
) -> bool;

/// The next event of a connection, and the connection without it.
pub uninterp spec fn polled(connection: QuinnConnection) -> (Option<Polled>, QuinnConnection);

/// A connection whose timers are handled may be that one then.
pub uninterp spec fn may_time_out(
    connection: QuinnConnection,
    now: StdInstant,
    after: QuinnConnection,
) -> bool;

/// A connection that is used from a new address.
pub uninterp spec fn after_address_change(connection: QuinnConnection) -> QuinnConnection;

/// A connection that forgets what is known of its path may be that one then.
pub uninterp spec fn may_change_path(
    connection: QuinnConnection,
    now: StdInstant,
    after: QuinnConnection,
) -> bool;

/// The next datagram that a connection has received, and the connection without it.
pub uninterp spec fn dgram_received(connection: QuinnConnection) -> (
    Option<Seq<u8>>,
    QuinnConnection,
);

/// What becomes of a datagram, and the connection that was asked to send it.
pub uninterp spec fn dgram_queued(connection: QuinnConnection, datagram: Seq<u8>) -> (
    Queued,
    QuinnConnection,
);

/// The number of streams of this directionality that this side of a connection has opened.
pub uninterp spec fn opened_streams(connection: QuinnConnection, bidirectional: bool) -> u64;

/// The raw ID of a new stream, and the connection that was asked to open it.
pub uninterp spec fn stream_opened(connection: QuinnConnection, bidirectional: bool) -> (
    Option<u64>,
    QuinnConnection,
);

/// The raw ID of a stream that the peer has opened, and the connection without it.
pub uninterp spec fn stream_accepted(connection: QuinnConnection, bidirectional: bool) -> (
    Option<u64>,
    QuinnConnection,
);

/// The data of a stream that can be read, and what is behind it.
pub uninterp spec fn readable(connection: QuinnConnection, id: u64) -> Result<
    (Seq<u8>, ReadEnd),
    Unreadable,
>;

/// What is read from a stream at once, and the connection of the stream.
pub uninterp spec fn chunk_read(connection: QuinnConnection, id: u64, max_length: usize) -> (
    Read,
    QuinnConnection,
);

/// Whether data is written into a stream, what of it is not, and the connection of the stream.
pub uninterp spec fn stream_written(connection: QuinnConnection, id: u64, data: Seq<u8>) -> (
    Result<bool, WriteFailure>,
    Seq<u8>,
    QuinnConnection,
);

/// Whether a stream is finished, and its connection.
pub uninterp spec fn stream_finished(connection: QuinnConnection, id: u64) -> (
    Result<(), FinishFailure>,
    QuinnConnection,
);

/// A connection that has asked the peer to send no more data on a stream.
pub uninterp spec fn after_stop(
    connection: QuinnConnection,
    id: u64,
    code: u64,
) -> QuinnConnection;

/// A connection that sends no more data on a stream.
pub uninterp spec fn after_reset(
    connection: QuinnConnection,
    id: u64,
    code: u64,
) -> QuinnConnection;

/// A connection with another priority of a stream.
pub uninterp spec fn after_priority(
    connection: QuinnConnection,
    id: u64,
    priority: i32,
) -> QuinnConnection;

/// The connection is as open or closed as it was.
pub open spec fn is_same_phase(before: QuinnConnection, after: QuinnConnection) -> bool {
    &&& is_server_side(after) == is_server_side(before)
    &&& closed(after) == closed(before)
    &&& drained(after) == drained(before)
}

/// This side has opened no stream.
pub open spec fn opens_nothing(before: QuinnConnection, after: QuinnConnection) -> bool {
    &&& opened_streams(after, true) == opened_streams(before, true)
    &&& opened_streams(after, false) == opened_streams(before, false)
}

/// The connection is in the same state, whatever has happened to the data of its streams
/// and to its datagrams.
pub open spec fn is_same_state(before: QuinnConnection, after: QuinnConnection) -> bool {
    &&& is_same_phase(before, after)
    &&& opens_nothing(before, after)
}

/// The largest integer of variable length.
pub const MAX_VARINT: u64 = 0x3FFF_FFFF_FFFF_FFFF;

/// What an endpoint has made of a datagram.
pub enum Datagram {
    /// It goes to the connection with the given key.
    Event(usize, QuinnConnectionEvent),
    /// It is an attempt to connect.
    Incoming(QuinnIncoming),
    /// It is answered.
    Response(quinn_proto::Transmit),
}

/// A packet to be sent.
#[derive(Debug, Clone, Copy, PartialEq, Eq, Structural)]
pub struct Outgoing {
    /// Where it is sent to.
    pub destination: SocketAddr,
    /// Bits of its Explicit Congestion Notification.
    pub ecn_bits: u8,
    /// The length of a segment, if there are several.
    pub segment_size: Option<usize>,
    /// Where it is sent from, if it is known.
    pub source: Option<IpAddr>,
}

/// An event of a connection.
pub enum Polled {
    /// The data of the handshake is ready.
    HandshakeDataReady,
    /// The connection is established.
    Connected,
    /// The connection is lost.
    Lost(quinn_proto::ConnectionError),
    /// Something has happened to a stream.
    Stream(QuinnStreamEvent),
    /// Datagrams were received.
    DatagramReceived,
    /// Datagrams can be sent again.
    DatagramsUnblocked,
}

/// Why a connection is lost.
#[derive(Debug)]
pub enum Lost {
    /// The peer supports no version that is supported here.
    VersionMismatch,
    /// The peer has violated the protocol.
    Transport(u64, Bytes),
    /// The transport of the peer has closed the connection.
    ConnectionClosed(u64, Bytes),
    /// The application of the peer has closed the connection.
    ApplicationClosed(u64, Bytes),
    /// The peer has sent a stateless reset.
    Reset,
    /// The connection has timed out.
    TimedOut,
    /// The connection was closed here.
    LocallyClosed,
    /// There are no connection IDs left.
    CidsExhausted,
}

/// What has happened to a stream. A stream is given by its raw ID.
#[derive(Debug, Clone, Copy, PartialEq, Eq, Structural)]
pub enum StreamChange {
    /// The peer has opened streams, which are bidirectional or not.
    Opened(bool),
    /// Streams can be opened, which are bidirectional or not.
    Available(bool),
    /// A stream can be read from.
    Readable(u64),
    /// A stream can be written into.
    Writable(u64),
    /// All data of a stream was acknowledged.
    Finished(u64),
    /// The peer has stopped a stream with an error code.
    Stopped(u64, u64),
}

/// Why a stream cannot be read.
#[derive(Debug)]
pub enum ReadableFailure {
    /// The stream is unknown.
    Closed,
    /// The stream was read without order before.
    IllegalOrder(String),
}

/// Why nothing is read from a stream.
#[derive(Debug, Clone, Copy, PartialEq, Eq, Structural)]
pub enum ReadFailure {
    /// There is no data yet.
    Blocked,
    /// The peer has terminated the stream with an error code.
    Reset(u64),
}

/// Why nothing is written into a stream.
#[derive(Debug, Clone, Copy, PartialEq, Eq, Structural)]
pub enum WriteFailure {
    /// The limits of flow control are reached.
    Blocked,
    /// The peer has terminated the stream with an error code.
    Stopped(u64),
    /// The stream is unknown.
    Closed,
}

/// Why a stream is not finished.
#[derive(Debug, Clone, Copy, PartialEq, Eq, Structural)]
pub enum FinishFailure {
    /// The peer has terminated the stream with an error code.
    Stopped(u64),
    /// The stream is unknown.
    Closed,
}

/// Why a datagram is not sent.
#[derive(Debug)]
pub enum DatagramFailure {
    /// The peer does not receive datagrams.
    UnsupportedByPeer,
    /// Datagrams are disabled here.
    Disabled,
    /// The datagram is too large.
    TooLarge,
    /// There is no room for the datagram.
    Blocked(Bytes),
}

/// What is behind the data of a stream that can be read.
#[derive(Debug, Clone, Copy, PartialEq, Eq, Structural)]
pub enum ReadEnd {
    /// The stream has ended.
    Finished,
    /// There is no more data yet.
    Blocked,
    /// The peer has terminated the stream with an error code.
    Reset(u64),
}

/// Why a stream cannot be read, without a description.
#[derive(Debug, Clone, Copy, PartialEq, Eq, Structural)]
pub enum Unreadable {
    /// The stream is unknown.
    Closed,
    /// The stream was read without order before.
    IllegalOrder,
}

/// What is read from a stream at once, in sequences.
#[verifier::ext_equal]
pub enum Read {
    /// Data of the stream.
    Chunk(Seq<u8>),
    /// There is no data, but what is behind it.
    End(ReadEnd),
    /// The stream cannot be read.
    Unreadable(Unreadable),
}

/// What becomes of a datagram that is to be sent.
#[derive(Debug, Clone, Copy, PartialEq, Eq, Structural)]
pub enum Queued {
    /// It will be sent.
    Sent,
    /// The peer does not receive datagrams.
    UnsupportedByPeer,
    /// Datagrams are disabled here.
    Disabled,
    /// It is too large.
    TooLarge,
    /// There is no room for it.
    Blocked,
}

impl ReadableFailure {
    /// The failure, without a description.
    pub open spec fn kind(self) -> Unreadable {
        match self {
            ReadableFailure::Closed => Unreadable::Closed,
            ReadableFailure::IllegalOrder(_) => Unreadable::IllegalOrder,
        }
    }
}

impl DatagramFailure {
    /// The failure, without the datagram.
    pub open spec fn queued(self) -> Queued {
        match self {
            DatagramFailure::UnsupportedByPeer => Queued::UnsupportedByPeer,
            DatagramFailure::Disabled => Queued::Disabled,
            DatagramFailure::TooLarge => Queued::TooLarge,
            DatagramFailure::Blocked(_) => Queued::Blocked,
        }
    }
}

/// What is known of the identity of a peer, in sequences.
#[verifier::ext_equal]
pub enum Identity {
    /// The peer has not told who it is.
    Absent,
    /// Certificates of the peer.
    Certificates(Seq<Seq<u8>>),
    /// The peer is identified by something else than certificates.
    Foreign,
}

impl View for PeerIdentity {
    type V = Identity;

    open spec fn view(&self) -> Identity {
        match self {
            PeerIdentity::Absent => Identity::Absent,
            PeerIdentity::Certificates(certificates) => Identity::Certificates(
                certificates@.map_values(|certificate: Vec<u8>| certificate@),
            ),
            PeerIdentity::Foreign => Identity::Foreign,
        }
    }
}

/// What is known of the identity of a peer.
pub enum PeerIdentity {
    /// The peer has not told who it is.
    Absent,
    /// Certificates of the peer.
    Certificates(Vec<Vec<u8>>),
    /// The peer is identified by something else than certificates.
    Foreign,
}

/// `Instant::saturating_duration_since`: the nanoseconds from one point in time to another.
#[verifier::external_body]
pub(crate) fn nanos_since(origin: &StdInstant, at: &StdInstant) -> (r: u128)
    ensures
        r == nanos_between(*origin, *at),
{
    at.saturating_duration_since(*origin).as_nanos()
}

/// `Endpoint::new`: an endpoint that knows no connection. It draws random numbers.
#[verifier::external_body]
pub(crate) fn endpoint_new(
    config: quinn_proto::EndpointConfig,
    server: &Option<Arc<QuinnServerConfig>>,
    allow_mtud: bool,
) -> (r: quinn_proto::Endpoint)
    ensures
        may_create(config, *server, allow_mtud, r),
        known_keys(r) == Set::<usize>::empty(),
{
    quinn_proto::Endpoint::new(Arc::new(config), server.clone(), allow_mtud, None)
}

/// `EndpointConfig::default`: a configuration of an endpoint.
#[verifier::external_body]
pub(crate) fn endpoint_config_default() -> quinn_proto::EndpointConfig {
    quinn_proto::EndpointConfig::default()
}

/// `TransportConfig::default`: a configuration of the transport of connections.
#[verifier::external_body]
pub(crate) fn transport_default() -> quinn_proto::TransportConfig {
    quinn_proto::TransportConfig::default()
}

/// `TransportConfig::enable_segmentation_offload`, which turns segmentation offload off:
/// one packet is written at a time.
#[verifier::external_body]
pub(crate) fn disable_offload(transport: quinn_proto::TransportConfig) -> (r:
    quinn_proto::TransportConfig)
    ensures
        r == without_offload(transport),
{
    let mut transport = transport;
    transport.enable_segmentation_offload(false);
    transport
}

/// `ClientConfig::transport_config`: replaces the transport configuration.
#[verifier::external_body]
pub(crate) fn client_with_transport(
    config: QuinnClientConfig,
    transport: quinn_proto::TransportConfig,
) -> (r: QuinnClientConfig)
    ensures
        r == with_client_transport(config, transport),
{
    let mut config = config;
    config.transport_config(Arc::new(transport));
    config
}

/// `ServerConfig::transport_config`: replaces the transport configuration.
#[verifier::external_body]
pub(crate) fn server_with_transport(
    config: QuinnServerConfig,
    transport: quinn_proto::TransportConfig,
) -> (r: QuinnServerConfig)
    ensures
        r == with_server_transport(config, transport),
{
    let mut config = config;
    config.transport_config(Arc::new(transport));
    config
}

/// `Endpoint::open_connections`: the number of connections that the endpoint knows.
#[verifier::external_body]
pub(crate) fn open_connections(endpoint: &quinn_proto::Endpoint) -> (r: usize)
    ensures
        r == known_keys(*endpoint).len(),
{
    endpoint.open_connections()
}

/// The outcome of an attempt to connect.
pub open spec fn outcome(r: Result<(usize, QuinnConnection), String>) -> Result<
    (usize, QuinnConnection),
    Seq<char>,
> {
    match r {
        Ok(connected) => Ok(connected),
        Err(message) => Err(message@),
    }
}

/// `Endpoint::connect`: the endpoint knows the new connection by a new key,
/// an index into a vector.
/// If there is none, the result describes the error, and the endpoint knows what it knew.
///
/// * `peer`: a packet that is sent to the peer.
#[verifier::external_body]
pub(crate) fn connect(
    endpoint: &mut quinn_proto::Endpoint,
    now: &StdInstant,
    config: &QuinnClientConfig,
    peer: &quinn_proto::Transmit,
    server_name: &str,
) -> (r: Result<(usize, QuinnConnection), String>)
    ensures
        may_connect(
            *old(endpoint),
            *now,
            *config,
            destination_of(*peer),
            server_name@,
            outcome(r),
            *final(endpoint),
        ),
        r matches Ok((key, connection)) ==> key < usize::MAX
            && !known_keys(*old(endpoint)).contains(key) && known_keys(*final(endpoint)) == known_keys(*old(endpoint)).insert(key)
            && !is_server_side(connection),
        r is Err ==> known_keys(*final(endpoint)) == known_keys(*old(endpoint)),
{
    match endpoint.connect(*now, config.clone(), peer.destination, server_name) {
        Ok((key, connection)) => Ok((key.0, connection)),
        Err(error) => Err(error.to_string()),
    }
}

/// `Endpoint::handle`: makes something of a datagram. The answer to it, if there is one,
/// is written into the buffer. The endpoint knows the connections that it knew.
/// It keeps packets of an attempt to connect until it is told what to make of the attempt.
///
/// * `from`: a packet that is sent to where the datagram comes from.
#[verifier::external_body]
pub(crate) fn handle(
    endpoint: &mut quinn_proto::Endpoint,
    now: &StdInstant,
    from: &quinn_proto::Transmit,
    to: IpAddr,
    ecn_bits: u8,
    payload: &[u8],
    buffer: &mut Vec<u8>,
) -> (r: Option<Datagram>)
    requires
        old(buffer)@.len() == 0,
    ensures
        may_handle(
            *old(endpoint),
            *now,
            destination_of(*from),
            to,
            ecn_bits,
            payload@,
            r,
            final(buffer)@,
            *final(endpoint),
        ),
        known_keys(*final(endpoint)) == known_keys(*old(endpoint)),
        (r is Some && r->0 is Response) ==> final(buffer)@.len() > 0,
        r matches Some(Datagram::Incoming(incoming)) ==> is_pending(*final(endpoint), incoming),
{
    let to = match to { IpAddr::V4(ip) => ip.to_be_bytes().into(), IpAddr::V6(ip) => ip.to_be_bytes().into() };
    let ecn = quinn_proto::EcnCodepoint::from_bits(ecn_bits);
    match endpoint.handle(*now, from.destination, Some(to), ecn, payload.into(), buffer)? {
        quinn_proto::DatagramEvent::ConnectionEvent(key, event) => Some(Datagram::Event(key.0, event)),
        quinn_proto::DatagramEvent::NewConnection(incoming) => Some(Datagram::Incoming(incoming)),
        quinn_proto::DatagramEvent::Response(transmit) => Some(Datagram::Response(transmit)),
    }
}

/// `Endpoint::handle_event`: takes an event of a connection that the endpoint knows,
/// and forgets the connection with its last event. The connection may get an event in return.
#[verifier::external_body]
pub(crate) fn endpoint_event(
    endpoint: &mut quinn_proto::Endpoint,
    key: usize,
    event: quinn_proto::EndpointEvent,
) -> (r: Option<QuinnConnectionEvent>)
    requires
        known_keys(*old(endpoint)).contains(key),
    ensures
        may_reply(*old(endpoint), key, event, r, *final(endpoint)),
        known_keys(*final(endpoint)) == if is_last_event(event) {
            known_keys(*old(endpoint)).remove(key)
        } else {
            known_keys(*old(endpoint))
        },
{
    endpoint.handle_event(quinn_proto::ConnectionHandle(key), event)
}

/// `EndpointEvent::is_drained`: the connection will emit no more events.
#[verifier::external_body]
pub(crate) fn is_drained_event(event: &quinn_proto::EndpointEvent) -> (r: bool)
    ensures
        r == is_last_event(*event),
{
    event.is_drained()
}

/// `Incoming::remote_address_validated`: the address of the peer is validated.
#[verifier::external_body]
pub(crate) fn is_validated(incoming: &QuinnIncoming) -> (r: bool)
    ensures
        r == is_address_validated(*incoming),
{
    incoming.remote_address_validated()
}

/// `Endpoint::ignore`: forgets an attempt to connect that the endpoint has reported.
///
/// It panics if the endpoint keeps no packets of the attempt.
#[verifier::external_body]
pub(crate) fn ignore(endpoint: &mut quinn_proto::Endpoint, incoming: QuinnIncoming)
    requires
        is_pending(*old(endpoint), incoming),
    ensures
        *final(endpoint) == after_ignore(*old(endpoint), incoming),
        known_keys(*final(endpoint)) == known_keys(*old(endpoint)),
{
    endpoint.ignore(incoming)
}

/// `Endpoint::retry`: writes a retry packet for an attempt to connect that the endpoint has
/// reported. Gives the attempt back if it cannot be retried: the endpoint knows it then as before.
///
/// It panics if the endpoint keeps no packets of the attempt.
#[verifier::external_body]
pub(crate) fn retry(
    endpoint: &mut quinn_proto::Endpoint,
    incoming: QuinnIncoming,
    buffer: &mut Vec<u8>,
) -> (r: Result<quinn_proto::Transmit, QuinnIncoming>)
    requires
        is_pending(*old(endpoint), incoming),
        old(buffer)@.len() == 0,
    ensures
        may_retry(*old(endpoint), incoming, r, final(buffer)@, *final(endpoint)),
        known_keys(*final(endpoint)) == known_keys(*old(endpoint)),
        r is Ok ==> final(buffer)@.len() > 0,
        r matches Err(given) ==> is_pending(*final(endpoint), given),
{
    endpoint.retry(incoming, buffer).map_err(|error| error.into_incoming())
}

/// `Endpoint::accept`: the endpoint knows the new connection by a new key,
/// an index into a vector. If there is none,
/// the endpoint knows what it knew, and may have written an answer into the buffer.
///
/// It panics if the endpoint keeps no packets of the attempt.
#[verifier::external_body]
pub(crate) fn accept(
    endpoint: &mut quinn_proto::Endpoint,
    incoming: QuinnIncoming,
    now: &StdInstant,
    buffer: &mut Vec<u8>,
    server: &Arc<QuinnServerConfig>,
) -> (r: Result<(usize, QuinnConnection), Option<quinn_proto::Transmit>>)
    requires
        is_pending(*old(endpoint), incoming),
        old(buffer)@.len() == 0,
    ensures
        may_accept(
            *old(endpoint),
            incoming,
            *now,
            *server,
            r,
            final(buffer)@,
            *final(endpoint),
        ),
        r matches Ok((key, connection)) ==> key < usize::MAX
            && !known_keys(*old(endpoint)).contains(key) && known_keys(*final(endpoint)) == known_keys(*old(endpoint)).insert(key)
            && is_server_side(connection),
        r is Err ==> known_keys(*final(endpoint)) == known_keys(*old(endpoint)),
        (r is Err && r->Err_0 is Some) ==> final(buffer)@.len() > 0,
{
    match endpoint.accept(incoming, *now, buffer, Some(server.clone())) {
        Ok((key, connection)) => Ok((key.0, connection)),
        Err(error) => Err(error.response),
    }
}

/// A `Transmit` that says where a packet is sent to, and nothing else.
///
/// The port and the scope ID are read by `SocketAddr::from_str`, and the IP address
/// is replaced by `SocketAddr::set_ip` then. The text does not hold the flow information,
/// which is zero.
#[verifier::external_body]
pub(crate) fn sent_to(destination: SocketAddr) -> (r: quinn_proto::Transmit)
    ensures
        destination_of(r) == destination.without_flow(),
{
    let (ip, port, scope_id) = match destination {
        SocketAddr::V4 { ip, port } => (ip.to_be_bytes().into(), port, 0),
        SocketAddr::V6 { ip, port, scope_id, .. } => (ip.to_be_bytes().into(), port, scope_id),
    };
    let destination = format!("[::%{scope_id}]:{port}").parse().expect("text of an address");
    let mut r = quinn_proto::Transmit { destination, ecn: None, size: 0, segment_size: None, src_ip: None };
    r.destination.set_ip(ip);
    r
}

/// The field `destination` of a `Transmit`: where a packet is sent to.
///
/// The scope ID of an IPv6 address is read out of its text, `[ip%scope_id]:port`, where it
/// only stands if it is not zero. The text does not hold the flow information.
#[verifier::external_body]
fn destination(transmit: &quinn_proto::Transmit) -> (r: SocketAddr)
    ensures
        r == destination_of(*transmit),
        r == r.without_flow(),
{
    let port = transmit.destination.port();
    let text = transmit.destination.to_string();
    let scope = text.split_once('%').and_then(|(_, rest)| rest.split_once(']'));
    let scope_id = scope.map_or(0, |(scope, _)| scope.parse().unwrap_or(0));
    match transmit.destination.ip().into() {
        rustls::pki_types::IpAddr::V4(ip) => {
            SocketAddr::V4 { ip: u32::from_be_bytes(*ip.as_ref()), port }
        },
        rustls::pki_types::IpAddr::V6(ip) => {
            SocketAddr::V6 { ip: u128::from_be_bytes(*ip.as_ref()), port, flowinfo: 0, scope_id }
        },
    }
}

/// Where a packet is sent from, if it is known.
#[verifier::external_body]
fn source(transmit: &quinn_proto::Transmit) -> (r: Option<IpAddr>)
    ensures
        r == source_of(*transmit),
{
    match transmit.src_ip?.into() {
        rustls::pki_types::IpAddr::V4(ip) => Some(IpAddr::V4(u32::from_be_bytes(*ip.as_ref()))),
        rustls::pki_types::IpAddr::V6(ip) => Some(IpAddr::V6(u128::from_be_bytes(*ip.as_ref()))),
    }
}

/// The Explicit Congestion Notification of a packet, as two bits.
#[verifier::external_body]
fn ecn_bits(transmit: &quinn_proto::Transmit) -> (r: u8)
    ensures
        r == ecn_bits_of(*transmit),
        r < 4,
{
    transmit.ecn.map_or(0, |ecn| ecn as u8)
}

/// The length of a segment of a packet, if there are several.
#[verifier::external_body]
fn segment_size(transmit: &quinn_proto::Transmit) -> (r: Option<usize>)
    ensures
        r == segment_size_of(*transmit),
{
    transmit.segment_size
}

/// The fields of a description of a packet.
pub open spec fn described(transmit: quinn_proto::Transmit) -> Outgoing {
    Outgoing {
        destination: destination_of(transmit),
        ecn_bits: ecn_bits_of(transmit),
        segment_size: segment_size_of(transmit),
        source: source_of(transmit),
    }
}

/// Returns the fields of a description of a packet.
pub(crate) fn outgoing(transmit: &quinn_proto::Transmit) -> (r: Outgoing)
    ensures
        r == described(*transmit),
{
    Outgoing {
        destination: destination(transmit),
        ecn_bits: ecn_bits(transmit),
        segment_size: segment_size(transmit),
        source: source(transmit),
    }
}

/// `Connection::side`: the peer has initiated the connection.
#[verifier::external_body]
pub(crate) fn is_server(connection: &QuinnConnection) -> (r: bool)
    ensures
        r == is_server_side(*connection),
{
    connection.side().is_server()
}

/// `Connection::is_closed`: the connection cannot transport any further data.
#[verifier::external_body]
pub(crate) fn is_closed(connection: &QuinnConnection) -> (r: bool)
    ensures
        r == closed(*connection),
{
    connection.is_closed()
}

/// `Connection::is_drained`: the connection needs to be kept no longer.
#[verifier::external_body]
pub(crate) fn is_drained(connection: &QuinnConnection) -> (r: bool)
    ensures
        r == drained(*connection),
{
    connection.is_drained()
}

/// `Connection::close`: closes the connection with an error code and a reason.
/// It is closed then, whether it was before or not.
#[verifier::external_body]
pub(crate) fn close(connection: &mut QuinnConnection, now: &StdInstant, code: u64, reason: Bytes)
    requires
        code <= MAX_VARINT,
    ensures
        *final(connection) == after_close(*old(connection), *now, code, data::content(reason)),
        is_server_side(*final(connection)) == is_server_side(*old(connection)),
        opens_nothing(*old(connection), *final(connection)),
        closed(*final(connection)),
{
    connection.close(*now, quinn_proto::VarInt::from_u64(code).unwrap(), reason)
}

/// `Connection::handle_event`: takes an event of the endpoint.
#[verifier::external_body]
pub(crate) fn connection_event(connection: &mut QuinnConnection, event: QuinnConnectionEvent)
    ensures
        may_take(*old(connection), event, *final(connection)),
        is_server_side(*final(connection)) == is_server_side(*old(connection)),
{
    connection.handle_event(event)
}

/// `Connection::poll_endpoint_events`: the next event for the endpoint.
#[verifier::external_body]
pub(crate) fn poll_endpoint_events(connection: &mut QuinnConnection) -> (r: Option<
    quinn_proto::EndpointEvent,
>)
    ensures
        (r, *final(connection)) == endpoint_event_polled(*old(connection)),
        is_same_state(*old(connection), *final(connection)),
{
    connection.poll_endpoint_events()
}

/// `Connection::poll`: the next event for the application.
#[verifier::external_body]
pub(crate) fn poll(connection: &mut QuinnConnection) -> (r: Option<Polled>)
    ensures
        (r, *final(connection)) == polled(*old(connection)),
        is_same_state(*old(connection), *final(connection)),
{
    match connection.poll()? {
        quinn_proto::Event::HandshakeDataReady => Some(Polled::HandshakeDataReady),
        quinn_proto::Event::Connected => Some(Polled::Connected),
        quinn_proto::Event::ConnectionLost { reason } => Some(Polled::Lost(reason)),
        quinn_proto::Event::Stream(event) => Some(Polled::Stream(event)),
        quinn_proto::Event::DatagramReceived => Some(Polled::DatagramReceived),
        quinn_proto::Event::DatagramsUnblocked => Some(Polled::DatagramsUnblocked),
    }
}

/// The variants and fields of a `ConnectionError`.
#[verifier::external_body]
pub(crate) fn lost(error: quinn_proto::ConnectionError) -> (r: Lost)
    ensures
        r == lost_of(error),
{
    match error {
        quinn_proto::ConnectionError::VersionMismatch => Lost::VersionMismatch,
        quinn_proto::ConnectionError::TransportError(close) => Lost::Transport(close.code.into(), close.reason.into()),
        quinn_proto::ConnectionError::ConnectionClosed(close) => Lost::ConnectionClosed(close.error_code.into(), close.reason),
        quinn_proto::ConnectionError::ApplicationClosed(close) => Lost::ApplicationClosed(close.error_code.into(), close.reason),
        quinn_proto::ConnectionError::Reset => Lost::Reset,
        quinn_proto::ConnectionError::TimedOut => Lost::TimedOut,
        quinn_proto::ConnectionError::LocallyClosed => Lost::LocallyClosed,
        quinn_proto::ConnectionError::CidsExhausted => Lost::CidsExhausted,
    }
}

/// The variants and fields of a `StreamEvent`.
#[verifier::external_body]
pub(crate) fn stream_change(event: QuinnStreamEvent) -> (r: StreamChange)
    ensures
        r == change_of(event),
{
    match event {
        QuinnStreamEvent::Opened { dir } => StreamChange::Opened(matches!(dir, quinn_proto::Dir::Bi)),
        QuinnStreamEvent::Available { dir } => StreamChange::Available(matches!(dir, quinn_proto::Dir::Bi)),
        QuinnStreamEvent::Readable { id } => StreamChange::Readable(id.into()),
        QuinnStreamEvent::Writable { id } => StreamChange::Writable(id.into()),
        QuinnStreamEvent::Finished { id } => StreamChange::Finished(id.into()),
        QuinnStreamEvent::Stopped { id, error_code } => StreamChange::Stopped(id.into(), error_code.into_inner()),
    }
}

/// `Connection::handle_timeout`: handles timers that have expired.
///
/// It is not stated what becomes of the congestion control: it may be one of the application.
#[verifier::external_body]
pub(crate) fn handle_timeout(connection: &mut QuinnConnection, now: &StdInstant)
    ensures
        may_time_out(*old(connection), *now, *final(connection)),
        is_server_side(*final(connection)) == is_server_side(*old(connection)),
        opens_nothing(*old(connection), *final(connection)),
{
    connection.handle_timeout(*now)
}

/// `Connection::poll_timeout`: when timers are to be handled.
#[verifier::external_body]
pub(crate) fn poll_timeout(connection: &mut QuinnConnection) -> (r: Option<StdInstant>)
    ensures
        r == next_timeout(*old(connection)),
        *final(connection) == *old(connection),
{
    connection.poll_timeout()
}

/// `Connection::current_mtu`: the maximum length of a packet, never zero.
#[verifier::external_body]
pub(crate) fn current_mtu(connection: &QuinnConnection) -> (r: u16)
    ensures
        r == max_packet(*connection),
        r > 0,
{
    connection.current_mtu()
}

/// `Connection::poll_transmit`: appends the next packets of the connection to the buffer,
/// at most as many as given. There is at least one byte of them.
/// The maximum length of a packet stays what it is. The product of this length and the number
/// of packets is computed, so it must not overflow.
///
/// It is not stated which bytes: they depend on the time of the system
/// and on the memory of the buffer, too.
#[verifier::external_body]
pub(crate) fn poll_transmit(
    connection: &mut QuinnConnection,
    now: &StdInstant,
    max_datagrams: usize,
    buffer: &mut Vec<u8>,
) -> (r: Option<quinn_proto::Transmit>)
    requires
        max_datagrams > 0,
        max_datagrams * max_packet(*old(connection)) <= usize::MAX,
        old(buffer)@.len() == 0,
    ensures
        max_packet(*final(connection)) == max_packet(*old(connection)),
        may_transmit(
            *old(connection),
            *now,
            max_datagrams,
            r,
            final(buffer)@,
            *final(connection),
        ),
        is_server_side(*final(connection)) == is_server_side(*old(connection)),
        opens_nothing(*old(connection), *final(connection)),
        r is Some ==> final(buffer)@.len() > 0,
{
    connection.poll_transmit(*now, max_datagrams, buffer)
}

/// `Connection::local_address_changed`: the connection is used from a new address.
#[verifier::external_body]
pub(crate) fn local_address_changed(connection: &mut QuinnConnection)
    ensures
        *final(connection) == after_address_change(*old(connection)),
        is_same_state(*old(connection), *final(connection)),
{
    connection.local_address_changed()
}

/// `Connection::path_changed`: what is known of the path is forgotten.
///
/// It is not stated which congestion control there is then: a new one may draw random numbers,
/// and may be one of the application.
#[verifier::external_body]
pub(crate) fn path_changed(connection: &mut QuinnConnection, now: &StdInstant)
    ensures
        may_change_path(*old(connection), *now, *final(connection)),
        is_same_state(*old(connection), *final(connection)),
{
    connection.path_changed(*now)
}

/// `crypto::Session::peer_identity`: the certificates of the peer.
#[verifier::external_body]
pub(crate) fn peer_identity(connection: &QuinnConnection) -> (r: PeerIdentity)
    ensures
        r@ == identity_of(*connection),
{
    let Some(identity) = connection.crypto_session().peer_identity() else {
        return PeerIdentity::Absent;
    };
    match identity.downcast::<Vec<rustls::pki_types::CertificateDer<'static>>>() {
        Ok(certificates) => PeerIdentity::Certificates(
            certificates.into_iter().map(|certificate| certificate.as_ref().to_vec()).collect(),
        ),
        Err(_) => PeerIdentity::Foreign,
    }
}

/// `Datagrams::max_size`: the maximum size of a datagram, `None` if datagrams are not supported.
#[verifier::external_body]
pub(crate) fn dgram_max_size(connection: &mut QuinnConnection) -> (r: Option<usize>)
    ensures
        r == max_dgram(*old(connection)),
        *final(connection) == *old(connection),
{
    connection.datagrams().max_size()
}

/// `Datagrams::recv`: the next datagram that was received.
#[verifier::external_body]
pub(crate) fn dgram_recv(connection: &mut QuinnConnection) -> (r: Option<Bytes>)
    ensures
        (data::optional(r), *final(connection)) == dgram_received(*old(connection)),
        is_same_state(*old(connection), *final(connection)),
{
    connection.datagrams().recv()
}

/// `Datagrams::send`: queues a datagram, without dropping others. If there is no room,
/// the datagram comes back.
#[verifier::external_body]
pub(crate) fn dgram_send(connection: &mut QuinnConnection, datagram: Bytes) -> (r: Result<
    (),
    DatagramFailure,
>)
    ensures
        (
            match r {
                Ok(_) => Queued::Sent,
                Err(failure) => failure.queued(),
            },
            *final(connection),
        ) == dgram_queued(*old(connection), data::content(datagram)),
        is_same_state(*old(connection), *final(connection)),
        r matches Err(DatagramFailure::Blocked(unsent)) ==> data::content(unsent) == data::content(
            datagram,
        ),
{
    connection.datagrams().send(datagram, false).map_err(|error| match error {
        quinn_proto::SendDatagramError::UnsupportedByPeer => DatagramFailure::UnsupportedByPeer,
        quinn_proto::SendDatagramError::Disabled => DatagramFailure::Disabled,
        quinn_proto::SendDatagramError::TooLarge => DatagramFailure::TooLarge,
        quinn_proto::SendDatagramError::Blocked(unsent) => DatagramFailure::Blocked(unsent),
    })
}

/// The raw ID of a stream of this directionality that this side, or the peer, has opened.
pub open spec fn is_raw_id(id: u64, by_server: bool, bidirectional: bool) -> bool {
    &&& id <= StreamId::MAX
    &&& (id % 2 == 1) == by_server
    &&& (id / 2 % 2 == 1) == !bidirectional
}

/// The raw ID of the stream that this side opens next.
pub open spec fn next_raw_id(connection: QuinnConnection, bidirectional: bool) -> int {
    4 * opened_streams(connection, bidirectional) + (if bidirectional {
        0int
    } else {
        2
    }) + (if is_server_side(connection) {
        1int
    } else {
        0
    })
}

/// This side was asked to open a stream: streams get their IDs in order, and none if they
/// are exhausted.
pub open spec fn is_opened(
    before: QuinnConnection,
    bidirectional: bool,
    r: Option<u64>,
    after: QuinnConnection,
) -> bool {
    &&& opened_streams(after, !bidirectional) == opened_streams(before, !bidirectional)
    &&& match r {
        Some(id) => {
            &&& id == next_raw_id(before, bidirectional)
            &&& opened_streams(after, bidirectional) == opened_streams(before, bidirectional) + 1
        },
        None => opened_streams(after, bidirectional) == opened_streams(before, bidirectional),
    }
}

/// A stream that is opened later has another ID than one that was opened before,
/// unless streams were given up in the meantime.
pub proof fn law_stream_ids_are_new(
    first: QuinnConnection,
    first_bidirectional: bool,
    first_id: u64,
    opened: QuinnConnection,
    second: QuinnConnection,
    second_bidirectional: bool,
    second_id: u64,
    after: QuinnConnection,
)
    requires
        is_opened(first, first_bidirectional, Some(first_id), opened),
        is_opened(second, second_bidirectional, Some(second_id), after),
        is_server_side(second) == is_server_side(first),
        opened_streams(opened, first_bidirectional) <= opened_streams(second, first_bidirectional),
    ensures
        first_id != second_id,
{
}

/// `Streams::open`: the raw ID of a new stream of this side, `None` if the streams are exhausted.
#[verifier::external_body]
pub(crate) fn open_stream(connection: &mut QuinnConnection, bidirectional: bool) -> (r: Option<u64>)
    ensures
        (r, *final(connection)) == stream_opened(*old(connection), bidirectional),
        is_same_phase(*old(connection), *final(connection)),
        is_opened(*old(connection), bidirectional, r, *final(connection)),
        opened_streams(*final(connection), bidirectional) == opened_streams(
            *old(connection),
            bidirectional,
        ) + (if r is Some {
            1int
        } else {
            0
        }),
        r matches Some(id) ==> is_raw_id(id, is_server_side(*old(connection)), bidirectional),
{
    let direction = if bidirectional { quinn_proto::Dir::Bi } else { quinn_proto::Dir::Uni };
    connection.streams().open(direction).map(|id| id.into())
}

/// `Streams::accept`: the raw ID of a stream that the peer has opened.
#[verifier::external_body]
pub(crate) fn accept_stream(connection: &mut QuinnConnection, bidirectional: bool) -> (r: Option<
    u64,
>)
    ensures
        (r, *final(connection)) == stream_accepted(*old(connection), bidirectional),
        is_same_state(*old(connection), *final(connection)),
        r matches Some(id) ==> is_raw_id(id, !is_server_side(*old(connection)), bidirectional),
{
    let direction = if bidirectional { quinn_proto::Dir::Bi } else { quinn_proto::Dir::Uni };
    connection.streams().accept(direction).map(|id| id.into())
}

/// The raw ID is one of a stream that data is received on.
pub open spec fn is_received(connection: QuinnConnection, id: u64) -> bool {
    id / 2 % 2 == 0 || (id % 2 == 1) != is_server_side(connection)
}

/// The raw ID is one of a stream that data is sent on.
pub open spec fn is_sent(connection: QuinnConnection, id: u64) -> bool {
    id / 2 % 2 == 0 || (id % 2 == 1) == is_server_side(connection)
}

/// What is read from a stream at once, in sequences.
pub open spec fn read_of(
    r: Result<Result<Option<Bytes>, ReadFailure>, ReadableFailure>,
) -> Read {
    match r {
        Ok(Ok(Some(chunk))) => Read::Chunk(data::content(chunk)),
        Ok(Ok(None)) => Read::End(ReadEnd::Finished),
        Ok(Err(ReadFailure::Blocked)) => Read::End(ReadEnd::Blocked),
        Ok(Err(ReadFailure::Reset(code))) => Read::End(ReadEnd::Reset(code)),
        Err(failure) => Read::Unreadable(failure.kind()),
    }
}

/// A stream that can be read gives its data in order: each byte once, and then what is behind
/// the data. A stream whose end was read, or that cannot be read, is unknown afterwards.
///
/// * `before`, `after`: what of the stream can be read.
pub open spec fn is_chunk(
    before: Result<(Seq<u8>, ReadEnd), Unreadable>,
    max_length: usize,
    read: Read,
    after: Result<(Seq<u8>, ReadEnd), Unreadable>,
) -> bool {
    match before {
        Err(failure) => read == Read::Unreadable(failure) && after
            == Err::<(Seq<u8>, ReadEnd), Unreadable>(Unreadable::Closed),
        Ok((data, end)) => if data.len() > 0 {
            &&& read matches Read::Chunk(chunk)
            &&& 0 < chunk.len() <= max_length
            &&& chunk.len() <= data.len()
            &&& chunk == data.take(chunk.len() as int)
            &&& after == Ok::<(Seq<u8>, ReadEnd), Unreadable>((data.skip(chunk.len() as int), end))
        } else {
            &&& read == Read::End(end)
            &&& after == if end is Blocked {
                before
            } else {
                Err::<(Seq<u8>, ReadEnd), Unreadable>(Unreadable::Closed)
            }
        },
    }
}

/// `Connection::recv_stream`, `RecvStream::read` and `Chunks::next`: the next data of a stream,
/// in order, at least one byte and at most as many as given,
/// and if there is none, what is behind the data: `None` if the stream has ended.
#[verifier::external_body]
pub(crate) fn read_chunk(connection: &mut QuinnConnection, id: u64, max_length: usize) -> (r: Result<
    Result<Option<Bytes>, ReadFailure>,
    ReadableFailure,
>)
    requires
        id <= MAX_VARINT,
        is_received(*old(connection), id),
        max_length > 0,
    ensures
        (read_of(r), *final(connection)) == chunk_read(*old(connection), id, max_length),
        is_chunk(
            readable(*old(connection), id),
            max_length,
            read_of(r),
            readable(*final(connection), id),
        ),
        is_same_state(*old(connection), *final(connection)),
        r matches Err(ReadableFailure::IllegalOrder(message)) ==> message@
            == "ordered read after unordered read"@,
{
    let mut stream = connection.recv_stream(quinn_proto::VarInt::from_u64(id).unwrap().into());
    let mut chunks = stream.read(true).map_err(|error| match error {
        quinn_proto::ReadableError::ClosedStream => ReadableFailure::Closed,
        quinn_proto::ReadableError::IllegalOrderedRead => ReadableFailure::IllegalOrder(error.to_string()),
    })?;
    let next = chunks.next(max_length);
    Ok(next.map(|chunk| chunk.map(|chunk| chunk.bytes)).map_err(|error| match error {
        quinn_proto::ReadError::Blocked => ReadFailure::Blocked,
        quinn_proto::ReadError::Reset(code) => ReadFailure::Reset(code.into_inner()),
    }))
}

/// The rest of data, the beginning of which was written. There is a rest.
pub open spec fn is_unsent(sent: Seq<u8>, rest: Seq<u8>) -> bool {
    &&& 0 < rest.len() < sent.len()
    &&& rest == sent.skip(sent.len() - rest.len())
}

/// `SendStream::write_chunks` with one chunk: `true` if all of it was written.
/// What was not written stays in the chunk: something does if it was not all written.
#[verifier::external_body]
pub(crate) fn write_chunk(connection: &mut QuinnConnection, id: u64, chunk: &mut Bytes) -> (r:
    Result<bool, WriteFailure>)
    requires
        id <= MAX_VARINT,
        is_sent(*old(connection), id),
        data::content(*old(chunk)).len() > 0,
    ensures
        (r, data::content(*final(chunk)), *final(connection)) == stream_written(
            *old(connection),
            id,
            data::content(*old(chunk)),
        ),
        is_same_state(*old(connection), *final(connection)),
        r == Ok::<bool, WriteFailure>(true) ==> data::content(*final(chunk)).len() == 0,
        r == Ok::<bool, WriteFailure>(false) ==> is_unsent(
            data::content(*old(chunk)),
            data::content(*final(chunk)),
        ),
        r is Err ==> data::content(*final(chunk)) == data::content(*old(chunk)),
{
    let mut stream = connection.send_stream(quinn_proto::VarInt::from_u64(id).unwrap().into());
    match stream.write_chunks(core::slice::from_mut(chunk)) {
        Ok(written) => Ok(written.chunks == 1),
        Err(quinn_proto::WriteError::Blocked) => Err(WriteFailure::Blocked),
        Err(quinn_proto::WriteError::Stopped(code)) => Err(WriteFailure::Stopped(code.into_inner())),
        Err(quinn_proto::WriteError::ClosedStream) => Err(WriteFailure::Closed),
    }
}

/// `SendStream::finish`: no more data will be sent on the stream.
#[verifier::external_body]
pub(crate) fn finish(connection: &mut QuinnConnection, id: u64) -> (r: Result<(), FinishFailure>)
    requires
        id <= MAX_VARINT,
        is_sent(*old(connection), id),
    ensures
        (r, *final(connection)) == stream_finished(*old(connection), id),
        is_same_state(*old(connection), *final(connection)),
{
    let mut stream = connection.send_stream(quinn_proto::VarInt::from_u64(id).unwrap().into());
    stream.finish().map_err(|error| match error {
        quinn_proto::FinishError::Stopped(code) => FinishFailure::Stopped(code.into_inner()),
        quinn_proto::FinishError::ClosedStream => FinishFailure::Closed,
    })
}

/// `RecvStream::stop`: asks the peer to send no more data on the stream.
/// Nothing happens if the stream is unknown.
#[verifier::external_body]
pub(crate) fn stop(connection: &mut QuinnConnection, id: u64, code: u64)
    requires
        id <= MAX_VARINT,
        code <= MAX_VARINT,
        is_received(*old(connection), id),
    ensures
        *final(connection) == after_stop(*old(connection), id, code),
        is_same_state(*old(connection), *final(connection)),
{
    let mut stream = connection.recv_stream(quinn_proto::VarInt::from_u64(id).unwrap().into());
    let _ = stream.stop(quinn_proto::VarInt::from_u64(code).unwrap());
}

/// `SendStream::reset`: sends no more data on the stream.
/// Nothing happens if the stream is unknown.
#[verifier::external_body]
pub(crate) fn reset(connection: &mut QuinnConnection, id: u64, code: u64)
    requires
        id <= MAX_VARINT,
        code <= MAX_VARINT,
        is_sent(*old(connection), id),
    ensures
        *final(connection) == after_reset(*old(connection), id, code),
        is_same_state(*old(connection), *final(connection)),
{
    let mut stream = connection.send_stream(quinn_proto::VarInt::from_u64(id).unwrap().into());
    let _ = stream.reset(quinn_proto::VarInt::from_u64(code).unwrap());
}

/// `SendStream::set_priority`: data of a stream of a higher priority is sent first.
/// Nothing happens if the stream is unknown.
#[verifier::external_body]
pub(crate) fn set_priority(connection: &mut QuinnConnection, id: u64, priority: i32)
    requires
        id <= MAX_VARINT,
        is_sent(*old(connection), id),
    ensures
        *final(connection) == after_priority(*old(connection), id, priority),
        is_same_state(*old(connection), *final(connection)),
{
    let mut stream = connection.send_stream(quinn_proto::VarInt::from_u64(id).unwrap().into());
    let _ = stream.set_priority(priority);
}

/// Each side can send on all streams that it has opened, and receive on all streams that
/// the peer has opened. What one side sends, the other side receives.
pub proof fn law_directions_of_streams(ours: QuinnConnection, theirs: QuinnConnection, id: u64)
    requires
        is_server_side(ours) != is_server_side(theirs),
    ensures
        is_sent(ours, id) == is_received(theirs, id),
        is_sent(ours, id) || is_received(ours, id),
        (id % 4 == 0 || id % 4 == 1) ==> is_sent(ours, id) && is_received(ours, id),
        id % 4 == 2 ==> is_sent(ours, id) == !is_server_side(ours) && is_received(ours, id)
            == is_server_side(ours),
        id % 4 == 3 ==> is_sent(ours, id) == is_server_side(ours) && is_received(ours, id)
            == !is_server_side(ours),
{
}

/// The first stream that a side opens in a sequence has the least ID of the sequence,
/// and each one after it is four greater. The ID tells who has opened the stream.
pub proof fn law_streams_are_numbered(connection: QuinnConnection, bidirectional: bool, id: u64)
    requires
        id == next_raw_id(connection, bidirectional),
    ensures
        id / 4 == opened_streams(connection, bidirectional),
        id % 4 == match (bidirectional, is_server_side(connection)) {
            (true, false) => 0u64,
            (true, true) => 1,
            (false, false) => 2,
            (false, true) => 3,
        },
        id < 0x4000_0000_0000_0000 <==> is_raw_id(id, is_server_side(connection), bidirectional),
        is_sent(connection, id),
        is_received(connection, id) == bidirectional,
{
}

/// A connection in the same state is on the same side, as open as it was, and has opened
/// no stream of either directionality.
pub proof fn law_same_state_opens_and_closes_nothing(
    before: QuinnConnection,
    after: QuinnConnection,
    bidirectional: bool,
)
    requires
        is_same_state(before, after),
    ensures
        is_server_side(after) == is_server_side(before),
        closed(after) == closed(before),
        drained(after) == drained(before),
        opened_streams(after, bidirectional) == opened_streams(before, bidirectional),
        next_raw_id(after, bidirectional) == next_raw_id(before, bidirectional),
{
}

/// Data that is read at once is the beginning of what can be read, and what is left follows it.
/// The end is read once there is no data, and only a stream that may get more stays known then.
pub proof fn law_chunks_are_read_in_order(
    before: Result<(Seq<u8>, ReadEnd), Unreadable>,
    max_length: usize,
    read: Read,
    after: Result<(Seq<u8>, ReadEnd), Unreadable>,
)
    requires
        is_chunk(before, max_length, read, after),
    ensures
        read is Chunk <==> (before matches Ok((data, _)) && data.len() > 0),
        read matches Read::Chunk(chunk) ==> {
            &&& 0 < chunk.len() <= max_length
            &&& before matches Ok((data, end))
            &&& after matches Ok((rest, rest_end))
            &&& chunk + rest == data
            &&& rest_end == end
        },
        read matches Read::End(told) ==> {
            &&& before matches Ok((data, end))
            &&& data.len() == 0
            &&& told == end
            &&& end is Blocked ==> after == before
            &&& !(end is Blocked) ==> after == Err::<(Seq<u8>, ReadEnd), Unreadable>(
                Unreadable::Closed,
            )
        },
        read matches Read::Unreadable(failure) ==> before == Err::<(Seq<u8>, ReadEnd), Unreadable>(
            failure,
        ) && after == Err::<(Seq<u8>, ReadEnd), Unreadable>(Unreadable::Closed),
{
    if let Ok((data, _)) = before {
        if let Read::Chunk(chunk) = read {
            let n = chunk.len() as int;
            assert(data.take(n) + data.skip(n) =~= data);
        }
    }
}

/// What is not sent is the end of the data, and something of it was sent.
pub proof fn law_rest_is_the_end(sent: Seq<u8>, rest: Seq<u8>)
    requires
        is_unsent(sent, rest),
    ensures
        rest.len() > 0,
        exists|written: Seq<u8>| written.len() > 0 && #[trigger] (written + rest) == sent,
{
    let written = sent.take(sent.len() - rest.len());
    assert(written + rest =~= sent);
}

/// Four sequences of raw IDs do not meet: an ID tells its side and its directionality.
pub proof fn law_raw_ids_tell_their_sequence(id: u64, by_server: bool, bidirectional: bool)
    ensures
        is_raw_id(id, by_server, bidirectional) <==> id < 0x4000_0000_0000_0000 && id % 4
            == match (bidirectional, by_server) {
            (true, false) => 0u64,
            (true, true) => 1,
            (false, false) => 2,
            (false, true) => 3,
        },
{
}

} // verus!

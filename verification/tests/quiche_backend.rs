use aquic::backend::cid::RandomIdGenerator;
use aquic::backend::quiche::backend::{
    Exchange, Migrated, QuicheBackend, RecvAction, SendResult, TimerAction,
};
use aquic::backend::quiche::config::{ClientConfig, Config, ServerConfig};
use aquic::backend::quiche::connection::{CloseInfo, CloseStatus, ReleaseDecision, TimerKind};
use aquic::backend::quiche::error::{QuicheError, QuicheErrorKind};
use aquic::backend::quiche::initial::{InitialAction, InitialHeader};
use aquic::backend::quiche::io::Write;
use aquic::backend::quiche::model::{Handshake, PathEvent, Readiness, Received};
use aquic::backend::quiche::{Connection, QuicheConnectionId};
use aquic::backend::{
    ConnectionEvent, ConnectionId, DatagramEvent, Error, Event, Firewall, HaltKind, StreamEvent,
    Token, TokenError, TokenGenerator, TokenKind,
};
use aquic::net::{IpAddr, ServerName, SocketAddr};
use aquic::stream::{Priority, StreamId};
use aquic::time::{Duration, Instant, SystemTime};
use bytes::Bytes;

const LOCAL: IpAddr = IpAddr::V4(0x7f00_0001);
const SECOND: u128 = 1_000_000_000;

/// Allows as many unverified connections as it is told.
struct Limit(usize);

impl Firewall for Limit {
    fn allow_unverified(&self, _addr: SocketAddr, _total: usize, unverified: usize) -> bool {
        unverified < self.0
    }
}

/// Tokens are a text; they tell what is said of them.
struct TextTokens {
    token: Vec<u8>,
}

impl TokenGenerator for TextTokens {
    fn generate_retry_token(
        &mut self,
        _peer_addr: IpAddr,
        peer_scid: &[u8],
        peer_dcid: &[u8],
        server_new_scid: &[u8],
        expires_at: SystemTime,
    ) -> Option<&[u8]> {
        assert_eq!(server_new_scid.len(), 8);
        self.token = format!("{:?} {:?} {}", peer_scid, peer_dcid, expires_at.nanos).into_bytes();
        Some(&self.token)
    }

    fn generate_identity_token(&mut self, _peer_addr: IpAddr, _expires_at: SystemTime) -> &[u8] {
        b"identity"
    }

    fn generate_reset_token(&mut self, server_scid: &[u8]) -> [u8; 16] {
        [server_scid.len() as u8; 16]
    }

    fn verify_token(
        &mut self,
        _peer_addr: IpAddr,
        _peer_scid: &[u8],
        peer_dcid: &[u8],
        token: &[u8],
        now: SystemTime,
    ) -> Result<Token, TokenError> {
        match token {
            b"retry" => Ok(Token::Retry {
                peer_original_dcid: ConnectionId::try_from_slice(peer_dcid).unwrap(),
                expires_at: now,
            }),
            b"identity" => Ok(Token::Identity { expires_at: now }),
            b"old retry" => Err(TokenError::Expired(TokenKind::Retry, now)),
            b"old identity" => Err(TokenError::Expired(TokenKind::Identity, now)),
            _ => Err(TokenError::Invalid),
        }
    }
}

type Backend = QuicheBackend<RandomIdGenerator, Limit, TextTokens>;

fn config(unverified: usize) -> Config<RandomIdGenerator, Limit, TextTokens> {
    Config {
        client: Some(ClientConfig::new()),
        server: Some(ServerConfig::new(Limit(unverified), TextTokens { token: Vec::new() })),
        connection_id_generator: RandomIdGenerator::new(8),
        out_buffer_size: 0,
    }
}

fn backend() -> Backend {
    QuicheBackend::new(config(0), LOCAL, Instant { nanos: 0 }, SystemTime { nanos: 0 })
}

fn addr(port: u16) -> SocketAddr {
    SocketAddr::new(IpAddr::V4(0x0a00_0001), port)
}

fn cid(bytes: &[u8]) -> ConnectionId {
    ConnectionId::try_from_slice(bytes).unwrap()
}

fn register(backend: &mut Backend, is_server: bool, scid: &[u8]) -> QuicheConnectionId {
    backend.register_new_connection(
        Connection::new(is_server, false),
        &cid(scid),
        None,
        addr(1),
        Some(Instant { nanos: 3 * SECOND }),
    )
}

fn status() -> CloseStatus {
    CloseStatus { is_timed_out: false, local_error: None, peer_error: None }
}

fn local_close() -> CloseStatus {
    CloseStatus {
        local_error: Some(CloseInfo { is_app: true, error_code: 9, reason: Vec::new() }),
        ..status()
    }
}

fn readiness() -> Readiness {
    Readiness {
        streams_left_bidi: 1,
        streams_left_uni: 1,
        readable: Vec::new(),
        writable: Vec::new(),
        dgram_recv_queue_full: false,
        dgram_send_queue_full: false,
        dgram_max_writable_len: None,
    }
}

fn handshake(is_established: bool) -> Handshake {
    Handshake { is_established, session: None, server_name: None, scids_left: 2 }
}

fn received() -> Received {
    Received {
        error: None,
        is_handshake: false,
        handshake: handshake(true),
        is_closing: false,
        status: status(),
        path_events: Vec::new(),
        readiness: readiness(),
        timeout_at: None,
    }
}

fn error(kind: QuicheErrorKind) -> QuicheError {
    QuicheError { kind, text: String::from("text") }
}

fn bidi() -> StreamId {
    StreamId::init_client_bidi()
}

#[test]
fn new_connection_is_registered() {
    let mut backend = backend();
    let (scid, local) = backend.begin_connect().unwrap();
    assert_eq!(scid.len(), 8);
    assert_eq!(local, SocketAddr::new(LOCAL, u16::MAX));
    assert!(backend.close_ready());
    let id = register(&mut backend, false, b"scid");
    assert!(!backend.close_ready());
    let events = backend.events();
    assert_eq!(events.len(), 1);
    assert!(matches!(
        events[0],
        Event::Connection(ConnectionEvent::New { connection_id, is_server: false })
            if connection_id == id
    ));
    assert!(backend.events().is_empty());
    assert!(backend.send_next(1) == Some(id.key));
    assert!(backend.send_next(0).is_none());
}

#[test]
fn timeouts_of_a_new_connection_are_scheduled() {
    let mut backend = backend();
    let id = register(&mut backend, false, b"scid");
    let (fired, next) = backend.fired_events();
    assert!(fired.is_empty());
    assert_eq!(next, Some(Instant { nanos: 3 * SECOND }));
    backend.clock_update(Instant { nanos: 30 * SECOND }, SystemTime { nanos: 0 });
    let (fired, next) = backend.fired_events();
    assert_eq!(next, None);
    assert_eq!(fired.len(), 2);
    assert_eq!(fired[0].kind, TimerKind::QuicheTimeout);
    assert_eq!(fired[1].kind, TimerKind::EstablishTimeout);
    assert!(fired[1].connection_key == id.key);
}

#[test]
fn connection_is_established_in_time() {
    let mut backend = backend();
    let id = register(&mut backend, false, b"scid");
    backend.check_connection_handshake_progress(id.key, &handshake(false));
    let scids = backend.check_connection_handshake_progress(id.key, &handshake(true));
    assert_eq!(scids.len(), 2);
    assert_eq!(scids[0].scid.len(), 8);
    assert_eq!(scids[0].reset_token, [8; 16]);
    backend.clock_update(Instant { nanos: 100 * SECOND }, SystemTime { nanos: 0 });
    let (fired, _) = backend.fired_events();
    assert_eq!(fired.len(), 1);
    assert_eq!(fired[0].kind, TimerKind::QuicheTimeout);
}

#[test]
fn scheduled_events_are_handled() {
    let mut backend = backend();
    let client = register(&mut backend, false, b"cccc");
    let server = register(&mut backend, true, b"ssss");
    backend.events();
    backend.clock_update(Instant { nanos: 60 * SECOND }, SystemTime { nanos: 0 });
    let (fired, _) = backend.fired_events();
    assert_eq!(fired.len(), 4);
    let of = |key, kind| {
        *fired.iter().find(|e| e.connection_key == key && e.kind == kind).unwrap()
    };
    let timeout = of(client.key, TimerKind::QuicheTimeout);
    assert_eq!(
        backend.handle_scheduled_event(timeout, false, &status()),
        TimerAction::HandleTimeout
    );
    let establish = of(server.key, TimerKind::EstablishTimeout);
    assert_eq!(
        backend.handle_scheduled_event(establish, true, &status()),
        TimerAction::Nothing
    );
    assert!(backend.events().is_empty());
    assert_eq!(
        backend.handle_scheduled_event(establish, false, &status()),
        TimerAction::Refuse
    );
    assert!(matches!(
        backend.events()[..],
        [Event::Connection(ConnectionEvent::Halted { kind: HaltKind::Timeout, .. })]
    ));
    let establish = of(client.key, TimerKind::EstablishTimeout);
    assert_eq!(
        backend.handle_scheduled_event(establish, false, &status()),
        TimerAction::Forgotten
    );
    assert_eq!(backend.events().len(), 1);
    assert_eq!(
        backend.handle_scheduled_event(establish, false, &status()),
        TimerAction::Nothing
    );
}

#[test]
fn pacer_reactivates_a_connection() {
    let mut backend = backend();
    let id = register(&mut backend, false, b"scid");
    assert_eq!(backend.active_len(), 1);
    let at = Instant { nanos: SECOND };
    let result = backend.send_packets(id.key, Some(Write::Pacer(at)), &readiness(), None);
    assert_eq!(result, SendResult::Done);
    assert!(backend.send_done(id.key, result));
    assert_eq!(backend.active_len(), 0);
    backend.clock_update(at, SystemTime { nanos: 0 });
    let (fired, _) = backend.fired_events();
    assert_eq!(fired[0].kind, TimerKind::Pacer);
    assert_eq!(
        backend.handle_scheduled_event(fired[0], false, &status()),
        TimerAction::Nothing
    );
    assert_eq!(backend.active_len(), 1);

    let decision = ReleaseDecision { can_burst: false, time: Some(Instant { nanos: 2 * SECOND }) };
    backend.schedule_pacer(id.key, None, Some(decision));
    assert_eq!(backend.fired_events().1, Some(Instant { nanos: 2 * SECOND }));
}

#[test]
fn connections_send_in_fair_order() {
    let mut backend = backend();
    let a = register(&mut backend, false, b"aaaa");
    let b = register(&mut backend, false, b"bbbb");
    let written = |backend: &mut Backend, key, write| {
        backend.send_packets(key, write, &readiness(), None)
    };
    let result = written(&mut backend, a.key, Some(Write::Quantum));
    assert_eq!(result, SendResult::Reactivate);
    assert!(backend.send_done(a.key, result));
    assert!(backend.send_next(1) == Some(b.key));
    let result = written(&mut backend, b.key, Some(Write::BufferTooShort));
    assert_eq!(result, SendResult::StopAndRetry);
    assert!(!backend.send_done(b.key, result));
    assert!(backend.send_next(1) == Some(b.key));
    let result = written(&mut backend, b.key, Some(Write::Complete));
    assert!(backend.send_done(b.key, result));
    assert!(backend.send_next(1) == Some(a.key));
    assert_eq!(written(&mut backend, a.key, None), SendResult::Done);
}

#[test]
fn packets_are_routed() {
    let mut backend = backend();
    let id = register(&mut backend, true, b"scid");
    backend.send_done(id.key, SendResult::Done);
    assert_eq!(backend.recv(None, addr(1)), RecvAction::Drop);
    assert_eq!(backend.recv(Some((true, b"scid")), addr(1)), RecvAction::HandleInitial);
    assert_eq!(backend.active_len(), 0);
    assert_eq!(backend.recv(Some((false, b"scid")), addr(1)), RecvAction::Delegate(id.key));
    assert_eq!(backend.active_len(), 1);
    assert_eq!(backend.recv(Some((false, b"else")), addr(1)), RecvAction::Reset);
    assert!(backend.route_packet(b"else", addr(1)).is_none());
    backend.close();
    assert_eq!(backend.recv(Some((true, b"scid")), addr(1)), RecvAction::Drop);
    assert_eq!(backend.recv(Some((false, b"scid")), addr(1)), RecvAction::Delegate(id.key));
}

fn header(token: Option<&[u8]>) -> InitialHeader {
    InitialHeader {
        is_version_supported: true,
        scid: b"peer".to_vec(),
        dcid: b"original".to_vec(),
        token: token.map(|t| t.to_vec()),
    }
}

#[test]
fn unverified_peer_is_answered_with_retry() {
    let mut backend = backend();
    match backend.handle_initial_packet_as_server(&header(None), addr(1)) {
        InitialAction::Retry { new_scid, token } => {
            assert_eq!(new_scid.len(), 8);
            let expected = format!("{:?} {:?} {}", b"peer", b"original", 15 * SECOND);
            assert_eq!(token, expected.into_bytes());
        }
        _ => panic!("no retry"),
    }
    for token in [&b"other"[..], b"old identity", b""] {
        assert!(matches!(
            backend.handle_initial_packet_as_server(&header(Some(token)), addr(1)),
            InitialAction::Retry { .. }
        ));
    }
}

#[test]
fn verified_peer_is_accepted() {
    let mut backend = backend();
    match backend.handle_initial_packet_as_server(&header(Some(b"retry")), addr(1)) {
        InitialAction::Accept { new_scid, peer_original_dcid, peer_address_verified } => {
            assert_eq!(new_scid.len(), 8);
            assert_eq!(peer_original_dcid.unwrap().as_slice(), b"original");
            assert!(peer_address_verified);
        }
        _ => panic!("not accepted"),
    }
    assert!(matches!(
        backend.handle_initial_packet_as_server(&header(Some(b"identity")), addr(1)),
        InitialAction::Accept { peer_original_dcid: None, peer_address_verified: true, .. }
    ));
    assert!(matches!(
        backend.handle_initial_packet_as_server(&header(Some(b"old retry")), addr(1)),
        InitialAction::Drop
    ));
}

#[test]
fn firewall_limits_unverified_peers() {
    let mut backend: Backend =
        QuicheBackend::new(config(1), LOCAL, Instant { nanos: 0 }, SystemTime { nanos: 0 });
    assert!(matches!(
        backend.handle_initial_packet_as_server(&header(None), addr(1)),
        InitialAction::Accept { peer_original_dcid: None, peer_address_verified: false, .. }
    ));
    let id = register(&mut backend, true, b"scid");
    assert!(matches!(
        backend.handle_initial_packet_as_server(&header(None), addr(1)),
        InitialAction::Retry { .. }
    ));
    backend.handle_path_events(id.key, &vec![PathEvent::Validated], false, 2);
    assert!(matches!(
        backend.handle_initial_packet_as_server(&header(None), addr(1)),
        InitialAction::Accept { .. }
    ));
}

#[test]
fn malformed_initial_packets_are_not_accepted() {
    let mut backend = backend();
    let mut unsupported = header(None);
    unsupported.is_version_supported = false;
    assert!(matches!(
        backend.handle_initial_packet_as_server(&unsupported, addr(1)),
        InitialAction::NegotiateVersion
    ));
    let mut long = header(None);
    long.dcid = vec![0; 21];
    assert!(matches!(
        backend.handle_initial_packet_as_server(&long, addr(1)),
        InitialAction::Drop
    ));
    let mut client: Backend = QuicheBackend::new(
        Config { server: None, ..config(0) },
        LOCAL,
        Instant { nanos: 0 },
        SystemTime { nanos: 0 },
    );
    assert!(matches!(
        client.handle_initial_packet_as_server(&header(None), addr(1)),
        InitialAction::Drop
    ));
}

#[test]
fn lost_packet_is_answered_with_stateless_reset() {
    let mut backend = backend();
    let mut out = Vec::new();
    backend.handle_packet_with_stateless_reset(b"lost", 20, LOCAL, addr(1), &mut out);
    assert!(out.is_empty());
    backend.handle_packet_with_stateless_reset(b"lost", 1200, LOCAL, addr(1), &mut out);
    assert_eq!(out.len(), 1);
    let message = out.remove(0);
    let data = backend.io().message_data(&message).to_vec();
    assert_eq!(&data[data.len() - 16..], &[4; 16]);
    assert_eq!((message.from(), message.to()), (LOCAL, addr(1)));
    backend.io().release(message);
}

#[test]
fn delegated_packet_tells_what_has_changed() {
    let mut backend = backend();
    let id = register(&mut backend, true, b"scid");
    backend.events();
    let mut packet = received();
    packet.is_handshake = true;
    packet.path_events = vec![PathEvent::Other, PathEvent::PeerMigrated];
    packet.readiness.readable = vec![0, u64::MAX];
    packet.readiness.writable = vec![4];
    packet.readiness.dgram_max_writable_len = Some(1100);
    packet.timeout_at = Some(Instant { nanos: SECOND });
    // The connection IDs are allocated once.
    assert_eq!(backend.delegate_packet(id.key, &packet).len(), 2);
    let events = backend.events();
    assert_eq!(events.len(), 3);
    assert!(matches!(events[0], Event::Stream(StreamEvent::Available(_, s)) if s.raw() == 0));
    assert!(matches!(events[1], Event::Stream(StreamEvent::Available(_, s)) if s.raw() == 4));
    assert!(matches!(events[2], Event::Datagram(DatagramEvent::OutNewSize(_, 1100))));
    assert_eq!(backend.fired_events().1, Some(Instant { nanos: SECOND }));
}

#[test]
fn migrated_peer_gets_connection_ids() {
    let mut backend = backend();
    let id = register(&mut backend, true, b"scid");
    let mut packet = received();
    packet.path_events = vec![PathEvent::PeerMigrated];
    assert!(backend.updates_scids_dict(id.key, &packet));
    assert_eq!(backend.delegate_packet(id.key, &packet).len(), 2);
    // No more connection IDs are taken, and those that are known are registered again.
    packet.handshake.scids_left = 0;
    assert!(backend.updates_scids_dict(id.key, &packet));
    assert!(backend.delegate_packet(id.key, &packet).is_empty());
    packet.handshake.scids_left = 2;
    packet.path_events = vec![PathEvent::Validated];
    assert!(!backend.updates_scids_dict(id.key, &packet));
    assert!(backend.delegate_packet(id.key, &packet).is_empty());
    packet.is_handshake = true;
    assert!(backend.updates_scids_dict(id.key, &packet));
    packet.handshake.is_established = false;
    assert!(!backend.updates_scids_dict(id.key, &packet));
}

#[test]
fn closed_connection_takes_no_part() {
    let mut backend = backend();
    let id = register(&mut backend, true, b"scid");
    backend.events();
    assert_eq!(backend.begin_exchange(id.key, false, &local_close()), Exchange::HandOver);
    assert!(backend.events().is_empty());
    assert_eq!(backend.begin_exchange(id.key, true, &local_close()), Exchange::Forgotten);
    assert!(matches!(
        backend.events()[..],
        [Event::Connection(ConnectionEvent::Closed { code: 9, .. })]
    ));
    assert!(backend.route_packet(b"scid", addr(1)).is_none());
    assert_eq!(backend.begin_exchange(id.key, false, &local_close()), Exchange::Forgotten);
}

#[test]
fn failed_packet_closes_the_connection() {
    let mut backend = backend();
    let id = register(&mut backend, true, b"scid");
    backend.events();
    let mut packet = received();
    packet.error = Some(error(QuicheErrorKind::InvalidPacket));
    assert!(backend.delegate_packet(id.key, &packet).is_empty());
    assert!(backend.events().is_empty());
    packet.is_closing = true;
    packet.status = local_close();
    backend.delegate_packet(id.key, &packet);
    assert!(matches!(
        backend.events()[..],
        [Event::Connection(ConnectionEvent::Closed { code: 9, is_local: true, .. })]
    ));
    backend.delegate_packet(id.key, &packet);
    assert!(backend.events().is_empty());

    let other = register(&mut backend, true, b"else");
    backend.events();
    packet.error = Some(error(QuicheErrorKind::UnknownVersion));
    backend.delegate_packet(other.key, &packet);
    assert!(matches!(
        backend.events()[..],
        [Event::Connection(ConnectionEvent::Halted { kind: HaltKind::UnknownVersion, .. })]
    ));
}

#[test]
fn forgotten_connection_leaves_nothing_behind() {
    let mut backend = backend();
    let id = register(&mut backend, true, b"scid");
    backend.events();
    backend.forget_connection(id.key, &local_close());
    assert!(matches!(
        backend.events()[..],
        [Event::Connection(ConnectionEvent::Closed { code: 9, .. })]
    ));
    assert_eq!(backend.fired_events().1, None);
    assert!(backend.route_packet(b"scid", addr(1)).is_none());
    assert!(backend.close_ready());
    backend.forget_connection(id.key, &local_close());
    assert!(backend.events().is_empty());
}

#[test]
fn session_is_stored_for_clients() {
    let mut backend = backend();
    let id = register(&mut backend, false, b"scid");
    let progress = Handshake {
        session: Some(vec![1, 2, 3]),
        server_name: Some(String::from("example.com")),
        ..handshake(true)
    };
    let name = ServerName::try_from("example.com").unwrap();
    assert!(backend.session_for(&name).is_none());
    backend.check_connection_handshake_progress(id.key, &progress);
    assert_eq!(backend.session_for(&name).unwrap().tls_ticket, vec![1, 2, 3]);
    assert!(backend.session_for(&ServerName::try_from("other.com").unwrap()).is_none());
}

#[test]
fn network_is_migrated() {
    let mut backend = backend();
    let client = register(&mut backend, false, b"cccc");
    let lost = register(&mut backend, false, b"llll");
    register(&mut backend, true, b"ssss");
    backend.events();
    assert!(matches!(backend.migrate_network(Some(IpAddr::V4(0))), Err(Error::Illegal)));
    let keys = backend.migrate_network(Some(IpAddr::V4(9))).unwrap();
    assert_eq!(keys.len(), 2);
    assert!(keys.contains(&client.key) && keys.contains(&lost.key));
    assert_eq!(backend.begin_connect().unwrap().1, SocketAddr::new(IpAddr::V4(9), u16::MAX));
    backend.settle_migrations(&vec![
        (client.key, Migrated::Done(Some(900))),
        (lost.key, Migrated::Failed(status())),
    ]);
    let events = backend.events();
    assert_eq!(events.len(), 2);
    assert!(matches!(events[0], Event::Datagram(DatagramEvent::OutNewSize(_, 900))));
    assert!(matches!(
        events[1],
        Event::Connection(ConnectionEvent::Halted { kind: HaltKind::MigrationFailed, .. })
    ));
    assert!(backend.route_packet(b"llll", addr(1)).is_none());
    assert!(backend.route_packet(b"cccc", addr(1)).is_some());
    backend.close();
    assert!(matches!(backend.migrate_network(None), Err(Error::Closed)));
}

#[test]
fn streams_are_opened_in_sequence() {
    let mut backend = backend();
    let id = register(&mut backend, false, b"scid");
    backend.events();
    assert_eq!(backend.stream_open(&id, true, true, 5).unwrap().raw(), 0);
    assert_eq!(backend.stream_open(&id, true, true, 4).unwrap().raw(), 4);
    assert_eq!(backend.stream_open(&id, false, true, 1).unwrap().raw(), 2);
    assert_eq!(backend.events().len(), 3);
    assert!(matches!(backend.stream_open(&id, true, true, 0), Err(Error::StreamsExhausted)));
    assert!(matches!(backend.stream_open(&id, true, false, 1), Err(Error::UnknownConnection)));
    backend.write_stream_dgram_events(id.key, &readiness());
    assert!(matches!(
        backend.events()[..],
        [Event::Connection(ConnectionEvent::StreamsAvailable { is_bidirectional: true, .. })]
    ));
    backend.close();
    assert!(matches!(backend.stream_open(&id, true, true, 1), Err(Error::Closed)));
}

#[test]
fn unopened_streams_are_not_written() {
    let mut backend = backend();
    let id = register(&mut backend, false, b"scid");
    assert!(matches!(
        backend.begin_stream_send(&id, bidi(), true),
        Some(Error::UnknownStream)
    ));
    backend.stream_open(&id, true, true, 1).unwrap();
    assert!(backend.begin_stream_send(&id, bidi(), true).is_none());
    assert!(matches!(
        backend.begin_stream_send(&id, StreamId::from(4u8), true),
        Some(Error::UnknownStream)
    ));
    assert!(backend.begin_stream_send(&id, StreamId::init_server_bidi(), true).is_none());
    assert!(matches!(
        backend.begin_stream_send(&id, StreamId::init_server_uni(), true),
        Some(Error::Illegal)
    ));
    assert!(matches!(
        backend.begin_stream_send(&id, bidi(), false),
        Some(Error::UnknownConnection)
    ));
}

#[test]
fn streams_are_read() {
    let mut backend = backend();
    let id = register(&mut backend, true, b"scid");
    assert!(backend.begin_stream_recv(&id, bidi(), 1, true).is_none());
    assert!(matches!(
        backend.begin_stream_recv(&id, bidi(), 0, true),
        Some(Error::BufferSize)
    ));
    assert!(matches!(
        backend.begin_stream_recv(&id, StreamId::init_client_uni(), 1, true),
        Some(Error::Illegal)
    ));
    assert!(matches!(
        backend.begin_stream_recv(&id, bidi(), 1, false),
        Some(Error::UnknownConnection)
    ));
    assert!(matches!(Backend::stream_recv(Ok((7, true))), Ok((7, true))));
    assert!(matches!(
        Backend::stream_recv(Err(error(QuicheErrorKind::Done))),
        Ok((0, false))
    ));
    assert!(matches!(
        Backend::stream_recv(Err(error(QuicheErrorKind::StreamReset(3)))),
        Err(Error::StreamReset(3))
    ));
}

#[test]
fn unsent_stream_data_comes_back() {
    let bytes = Bytes::from_static(b"data");
    assert!(matches!(Backend::stream_send(bytes.clone(), Ok(None)), Ok(None)));
    assert_eq!(
        Backend::stream_send(bytes.clone(), Ok(Some(bytes.slice(2..)))).unwrap().unwrap(),
        "ta"
    );
    assert_eq!(
        Backend::stream_send(bytes.clone(), Err(error(QuicheErrorKind::Done))).unwrap().unwrap(),
        "data"
    );
    assert!(matches!(
        Backend::stream_send(bytes, Err(error(QuicheErrorKind::StreamStopped(2)))),
        Err(Error::StreamStop(2))
    ));
}

#[test]
fn streams_are_terminated_and_prioritized() {
    let mut backend = backend();
    let id = register(&mut backend, true, b"scid");
    let (client_uni, server_uni) = (StreamId::init_client_uni(), StreamId::init_server_uni());
    assert!(backend.stream_stop_sending(&id, bidi(), true));
    assert!(!backend.stream_stop_sending(&id, client_uni, true));
    assert!(backend.stream_reset_sending(&id, client_uni, true));
    assert!(!backend.stream_reset_sending(&id, server_uni, true));
    assert!(!backend.stream_reset_sending(&id, bidi(), false));
    let priority = Priority { urgency: 1, incremental: true };
    assert_eq!(backend.stream_set_priority(&id, bidi(), priority, true), Some((126, true)));
    assert_eq!(backend.stream_set_priority(&id, server_uni, priority, true), None);
    backend.close();
    assert!(!backend.stream_stop_sending(&id, bidi(), true));
    assert_eq!(backend.stream_set_priority(&id, bidi(), priority, true), None);
}

#[test]
fn datagrams_are_received() {
    let mut backend = backend();
    let id = register(&mut backend, true, b"scid");
    backend.events();
    let mut out = [0u8; 4];
    assert!(backend.begin_dgram_recv(&id, true).is_none());
    assert!(matches!(backend.begin_dgram_recv(&id, false), Some(Error::UnknownConnection)));
    assert!(matches!(backend.dgram_recv(&id, Ok(b"abc".to_vec()), &mut out), Ok(3)));
    assert_eq!(&out, b"abc\0");
    assert!(matches!(
        backend.dgram_recv(&id, Ok(b"abcde".to_vec()), &mut out),
        Err(Error::BufferSize)
    ));
    assert!(matches!(
        backend.dgram_recv_zc(&id, Ok(b"zc".to_vec())),
        Ok(Some(d)) if d == b"zc"
    ));
    assert!(matches!(
        backend.dgram_recv(&id, Err(error(QuicheErrorKind::Done)), &mut out),
        Ok(0)
    ));
    backend.write_stream_dgram_events(id.key, &readiness());
    assert!(matches!(backend.events()[..], [Event::Datagram(DatagramEvent::InAvailable(_))]));
    assert!(matches!(
        backend.dgram_recv_zc(&id, Err(error(QuicheErrorKind::InvalidState))),
        Err(Error::Other(_))
    ));
}

#[test]
fn datagrams_are_sent() {
    let mut backend = backend();
    let id = register(&mut backend, true, b"scid");
    backend.events();
    let bytes = Bytes::from_static(b"dgram");
    assert!(backend.begin_dgram_send(&id, true).is_none());
    assert!(matches!(backend.dgram_send(&id, bytes.clone(), Ok(())), Ok(None)));
    let full = backend.dgram_send(&id, bytes.clone(), Err(error(QuicheErrorKind::Done)));
    assert_eq!(full.unwrap().unwrap(), bytes);
    backend.write_stream_dgram_events(id.key, &readiness());
    assert!(matches!(backend.events()[..], [Event::Datagram(DatagramEvent::OutAvailable(_))]));
    assert!(matches!(
        backend.dgram_send(&id, bytes, Err(error(QuicheErrorKind::BufferTooShort))),
        Err(Error::BufferSize)
    ));
    assert!(matches!(backend.dgram_send_max_size(&id, true, Some(1200)), Ok(1200)));
    assert!(matches!(backend.dgram_send_max_size(&id, true, None), Ok(0)));
    assert!(matches!(
        backend.dgram_send_max_size(&id, false, None),
        Err(Error::UnknownConnection)
    ));
}

#[test]
fn connection_is_closed_by_the_application() {
    let mut backend = backend();
    let id = register(&mut backend, true, b"scid");
    backend.events();
    assert!(backend.begin_connection_close(&id, true).is_none());
    assert!(matches!(
        backend.connection_close(&id, Err(error(QuicheErrorKind::Done)), &status()),
        Err(Error::UnknownConnection)
    ));
    assert!(backend.events().is_empty());
    assert!(backend.connection_close(&id, Ok(()), &local_close()).is_ok());
    assert!(matches!(
        backend.events()[..],
        [Event::Connection(ConnectionEvent::Closed { code: 9, .. })]
    ));
    assert!(matches!(
        backend.begin_connection_close(&id, false),
        Some(Error::UnknownConnection)
    ));
    assert!(backend.check_peer_cert_chain(&id).is_none());
}

#[test]
fn backend_is_closed_once() {
    let mut backend = backend();
    let id = register(&mut backend, false, b"scid");
    assert!(backend.close().unwrap() == vec![id.key]);
    assert!(backend.close().is_none());
    assert!(!backend.close_ready());
    assert!(matches!(backend.begin_connect(), Err(Error::Closed)));
    assert!(matches!(backend.begin_connection_close(&id, true), Some(Error::Closed)));
    assert!(matches!(backend.check_peer_cert_chain(&id), Some(Error::Closed)));
    backend.forget_connection(id.key, &status());
    assert!(backend.close_ready());
}

#[test]
fn connecting_takes_a_client() {
    let server: Backend = QuicheBackend::new(
        Config { client: None, ..config(0) },
        LOCAL,
        Instant { nanos: 0 },
        SystemTime { nanos: 0 },
    );
    assert!(matches!(server.begin_connect(), Err(Error::Illegal)));
    assert_eq!(Backend::to_sock_addr(LOCAL), SocketAddr::new(LOCAL, u16::MAX));
}

#[test]
fn establishment_has_a_deadline() {
    let mut backend = backend();
    let id = backend.register_new_connection(
        Connection::new(true, true),
        &cid(b"scid"),
        None,
        addr(1),
        None,
    );
    assert_eq!(backend.fired_events().1, Some(Instant { nanos: 15 * SECOND }));
    backend.schedule_establish_timeout(id.key, Some(Instant { nanos: 7 }));
    assert_eq!(backend.fired_events().1, Some(Instant { nanos: 7 }));
    backend.schedule_quiche_timeout(id.key, Some(Instant { nanos: 5 }), None);
    backend.schedule_quiche_timeout(id.key, None, Some(Instant { nanos: 6 }));
    assert_eq!(backend.fired_events().1, Some(Instant { nanos: 6 }));
    assert!(Duration::from_secs(15) == ServerConfig::new(Limit(0), TextTokens { token: vec![] }).establish_timeout);
}

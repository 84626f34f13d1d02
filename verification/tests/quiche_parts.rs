use aquic::backend::quiche::config::{discovers_pmtu, ClientConfig, Config, ServerConfig};
use aquic::backend::quiche::connection::{
    CloseInfo, CloseStatus, Connection, ReleaseDecision, TimerKind,
};
use aquic::backend::quiche::connections::Connections;
use aquic::backend::quiche::error::{QuicheError, QuicheErrorKind};
use aquic::backend::quiche::initial::{is_processed, weigh_token, TokenWorth};
use aquic::backend::quiche::io::{after_send, AfterSend, ForceWrite, Write, IO};
use aquic::backend::quiche::session::{QuicSession, SessionCache};
use aquic::backend::cid::RandomIdGenerator;
use aquic::backend::util::Time;
use aquic::backend::{
    ConnectionEvent, ConnectionId, DatagramEvent, Error, HaltKind, StrictFirewall, Token,
    TokenError, TokenGenerator, TokenKind,
};
use aquic::net::{Ecn, IpAddr, SoFeat, SocketAddr};
use aquic::stream::StreamId;
use aquic::time::{Duration, Instant, SystemTime};

const LOCAL: IpAddr = IpAddr::V4(0x7f00_0001);

fn addr(port: u16) -> SocketAddr {
    SocketAddr::new(IpAddr::V4(0x0a00_0001), port)
}

fn cid(bytes: &[u8]) -> ConnectionId {
    ConnectionId::try_from_slice(bytes).unwrap()
}

fn error(kind: QuicheErrorKind) -> QuicheError {
    QuicheError { kind, text: String::from("text") }
}

fn is_other(error: Option<Error>) -> bool {
    matches!(error, Some(Error::Other(text)) if text == "text")
}

/// A generator of fixed tokens.
struct FixedTokens;

impl TokenGenerator for FixedTokens {
    fn generate_retry_token(
        &mut self,
        _peer_addr: IpAddr,
        _peer_scid: &[u8],
        _peer_dcid: &[u8],
        _server_new_scid: &[u8],
        _expires_at: SystemTime,
    ) -> Option<&[u8]> {
        Some(b"retry")
    }

    fn generate_identity_token(&mut self, _peer_addr: IpAddr, _expires_at: SystemTime) -> &[u8] {
        b"identity"
    }

    fn generate_reset_token(&mut self, _server_scid: &[u8]) -> [u8; 16] {
        [7; 16]
    }

    fn verify_token(
        &mut self,
        _peer_addr: IpAddr,
        _peer_scid: &[u8],
        _peer_dcid: &[u8],
        _token: &[u8],
        _now: SystemTime,
    ) -> Result<Token, TokenError> {
        Err(TokenError::Invalid)
    }
}

#[test]
fn quiche_configuration_has_defaults() {
    let client = ClientConfig::new();
    assert_eq!(client.establish_timeout, Some(Duration::from_secs(30)));
    assert_eq!(client.session_cache_max_capacity, 256);
    assert_eq!(client.session_cache_time_to_live, Some(Duration::from_secs(86_400)));
    assert_eq!(client.session_cache_time_to_idle, Some(Duration::from_secs(10_800)));
    let server = ServerConfig::new(StrictFirewall, FixedTokens);
    assert_eq!(server.establish_timeout, Duration::from_secs(15));
}

#[test]
fn quiche_configuration_is_fixed() {
    let mut config: Config<RandomIdGenerator, StrictFirewall, FixedTokens> = Config {
        client: None,
        server: None,
        connection_id_generator: RandomIdGenerator::new(8),
        out_buffer_size: 2047,
    };
    config.fix();
    assert_eq!(config.out_buffer_size, 2048);
    config.out_buffer_size = 4096;
    config.fix();
    assert_eq!(config.out_buffer_size, 4096);
}

#[test]
fn path_mtu_is_discovered_without_fragmentation() {
    assert!(discovers_pmtu(&vec![SoFeat::Mmsg, SoFeat::DontFragment]));
    assert!(!discovers_pmtu(&vec![SoFeat::Mmsg]));
}

#[test]
fn quiche_stream_errors_are_translated() {
    let recv = |kind| error(kind).into_stream_recv_error();
    assert!(recv(QuicheErrorKind::Done).is_none());
    assert!(matches!(recv(QuicheErrorKind::StreamReset(4)), Some(Error::StreamReset(4))));
    assert!(matches!(recv(QuicheErrorKind::InvalidStreamState(4)), Some(Error::UnknownStream)));
    assert!(matches!(recv(QuicheErrorKind::StreamStopped(4)), Some(Error::UnknownStream)));
    assert!(is_other(recv(QuicheErrorKind::TlsFail)));

    let send = |kind| error(kind).into_stream_send_error();
    assert!(send(QuicheErrorKind::Done).is_none());
    assert!(matches!(send(QuicheErrorKind::StreamStopped(5)), Some(Error::StreamStop(5))));
    assert!(matches!(send(QuicheErrorKind::InvalidStreamState(5)), Some(Error::UnknownStream)));
    assert!(matches!(send(QuicheErrorKind::StreamReset(5)), Some(Error::UnknownStream)));
    assert!(is_other(send(QuicheErrorKind::FlowControl)));
}

#[test]
fn quiche_datagram_and_close_errors_are_translated() {
    assert!(error(QuicheErrorKind::Done).into_dgram_send_error().is_none());
    assert!(matches!(
        error(QuicheErrorKind::BufferTooShort).into_dgram_send_error(),
        Some(Error::BufferSize)
    ));
    assert!(matches!(
        error(QuicheErrorKind::InvalidState).into_dgram_send_error(),
        Some(Error::DgramDisabled)
    ));
    assert!(is_other(error(QuicheErrorKind::CongestionControl).into_dgram_send_error()));
    assert!(error(QuicheErrorKind::Done).into_dgram_recv_error().is_none());
    assert!(is_other(error(QuicheErrorKind::BufferTooShort).into_dgram_recv_error()));
    assert!(matches!(
        error(QuicheErrorKind::Done).into_close_error(),
        Error::UnknownConnection
    ));
    assert!(is_other(Some(error(QuicheErrorKind::IdLimit).into_close_error())));
}

#[test]
fn errors_of_misbehaving_peers_are_expected() {
    assert!(!error(QuicheErrorKind::InvalidFrame).is_unexpected_on_recv());
    assert!(!error(QuicheErrorKind::UnknownVersion).is_unexpected_on_recv());
    assert!(error(QuicheErrorKind::InvalidState).is_unexpected_on_recv());
    assert!(error(QuicheErrorKind::Done).is_unexpected_on_recv());
}

fn in_map(connection: Connection) -> (Connections, aquic::backend::quiche::QuicheConnectionId) {
    let mut connections = Connections::new();
    let id = connections.insert(connection, &cid(b"scid"), None, addr(1));
    (connections, id)
}

#[test]
fn stream_ids_are_allocated_in_sequence() {
    let mut client = Connection::new(false, false);
    assert!(client.peer_address_verified);
    assert!(client.get_last_local_stream_id(true).is_none());
    assert_eq!(client.allocate_stream_id(true).unwrap().raw(), 0);
    assert_eq!(client.allocate_stream_id(true).unwrap().raw(), 4);
    assert_eq!(client.allocate_stream_id(false).unwrap().raw(), 2);
    assert_eq!(client.get_last_local_stream_id(true).unwrap().raw(), 4);
    assert_eq!(client.get_last_local_stream_id(false).unwrap().raw(), 2);

    let mut server = Connection::new(true, false);
    assert!(!server.peer_address_verified);
    assert_eq!(server.allocate_stream_id(true).unwrap().raw(), 1);
    assert_eq!(server.allocate_stream_id(false).unwrap().raw(), 3);

    client.stream_bidi_sequence = StreamId::new(StreamId::MAX - 3).unwrap();
    assert!(client.allocate_stream_id(true).is_err());
    assert_eq!(Connection::peer_streams_left(true, 5, 6), 5);
    assert_eq!(Connection::peer_streams_left(false, 5, 6), 6);
}

#[test]
fn next_packet_is_deferred_beyond_the_granularity() {
    let now = Instant { nanos: 1_000_000 };
    let at = |nanos| Some(Instant { nanos });
    let release = |can_burst, time| {
        Connection::get_next_release_time(Some(ReleaseDecision { can_burst, time }), now)
    };
    assert_eq!(Connection::get_next_release_time(None, now), None);
    assert_eq!(release(true, at(9_000_000)), None);
    assert_eq!(release(false, None), None);
    assert_eq!(release(false, at(1_050_000)), None);
    assert_eq!(release(false, at(1_050_001)), at(1_050_001));
    assert_eq!(release(false, at(0)), None);
}

#[test]
fn application_that_waits_for_streams_is_told_once() {
    let (mut connections, id) = in_map(Connection::new(false, false));
    let connection = connections.get_mut(id.key).unwrap();
    assert!(connection.get_connection_streams_available_events(id.key, 1, 1).is_empty());
    connection.set_streams_exhausted(true);
    connection.set_streams_exhausted(false);
    assert!(connection.get_connection_streams_available_events(id.key, 0, 0).is_empty());
    let events = connection.get_connection_streams_available_events(id.key, 1, 0);
    assert_eq!(events.len(), 1);
    assert!(matches!(
        events[0],
        ConnectionEvent::StreamsAvailable { connection_id, is_bidirectional: true }
            if connection_id == id
    ));
    let events = connection.get_connection_streams_available_events(id.key, 1, 1);
    assert_eq!(events.len(), 1);
    assert!(matches!(
        events[0],
        ConnectionEvent::StreamsAvailable { is_bidirectional: false, .. }
    ));
    assert!(connection.get_connection_streams_available_events(id.key, 1, 1).is_empty());
}

#[test]
fn application_that_waits_for_datagrams_is_told_once() {
    let (mut connections, id) = in_map(Connection::new(false, false));
    let connection = connections.get_mut(id.key).unwrap();
    assert!(connection.get_dgram_in_available_event(id.key).is_none());
    connection.set_dgram_in_drained();
    assert!(matches!(
        connection.get_dgram_in_available_event(id.key),
        Some(DatagramEvent::InAvailable(_))
    ));
    assert!(connection.get_dgram_in_available_event(id.key).is_none());
    connection.set_dgram_out_drained();
    assert!(matches!(
        connection.get_dgram_out_available_event(id.key),
        Some(DatagramEvent::OutAvailable(_))
    ));
    assert!(connection.get_dgram_out_available_event(id.key).is_none());

    assert!(connection.get_dgram_out_size_event(id.key, None).is_none());
    assert!(matches!(
        connection.get_dgram_out_size_event(id.key, Some(1200)),
        Some(DatagramEvent::OutNewSize(_, 1200))
    ));
    assert!(connection.get_dgram_out_size_event(id.key, Some(1200)).is_none());
    assert!(matches!(
        connection.get_dgram_out_size_event(id.key, Some(100_000)),
        Some(DatagramEvent::OutNewSize(_, u16::MAX))
    ));
}

fn status() -> CloseStatus {
    CloseStatus { is_timed_out: false, local_error: None, peer_error: None }
}

fn info(error_code: u64) -> Option<CloseInfo> {
    Some(CloseInfo { is_app: true, error_code, reason: b"why".to_vec() })
}

#[test]
fn close_event_tells_how_a_connection_was_closed() {
    let close = |status: CloseStatus| {
        let (mut connections, id) = in_map(Connection::new(true, true));
        connections.get_mut(id.key).unwrap().get_close_event(id.key, &status).unwrap()
    };
    assert!(matches!(
        close(CloseStatus { is_timed_out: true, ..status() }),
        ConnectionEvent::Halted { kind: HaltKind::Timeout, .. }
    ));
    match close(CloseStatus { local_error: info(1), peer_error: info(2), ..status() }) {
        ConnectionEvent::Closed { code, reason, is_application, is_local, .. } => {
            assert_eq!((code, is_application, is_local), (1, true, true));
            assert_eq!(&reason[..], b"why");
        }
        _ => panic!("no close event"),
    }
    assert!(matches!(
        close(CloseStatus { peer_error: info(2), ..status() }),
        ConnectionEvent::Closed { code: 2, is_local: false, .. }
    ));
    assert!(matches!(
        close(status()),
        ConnectionEvent::Halted { kind: HaltKind::StatelessReset, .. }
    ));
}

#[test]
fn close_of_a_connection_is_told_once() {
    let (mut connections, id) = in_map(Connection::new(true, true));
    let connection = connections.get_mut(id.key).unwrap();
    assert!(connection.get_halt_event(id.key, HaltKind::MigrationFailed).is_some());
    assert!(connection.get_halt_event(id.key, HaltKind::Timeout).is_none());
    assert!(connection.get_close_event(id.key, &status()).is_none());
}

#[test]
fn timer_keys_are_taken_out() {
    let mut time = Time::new(Instant { nanos: 0 });
    let key = time.schedule(1, Instant { nanos: 5 });
    let mut connection = Connection::new(false, false);
    for kind in [TimerKind::Pacer, TimerKind::QuicheTimeout, TimerKind::EstablishTimeout] {
        assert!(connection.pop_timer_key(kind).is_none());
        connection.set_timer_key(kind, Some(key));
        assert!(connection.pop_timer_key(kind) == Some(key));
        assert!(connection.pop_timer_key(kind).is_none());
    }
}

#[test]
fn packets_lead_to_their_connection() {
    let mut connections = Connections::new();
    let a = connections.insert(Connection::new(true, false), &cid(b"aaaa"), None, addr(1));
    let b = connections.insert(Connection::new(true, true), &cid(b"bbbb"), None, addr(2));
    let c = connections.insert(Connection::new(false, true), &cid(b""), Some(addr(4)), addr(3));
    assert!(a != b);
    assert!(connections.find_connection_key(b"aaaa", addr(9)) == Some(a.key));
    assert!(connections.find_connection_key(b"bbbb", addr(1)) == Some(b.key));
    assert!(connections.find_connection_key(b"cccc", addr(1)).is_none());
    assert!(connections.find_connection_key(b"", addr(4)) == Some(c.key));
    assert!(connections.find_connection_key(b"", addr(3)).is_none());
    assert_eq!(connections.all_len(), 3);
    assert_eq!(connections.server_connections_count(), 2);
    assert_eq!(connections.server_unverified_connections_count(), 1);
    connections.mark_verified(a.key);
    connections.mark_verified(a.key);
    connections.mark_verified(c.key);
    assert_eq!(connections.server_unverified_connections_count(), 0);

    connections.update_scids_dict(
        a.key,
        &vec![b"new1".to_vec(), vec![1; 21]],
        &vec![b"aaaa".to_vec()],
    );
    assert!(connections.find_connection_key(b"new1", addr(9)) == Some(a.key));
    assert!(connections.find_connection_key(&[1; 21], addr(9)).is_none());
    assert!(connections.find_connection_key(b"aaaa", addr(9)).is_none());
}

#[test]
fn forgetting_a_connection_leaves_the_others() {
    let mut connections = Connections::new();
    let a = connections.insert(Connection::new(true, false), &cid(b""), None, addr(1));
    let b = connections.insert(Connection::new(true, false), &cid(b"bbbb"), None, addr(2));
    let c = connections.insert(Connection::new(false, true), &cid(b""), None, addr(3));
    connections.update_scids_dict(b.key, &vec![b"bbbb".to_vec(), b"more".to_vec()], &vec![]);
    assert!(connections.remove(a.key).is_some());
    assert!(connections.find_connection_key(b"", addr(1)).is_none());
    assert!(connections.find_connection_key(b"more", addr(1)) == Some(b.key));
    assert!(connections.find_connection_key(b"", addr(3)) == Some(c.key));
    assert!(connections.remove(b.key).is_some());
    assert!(connections.find_connection_key(b"more", addr(2)).is_none());
    assert!(connections.find_connection_key(b"bbbb", addr(2)).is_none());
    assert!(connections.find_connection_key(b"", addr(3)) == Some(c.key));
}

#[test]
fn forgotten_connection_is_not_found() {
    let mut connections = Connections::new();
    let a = connections.insert(Connection::new(true, false), &cid(b"aaaa"), None, addr(1));
    let c = connections.insert(Connection::new(false, true), &cid(b""), None, addr(3));
    assert!(connections.remove(a.key).is_some());
    assert!(connections.get(a.key).is_none());
    assert!(connections.find_connection_key(b"aaaa", addr(1)).is_none());
    assert!(connections.remove(a.key).is_none());
    assert!(connections.peek_active() == Some(c.key));
    assert!(connections.remove(c.key).is_some());
    assert!(connections.find_connection_key(b"", addr(3)).is_none());
    assert_eq!(connections.all_len(), 0);
    assert_eq!(connections.server_connections_count(), 0);
    assert_eq!(connections.server_unverified_connections_count(), 0);

    let again = connections.insert(Connection::new(true, false), &cid(b"aaaa"), None, addr(1));
    assert!(again.key != a.key);
    assert!(connections.get(a.key).is_none());
}

#[test]
fn active_connections_are_polled_in_order() {
    let mut connections = Connections::new();
    let a = connections.insert(Connection::new(true, false), &cid(b"a"), None, addr(1));
    let b = connections.insert(Connection::new(true, false), &cid(b"b"), None, addr(2));
    assert_eq!(connections.active_len(), 2);
    assert!(connections.peek_active() == Some(a.key));
    connections.mark_active(a.key);
    connections.next_active();
    assert!(connections.peek_active() == Some(b.key));
    assert!(connections.get_mark_active(a.key).is_some());
    assert!(connections.get_mark_active_if(a.key, false).is_none());
    connections.next_active();
    assert!(connections.peek_active() == Some(a.key));
    connections.next_active();
    assert!(connections.peek_active().is_none());
    assert_eq!(connections.all_iter().len(), 2);
    assert_eq!(connections.all_iter_mark_active().len(), 2);
    assert_eq!(connections.active_len(), 2);
}

#[test]
fn packets_of_one_path_and_length_are_one_message() {
    let mut io = IO::new(64);
    let mut out = Vec::new();
    let mut write = io.begin_write().unwrap();
    assert_eq!(write.room(&io), 64);
    let source = SocketAddr::new(LOCAL, 65535);
    write.on_packet(&mut io, b"aaaa", source, addr(1), 100, &mut out);
    write.on_packet(&mut io, b"bbbb", source, addr(1), 100, &mut out);
    assert!(out.is_empty());
    write.on_packet(&mut io, b"cc", source, addr(1), 100, &mut out);
    assert_eq!(out.len(), 1);
    write.on_packet(&mut io, b"dd", source, addr(2), 100, &mut out);
    assert_eq!(out.len(), 2);
    assert_eq!(write.room(&io), 52);
    write.finish(&mut io, &mut out);
    assert_eq!(out.len(), 3);
    assert_eq!(io.message_data(&out[0]), b"aaaabbbb");
    assert_eq!((out[0].from(), out[0].to(), out[0].segment_count()), (LOCAL, addr(1), 2));
    assert_eq!(out[0].ecn(), Ecn::NEct);
    assert_eq!(io.message_data(&out[1]), b"cc");
    assert_eq!(io.message_data(&out[2]), b"dd");
    assert_eq!((out[2].to(), out[2].segment_count()), (addr(2), 1));
    for message in out {
        io.release(message);
    }
    assert_eq!(io.begin_write().unwrap().room(&io), 64);
}

#[test]
fn quantum_and_pacer_stop_writing() {
    let mut io = IO::new(64);
    let mut out = Vec::new();
    let mut write = io.begin_write().unwrap();
    let later = Instant { nanos: 9 };
    assert_eq!(write.poll(None), None);
    assert_eq!(write.poll(Some(later)), Some(Write::Pacer(later)));
    write.on_packet(&mut io, b"aaaa", addr(9), addr(1), 8, &mut out);
    assert_eq!(write.poll(None), None);
    write.on_packet(&mut io, b"aaaa", addr(9), addr(1), 8, &mut out);
    assert_eq!(write.poll(Some(later)), Some(Write::Quantum));
    write.on_packet(&mut io, b"bbbb", addr(9), addr(2), 8, &mut out);
    assert_eq!(write.poll(None), None);
    write.abort(&mut io);
    assert_eq!(out.len(), 1);
    assert_eq!(io.message_data(&out[0]), b"aaaaaaaa");
}

#[test]
fn outcome_of_a_send_tells_how_to_go_on() {
    assert!(matches!(after_send(Ok(7)), AfterSend::Packet(7)));
    assert!(matches!(after_send(Ok(0)), AfterSend::Stop(Ok(Write::Complete))));
    assert!(matches!(
        after_send(Err(error(QuicheErrorKind::Done))),
        AfterSend::Stop(Ok(Write::Complete))
    ));
    assert!(matches!(
        after_send(Err(error(QuicheErrorKind::BufferTooShort))),
        AfterSend::Stop(Ok(Write::BufferTooShort))
    ));
    assert!(matches!(
        after_send(Err(error(QuicheErrorKind::IdLimit))),
        AfterSend::Stop(Err(QuicheError { kind: QuicheErrorKind::IdLimit, .. }))
    ));
}

#[test]
fn last_packets_are_lost_on_an_error() {
    let mut io = IO::new(64);
    let mut out = Vec::new();
    let mut write = io.begin_write().unwrap();
    write.on_packet(&mut io, b"aaaa", addr(9), addr(1), 8, &mut out);
    assert!(write.end(&mut io, Err(error(QuicheErrorKind::TlsFail)), &mut out).is_err());
    assert!(out.is_empty());
    let mut write = io.begin_write().unwrap();
    assert_eq!(write.room(&io), 64);
    write.on_packet(&mut io, b"bbbb", addr(9), addr(1), 8, &mut out);
    assert!(matches!(write.end(&mut io, Ok(Write::Quantum), &mut out), Ok(Write::Quantum)));
    assert_eq!(io.message_data(&out[0]), b"bbbb");
}

#[test]
fn nothing_is_written_into_a_full_buffer() {
    let mut io = IO::new(4);
    let mut out = Vec::new();
    let mut write = io.begin_write().unwrap();
    write.on_packet(&mut io, b"aaaa", addr(9), addr(1), 8, &mut out);
    write.finish(&mut io, &mut out);
    assert!(io.begin_write().is_none());
    assert!(io.begin_response().is_none());
    io.write_stateless_reset(64, LOCAL, addr(1), &[1; 16], &mut out);
    assert_eq!(out.len(), 1);
}

#[test]
fn response_is_written() {
    let mut io = IO::new(4096);
    let mut out = Vec::new();
    let response = io.begin_response().unwrap();
    assert_eq!(response.room(&io), 1500);
    let written =
        io.to_force_write_result(response, Ok(b"retry".to_vec()), LOCAL, addr(1), &mut out);
    assert!(matches!(written, Ok(ForceWrite::Complete)));
    assert_eq!(io.message_data(&out[0]), b"retry");
    assert_eq!((out[0].from(), out[0].to(), out[0].segment_count()), (LOCAL, addr(1), 0));

    let response = io.begin_response().unwrap();
    let written = io.to_force_write_result(
        response,
        Err(error(QuicheErrorKind::BufferTooShort)),
        LOCAL,
        addr(1),
        &mut out,
    );
    assert!(matches!(written, Ok(ForceWrite::BufferTooShort)));
    assert!(!is_processed(&Some(written)));
    let response = io.begin_response().unwrap();
    let written = io.to_force_write_result(
        response,
        Err(error(QuicheErrorKind::CryptoFail)),
        LOCAL,
        addr(1),
        &mut out,
    );
    assert!(matches!(&written, Err(e) if e.kind == QuicheErrorKind::CryptoFail));
    assert!(is_processed(&Some(written)));
    assert!(is_processed(&Some(Ok(ForceWrite::Complete))));
    assert!(!is_processed(&None));
    assert_eq!(out.len(), 1);
}

#[test]
fn stateless_reset_is_written() {
    let mut io = IO::new(2048);
    let mut out = Vec::new();
    io.write_stateless_reset(21, LOCAL, addr(1), &[5; 16], &mut out);
    assert!(out.is_empty());
    io.write_stateless_reset(1200, LOCAL, addr(1), &[5; 16], &mut out);
    assert_eq!(out.len(), 1);
    let data = io.message_data(&out[0]);
    assert!(data.len() >= 21 && data.len() <= 40);
    assert_eq!(&data[data.len() - 16..], &[5; 16]);
}

#[test]
fn token_is_weighed() {
    let at = SystemTime { nanos: 1 };
    assert!(matches!(weigh_token(None), TokenWorth::Unverified));
    assert!(matches!(weigh_token(Some(Err(TokenError::Invalid))), TokenWorth::Unverified));
    assert!(matches!(
        weigh_token(Some(Err(TokenError::Expired(TokenKind::Identity, at)))),
        TokenWorth::Unverified
    ));
    assert!(matches!(
        weigh_token(Some(Err(TokenError::Expired(TokenKind::Retry, at)))),
        TokenWorth::Drop
    ));
    assert!(matches!(
        weigh_token(Some(Ok(Token::Identity { expires_at: at }))),
        TokenWorth::Verified { peer_original_dcid: None }
    ));
    let retry = Token::Retry { peer_original_dcid: cid(b"dcid"), expires_at: at };
    match weigh_token(Some(Ok(retry))) {
        TokenWorth::Verified { peer_original_dcid: Some(dcid) } => {
            assert_eq!(dcid.as_slice(), b"dcid")
        }
        _ => panic!("not verified"),
    }
}

#[test]
fn session_is_found_by_its_server_name() {
    let mut cache = SessionCache::new(16, Some(Duration::from_secs(60)), None);
    assert!(cache.get(&String::from("a")).is_none());
    cache.insert(String::from("a"), QuicSession::new(vec![1]));
    cache.insert(String::from("b"), QuicSession::new(vec![2]));
    cache.insert(String::from("a"), QuicSession::new(vec![3]));
    assert_eq!(cache.get(&String::from("a")).unwrap().tls_ticket, vec![3]);
    assert_eq!(cache.get(&String::from("b")).unwrap().tls_ticket, vec![2]);
    assert!(cache.get(&String::from("c")).is_none());

    let mut none = SessionCache::new(0, None, Some(Duration::from_nanos(1_500_000_000)));
    none.insert(String::from("a"), QuicSession::new(vec![1]));
    assert!(none.get(&String::from("a")).is_none());
}

use aquic::backend::quinn::backend::{
    after_dgram_send, after_finish, after_read, after_write, cert_chain, take_chunk, take_datagram,
};
use aquic::backend::quinn::connection::make_stream_event;
use aquic::backend::quinn::connections::Connections;
use aquic::backend::quinn::io::{VecBufPool, IO};
use aquic::backend::quinn::proto::{
    DatagramFailure, FinishFailure, Outgoing, PeerIdentity, ReadFailure, ReadableFailure,
    StreamChange, WriteFailure,
};
use aquic::backend::quinn::{ClientConfig, Config, Connection, QuinnConnectionId};
use aquic::backend::{ConnectionEvent, DatagramEvent, Error, Event, HaltKind, StreamEvent};
use aquic::net::{Buf, Ecn, IpAddr, SoFeat, SocketAddr};
use aquic::util::trace::Trace;
use bytes::Bytes;
use std::sync::Arc;
use std::time::Instant;

const HOST: IpAddr = IpAddr::V4(0x7f00_0001);
const PEER: SocketAddr = SocketAddr::V4 { ip: 0x0a00_0001, port: 443 };

fn quinn_client() -> quinn_proto::ClientConfig {
    let mut roots = rustls::RootCertStore::empty();
    // A trust anchor that nothing is signed by.
    roots.roots.push(rustls::pki_types::TrustAnchor {
        subject: vec![0x30, 0].into(),
        subject_public_key_info: vec![].into(),
        name_constraints: None,
    });
    quinn_proto::ClientConfig::with_root_certificates(Arc::new(roots)).unwrap()
}

/// Connections that nobody answers, with their keys.
fn quinn_connections(count: usize) -> Vec<(usize, quinn_proto::Connection)> {
    let config = Arc::new(quinn_proto::EndpointConfig::default());
    let mut endpoint = quinn_proto::Endpoint::new(config, None, false, None);
    let mut connections = Vec::new();
    for _ in 0..count {
        let peer = ([10, 0, 0, 1], 443).into();
        let (key, connection) =
            endpoint.connect(Instant::now(), quinn_client(), peer, "localhost").unwrap();
        connections.push((key.0, connection));
    }
    connections
}

fn outgoing() -> Outgoing {
    Outgoing { destination: PEER, ecn_bits: 2, segment_size: None, source: None }
}

fn io(features: Vec<SoFeat>) -> IO {
    IO::new(&Config::default(), HOST, &features)
}

#[test]
fn quinn_configuration_has_defaults() {
    let config = Config::default();
    assert!(config.client.is_none());
    assert!(config.server.is_none());
    assert_eq!(config.out_buffers_count, 3);
    assert_eq!(config.reserved_out_buffers_count, 3);
    assert_eq!(config.out_buffer_size, 1500);
    assert_eq!(config.out_buffer_gso_size, 8192);
    assert!(ClientConfig::new(quinn_client()).transport.is_none());
}

#[test]
fn quinn_configuration_is_fixed() {
    let mut config = Config::default();
    config.out_buffers_count = 0;
    config.reserved_out_buffers_count = 0;
    config.out_buffer_size = 100;
    config.out_buffer_gso_size = 200;
    config.fix();
    assert_eq!(config.out_buffers_count, 1);
    assert_eq!(config.reserved_out_buffers_count, 0);
    assert_eq!(config.out_buffer_size, 1500);
    assert_eq!(config.out_buffer_gso_size, 1500);
    config.out_buffer_size = 9000;
    config.fix();
    assert_eq!(config.out_buffer_gso_size, 9000);
}

#[test]
fn pool_gives_cleared_buffers() {
    let mut pool = VecBufPool::new(2, 100, false);
    let mut first = pool.pop().unwrap();
    let second = pool.pop().unwrap();
    assert!(pool.is_empty());
    assert!(pool.pop().is_none());
    first.bytes_mut().extend([1, 2, 3]);
    assert_eq!(Buf::as_slice(&first), &[1, 2, 3]);
    assert_eq!(Buf::len(&first), 3);
    pool.push(first);
    assert!(!pool.is_empty());
    assert_eq!(Buf::len(&pool.pop().unwrap()), 0);
    pool.push(second);
}

#[test]
fn number_of_buffers_depends_on_the_socket() {
    let mut reserving = io(vec![SoFeat::Mmsg]);
    for _ in 0..3 {
        assert!(reserving.pop_reserved_buffer().is_some());
    }
    assert!(reserving.pop_reserved_buffer().is_none());
    // Primary buffers are kept for established connections.
    assert!(reserving.pop_response_buffer().is_none());
    assert!(reserving.has_primary_buffer());

    let mut single = io(vec![]);
    assert!(single.pop_reserved_buffer().is_none());
    assert!(single.pop_response_buffer().is_some());
    assert!(!single.has_primary_buffer());

    let mut config = Config::default();
    config.reserved_out_buffers_count = 0;
    let mut io = IO::new(&config, HOST, &vec![SoFeat::Mmsg]);
    assert!(io.pop_reserved_buffer().is_none());
    assert!(io.pop_response_buffer().is_some());
}

#[test]
fn buffers_are_given_back_to_their_pool() {
    let mut primary = io(vec![]);
    let buffer = primary.pop_response_buffer().unwrap();
    assert!(primary.pop_response_buffer().is_none());
    primary.give_back(buffer);
    assert!(primary.has_primary_buffer());

    let mut reserved = io(vec![SoFeat::Mmsg]);
    let buffers: Vec<_> = (0..3).map(|_| reserved.pop_response_buffer().unwrap()).collect();
    assert!(reserved.pop_reserved_buffer().is_none());
    for buffer in buffers {
        reserved.give_back(buffer);
    }
    assert!(reserved.pop_reserved_buffer().is_some());
}

#[test]
fn answer_is_put_into_a_message() {
    let mut io = io(vec![]);
    let mut out = Vec::new();
    let mut buffer = io.pop_response_buffer().unwrap();
    buffer.bytes_mut().extend(b"answer");
    io.write_response(outgoing(), buffer, &mut out);
    assert_eq!(out.len(), 1);
    let message = out.pop().unwrap();
    assert_eq!(message.io_slice(), b"answer");
    assert_eq!((message.from(), message.to()), (HOST, PEER));
    assert_eq!(message.ecn(), Ecn::Ect0);
    assert_eq!(message.segment_count(), 1);

    // There is nothing to be sent: the buffer is available again.
    io.give_back(message.into_buf());
    let buffer = io.pop_response_buffer().unwrap();
    io.write_response(outgoing(), buffer, &mut out);
    assert!(out.is_empty());
    assert!(io.pop_response_buffer().is_some());
}

#[test]
fn packets_are_described_as_they_are_sent() {
    let mut io = io(vec![SoFeat::Mmsg]);
    let data = [7u8; 300];
    let source = IpAddr::V4(0x0a00_0063);
    let mut buffer = io.pop_reserved_buffer().unwrap();
    buffer.bytes_mut().extend(data);
    let transmit = Outgoing {
        destination: PEER,
        ecn_bits: 3,
        segment_size: Some(100),
        source: Some(source),
    };
    let Ok((message, None)) = io.transmit_to_msg(transmit, buffer) else {
        panic!("the packet can be sent");
    };
    assert_eq!(message.segment_count(), 3);
    assert_eq!(message.from(), source);
    assert_eq!(message.ecn(), Ecn::Ce);
    let buffer = message.into_buf();

    // There are no more bytes than in a segment.
    let Ok((message, None)) =
        io.transmit_to_msg(Outgoing { segment_size: Some(301), ..transmit }, buffer)
    else {
        panic!("the packet can be sent");
    };
    assert_eq!(message.segment_count(), 1);
    let buffer = message.into_buf();

    // Segments have a length.
    let Err(buffer) = io.transmit_to_msg(Outgoing { segment_size: Some(0), ..transmit }, buffer)
    else {
        panic!("the packet cannot be sent");
    };
    // Addresses are of one family.
    let other = Outgoing { source: Some(IpAddr::V6(1)), ..transmit };
    let Err(buffer) = io.transmit_to_msg(other, buffer) else {
        panic!("the packet cannot be sent");
    };
    let nowhere = Outgoing { destination: SocketAddr::new(HOST, 0), ..transmit };
    let Err(buffer) = io.transmit_to_msg(nowhere, buffer) else {
        panic!("the packet cannot be sent");
    };
    assert_eq!(Buf::as_slice(&buffer), &data);

    io.update_socket_addr(IpAddr::V4(9));
    let Ok((message, None)) = io.transmit_to_msg(outgoing(), buffer) else {
        panic!("the packet can be sent");
    };
    assert_eq!(message.from(), IpAddr::V4(9));
}

#[test]
fn rest_of_a_batch_is_sent_on_its_own() {
    let mut io = io(vec![SoFeat::Mmsg]);
    let data: Vec<u8> = (0..=255).collect();
    let mut buffer = io.pop_reserved_buffer().unwrap();
    buffer.bytes_mut().extend(&data);
    let transmit = Outgoing { segment_size: Some(100), ..outgoing() };
    let Ok((first, Some(rest))) = io.transmit_to_msg(transmit, buffer) else {
        panic!("the packets can be sent");
    };
    assert_eq!((first.segment_count(), first.io_slice()), (2, &data[..200]));
    assert_eq!((rest.segment_count(), rest.io_slice()), (1, &data[200..]));
    assert_eq!((rest.from(), rest.to(), rest.ecn()), (HOST, PEER, Ecn::Ect0));

    // Only the first buffer comes out of a pool.
    let mut taken = Vec::new();
    while let Some(buffer) = io.pop_reserved_buffer() {
        taken.push(buffer);
    }
    io.give_back(rest.into_buf());
    assert!(io.pop_reserved_buffer().is_none());
    io.give_back(first.into_buf());
    assert!(io.pop_reserved_buffer().is_some());
}

#[test]
fn packets_of_a_connection_are_written() {
    let now = Instant::now();
    let mut io = io(vec![]);
    let (_, quinn) = quinn_connections(1).pop().unwrap();
    let mut connection = Connection::new(quinn, Trace::random(), 0);
    let mut out = Vec::new();
    // The only buffer is needed for the first packet.
    assert!(!io.write_pending(&mut connection, &mut out, &now));
    assert_eq!(out.len(), 1);
    assert!(out[0].io_slice().len() >= 1200);
    assert!(!io.has_primary_buffer());
    io.give_back(out.pop().unwrap().into_buf());
    // There is nothing more to be sent.
    assert!(io.write_pending(&mut connection, &mut out, &now));
    assert!(out.is_empty());
    assert!(io.has_primary_buffer());
}

#[test]
fn events_of_streams_are_told() {
    let trace = Trace::random();
    let id = QuinnConnectionId { key: 3, trace, version: 4 };
    let available = |event: Option<Event<QuinnConnectionId>>, raw: u64| {
        matches!(event, Some(Event::Stream(StreamEvent::Available(connection, stream)))
            if connection == id && stream.raw() == raw)
    };
    assert!(available(make_stream_event(id, StreamChange::Opened(true), Some(8)), 8));
    assert!(make_stream_event(id, StreamChange::Opened(true), None).is_none());
    assert!(available(make_stream_event(id, StreamChange::Readable(4), None), 4));
    assert!(available(make_stream_event(id, StreamChange::Writable(5), Some(1)), 5));
    assert!(available(make_stream_event(id, StreamChange::Finished(6), None), 6));
    assert!(matches!(
        make_stream_event(id, StreamChange::Available(false), None),
        Some(Event::Connection(ConnectionEvent::StreamsAvailable {
            connection_id,
            is_bidirectional: false,
        })) if connection_id == id
    ));
    assert!(matches!(
        make_stream_event(id, StreamChange::Stopped(7, 70), None),
        Some(Event::Stream(StreamEvent::Reset(connection, stream, 70)))
            if connection == id && stream.raw() == 7
    ));
    // There is no such stream.
    assert!(make_stream_event(id, StreamChange::Readable(1 << 62), None).is_none());
    assert!(make_stream_event(id, StreamChange::Stopped(u64::MAX, 1), None).is_none());
}

#[test]
fn context_of_a_connection_tells_changes() {
    let (key, quinn) = quinn_connections(1).pop().unwrap();
    let mut connection = Connection::new(quinn, Trace::random(), 9);
    let id = connection.id(key);
    assert_eq!((id.key, id.version), (key, 9));
    assert!(connection.pop_timer_key().is_none());

    // The peer has not told a size yet.
    assert!(connection.get_dgram_out_size_event(key).is_none());
    assert!(matches!(
        connection.tell_dgram_out_size(key, Some(100_000)),
        Some(DatagramEvent::OutNewSize(connection, u16::MAX)) if connection == id
    ));
    assert!(connection.tell_dgram_out_size(key, Some(65_535)).is_none());
    assert!(matches!(
        connection.get_dgram_out_size_event(key),
        Some(DatagramEvent::OutNewSize(_, 0))
    ));

    assert!(matches!(
        connection.get_halt_event(key, HaltKind::Timeout),
        Some(ConnectionEvent::Halted { connection_id, kind: HaltKind::Timeout })
            if connection_id == id
    ));
    assert!(connection.get_close_event(key, 1, Bytes::new(), true, true).is_none());
    assert!(connection.get_halt_event(key, HaltKind::Timeout).is_none());
}

#[test]
fn quinn_connections_are_found_and_polled_in_turn() {
    let mut connections = Connections::new();
    assert!(connections.peek_active().is_none());
    let mut ids = Vec::new();
    for (key, quinn) in quinn_connections(3) {
        ids.push(connections.insert_raw(key, quinn));
    }
    assert_eq!(ids.iter().map(|id| id.version).collect::<Vec<_>>(), vec![0, 1, 2]);
    assert!(connections.get(ids[1]).is_some());
    assert!(connections.peek_active() == Some(ids[0]));
    connections.next_active();
    assert!(connections.peek_active() == Some(ids[1]));
    // It waits already, and keeps its place.
    assert!(connections.get_mark_active(ids[2]).is_some());
    assert!(connections.get_mark_active(ids[0]).is_some());
    connections.next_active();
    assert!(connections.peek_active() == Some(ids[2]));
    connections.next_active();
    assert!(connections.peek_active() == Some(ids[0]));
    connections.next_active();
    assert!(connections.peek_active().is_none());

    assert!(connections.get_mark_active_if(ids[1], false).is_none());
    assert!(connections.peek_active().is_none());
    assert!(connections.get_mark_active_if(ids[1], true).is_some());
    assert!(connections.peek_active() == Some(ids[1]));
    assert!(connections.remove(ids[1]).is_some());
    assert!(connections.peek_active().is_none());
    assert!(connections.get(ids[1]).is_none());
    assert!(connections.get_mut(ids[1]).is_none());

    let all = connections.all_iter_mark_active();
    assert!(all == vec![ids[0], ids[2]]);
    assert!(connections.peek_active() == Some(ids[0]));
    assert!(connections.get_mark_active_raw(ids[1].key).is_none());
    assert!(connections.remove_raw(ids[1].key).is_none());

    // A key that is used again belongs to another connection.
    let (_, quinn) = quinn_connections(1).pop().unwrap();
    let again = connections.insert_raw(ids[0].key, quinn);
    assert!(again != ids[0]);
    assert!(connections.get(ids[0]).is_none());
    assert!(connections.get(again).is_some());
    assert!(connections.remove(ids[0]).is_none());
}

#[test]
fn results_of_streams_are_mapped() {
    assert!(matches!(after_read(ReadableFailure::Closed), Error::UnknownStream));
    assert!(matches!(
        after_read(ReadableFailure::IllegalOrder("order".to_string())),
        Error::Other(message) if message == "order"
    ));
    assert!(matches!(after_write(Ok(true)), Ok(true)));
    assert!(matches!(after_write(Ok(false)), Ok(false)));
    assert!(matches!(after_write(Err(WriteFailure::Blocked)), Ok(false)));
    assert!(matches!(after_write(Err(WriteFailure::Stopped(5))), Err(Error::StreamStop(5))));
    assert!(matches!(after_write(Err(WriteFailure::Closed)), Err(Error::UnknownStream)));
    assert!(matches!(after_finish(FinishFailure::Stopped(6)), Error::StreamStop(6)));
    assert!(matches!(after_finish(FinishFailure::Closed), Error::UnknownStream));
}

#[test]
fn chunks_are_put_behind_each_other() {
    let mut out = [0u8; 6];
    let chunk = Ok(Some(Bytes::from_static(b"ab")));
    assert!(matches!(take_chunk(&mut out, 0, chunk), Ok((2, None))));
    let chunk = Ok(Some(Bytes::from_static(b"cde")));
    assert!(matches!(take_chunk(&mut out, 2, chunk), Ok((5, None))));
    assert_eq!(&out, b"abcde\0");
    assert!(matches!(take_chunk(&mut out, 5, Ok(None)), Ok((5, Some(true)))));
    assert!(matches!(
        take_chunk(&mut out, 5, Err(ReadFailure::Blocked)),
        Ok((5, Some(false)))
    ));
    assert!(matches!(
        take_chunk(&mut out, 5, Err(ReadFailure::Reset(9))),
        Err(Error::StreamReset(9))
    ));
    assert_eq!(&out, b"abcde\0");
}

#[test]
fn results_of_datagrams_are_mapped() {
    let mut out = [1u8; 4];
    assert!(matches!(take_datagram(&mut out, None), Ok(0)));
    assert!(matches!(take_datagram(&mut out, Some(Bytes::from_static(b"xy"))), Ok(2)));
    assert_eq!(&out, b"xy\x01\x01");
    assert!(matches!(
        take_datagram(&mut out, Some(Bytes::from_static(b"12345"))),
        Err(Error::BufferSize)
    ));
    assert_eq!(&out, b"xy\x01\x01");

    assert!(matches!(after_dgram_send(Ok(())), Ok(None)));
    for failure in [DatagramFailure::UnsupportedByPeer, DatagramFailure::Disabled] {
        assert!(matches!(after_dgram_send(Err(failure)), Err(Error::DgramDisabled)));
    }
    assert!(matches!(
        after_dgram_send(Err(DatagramFailure::TooLarge)),
        Err(Error::BufferSize)
    ));
    let bytes = Bytes::from_static(b"later");
    assert!(matches!(
        after_dgram_send(Err(DatagramFailure::Blocked(bytes.clone()))),
        Ok(Some(back)) if back == bytes
    ));
}

#[test]
fn identity_of_a_peer_is_its_certificates() {
    assert!(cert_chain(PeerIdentity::Absent).unwrap().is_empty());
    let certificates = vec![vec![1, 2], vec![3]];
    assert_eq!(cert_chain(PeerIdentity::Certificates(certificates.clone())).unwrap(), certificates);
    assert!(matches!(
        cert_chain(PeerIdentity::Foreign),
        Err(Error::Other(message))
            if message == "unable to cast peer_identity as 'Vec<CertificateDer>'"
    ));
}

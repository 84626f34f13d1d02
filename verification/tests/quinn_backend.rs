use aquic::backend::quinn::io::VecBuf;
use aquic::backend::quinn::proto::Lost;
use aquic::backend::quinn::{ClientConfig, Config, QuinnBackend, QuinnConnectionId, ServerConfig};
use aquic::backend::{ConnectionEvent, DatagramEvent, Error, Event, HaltKind, StreamEvent};
use aquic::net::{
    Buf, ConstBuf, Ecn, IpAddr, MultiMsgFlattenIter, RecvMsg, SendMsg, ServerName, SoFeat,
    SocketAddr,
};
use aquic::stream::{Priority, StreamId};
use bytes::Bytes;
use rustls::pki_types::{CertificateDer, PrivateKeyDer, PrivatePkcs8KeyDer};
use std::sync::Arc;
use std::time::{Duration, Instant};

/// A certificate of `localhost`, signed by itself.
const CERTIFICATE: [u8; 243] = [
    0x30, 0x81, 0xf0, 0x30, 0x81, 0xa3, 0xa0, 0x03, 0x02, 0x01, 0x02, 0x02,
    0x01, 0x07, 0x30, 0x05, 0x06, 0x03, 0x2b, 0x65, 0x70, 0x30, 0x14, 0x31,
    0x12, 0x30, 0x10, 0x06, 0x03, 0x55, 0x04, 0x03, 0x0c, 0x09, 0x6c, 0x6f,
    0x63, 0x61, 0x6c, 0x68, 0x6f, 0x73, 0x74, 0x30, 0x20, 0x17, 0x0d, 0x32,
    0x30, 0x30, 0x31, 0x30, 0x31, 0x30, 0x30, 0x30, 0x30, 0x30, 0x30, 0x5a,
    0x18, 0x0f, 0x34, 0x30, 0x30, 0x30, 0x30, 0x31, 0x30, 0x31, 0x30, 0x30,
    0x30, 0x30, 0x30, 0x30, 0x5a, 0x30, 0x14, 0x31, 0x12, 0x30, 0x10, 0x06,
    0x03, 0x55, 0x04, 0x03, 0x0c, 0x09, 0x6c, 0x6f, 0x63, 0x61, 0x6c, 0x68,
    0x6f, 0x73, 0x74, 0x30, 0x2a, 0x30, 0x05, 0x06, 0x03, 0x2b, 0x65, 0x70,
    0x03, 0x21, 0x00, 0xb1, 0x52, 0x2d, 0x62, 0x31, 0x95, 0x19, 0xc6, 0xbd,
    0xf1, 0x94, 0xcb, 0x1a, 0x76, 0x3c, 0xf3, 0x69, 0x95, 0x4a, 0x11, 0x86,
    0x37, 0xf6, 0xb1, 0xe5, 0xd6, 0x16, 0x8d, 0xa4, 0xb5, 0xba, 0xd7, 0xa3,
    0x18, 0x30, 0x16, 0x30, 0x14, 0x06, 0x03, 0x55, 0x1d, 0x11, 0x04, 0x0d,
    0x30, 0x0b, 0x82, 0x09, 0x6c, 0x6f, 0x63, 0x61, 0x6c, 0x68, 0x6f, 0x73,
    0x74, 0x30, 0x05, 0x06, 0x03, 0x2b, 0x65, 0x70, 0x03, 0x41, 0x00, 0xa9,
    0x7a, 0x10, 0x45, 0x9f, 0x9a, 0xf2, 0xf7, 0x27, 0x84, 0x41, 0xa4, 0x86,
    0x2e, 0x60, 0x89, 0xb7, 0x3e, 0xa6, 0x58, 0x10, 0x9b, 0x96, 0x77, 0x96,
    0xb9, 0x62, 0x25, 0xbe, 0x62, 0x10, 0xca, 0x02, 0xe1, 0x0c, 0x24, 0x89,
    0x0a, 0x67, 0xa4, 0xac, 0x40, 0xb1, 0x4a, 0x69, 0xc6, 0x85, 0x41, 0xfb,
    0x95, 0x9d, 0x23, 0xb1, 0xb1, 0x51, 0x42, 0xe0, 0xb0, 0xe0, 0x36, 0x29,
    0x54, 0x1f, 0x0d,
];

/// The key of the certificate.
const PRIVATE_KEY: [u8; 48] = [
    0x30, 0x2e, 0x02, 0x01, 0x00, 0x30, 0x05, 0x06, 0x03, 0x2b, 0x65, 0x70,
    0x04, 0x22, 0x04, 0x20, 0x92, 0x33, 0x6f, 0xf2, 0xa8, 0x3f, 0xed, 0xb5,
    0x27, 0xed, 0xf6, 0x93, 0x41, 0xca, 0x50, 0xac, 0x1f, 0x21, 0x7a, 0xda,
    0xa8, 0x02, 0x25, 0xcb, 0xc7, 0x9e, 0xd4, 0xe6, 0x12, 0xd5, 0xb6, 0xf5,
];

type Events = Vec<Event<QuinnConnectionId>>;

const CLIENT: SocketAddr = SocketAddr::V4 { ip: 0x7f00_0001, port: 40_000 };
const SERVER: SocketAddr = SocketAddr::V4 { ip: 0x7f00_0002, port: 443 };

fn quinn_server() -> quinn_proto::ServerConfig {
    let certificate = CertificateDer::from(CERTIFICATE.to_vec());
    let key = PrivateKeyDer::Pkcs8(PrivatePkcs8KeyDer::from(PRIVATE_KEY.to_vec()));
    quinn_proto::ServerConfig::with_single_cert(vec![certificate], key).unwrap()
}

fn quinn_client() -> quinn_proto::ClientConfig {
    let mut roots = rustls::RootCertStore::empty();
    roots.add(CertificateDer::from(CERTIFICATE.to_vec())).unwrap();
    quinn_proto::ClientConfig::with_root_certificates(Arc::new(roots)).unwrap()
}

fn client_backend(now: Instant) -> QuinnBackend {
    let mut config = Config::default();
    config.client = Some(ClientConfig::new(quinn_client()));
    QuinnBackend::new(config, CLIENT.ip(), &vec![SoFeat::Mmsg], now)
}

fn server_backend(now: Instant) -> QuinnBackend {
    let mut config = Config::default();
    config.server = Some(ServerConfig::new(quinn_server()));
    QuinnBackend::new(config, SERVER.ip(), &vec![SoFeat::Mmsg], now)
}

fn localhost() -> ServerName {
    ServerName::try_from("localhost").unwrap()
}

/// Hands a datagram to a backend. Returns the answers.
fn hand(backend: &mut QuinnBackend, from: SocketAddr, to: SocketAddr, data: &[u8]) -> Vec<SendMsg<VecBuf>> {
    let mut message = RecvMsg::new(ConstBuf::<2048>::new_heap());
    message.write_slice()[..data.len()].copy_from_slice(data);
    message.recv(data.len(), from, to.ip(), Ecn::NEct, 1, None);
    let mut messages = [message];
    let mut packets = MultiMsgFlattenIter::new(&mut messages);
    let mut answers = Vec::new();
    backend.recv(&mut packets, &mut answers);
    assert!(packets.peek().is_none());
    answers
}

/// A client and a server, and the network between them.
struct Pair {
    now: Instant,
    client: QuinnBackend,
    server: QuinnBackend,
    client_events: Events,
    server_events: Events,
}

impl Pair {
    fn new() -> Self {
        let now = Instant::now();
        Self {
            now,
            client: client_backend(now),
            server: server_backend(now),
            client_events: Vec::new(),
            server_events: Vec::new(),
        }
    }

    /// A pair with an established connection.
    fn connected() -> (Self, QuinnConnectionId, QuinnConnectionId) {
        let mut pair = Self::new();
        let client_id = pair.client.connect(&localhost(), SERVER).unwrap();
        pair.drive();
        assert!(pair.client_events.iter().any(|event| matches!(
            event,
            Event::Connection(ConnectionEvent::Established(id)) if *id == client_id
        )));
        let mut server_id = None;
        for event in &pair.server_events {
            if let Event::Connection(ConnectionEvent::Established(id)) = event {
                server_id = Some(*id);
            }
        }
        pair.client_events.clear();
        pair.server_events.clear();
        (pair, client_id, server_id.unwrap())
    }

    fn pass(&mut self, time: Duration) {
        self.now += time;
        self.client.clock_update(self.now);
        self.server.clock_update(self.now);
        self.client.tick();
        self.server.tick();
    }

    /// Takes what is to be sent out of both backends, and hands it over.
    fn exchange(&mut self) -> usize {
        let mut to_server = Vec::new();
        self.client.send(&mut to_server);
        let mut to_client = Vec::new();
        self.server.send(&mut to_client);
        let mut count = 0;
        while let Some(message) = to_server.pop() {
            count += 1;
            assert_eq!(message.from(), CLIENT.ip());
            assert_eq!(message.to(), SERVER);
            let segment_size = message.io_slice().len() / message.segment_count();
            for segment in message.io_slice().chunks(segment_size) {
                to_client.extend(hand(&mut self.server, CLIENT, SERVER, segment));
            }
            self.client.give_back(message.into_buf());
        }
        while let Some(message) = to_client.pop() {
            count += 1;
            assert_eq!(message.from(), SERVER.ip());
            assert_eq!(message.to(), CLIENT);
            assert_eq!(message.segment_count(), 1);
            assert!(hand(&mut self.client, SERVER, CLIENT, message.io_slice()).is_empty());
            self.server.give_back(message.into_buf());
        }
        self.client_events.extend(self.client.events());
        self.server_events.extend(self.server.events());
        count
    }

    /// Hands everything over, until nothing is sent for a while.
    fn drive(&mut self) {
        let mut idle = 0;
        while idle < 20 {
            if self.exchange() == 0 {
                idle += 1;
            } else {
                idle = 0;
            }
            self.pass(Duration::from_millis(5));
        }
    }
}

fn is_told(events: &Events, id: QuinnConnectionId, stream: u64) -> bool {
    events.iter().any(|event| {
        matches!(event, Event::Stream(StreamEvent::Available(connection, stream_id))
            if *connection == id && stream_id.raw() == stream)
    })
}

#[test]
fn connection_is_established_after_a_retry() {
    let mut pair = Pair::new();
    assert!(pair.client.close_ready());
    let id = pair.client.connect(&localhost(), SERVER).unwrap();
    assert!(!pair.client.close_ready());
    let events = pair.client.events();
    assert_eq!(events.len(), 1);
    assert!(matches!(
        events[0],
        Event::Connection(ConnectionEvent::New { connection_id, is_server: false })
            if connection_id == id
    ));

    // The address of the client is not validated yet: it is answered, and not accepted.
    let mut out = Vec::new();
    pair.client.send(&mut out);
    assert_eq!(out.len(), 1);
    assert!(Buf::len(out[0].buf_ref()) >= 1200);
    let answers = hand(&mut pair.server, CLIENT, SERVER, out[0].io_slice());
    assert_eq!(answers.len(), 1);
    assert_eq!((answers[0].from(), answers[0].to()), (SERVER.ip(), CLIENT));
    assert!(pair.server.close_ready());
    assert!(pair.server.events().is_empty());
    assert!(hand(&mut pair.client, SERVER, CLIENT, answers[0].io_slice()).is_empty());
    for message in out {
        pair.client.give_back(message.into_buf());
    }
    for message in answers {
        pair.server.give_back(message.into_buf());
    }

    pair.drive();
    assert!(!pair.server.close_ready());
    assert!(matches!(
        pair.server_events[0],
        Event::Connection(ConnectionEvent::New { is_server: true, .. })
    ));
    assert!(pair.server_events.iter().any(|event| matches!(
        event,
        Event::Connection(ConnectionEvent::Established(_))
    )));
    // The maximum size of a datagram is told.
    assert!(pair.client_events.iter().any(|event| matches!(
        event,
        Event::Datagram(DatagramEvent::OutNewSize(connection, size))
            if *connection == id && *size > 1000
    )));
}

#[test]
fn certificates_of_the_server_are_known_to_the_client() {
    let (pair, client_id, server_id) = Pair::connected();
    assert_eq!(pair.client.peer_cert_chain(client_id).unwrap(), vec![CERTIFICATE.to_vec()]);
    assert!(pair.server.peer_cert_chain(server_id).unwrap().is_empty());
}

#[test]
fn data_of_a_stream_is_read_as_it_was_written() {
    let (mut pair, client_id, server_id) = Pair::connected();
    let data = Bytes::from_static(b"a hundred elephants");
    let (stream_id, unsent) =
        pair.client.stream_open_send(client_id, true, data.clone(), false).unwrap();
    assert_eq!(stream_id.raw(), 0);
    assert!(unsent.is_none());
    assert!(is_told(&pair.client.events(), client_id, 0));
    pair.client.stream_set_priority(
        client_id,
        stream_id,
        Priority { urgency: 5, incremental: true },
    );
    pair.drive();
    assert!(is_told(&pair.server_events, server_id, 0));

    // Less is read than there is.
    let mut out = [0xffu8; 4];
    assert_eq!(pair.server.stream_recv(server_id, stream_id, &mut out).unwrap(), (4, false));
    assert_eq!(&out, b"a hu");
    // There is less than what can be read, and the stream goes on.
    let mut out = [0xffu8; 64];
    let (length, is_end) = pair.server.stream_recv(server_id, stream_id, &mut out).unwrap();
    assert_eq!((length, is_end), (data.len() - 4, false));
    assert_eq!(&out[..length], &data[4..]);
    assert_eq!(out[length], 0xff);
    assert_eq!(pair.server.stream_recv(server_id, stream_id, &mut out).unwrap(), (0, false));

    // The end comes without data.
    assert!(pair.client.stream_send(client_id, stream_id, Bytes::new(), true).unwrap().is_none());
    pair.drive();
    assert_eq!(pair.server.stream_recv(server_id, stream_id, &mut out).unwrap(), (0, true));
    assert!(matches!(
        pair.server.stream_recv(server_id, stream_id, &mut out),
        Err(Error::UnknownStream)
    ));
    assert!(matches!(
        pair.client.stream_send(client_id, stream_id, data, false),
        Err(Error::UnknownStream)
    ));

    // The other direction is still open.
    let answer = Bytes::from_static(b"were here");
    assert!(pair.server.stream_send(server_id, stream_id, answer, true).unwrap().is_none());
    pair.drive();
    let (length, is_end) = pair.client.stream_recv(client_id, stream_id, &mut out).unwrap();
    assert_eq!((&out[..length], is_end), (&b"were here"[..], true));
}

#[test]
fn data_that_does_not_fit_comes_back() {
    let (mut pair, client_id, server_id) = Pair::connected();
    let data = Bytes::from(vec![7u8; 40_000_000]);
    let (stream_id, unsent) =
        pair.client.stream_open_send(client_id, true, data.clone(), true).unwrap();
    assert_eq!(stream_id.raw(), 0);
    let rest = unsent.unwrap();
    assert!(rest.len() < data.len());
    // Nothing more fits: all of it comes back.
    let again = pair.client.stream_send(client_id, stream_id, rest.clone(), true).unwrap().unwrap();
    assert_eq!(again.len(), rest.len());

    pair.exchange();
    pair.drive();
    let mut out = vec![0u8; 2000];
    let (length, is_end) = pair.server.stream_recv(server_id, stream_id, &mut out).unwrap();
    assert_eq!((length, is_end), (2000, false));
    assert!(out.iter().all(|byte| *byte == 7));
}

#[test]
fn end_of_the_data_comes_back() {
    let (mut pair, client_id, _) = Pair::connected();
    let data = Bytes::from((0..20_000_000u32).map(|i| (i % 251) as u8).collect::<Vec<u8>>());
    let (_, unsent) = pair.client.stream_open_send(client_id, false, data.clone(), true).unwrap();
    let rest = unsent.unwrap();
    assert!(!rest.is_empty() && rest.len() < data.len());
    assert!(rest == data.slice(data.len() - rest.len()..));
}

#[test]
fn streams_are_terminated_with_codes() {
    let (mut pair, client_id, server_id) = Pair::connected();
    let data = Bytes::from_static(b"data");
    let (first, _) = pair.client.stream_open_send(client_id, true, data.clone(), false).unwrap();
    let (second, _) = pair.client.stream_open_send(client_id, true, data.clone(), false).unwrap();
    assert_eq!((first.raw(), second.raw()), (0, 4));
    pair.drive();

    // The writer gives up.
    pair.client.stream_reset_sending(client_id, first, 17);
    // The reader has enough.
    pair.server.stream_stop_sending(server_id, second, 18);
    pair.drive();
    let mut out = [0u8; 16];
    assert!(matches!(
        pair.server.stream_recv(server_id, first, &mut out),
        Err(Error::StreamReset(17))
    ));
    assert!(matches!(
        pair.server.stream_recv(server_id, second, &mut out),
        Err(Error::UnknownStream)
    ));
    assert!(pair.client_events.iter().any(|event| matches!(
        event,
        Event::Stream(StreamEvent::Reset(connection, stream_id, 18))
            if *connection == client_id && *stream_id == second
    )));
    assert!(matches!(
        pair.client.stream_send(client_id, second, data.clone(), false),
        Err(Error::StreamStop(18))
    ));
    assert!(matches!(
        pair.client.stream_send(client_id, second, Bytes::new(), true),
        Err(Error::StreamStop(18))
    ));
    assert!(matches!(
        pair.client.stream_send(client_id, first, data, false),
        Err(Error::UnknownStream)
    ));
}

#[test]
fn streams_run_out() {
    let (mut pair, client_id, _) = Pair::connected();
    let mut opened = 0;
    let error = loop {
        match pair.client.stream_open_send(client_id, true, Bytes::new(), false) {
            Ok((stream_id, unsent)) => {
                assert_eq!(stream_id.raw(), opened * 4);
                assert!(unsent.is_none());
                opened += 1;
            }
            Err(error) => break error,
        }
    };
    assert!(matches!(error, Error::StreamsExhausted));
    assert_eq!(opened, 100);
}

#[test]
fn streams_are_used_in_their_direction_only() {
    let (mut pair, client_id, server_id) = Pair::connected();
    let of_client = StreamId::new(2).unwrap();
    let of_server = StreamId::new(3).unwrap();
    let mut out = [0u8; 16];
    for stream_id in [of_client, of_server] {
        for (backend, id, is_server) in
            [(&mut pair.client, client_id, false), (&mut pair.server, server_id, true)]
        {
            let is_own = stream_id.is_server() == is_server;
            let read = backend.stream_recv(id, stream_id, &mut out);
            let written = backend.stream_send(id, stream_id, Bytes::from_static(b"x"), false);
            if stream_id.is_client() {
                assert!(matches!(read, Err(Error::Illegal)));
            } else {
                assert!(matches!(written, Err(Error::Illegal)));
            }
            // Nothing happens, whatever the direction is.
            backend.stream_stop_sending(id, stream_id, 1);
            backend.stream_reset_sending(id, stream_id, 1);
            backend.stream_set_priority(id, stream_id, Priority { urgency: 1, incremental: false });
            if is_own {
                assert!(matches!(
                    backend.stream_recv(id, stream_id, &mut out),
                    Err(Error::Illegal)
                ));
            }
        }
    }
    let unknown = StreamId::new(400).unwrap();
    assert!(matches!(
        pair.client.stream_recv(client_id, unknown, &mut out),
        Err(Error::UnknownStream)
    ));
    assert!(matches!(
        pair.client.stream_recv(client_id, unknown, &mut []),
        Err(Error::BufferSize)
    ));
}

#[test]
fn datagrams_are_received_as_they_were_sent() {
    let (mut pair, client_id, server_id) = Pair::connected();
    let max_size = pair.client.dgram_send_max_size(client_id).unwrap();
    assert!(max_size > 1000);
    let datagram = Bytes::from_static(b"a datagram");
    assert!(pair.client.dgram_send(client_id, datagram.clone()).unwrap().is_none());
    assert!(pair.client.dgram_send(client_id, datagram.clone()).unwrap().is_none());
    assert!(pair.client.dgram_send(client_id, Bytes::from_static(b"third")).unwrap().is_none());
    assert!(matches!(
        pair.client.dgram_send(client_id, Bytes::from(vec![0; max_size + 1])),
        Err(Error::BufferSize)
    ));
    pair.drive();
    assert!(pair.server_events.iter().any(|event| matches!(
        event,
        Event::Datagram(DatagramEvent::InAvailable(id)) if *id == server_id
    )));

    assert_eq!(pair.server.dgram_recv_zc(server_id).unwrap(), Some(datagram.clone()));
    let mut out = [0xffu8; 12];
    assert_eq!(pair.server.dgram_recv(server_id, &mut out).unwrap(), 10);
    assert_eq!(&out, b"a datagram\xff\xff");
    assert!(matches!(
        pair.server.dgram_recv(server_id, &mut out[..4]),
        Err(Error::BufferSize)
    ));
    assert_eq!(pair.server.dgram_recv(server_id, &mut out).unwrap(), 0);
    assert_eq!(pair.server.dgram_recv_zc(server_id).unwrap(), None);
}

#[test]
fn datagrams_come_back_if_there_is_no_room() {
    let (mut pair, client_id, _) = Pair::connected();
    let datagram = Bytes::from(vec![9u8; 1000]);
    let mut sent = 0;
    let back = loop {
        match pair.client.dgram_send(client_id, datagram.clone()).unwrap() {
            None => sent += 1,
            Some(back) => break back,
        }
    };
    assert!(sent > 0);
    assert_eq!(back, datagram);
    pair.drive();
    assert!(pair.client_events.iter().any(|event| matches!(
        event,
        Event::Datagram(DatagramEvent::OutAvailable(id)) if *id == client_id
    )));
}

#[test]
fn datagrams_are_disabled() {
    let now = Instant::now();
    let mut transport = quinn_proto::TransportConfig::default();
    transport.datagram_receive_buffer_size(None);
    let mut config = Config::default();
    config.client = Some(ClientConfig { config: quinn_client(), transport: Some(transport) });
    let mut pair = Pair::new();
    pair.client = QuinnBackend::new(config, CLIENT.ip(), &vec![SoFeat::Mmsg], now);
    pair.now = now;
    let client_id = pair.client.connect(&localhost(), SERVER).unwrap();
    pair.drive();
    assert!(matches!(
        pair.client.dgram_send(client_id, Bytes::from_static(b"x")),
        Err(Error::DgramDisabled)
    ));
    let server_id = pair.server_events.iter().find_map(|event| match event {
        Event::Connection(ConnectionEvent::Established(id)) => Some(*id),
        _ => None,
    });
    let server_id = server_id.unwrap();
    assert!(matches!(
        pair.server.dgram_send(server_id, Bytes::from_static(b"x")),
        Err(Error::DgramDisabled)
    ));
    assert_eq!(pair.server.dgram_send_max_size(server_id).unwrap(), 0);
}

#[test]
fn closed_connection_is_told_once_on_each_side() {
    let (mut pair, client_id, server_id) = Pair::connected();
    let reason = Bytes::from_static(b"enough");
    pair.client.connection_close(client_id, 42, reason.clone()).unwrap();

    // It is refused from now on.
    let mut out = [0u8; 4];
    let stream_id = StreamId::new(0).unwrap();
    assert!(matches!(
        pair.client.connection_close(client_id, 43, reason.clone()),
        Err(Error::UnknownConnection)
    ));
    assert!(matches!(
        pair.client.stream_recv(client_id, stream_id, &mut out),
        Err(Error::UnknownConnection)
    ));
    assert!(matches!(
        pair.client.stream_open_send(client_id, true, Bytes::new(), false),
        Err(Error::UnknownConnection)
    ));
    assert!(matches!(
        pair.client.dgram_recv_zc(client_id),
        Err(Error::UnknownConnection)
    ));
    assert!(matches!(
        pair.client.dgram_send(client_id, Bytes::new()),
        Err(Error::UnknownConnection)
    ));
    assert!(matches!(
        pair.client.dgram_send_max_size(client_id),
        Err(Error::UnknownConnection)
    ));

    pair.drive();
    pair.pass(Duration::from_secs(10));
    pair.drive();
    let closed = |event: &&Event<QuinnConnectionId>| {
        matches!(
            event,
            Event::Connection(ConnectionEvent::Closed { .. } | ConnectionEvent::Halted { .. })
        )
    };
    let told: Vec<_> = pair.client_events.iter().filter(closed).collect();
    assert_eq!(told.len(), 1);
    assert!(matches!(told[0], Event::Connection(ConnectionEvent::Closed {
        connection_id, code: 42, reason: told, is_application: true, is_local: true,
    }) if *connection_id == client_id && *told == reason));
    let told: Vec<_> = pair.server_events.iter().filter(closed).collect();
    assert_eq!(told.len(), 1);
    assert!(matches!(told[0], Event::Connection(ConnectionEvent::Closed {
        connection_id, code: 42, reason: told, is_application: true, is_local: false,
    }) if *connection_id == server_id && *told == reason));
    assert!(matches!(
        pair.server.peer_cert_chain(server_id),
        Err(Error::UnknownConnection)
    ));
}

#[test]
fn closed_backend_closes_its_connections() {
    let (mut pair, client_id, server_id) = Pair::connected();
    pair.server.close(5, Bytes::from_static(b"going away"));
    pair.server.close(6, Bytes::from_static(b"again"));
    assert!(matches!(pair.server.peer_cert_chain(server_id), Err(Error::Closed)));
    assert!(matches!(
        pair.server.stream_open_send(server_id, true, Bytes::new(), false),
        Err(Error::Closed)
    ));
    assert!(matches!(pair.server.dgram_recv_zc(server_id), Err(Error::Closed)));
    assert!(matches!(pair.server.dgram_send_max_size(server_id), Err(Error::Closed)));
    assert!(matches!(
        pair.server.connection_close(server_id, 1, Bytes::new()),
        Err(Error::Closed)
    ));
    assert!(matches!(pair.server.migrate_network(None), Err(Error::Closed)));
    assert!(matches!(pair.server.connect(&localhost(), CLIENT), Err(Error::Closed)));
    assert!(!pair.server.close_ready());
    pair.drive();
    assert!(pair.client_events.iter().any(|event| matches!(
        event,
        Event::Connection(ConnectionEvent::Closed {
            connection_id, code: 5, is_application: true, is_local: false, ..
        }) if *connection_id == client_id
    )));
}

#[test]
fn connection_times_out() {
    let (mut pair, client_id, _) = Pair::connected();
    let (deadline, _) = pair.client.tick();
    assert!(deadline.is_some());
    for _ in 0..10 {
        pair.pass(Duration::from_secs(10));
        let mut lost = Vec::new();
        pair.client.send(&mut lost);
        for message in lost {
            pair.client.give_back(message.into_buf());
        }
        // Something has to arrive before a connection is polled.
        hand(&mut pair.client, SERVER, CLIENT, &[0x40; 30]);
    }
    pair.client_events.extend(pair.client.events());
    let told: Vec<_> = pair.client_events.iter().filter(|event| {
        matches!(event, Event::Connection(ConnectionEvent::Halted { .. }))
    }).collect();
    assert_eq!(told.len(), 1);
    assert!(matches!(
        told[0],
        Event::Connection(ConnectionEvent::Halted { connection_id, .. })
            if *connection_id == client_id
    ));
    assert!(matches!(
        pair.client.peer_cert_chain(client_id),
        Err(Error::UnknownConnection)
    ));
}

#[test]
fn client_moves_to_another_network() {
    let (mut pair, client_id, server_id) = Pair::connected();
    assert!(matches!(
        pair.client.migrate_network(Some(IpAddr::V4(0))),
        Err(Error::Illegal)
    ));
    let moved = SocketAddr::V4 { ip: 0x7f00_0009, port: 40_001 };
    pair.client.migrate_network(Some(moved.ip())).unwrap();
    let data = Bytes::from_static(b"from elsewhere");
    let (stream_id, _) = pair.client.stream_open_send(client_id, true, data.clone(), true).unwrap();
    let mut out = Vec::new();
    pair.client.send(&mut out);
    assert!(!out.is_empty());
    for message in out {
        assert_eq!(message.from(), moved.ip());
        for answer in hand(&mut pair.server, moved, SERVER, message.io_slice()) {
            pair.server.give_back(answer.into_buf());
        }
        pair.client.give_back(message.into_buf());
    }
    let mut read = [0u8; 32];
    let (length, is_end) = pair.server.stream_recv(server_id, stream_id, &mut read).unwrap();
    assert_eq!((&read[..length], is_end), (&data[..], true));
    // Packets of the server go to the new address.
    let mut out = Vec::new();
    pair.server.send(&mut out);
    assert!(out.iter().any(|message| message.to() == moved));
}

#[test]
fn connect_is_refused() {
    let now = Instant::now();
    let mut server = server_backend(now);
    assert!(matches!(server.connect(&localhost(), CLIENT), Err(Error::Illegal)));
    let mut client = client_backend(now);
    let nowhere = SocketAddr::new(IpAddr::V4(0x7f00_0001), 0);
    assert!(matches!(client.connect(&localhost(), nowhere), Err(Error::Other(_))));
    assert!(client.close_ready());
    assert!(client.events().is_empty());
}

#[test]
fn client_does_not_accept_connections() {
    let now = Instant::now();
    let mut client = client_backend(now);
    client.connect(&localhost(), SERVER).unwrap();
    let mut out = Vec::new();
    client.send(&mut out);
    let mut other = client_backend(now);
    // A stateless reset at most.
    assert!(hand(&mut other, CLIENT, SERVER, out[0].io_slice()).len() <= 1);
    assert!(other.close_ready());
    assert!(other.events().is_empty());
}

#[test]
fn unknown_version_is_answered() {
    let mut server = server_backend(Instant::now());
    let mut packet = vec![0xc0, 0x1a, 0x2a, 0x3a, 0x4a, 8];
    packet.extend([1; 8]);
    packet.push(8);
    packet.extend([2; 8]);
    packet.resize(1200, 0);
    for _ in 0..5 {
        let answers = hand(&mut server, CLIENT, SERVER, &packet);
        assert_eq!(answers.len(), 1);
        let data = answers[0].io_slice();
        // A version negotiation packet, with the connection IDs exchanged.
        assert_eq!(&data[1..6], &[0, 0, 0, 0, 8]);
        assert_eq!(&data[6..14], &[2; 8]);
        assert_eq!(data[14], 8);
        assert_eq!(&data[15..23], &[1; 8]);
        for answer in answers {
            server.give_back(answer.into_buf());
        }
    }
    assert!(hand(&mut server, CLIENT, SERVER, &[0; 3]).is_empty());
    assert!(server.events().is_empty());
}

#[test]
fn packets_wait_for_buffers() {
    let mut server = server_backend(Instant::now());
    let mut packet = vec![0xc0, 0x1a, 0x2a, 0x3a, 0x4a, 8];
    packet.extend([1; 8]);
    packet.push(0);
    packet.resize(1200, 0);
    // There are three reserved buffers.
    let mut messages: Vec<_> = (0..5).map(|_| {
        let mut message = RecvMsg::new(ConstBuf::<2048>::new_heap());
        message.write_slice()[..packet.len()].copy_from_slice(&packet);
        message.recv(packet.len(), CLIENT, SERVER.ip(), Ecn::Ce, 1, None);
        message
    }).collect();
    let mut packets = MultiMsgFlattenIter::new(&mut messages);
    let mut answers = Vec::new();
    server.recv(&mut packets, &mut answers);
    assert_eq!(answers.len(), 3);
    assert!(packets.peek().is_some());
    server.give_back(answers.pop().unwrap().into_buf());
    server.recv(&mut packets, &mut answers);
    assert_eq!(answers.len(), 3);
    server.give_back(answers.pop().unwrap().into_buf());
    server.recv(&mut packets, &mut answers);
    assert!(packets.peek().is_none());
}

#[test]
fn packet_is_answered_without_reserved_buffers() {
    let now = Instant::now();
    let mut config = Config::default();
    config.server = Some(ServerConfig::new(quinn_server()));
    let mut server = QuinnBackend::new(config, SERVER.ip(), &vec![], now);
    let mut packet = vec![0xc0, 0x1a, 0x2a, 0x3a, 0x4a, 8];
    packet.extend([1; 8]);
    packet.push(0);
    packet.resize(1200, 0);
    let answers = hand(&mut server, CLIENT, SERVER, &packet);
    assert_eq!(answers.len(), 1);
}

#[test]
fn packets_are_offloaded_only_if_the_socket_can() {
    for (features, is_offloading) in
        [(vec![SoFeat::Mmsg], false), (vec![SoFeat::Mmsg, SoFeat::GenericSegOffload], true)]
    {
        let now = Instant::now();
        let mut config = Config::default();
        config.client = Some(ClientConfig::new(quinn_client()));
        config.out_buffer_size = 8000;
        let mut pair = Pair::new();
        pair.client = QuinnBackend::new(config, CLIENT.ip(), &features, now);
        pair.now = now;
        let client_id = pair.client.connect(&localhost(), SERVER).unwrap();
        pair.drive();
        let data = Bytes::from(vec![7u8; 8000]);
        pair.client.stream_open_send(client_id, true, data, false).unwrap();
        let mut out = Vec::new();
        pair.client.send(&mut out);
        assert!(!out.is_empty());
        assert_eq!(out.iter().any(|message| message.segment_count() > 1), is_offloading);
    }
}

#[test]
fn shorter_packet_behind_others_is_sent() {
    let now = Instant::now();
    let mut config = Config::default();
    config.client = Some(ClientConfig::new(quinn_client()));
    let mut pair = Pair::new();
    // There is one buffer.
    pair.client =
        QuinnBackend::new(config, CLIENT.ip(), &vec![SoFeat::GenericSegOffload], now);
    pair.now = now;
    let client_id = pair.client.connect(&localhost(), SERVER).unwrap();
    pair.drive();
    let data: Vec<u8> = (0..5000u32).map(|i| (i % 251) as u8).collect();
    let (stream_id, unsent) =
        pair.client.stream_open_send(client_id, true, Bytes::from(data.clone()), true).unwrap();
    assert!(unsent.is_none());
    let mut out = Vec::new();
    pair.client.send(&mut out);
    assert_eq!(out.len(), 2);
    let segment_count = out[0].segment_count();
    assert!(segment_count > 1);
    assert_eq!(out[0].io_slice().len() % segment_count, 0);
    let segment_size = out[0].io_slice().len() / segment_count;
    assert_eq!(out[1].segment_count(), 1);
    assert!(out[1].io_slice().len() < segment_size);
    assert_eq!((out[1].from(), out[1].to()), (out[0].from(), out[0].to()));
    assert_eq!(out[1].ecn(), out[0].ecn());
    for message in &out {
        for segment in message.io_slice().chunks(segment_size) {
            assert!(hand(&mut pair.server, CLIENT, SERVER, segment).is_empty());
        }
    }
    let server_id = pair
        .server_events
        .iter()
        .find_map(|event| match event {
            Event::Connection(ConnectionEvent::Established(id)) => Some(*id),
            _ => None,
        })
        .unwrap();
    let mut received = vec![0u8; 6000];
    let (length, is_end) =
        pair.server.stream_recv(server_id, stream_id, &mut received).unwrap();
    assert_eq!((&received[..length], is_end), (&data[..], true));

    // The buffer of the rest comes out of no pool, and there is still one buffer.
    pair.client.give_back(out.pop().unwrap().into_buf());
    pair.client.stream_open_send(client_id, true, Bytes::from(data.clone()), true).unwrap();
    pair.client.send(&mut out);
    assert_eq!(out.len(), 1);
    pair.client.give_back(out.pop().unwrap().into_buf());
    pair.client.send(&mut out);
    assert_eq!(out.len(), 2);
}

#[test]
fn scope_of_an_address_is_kept() {
    let link_local = |scope_id: u32| SocketAddr::V6 {
        ip: 0xfe80_0000_0000_0000_0000_0000_0000_0001,
        port: 443,
        flowinfo: 0,
        scope_id,
    };
    let here = IpAddr::V6(0xfe80_0000_0000_0000_0000_0000_0000_0002);
    let now = Instant::now();
    for scope_id in [0, 7, u32::MAX] {
        let mut config = Config::default();
        config.client = Some(ClientConfig::new(quinn_client()));
        let mut client = QuinnBackend::new(config, here, &vec![SoFeat::Mmsg], now);
        client.connect(&localhost(), link_local(scope_id)).unwrap();
        let mut out = Vec::new();
        client.send(&mut out);
        assert_eq!(out.len(), 1);
        assert_eq!(out[0].to(), link_local(scope_id));
        assert_eq!(out[0].from(), here);

        let mut config = Config::default();
        config.server = Some(ServerConfig::new(quinn_server()));
        let mut server = QuinnBackend::new(config, here, &vec![SoFeat::Mmsg], now);
        let at = SocketAddr::new(here, 443);
        let answers = hand(&mut server, link_local(scope_id), at, out[0].io_slice());
        // The peer is asked to validate its address.
        assert_eq!(answers.len(), 1);
        assert_eq!(answers[0].to(), link_local(scope_id));
    }
}

#[test]
fn connections_are_sent_in_turn() {
    let now = Instant::now();
    let mut config = Config::default();
    config.client = Some(ClientConfig::new(quinn_client()));
    config.out_buffers_count = 1;
    let mut client = QuinnBackend::new(config, CLIENT.ip(), &vec![SoFeat::Mmsg], now);
    let first = client.connect(&localhost(), SERVER).unwrap();
    let second = client.connect(&localhost(), SERVER).unwrap();
    assert!(first != second);
    let mut out = Vec::new();
    client.send(&mut out);
    assert_eq!(out.len(), 1);
    client.send(&mut out);
    assert_eq!(out.len(), 1);
    client.give_back(out.pop().unwrap().into_buf());
    client.send(&mut out);
    assert_eq!(out.len(), 1);
}

#[test]
fn lost_connection_is_told_once() {
    let now = Instant::now();
    let reason = Bytes::from_static(b"why");
    let cases = vec![
        Lost::VersionMismatch,
        Lost::Transport(1, reason.clone()),
        Lost::ConnectionClosed(2, reason.clone()),
        Lost::ApplicationClosed(3, reason.clone()),
        Lost::Reset,
        Lost::TimedOut,
        Lost::CidsExhausted,
        Lost::LocallyClosed,
    ];
    for (case, lost) in cases.into_iter().enumerate() {
        let mut client = client_backend(now);
        let id = client.connect(&localhost(), SERVER).unwrap();
        client.events();
        assert!(client.tell_lost(id, lost));
        assert!(client.tell_lost(id, Lost::LocallyClosed));
        let events = client.events();
        if case == 7 {
            assert!(events.is_empty());
            continue;
        }
        assert!(client.tell_lost(id, Lost::Reset));
        assert!(client.events().is_empty());
        assert_eq!(events.len(), 1);
        let Event::Connection(event) = &events[0] else {
            panic!("not an event of a connection");
        };
        match event {
            ConnectionEvent::Halted { connection_id, kind } => {
                assert!(*connection_id == id);
                match kind {
                    HaltKind::UnknownVersion => assert_eq!(case, 0),
                    HaltKind::StatelessReset => assert_eq!(case, 4),
                    HaltKind::Timeout => assert_eq!(case, 5),
                    HaltKind::Error(message) => {
                        assert_eq!(case, 6);
                        assert_eq!(message.as_ref(), b"not enough CID space");
                    }
                    HaltKind::MigrationFailed => unreachable!(),
                }
            }
            ConnectionEvent::Closed { connection_id, code, reason: told, is_application, is_local } => {
                assert!(*connection_id == id);
                assert_eq!(*code, case as u64);
                assert_eq!(*told, reason);
                assert_eq!(*is_application, case == 3);
                assert_eq!(*is_local, case == 1);
            }
            _ => panic!("the connection is not lost"),
        }
    }
}

#[test]
fn stale_id_reaches_nothing() {
    let mut client = client_backend(Instant::now());
    let id = client.connect(&localhost(), SERVER).unwrap();
    let stale = QuinnConnectionId { version: id.version.wrapping_add(1), ..id };
    assert!(!client.tell_lost(stale, Lost::Reset));
    assert!(matches!(client.peer_cert_chain(stale), Err(Error::UnknownConnection)));
    assert!(client.peer_cert_chain(id).unwrap().is_empty());
    assert!(matches!(
        client.connection_close(stale, 1, Bytes::new()),
        Err(Error::UnknownConnection)
    ));
    assert!(matches!(client.enter(id, false, false, false), Some(Error::UnknownConnection)));
    assert!(matches!(client.enter(id, true, true, true), Some(Error::Illegal)));
    assert!(matches!(client.enter(id, true, false, true), Some(Error::BufferSize)));
    assert!(client.enter(id, true, false, false).is_none());
}

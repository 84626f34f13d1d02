use aquic::net::msg::supports;
use aquic::net::{
    Buf, BufMut, ConstBuf, Ecn, IpAddr, MultiMsgFlattenIter, RecvMsg, SendMsg, ServerName,
    ServerNameError, SoFeat, SocketAddr, MAX_PACKET_SIZE,
};
use aquic::time::Instant;

const HOST: IpAddr = IpAddr::V4(0x7f00_0001);

fn peer(port: u16) -> SocketAddr {
    SocketAddr::new(IpAddr::V4(0x0a00_0001), port)
}

fn message(data: &[u8], port: u16, segment_count: usize) -> RecvMsg<ConstBuf<64>> {
    let mut msg = RecvMsg::new(ConstBuf::<64>::new_heap());
    msg.write_slice()[..data.len()].copy_from_slice(data);
    msg.recv(data.len(), peer(port), HOST, Ecn::Ect0, segment_count, Some(Instant { nanos: 5 }));
    msg
}

/// The data of a message.
struct Data(Vec<u8>);

impl Buf for Data {
    fn len(&self) -> usize {
        self.0.len()
    }

    fn as_slice(&self) -> &[u8] {
        &self.0
    }
}

#[test]
fn octets_of_addresses_are_in_network_order() {
    let mut out = Vec::new();
    IpAddr::V4(0x7f00_0001).write_octets(&mut out);
    assert_eq!(out, vec![127, 0, 0, 1]);
    IpAddr::V6(1).write_octets(&mut out);
    assert_eq!(out.len(), 20);
    assert_eq!(out[19], 1);
    assert_eq!(IpAddr::from_octets(&out[..4]), Some(IpAddr::V4(0x7f00_0001)));
    assert_eq!(IpAddr::from_octets(&out[4..]), Some(IpAddr::V6(1)));
    assert_eq!(IpAddr::from_octets(&out[..5]), None);
    assert_eq!(IpAddr::from_octets(&[]), None);
}

#[test]
fn unspecified_addresses_are_told() {
    assert!(IpAddr::V4(0).is_unspecified());
    assert!(IpAddr::V6(0).is_unspecified());
    assert!(!IpAddr::V4(1).is_unspecified());
    assert!(IpAddr::V4(1).is_ipv4());
    assert!(!IpAddr::V6(1).is_ipv4());

    assert!(SocketAddr::new(IpAddr::V4(1), 0).is_unspecified());
    assert!(SocketAddr::new(IpAddr::V4(0), 443).is_unspecified());
    assert!(!SocketAddr::new(IpAddr::V4(1), 443).is_unspecified());
}

#[test]
fn socket_address_is_its_ip_and_port() {
    let v4 = SocketAddr::new(IpAddr::V4(7), 443);
    assert_eq!((v4.ip(), v4.port()), (IpAddr::V4(7), 443));
    let v6 = SocketAddr::new(IpAddr::V6(9), 80);
    assert_eq!((v6.ip(), v6.port()), (IpAddr::V6(9), 80));
    assert_eq!(v6, SocketAddr::V6 { ip: 9, port: 80, flowinfo: 0, scope_id: 0 });
}

#[test]
fn constant_buffers_are_blank_at_first() {
    let mut stack = ConstBuf::<8>::new_stack();
    assert_eq!(Buf::len(&stack), 0);
    assert!(stack.is_empty());
    assert_eq!(Buf::as_slice(&stack), &[] as &[u8]);
    assert_eq!(stack.capacity(), 8);
    assert_eq!(BufMut::as_slice(&mut stack), &[0u8; 8][..]);

    let mut heap = ConstBuf::<16>::new_heap();
    assert_eq!(heap.capacity(), 16);
    BufMut::as_slice(&mut heap)[3] = 7;
    assert_eq!(BufMut::as_slice(&mut heap)[3], 7);
}

#[test]
fn socket_features_are_looked_up() {
    let features = vec![SoFeat::Mmsg, SoFeat::DontFragment];
    assert!(supports(&features, SoFeat::DontFragment));
    assert!(!supports(&features, SoFeat::GenericSegOffload));
    assert!(!supports(&vec![], SoFeat::Mmsg));
}

#[test]
fn notification_is_its_bits() {
    for ecn in [Ecn::NEct, Ecn::Ect1, Ecn::Ect0, Ecn::Ce] {
        assert_eq!(Ecn::from_bits(ecn.bits()), ecn);
    }
    assert_eq!(Ecn::default(), Ecn::NEct);
    assert_eq!(Ecn::Ect1.bits(), 0b01);
    assert_eq!(Ecn::Ect0.bits(), 0b10);
    assert_eq!(Ecn::from_bits(0b111), Ecn::Ce);
    assert_eq!(Ecn::NEct.name(), "Not-ECT");
    assert_eq!(Ecn::Ect1.name(), "ECT(1)");
    assert_eq!(Ecn::Ect0.name(), "ECT(0)");
    assert_eq!(Ecn::Ce.name(), "CE");
}

#[test]
fn blank_message_has_no_packet() {
    let mut msg = RecvMsg::new(ConstBuf::<8>::new_stack());
    assert!(!msg.has_packet());
    assert_eq!(msg.len(), 0);
    assert_eq!(msg.read_slice().len(), 0);
    assert_eq!(msg.write_slice().len(), 8);
    assert!(msg.from().is_unspecified());
    assert!(msg.to().is_unspecified());
    assert_eq!(msg.timestamp(), None);
    assert_eq!(MAX_PACKET_SIZE, 65535);
}

#[test]
fn received_message_is_read_back() {
    let mut msg = message(b"abcdef", 9, 3);
    assert!(msg.has_packet());
    assert_eq!(msg.from(), peer(9));
    assert_eq!(msg.to(), HOST);
    assert_eq!(msg.ecn(), Ecn::Ect0);
    assert_eq!(msg.segment_count(), 3);
    assert_eq!(msg.segment_size(), 2);
    assert_eq!(msg.len(), 6);
    assert_eq!(msg.timestamp(), Some(Instant { nanos: 5 }));
    assert_eq!(msg.read_slice(), b"abcdef");
    assert_eq!(BufMut::as_slice(&mut msg.into_buf())[..6], *b"abcdef");
}

#[test]
fn segments_are_iterated_packet_by_packet() {
    let mut msgs =
        vec![message(b"aabbcc", 1, 3), message(b"", 2, 0), message(b"xyz", 3, 0), message(b"q", 4, 1)];
    let mut packets = MultiMsgFlattenIter::new(&mut msgs);
    let mut seen = Vec::new();
    while let Some(packet) = packets.peek() {
        seen.push((packet.from.port(), packet.payload.to_vec()));
        assert_eq!(packet.to, HOST);
        assert_eq!(packet.ecn, Ecn::Ect0);
        assert_eq!(packet.timestamp, Some(Instant { nanos: 5 }));
        packets.next();
    }
    assert_eq!(
        seen,
        vec![
            (1, b"aa".to_vec()),
            (1, b"bb".to_vec()),
            (1, b"cc".to_vec()),
            (3, b"xyz".to_vec()),
            (4, b"q".to_vec()),
        ]
    );
    packets.next();
    assert!(packets.peek().is_none());
}

#[test]
fn writing_over_a_packet_changes_no_other() {
    let mut msgs = vec![message(b"aabbcc", 1, 3)];
    let mut packets = MultiMsgFlattenIter::new(&mut msgs);
    packets.next();
    packets.peek().unwrap().payload.copy_from_slice(b"XX");
    assert_eq!(packets.peek().unwrap().payload, b"XX");
    packets.next();
    assert_eq!(packets.peek().unwrap().payload, b"cc");
    assert_eq!(msgs[0].read_slice(), b"aaXXcc");
}

#[test]
fn message_to_be_sent_keeps_its_parts() {
    let msg = SendMsg::new(Data(b"abcd".to_vec()), HOST, peer(7), Ecn::Ce, 2);
    assert_eq!(msg.io_slice(), b"abcd");
    assert_eq!((msg.from(), msg.to()), (HOST, peer(7)));
    assert_eq!((msg.ecn(), msg.segment_count()), (Ecn::Ce, 2));
    assert_eq!(msg.buf_ref().0, b"abcd");
    assert_eq!(msg.into_buf().0, b"abcd");

    let msg = SendMsg::from_parts(5u8, HOST, peer(7), Ecn::NEct, 1);
    assert_eq!(msg.into_buf(), 5);
}

#[test]
fn server_name_is_a_domain() {
    match ServerName::try_from("example.com") {
        Ok(ServerName::Domain(name)) => assert_eq!(name, b"\x07example\x03com"),
        _ => panic!("no domain"),
    }
    match ServerName::try_from("example.com.") {
        Ok(ServerName::Domain(name)) => assert_eq!(name, b"\x07example\x03com\x00"),
        _ => panic!("no domain"),
    }
    assert_eq!(ServerName::try_from("example.com").unwrap().to_text(), "example.com");
}

#[test]
fn server_name_is_an_ip_address() {
    assert!(matches!(
        ServerName::try_from("127.0.0.1"),
        Ok(ServerName::Ip(IpAddr::V4(0x7f00_0001)))
    ));
    assert!(matches!(ServerName::try_from("::1"), Ok(ServerName::Ip(IpAddr::V6(1)))));
    assert_eq!(ServerName::try_from("10.20.30.40").unwrap().to_text(), "10.20.30.40");
    assert_eq!(ServerName::try_from("2001:db8::1").unwrap().to_text(), "2001:db8::1");
}

#[test]
fn server_name_is_refused() {
    assert!(matches!(ServerName::try_from("a..b"), Err(ServerNameError)));
    let long_label = vec![b'a'; 64];
    let text = String::from_utf8(long_label).unwrap();
    assert!(matches!(ServerName::try_from(&text), Err(ServerNameError)));
    assert_eq!(
        ServerNameError.message(),
        "provided server name is neither valid DNS name nor valid IP address"
    );
}

#[test]
fn server_name_is_made_of_its_parts() {
    assert!(matches!(
        ServerName::from_parts(Some(vec![1, 2, 3, 4]), Some(vec![0])),
        Ok(ServerName::Ip(IpAddr::V4(0x0102_0304)))
    ));
    assert!(matches!(
        ServerName::from_parts(Some(vec![0; 16]), None),
        Ok(ServerName::Ip(IpAddr::V6(0)))
    ));
    match ServerName::from_parts(None, Some(vec![1, b'a'])) {
        Ok(ServerName::Domain(name)) => assert_eq!(name, vec![1, b'a']),
        _ => panic!("no domain"),
    }
    assert!(matches!(ServerName::from_parts(None, None), Err(ServerNameError)));
}

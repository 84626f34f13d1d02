use aquic::backend::{
    BackendEvents, ConnectionEvent, DatagramEvent, Error, Event, Firewall, HaltKind, OutEvents,
    StreamEvent, StrictFirewall,
};
use aquic::net::{IpAddr, SocketAddr};
use aquic::stream::StreamId;
use bytes::Bytes;

fn new_event(connection_id: u8) -> ConnectionEvent<u8> {
    ConnectionEvent::New { connection_id, is_server: true }
}

fn halted(connection_id: u8) -> ConnectionEvent<u8> {
    ConnectionEvent::Halted { connection_id, kind: HaltKind::Timeout }
}

#[test]
fn events_of_a_connection_have_an_order() {
    let closed = ConnectionEvent::Closed {
        connection_id: 1u8,
        code: 0,
        reason: Bytes::new(),
        is_application: true,
        is_local: true,
    };
    let streams = ConnectionEvent::StreamsAvailable { connection_id: 1u8, is_bidirectional: true };
    assert_eq!(new_event(1).order(), 0);
    assert_eq!(ConnectionEvent::Established(1u8).order(), 1);
    assert_eq!(streams.order(), 2);
    assert_eq!(closed.order(), 3);
    assert_eq!(halted(1).order(), 3);
}

#[test]
fn event_knows_its_connection() {
    assert_eq!(*new_event(4).connection_id(), 4);
    assert_eq!(*halted(5).connection_id(), 5);
    assert_eq!(*ConnectionEvent::Established(6u8).connection_id(), 6);
}

#[test]
fn backend_events_are_taken_out_in_order() {
    let mut events = BackendEvents::new();
    events.push_connection(Some(new_event(1)));
    events.push_connection(None);
    events.push_datagram(Some(DatagramEvent::InAvailable(2)));
    events.push_datagram(None);
    events.push(Event::Stream(StreamEvent::Available(3, StreamId::from(4u8))));
    events.extend(vec![Event::Connection(halted(5))]);
    let taken = events.take();
    assert_eq!(taken.len(), 4);
    assert!(matches!(taken[0], Event::Connection(ConnectionEvent::New { connection_id: 1, .. })));
    assert!(matches!(taken[1], Event::Datagram(DatagramEvent::InAvailable(2))));
    assert!(matches!(taken[2], Event::Stream(StreamEvent::Available(3, _))));
    assert!(matches!(taken[3], Event::Connection(ConnectionEvent::Halted { connection_id: 5, .. })));
    assert!(events.take().is_empty());
}

#[test]
fn out_events_are_appended() {
    let mut connections = vec![new_event(1)];
    let mut streams = Vec::new();
    {
        let mut out = OutEvents::new(&mut connections, &mut streams);
        assert!(!out.is_modified());
        out.push_connection_event(new_event(2));
        assert!(out.is_modified());
        out.push_stream_event(StreamEvent::Reset(2, StreamId::from(0u8), 7));
        let mut more = vec![new_event(3)];
        out.append_connection_events(&mut more);
        assert!(more.is_empty());
        let mut more = vec![StreamEvent::Available(3, StreamId::from(1u8))];
        out.append_stream_events(&mut more);
        assert!(more.is_empty());
        out.extend_connection_events(vec![halted(4)]);
        out.extend_stream_events(vec![StreamEvent::Available(4, StreamId::from(2u8))]);
    }
    assert_eq!(connections.iter().map(|e| *e.connection_id()).collect::<Vec<_>>(), [1, 2, 3, 4]);
    assert_eq!(streams.len(), 3);
}

#[test]
fn events_of_a_closing_backend_are_ignored() {
    let mut connections = Vec::new();
    let mut streams = Vec::new();
    {
        let mut out = OutEvents::new_noop(&mut connections, &mut streams);
        out.push_connection_event(new_event(1));
        out.push_stream_event(StreamEvent::Available(1, StreamId::from(0u8)));
        let mut more = vec![new_event(2)];
        out.append_connection_events(&mut more);
        assert_eq!(more.len(), 1);
        out.extend_connection_events(vec![new_event(3)]);
        out.extend_stream_events(vec![StreamEvent::Available(3, StreamId::from(0u8))]);
        assert!(!out.is_modified());
    }
    assert!(connections.is_empty());
    assert!(streams.is_empty());
}

#[test]
fn strict_firewall_allows_nobody() {
    let addr = SocketAddr::new(IpAddr::V4(1), 1);
    assert!(!StrictFirewall.allow_unverified(addr, 0, 0));
    assert!(!StrictFirewall.allow_unverified(addr, usize::MAX, usize::MAX));
}

#[test]
fn backend_errors_describe_themselves() {
    assert_eq!(Error::Closed.message(), "backend is closed");
    assert_eq!(Error::Illegal.message(), "illegal operation");
    assert_eq!(Error::BufferSize.message(), "provided buffer has invalid size");
    assert_eq!(Error::UnknownConnection.message(), "unknown connection");
    assert_eq!(Error::UnknownStream.message(), "unknown stream");
    assert_eq!(Error::StreamsExhausted.message(), "streams are exhausted on this direction");
    assert_eq!(
        Error::StreamStop(12).message(),
        "stream is terminated with 'STOP_SENDING(12)'"
    );
    assert_eq!(
        Error::StreamReset(0).message(),
        "stream is terminated with 'RESET_STREAM(0)'"
    );
    assert_eq!(
        Error::DgramDisabled.message(),
        "datagrams are not supported on this direction, or completely"
    );
    assert_eq!(Error::Other(String::from("x")).message(), "x");
}

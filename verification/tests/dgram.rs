use aquic::backend;
use aquic::dgram::error::DgramNotice;
use aquic::dgram::{Batch, Decoder, Encoder, Error, Incoming, Outgoing};
use aquic::stream::Level;
use bytes::Bytes;

struct LineDecoder {
    datagrams: Vec<Vec<u8>>,
}

impl Decoder for LineDecoder {
    type Item = usize;

    fn recv(&mut self, datagram: &[u8]) {
        self.datagrams.push(datagram.to_vec());
    }

    fn decode(&mut self) -> Option<usize> {
        if self.datagrams.is_empty() {
            return None;
        }
        Some(self.datagrams.remove(0).len())
    }
}

struct LineEncoder {
    pending: Vec<Bytes>,
}

impl Encoder for LineEncoder {
    type Item = u8;

    fn encode(&mut self, item: u8) {
        self.pending.push(Bytes::copy_from_slice(&[item]));
    }

    fn should_flush(&self) -> bool {
        self.pending.len() >= 2
    }

    fn flush(&mut self) -> Option<Bytes> {
        if self.pending.is_empty() {
            return None;
        }
        Some(self.pending.remove(0))
    }
}

fn incoming_dgrams() -> Incoming<LineDecoder> {
    Incoming::new(
        LineDecoder { datagrams: Vec::new() },
        String::from("Incoming"),
        String::from("usize"),
    )
}

fn outgoing_dgrams() -> Outgoing<LineEncoder> {
    Outgoing::new(LineEncoder { pending: Vec::new() }, String::from("Outgoing"), String::from("u8"))
}

fn reason<T>(result: Result<T, Error>) -> String {
    match result {
        Err(Error::HangUp(message)) => message,
        _ => panic!("no hang-up"),
    }
}

#[test]
fn incoming_datagrams_are_received_then_decoded() {
    let mut direction = incoming_dgrams();
    let mut decoder = direction.begin_recv().unwrap();
    assert!(direction.begin_recv().is_none());
    assert_eq!(direction.decode_dgram(), None);
    decoder.recv(b"abc");
    decoder.recv(b"de");
    assert!(direction.end_recv(Ok(Ok(decoder))).is_ok());
    assert_eq!(direction.decode_dgram(), Some(3));
    assert_eq!(direction.decode_dgram(), Some(2));
    assert_eq!(direction.decode_dgram(), None);
}

#[test]
fn incoming_datagram_errors_are_translated() {
    let mut direction = incoming_dgrams();
    assert!(matches!(
        direction.end_recv(Ok(Err(backend::Error::Closed))),
        Err(Error::Connection)
    ));
    assert!(matches!(
        direction.end_recv(Ok(Err(backend::Error::UnknownConnection))),
        Err(Error::Connection)
    ));
    assert_eq!(
        reason(direction.end_recv(Ok(Err(backend::Error::DgramDisabled)))),
        "'Incoming' QUIC backend RPC channel responded with \
         'datagrams are not supported on this direction, or completely'"
    );
    assert_eq!(
        reason(direction.end_recv(Err(String::from("gone")))),
        "'Incoming' QUIC backend RPC channel is unavailable: gone"
    );
}

#[test]
fn datagrams_that_find_no_room_are_dropped() {
    let direction = incoming_dgrams();
    assert!(direction.after_send(Ok(true)).is_ok());
    assert!(direction.after_send(Ok(false)).is_ok());
    assert!(matches!(direction.after_send(Err(Error::End)), Err(Error::End)));
    assert_eq!(
        reason(direction.after_send(Err(Error::HangUp(String::from("x"))))),
        "'Incoming' decoded items 'usize' channel is unavailable: x"
    );
    assert_eq!(
        reason(direction.after_send(Err(Error::Connection))),
        "'Incoming' decoded items 'usize' channel returned an unexpected error: \
         connection is closed"
    );
}

#[test]
fn outgoing_datagrams_are_encoded_then_flushed() {
    let mut direction = outgoing_dgrams();
    assert!(direction.can_recv());
    assert!(!direction.encode(None));
    assert!(direction.encode(Some(1)));
    assert!(direction.wants_more());
    assert!(direction.encode(Some(2)));
    assert!(!direction.wants_more());

    let mut encoder = direction.begin_send().unwrap();
    assert!(direction.begin_send().is_none());
    assert!(!direction.can_recv());
    assert!(!direction.encode(Some(3)));
    assert!(direction.wants_more());
    assert_eq!(encoder.flush(), Some(Bytes::from_static(&[1])));
    assert_eq!(encoder.flush(), Some(Bytes::from_static(&[2])));
    assert_eq!(encoder.flush(), None);
    assert!(direction.end_send(Ok(Ok(encoder))).is_ok());
    assert!(direction.can_recv());
}

#[test]
fn outgoing_datagram_errors_are_translated() {
    let mut direction = outgoing_dgrams();
    assert!(matches!(direction.after_recv(Ok(Some(5u8))), Ok(Some(5))));
    assert!(matches!(direction.after_recv::<u8>(Ok(None)), Ok(None)));
    assert!(matches!(direction.after_recv::<u8>(Err(Error::End)), Err(Error::End)));
    assert_eq!(
        reason(direction.after_recv::<u8>(Err(Error::HangUp(String::from("x"))))),
        "'Outgoing' items 'u8' channel is unavailable: x"
    );
    assert_eq!(
        reason(direction.after_recv::<u8>(Err(Error::Connection))),
        "'Outgoing' items 'u8' channel returned an unexpected error: connection is closed"
    );
    assert!(matches!(
        direction.end_send(Ok(Err(backend::Error::Closed))),
        Err(Error::Connection)
    ));
    assert_eq!(
        reason(direction.end_send(Ok(Err(backend::Error::BufferSize)))),
        "'Outgoing' QUIC backend responded with an unexpected error: \
         provided buffer has invalid size"
    );
    assert_eq!(
        reason(direction.end_send(Err(String::from("gone")))),
        "'Outgoing' QUIC backend RPC channel is unavailable: gone"
    );
}

#[test]
fn datagram_direction_is_closed_once() {
    let mut direction = incoming_dgrams();
    let plan = direction.close(Error::End).unwrap();
    assert!(direction.close(Error::Connection).is_none());
    assert_eq!((plan.level, plan.notice), (Level::Debug, DgramNotice::End));
    assert!(plan.message.is_none());

    let mut direction = outgoing_dgrams();
    let plan = direction.close(Error::Connection).unwrap();
    assert!(direction.close(Error::End).is_none());
    assert_eq!((plan.level, plan.notice), (Level::Debug, DgramNotice::Connection));

    let plan = Error::HangUp(String::from("gone")).into_plan();
    assert_eq!((plan.level, plan.notice), (Level::Warn, DgramNotice::HangUp));
    assert_eq!(plan.message.as_deref(), Some("gone"));
}

#[test]
fn datagram_application_errors_are_translated() {
    assert!(matches!(Error::of_app(Some(Error::End), "d", "c"), Some(Error::End)));
    assert!(Error::of_app(Some(Error::Connection), "d", "c").is_none());
    match Error::of_app(None, "d", "items 'u8'") {
        Some(Error::HangUp(m)) => assert_eq!(m, "'d' items 'u8' error channel is unavailable"),
        _ => panic!("no hang-up"),
    }
    assert!(matches!(Error::of_cancellation(Some(Error::Connection), "d"), Error::Connection));
    match Error::of_cancellation(None, "d") {
        Error::HangUp(m) => assert_eq!(m, "'d' cancellation-signal channel is unavailable"),
        _ => panic!("no hang-up"),
    }
}

#[test]
fn datagram_errors_describe_themselves() {
    assert_eq!(Error::End.message(), "normal end");
    assert_eq!(Error::Connection.message(), "connection is closed");
    assert_eq!(Error::HangUp(String::from("x")).message(), "hang-up (x)");
    match Error::HangUp(String::from("x")).clone() {
        Error::HangUp(e) => assert_eq!(e, "x"),
        _ => panic!("another error"),
    }
}

#[test]
fn batch_takes_at_least_one_datagram() {
    let mut batch = Batch::new();
    assert!(batch.takes_more(0));
    batch.push(Bytes::from_static(b"0123456789"));
    assert_eq!(batch.total_bytes, 10);
    assert!(!batch.takes_more(10));
    assert!(batch.takes_more(11));
    batch.push(Bytes::from_static(b"x"));
    assert_eq!(batch.total_bytes, 11);
    assert_eq!(batch.datagrams.len(), 2);
    assert!(!batch.takes_more(11));
}

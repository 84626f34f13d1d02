use aquic::backend;
use aquic::stream::{
    AppNotice, BackendNotice, ClosePlan, Decoder, Encoder, Error, InStep, Incoming, Level, Outgoing,
    Payload, SpanNotice,
};
use bytes::Bytes;

type StreamError = Error<u64, String, String>;

/// Decodes each byte into a number; a zero byte is an error.
struct ByteDecoder {
    buffer: [u8; 4],
    unread: Vec<u8>,
    fin: bool,
}

impl ByteDecoder {
    fn new() -> Self {
        ByteDecoder { buffer: [0; 4], unread: Vec::new(), fin: false }
    }

    fn fill(&mut self, data: &[u8], fin: bool) {
        let buffer = self.recv(true).unwrap();
        buffer[..data.len()].copy_from_slice(data);
        self.notify(data.len(), fin);
    }
}

impl Decoder for ByteDecoder {
    type Item = u8;
    type Error = String;

    fn recv(&mut self, _mandatory: bool) -> Option<&mut [u8]> {
        Some(&mut self.buffer)
    }

    fn notify(&mut self, length: usize, fin: bool) {
        self.unread.extend_from_slice(&self.buffer[..length]);
        self.fin = fin;
    }

    fn decode(&mut self) -> Result<Option<Payload<u8>>, String> {
        if self.unread.is_empty() {
            return Ok(if self.fin { Some(Payload::Done) } else { None });
        }
        match self.unread.remove(0) {
            0 => Err(String::from("zero")),
            byte if self.fin && self.unread.is_empty() => Ok(Some(Payload::Last(byte))),
            byte => Ok(Some(Payload::Item(byte))),
        }
    }
}

/// Encodes numbers into bytes, two of them at a time; zero is an error.
struct ByteEncoder {
    pending: Vec<u8>,
    fin: bool,
}

impl Encoder for ByteEncoder {
    type Item = u8;
    type Error = String;

    fn encode(&mut self, payload: Payload<u8>) -> Result<(), String> {
        self.fin = payload.is_fin();
        match payload.into_inner() {
            Some(0) => Err(String::from("zero")),
            Some(byte) => {
                self.pending.push(byte);
                Ok(())
            }
            None => Ok(()),
        }
    }

    fn should_flush(&self) -> bool {
        self.pending.len() >= 2
    }

    fn flush(&mut self) -> Option<(Bytes, bool)> {
        if self.pending.is_empty() {
            return None;
        }
        Some((Bytes::from(std::mem::take(&mut self.pending)), self.fin))
    }
}

fn incoming() -> Incoming<ByteDecoder> {
    Incoming::new(ByteDecoder::new(), String::from("Incoming"), String::from("u8"))
}

fn outgoing() -> Outgoing<ByteEncoder> {
    Outgoing::new(
        ByteEncoder { pending: Vec::new(), fin: false },
        String::from("Outgoing"),
        String::from("u8"),
    )
}

fn hang_up<T>(result: Result<T, StreamError>) -> String {
    match result {
        Err(Error::HangUp(message)) => message,
        Err(_) => panic!("another error"),
        Ok(_) => panic!("no error"),
    }
}

#[test]
fn incoming_reads_then_decodes_until_the_end() {
    let mut direction = incoming();
    assert_eq!(direction.step(), InStep::Read);

    let mut decoder = direction.begin_read().unwrap();
    assert_eq!(direction.step(), InStep::Decode);
    assert!(direction.begin_read().is_none());
    decoder.fill(&[7, 8], false);
    assert!(direction.end_read::<u64, String, String>(Ok(Ok(decoder))).is_ok());

    assert!(matches!(direction.decode::<u64, String>(), Ok(Some(Payload::Item(7)))));
    assert!(direction.begin_read().is_none());
    assert!(matches!(direction.decode::<u64, String>(), Ok(Some(Payload::Item(8)))));
    assert!(matches!(direction.decode::<u64, String>(), Ok(None)));
    assert_eq!(direction.step(), InStep::Read);

    let mut decoder = direction.begin_read().unwrap();
    decoder.fill(&[9], true);
    assert!(direction.end_read::<u64, String, String>(Ok(Ok(decoder))).is_ok());
    assert!(matches!(direction.decode::<u64, String>(), Ok(Some(Payload::Last(9)))));
    assert_eq!(direction.step(), InStep::End);
    assert!(direction.begin_read().is_none());
    assert!(matches!(direction.decode::<u64, String>(), Ok(None)));
}

#[test]
fn incoming_decoder_error_is_handed_on() {
    let mut direction = incoming();
    let mut decoder = direction.begin_read().unwrap();
    decoder.fill(&[0], false);
    assert!(direction.end_read::<u64, String, String>(Ok(Ok(decoder))).is_ok());
    match direction.decode::<u64, String>() {
        Err(Error::Decoder(e)) => assert_eq!(e, "zero"),
        _ => panic!("no decoder error"),
    }
}

#[test]
fn incoming_decodes_nothing_without_a_decoder() {
    let mut direction = incoming();
    assert!(matches!(direction.decode::<u64, String>(), Ok(None)));
    let decoder = direction.begin_read();
    assert!(decoder.is_some());
    assert!(matches!(direction.decode::<u64, String>(), Ok(None)));
    assert_eq!(direction.step(), InStep::Decode);
}

#[test]
fn incoming_backend_errors_are_translated() {
    let mut direction = incoming();
    let read = |direction: &mut Incoming<ByteDecoder>, e| -> Result<(), StreamError> {
        direction.end_read(Ok(Err(e)))
    };
    assert!(matches!(
        read(&mut direction, backend::Error::StreamReset(5)),
        Err(Error::Reset(5))
    ));
    assert!(matches!(read(&mut direction, backend::Error::Closed), Err(Error::Connection)));
    assert!(matches!(
        read(&mut direction, backend::Error::UnknownConnection),
        Err(Error::Connection)
    ));
    assert_eq!(
        hang_up(read(&mut direction, backend::Error::StreamStop(3))),
        "'Incoming' QUIC backend RPC channel responded with \
         'stream is terminated with 'STOP_SENDING(3)''"
    );
    assert_eq!(
        hang_up(direction.end_read(Err(String::from("gone")))),
        "'Incoming' QUIC backend RPC channel is unavailable: gone"
    );
}

#[test]
fn incoming_application_errors_are_translated() {
    let direction = incoming();
    assert!(direction.after_send::<u64, String, String>(Ok(())).is_ok());
    assert!(matches!(
        direction.after_send::<u64, String, String>(Err(Error::Stop(4))),
        Err(Error::Stop(4))
    ));
    assert_eq!(
        hang_up(direction.after_send(Err(Error::HangUp(String::from("full"))))),
        "'Incoming' decoded items 'u8' channel is unavailable: full"
    );
    assert_eq!(
        hang_up(direction.after_send(Err(Error::Finish))),
        "'Incoming' decoded items 'u8' channel is unavailable"
    );

    assert!(matches!(
        direction.app_error::<u64, String, String>(Some(Error::Stop(1))),
        Some(Error::Stop(1))
    ));
    assert!(direction.app_error::<u64, String, String>(Some(Error::Finish)).is_none());
    assert!(direction.app_error::<u64, String, String>(Some(Error::Reset(1))).is_none());
    match direction.app_error::<u64, String, String>(None) {
        Some(Error::HangUp(m)) => {
            assert_eq!(m, "'Incoming' decoded items 'u8' error channel is unavailable")
        }
        _ => panic!("no hang-up"),
    }
    match direction.cancel_error::<u64, String, String>(None) {
        Error::HangUp(m) => {
            assert_eq!(m, "'Incoming' cancellation-signal channel is unavailable")
        }
        _ => panic!("no hang-up"),
    }
    assert!(matches!(
        direction.cancel_error::<u64, String, String>(Some(Error::Reset(2))),
        Error::Reset(2)
    ));
}

fn incoming_plan(error: StreamError) -> ClosePlan<u64, String> {
    incoming().close(error).unwrap()
}

#[test]
fn incoming_close_tells_the_other_side() {
    let plan = incoming_plan(Error::Finish);
    assert_eq!((plan.app, plan.backend, plan.span), (None, None, SpanNotice::Fin));
    assert_eq!(plan.level, Level::Debug);

    let plan = incoming_plan(Error::Stop(3));
    assert_eq!(plan.app, None);
    assert_eq!(plan.backend, Some(BackendNotice::Terminate(3)));
    assert_eq!(plan.span, SpanNotice::StopSending(3));

    let plan = incoming_plan(Error::Reset(4));
    assert_eq!(plan.app, Some(AppNotice::Terminate(4)));
    assert_eq!(plan.backend, None);
    assert_eq!(plan.span, SpanNotice::ResetStream(4));

    let plan = incoming_plan(Error::Decoder(String::from("bad")));
    assert_eq!(plan.app, Some(AppNotice::Codec));
    assert_eq!(plan.backend, Some(BackendNotice::Codec));
    assert_eq!(plan.codec_error.as_deref(), Some("bad"));
    assert_eq!((plan.level, plan.span), (Level::Warn, SpanNotice::Internal));

    let plan = incoming_plan(Error::Connection);
    assert_eq!((plan.app, plan.backend), (Some(AppNotice::Connection), None));
    assert_eq!(plan.span, SpanNotice::ConnectionClose);

    let plan = incoming_plan(Error::HangUp(String::from("gone")));
    assert_eq!(plan.app, Some(AppNotice::HangUp));
    assert_eq!(plan.backend, Some(BackendNotice::HangUp));
    assert_eq!(plan.message.as_deref(), Some("gone"));

    let plan = incoming_plan(Error::Encoder(String::from("odd")));
    assert_eq!(plan.level, Level::Error);
    assert_eq!(
        plan.message.as_deref(),
        Some("'Incoming' received an unexpected encoder error: odd")
    );
}

#[test]
fn cancelled_direction_tells_the_application() {
    let mut direction = incoming();
    let error = direction.cancel_error::<u64, String, String>(Some(Error::Reset(2)));
    let plan = direction.close(error).unwrap();
    assert_eq!((plan.app, plan.backend), (Some(AppNotice::Terminate(2)), None));

    let mut direction = incoming();
    let error = direction.cancel_error::<u64, String, String>(Some(Error::Connection));
    let plan = direction.close(error).unwrap();
    assert_eq!((plan.app, plan.backend), (Some(AppNotice::Connection), None));

    let mut direction = outgoing();
    let error = direction.cancel_error::<u64, String, String>(Some(Error::Stop(7)));
    let plan = direction.close(error).unwrap();
    assert_eq!((plan.app, plan.backend), (Some(AppNotice::Terminate(7)), None));
}

#[test]
fn incoming_is_closed_once() {
    let mut direction = incoming();
    assert!(direction.close::<u64, String, String>(Error::Stop(3)).is_some());
    assert!(direction.close::<u64, String, String>(Error::Connection).is_none());
}

#[test]
fn outgoing_encodes_until_the_encoder_is_to_be_flushed() {
    let mut direction = outgoing();
    assert!(direction.can_recv());
    assert!(direction.wants_more());
    assert!(matches!(direction.encode::<u64, String>(None), Ok(false)));
    assert!(matches!(direction.encode::<u64, String>(Some(Payload::Item(1))), Ok(true)));
    assert!(direction.wants_more());
    assert!(matches!(direction.encode::<u64, String>(Some(Payload::Item(2))), Ok(true)));
    assert!(!direction.wants_more());
    assert!(!direction.is_finished());

    let mut encoder = direction.begin_write().unwrap();
    assert!(direction.begin_write().is_none());
    assert!(!direction.can_recv());
    assert!(direction.wants_more());
    assert!(matches!(direction.encode::<u64, String>(Some(Payload::Item(3))), Ok(false)));
    assert_eq!(encoder.flush(), Some((Bytes::from_static(&[1, 2]), false)));
    assert!(direction.end_write::<u64, String, String>(Ok(Ok(encoder))).is_ok());
    assert!(direction.can_recv());
}

#[test]
fn outgoing_receives_nothing_behind_the_end() {
    let mut direction = outgoing();
    assert!(matches!(direction.encode::<u64, String>(Some(Payload::Last(1))), Ok(true)));
    assert!(direction.is_finished());
    assert!(!direction.can_recv());
    assert!(!direction.wants_more());
    assert!(matches!(direction.encode::<u64, String>(Some(Payload::Item(2))), Ok(false)));
}

#[test]
fn outgoing_encoder_error_is_handed_on() {
    match outgoing().encode::<u64, String>(Some(Payload::Item(0))) {
        Err(Error::Encoder(e)) => assert_eq!(e, "zero"),
        _ => panic!("no encoder error"),
    }
}

#[test]
fn outgoing_errors_are_translated() {
    let mut direction = outgoing();
    let received: Result<Option<Payload<u8>>, StreamError> =
        direction.after_recv(Ok(Some(Payload::Item(1))));
    assert!(matches!(received, Ok(Some(Payload::Item(1)))));
    let received: Result<Option<Payload<u8>>, StreamError> =
        direction.after_recv(Err(Error::Reset(6)));
    assert!(matches!(received, Err(Error::Reset(6))));
    let received: Result<Option<Payload<u8>>, StreamError> =
        direction.after_recv(Err(Error::HangUp(String::from("gone"))));
    assert_eq!(hang_up(received), "'Outgoing' items 'u8' channel is unavailable: gone");
    let received: Result<Option<Payload<u8>>, StreamError> =
        direction.after_recv(Err(Error::Stop(2)));
    assert_eq!(
        hang_up(received),
        "'Outgoing' items 'u8' channel returned an unexpected error: stop (2)"
    );

    let written: Result<(), StreamError> =
        direction.end_write(Ok(Err(backend::Error::StreamStop(8))));
    assert!(matches!(written, Err(Error::Stop(8))));
    let written: Result<(), StreamError> = direction.end_write(Ok(Err(backend::Error::Closed)));
    assert!(matches!(written, Err(Error::Connection)));
    let written: Result<(), StreamError> =
        direction.end_write(Ok(Err(backend::Error::UnknownConnection)));
    assert!(matches!(written, Err(Error::Connection)));
    assert_eq!(
        hang_up(direction.end_write(Ok(Err(backend::Error::UnknownStream)))),
        "'Outgoing' QUIC backend responded with an unexpected error: unknown stream"
    );
    assert_eq!(
        hang_up(direction.end_write(Err(String::from("gone")))),
        "'Outgoing' QUIC backend RPC channel is unavailable: gone"
    );

    assert!(matches!(
        direction.app_error::<u64, String, String>(Some(Error::Reset(1))),
        Some(Error::Reset(1))
    ));
    assert!(direction.app_error::<u64, String, String>(Some(Error::Stop(1))).is_none());
    match direction.app_error::<u64, String, String>(None) {
        Some(Error::HangUp(m)) => {
            assert_eq!(m, "'Outgoing' items 'u8' error channel is unavailable")
        }
        _ => panic!("no hang-up"),
    }
    match direction.cancel_error::<u64, String, String>(None) {
        Error::HangUp(m) => {
            assert_eq!(m, "'Outgoing' cancellation-signal channel is unavailable")
        }
        _ => panic!("no hang-up"),
    }
}

fn outgoing_plan(error: StreamError) -> ClosePlan<u64, String> {
    outgoing().close(error).unwrap()
}

#[test]
fn outgoing_close_tells_the_other_side() {
    let plan = outgoing_plan(Error::Finish);
    assert_eq!((plan.app, plan.backend, plan.span), (None, None, SpanNotice::Fin));

    let plan = outgoing_plan(Error::Stop(3));
    assert_eq!((plan.app, plan.backend), (Some(AppNotice::Terminate(3)), None));
    assert_eq!(plan.span, SpanNotice::StopSending(3));

    let plan = outgoing_plan(Error::Reset(4));
    assert_eq!((plan.app, plan.backend), (None, Some(BackendNotice::Terminate(4))));
    assert_eq!(plan.span, SpanNotice::ResetStream(4));

    let plan = outgoing_plan(Error::Encoder(String::from("bad")));
    assert_eq!((plan.app, plan.backend), (Some(AppNotice::Codec), Some(BackendNotice::Codec)));
    assert_eq!(plan.codec_error.as_deref(), Some("bad"));

    let plan = outgoing_plan(Error::Connection);
    assert_eq!((plan.app, plan.backend), (Some(AppNotice::Connection), None));

    let plan = outgoing_plan(Error::HangUp(String::from("gone")));
    assert_eq!(plan.message.as_deref(), Some("gone"));
    assert_eq!((plan.app, plan.backend), (Some(AppNotice::HangUp), Some(BackendNotice::HangUp)));

    let plan = outgoing_plan(Error::Decoder(String::from("odd")));
    assert_eq!(plan.level, Level::Error);
    assert_eq!(
        plan.message.as_deref(),
        Some("'Outgoing' received an unexpected encoder error: odd")
    );
    let mut direction = outgoing();
    assert!(direction.close::<u64, String, String>(Error::Finish).is_some());
    assert!(direction.close::<u64, String, String>(Error::Finish).is_none());
}

#[test]
fn stream_errors_describe_themselves() {
    let text = |e: StreamError| e.message();
    assert_eq!(text(Error::Finish), "finish");
    assert_eq!(text(Error::Stop(1)), "stop (1)");
    assert_eq!(text(Error::Reset(2)), "reset (2)");
    assert_eq!(text(Error::Decoder(String::from("d"))), "decoder error (d)");
    assert_eq!(text(Error::Encoder(String::from("e"))), "encoder error (e)");
    assert_eq!(text(Error::Connection), "connection is closed");
    assert_eq!(text(Error::HangUp(String::from("h"))), "hang-up (h)");
}

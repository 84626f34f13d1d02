use aquic::dgram::Error;
use aquic::sync::dgram::Half;
use aquic::sync::oneshot::Shared;
use aquic::sync::rpc::{Outcome, State};
use aquic::sync::{TryRecvError, TrySendError};

#[test]
fn sent_value_is_received_by_everyone() {
    let mut shared = Shared::channel();
    assert_eq!(shared.try_recv(), Err(TryRecvError::Empty));
    assert_eq!(shared.send(7), Ok(()));
    assert_eq!(shared.try_recv(), Ok(&7));
    assert_eq!(shared.try_recv(), Ok(&7));
}

#[test]
fn first_value_stays() {
    let mut shared = Shared::channel();
    assert_eq!(shared.send("first"), Ok(()));
    assert_eq!(shared.send("second"), Err((TrySendError::Full, "second")));
    assert_eq!(shared.try_recv(), Ok(&"first"));
}

#[test]
fn value_outlives_its_senders() {
    let mut shared = Shared::channel();
    shared.add_sender();
    assert!(!shared.drop_sender());
    assert_eq!(shared.send(1), Ok(()));
    assert!(shared.drop_sender());
    assert!(shared.is_closed_for_receivers());
    assert_eq!(shared.try_recv(), Ok(&1));
}

#[test]
fn oneshot_is_closed_without_the_other_side() {
    let mut shared = Shared::<u8>::channel();
    shared.add_receiver();
    shared.drop_receiver();
    assert!(!shared.is_closed_for_senders());
    shared.drop_receiver();
    assert!(shared.is_closed_for_senders());
    assert_eq!(shared.send(1), Err((TrySendError::Closed, 1)));

    let mut shared = Shared::<u8>::channel();
    shared.drop_sender();
    assert_eq!(shared.try_recv(), Err(TryRecvError::Closed));
}

#[test]
fn response_wakes_up_who_waits_for_it() {
    let mut state: State<u8, &str> = State::new();
    assert_eq!(state.poll("first"), Outcome::Pending);
    assert_eq!(state.poll("second"), Outcome::Pending);
    assert_eq!(state.on_result(9), Some("second"));
    assert_eq!(state.poll("third"), Outcome::Ready);
    assert_eq!(state.into_response(), Some(9));
}

#[test]
fn response_stays_whatever_happens_to_the_callback() {
    let mut state: State<u8, &str> = State::new();
    assert_eq!(state.on_result(1), None);
    assert_eq!(state.on_result(2), None);
    assert_eq!(state.on_drop(), None);
    assert_eq!(state.poll("w"), Outcome::Ready);
    assert_eq!(state.into_response(), Some(1));
}

#[test]
fn dropped_callback_is_noticed() {
    let mut state: State<u8, &str> = State::new();
    assert_eq!(state.poll("w"), Outcome::Pending);
    assert_eq!(state.on_drop(), Some("w"));
    assert_eq!(state.poll("w"), Outcome::NoResponse);
    assert_eq!(state.on_result(1), None);
    assert_eq!(state.poll("w"), Outcome::NoResponse);
    assert_eq!(state.into_response(), None);
}

fn half() -> Half {
    Half { name: String::from("Sender"), items: String::from("item_sender") }
}

fn text(error: Error) -> String {
    match error {
        Error::HangUp(m) => m,
        _ => panic!("no hang-up"),
    }
}

#[test]
fn datagram_channel_is_closed_with_the_first_error() {
    let mut shared = Shared::channel();
    assert!(half().error(&shared).is_none());
    assert!(matches!(half().close(&mut shared, Error::End), Error::End));
    assert!(matches!(half().close(&mut shared, Error::Connection), Error::End));
    assert!(matches!(half().error(&shared), Some(Error::End)));
}

#[test]
fn datagram_channel_half_that_has_gone_is_a_hang_up() {
    let mut shared = Shared::channel();
    shared.drop_receiver();
    assert_eq!(
        text(half().close(&mut shared, Error::End)),
        "'Sender'.error_receiver is unavailable"
    );
    let mut shared = Shared::channel();
    shared.drop_sender();
    assert_eq!(
        text(half().error(&shared).unwrap()),
        "'Sender'.error_receiver is unavailable"
    );
    assert_eq!(text(half().item_fallback()), "'Sender'.item_sender is unavailable");
}

#[test]
fn datagram_is_sent_if_there_is_room() {
    let mut shared = Shared::channel();
    assert!(matches!(half().after_try_send(&mut shared, Ok(())), Ok(true)));
    assert!(matches!(half().after_try_send(&mut shared, Err(TrySendError::Full)), Ok(false)));
    assert_eq!(
        text(half().after_try_send(&mut shared, Err(TrySendError::Closed)).unwrap_err()),
        "'Sender'.item_sender is unavailable"
    );
    assert_eq!(text(half().error(&shared).unwrap()), "'Sender'.item_sender is unavailable");
}

#[test]
fn datagram_is_received_if_there_is_one() {
    let mut shared = Shared::channel();
    assert!(matches!(half().after_try_recv(&mut shared, Ok(4)), Ok(Some(4))));
    assert!(matches!(
        half().after_try_recv::<u8>(&mut shared, Err(TryRecvError::Empty)),
        Ok(None)
    ));
    half().close(&mut shared, Error::Connection);
    assert!(matches!(
        half().after_try_recv::<u8>(&mut shared, Err(TryRecvError::Closed)),
        Err(Error::Connection)
    ));
}

#[test]
fn dropped_datagram_half_ends_the_channel() {
    assert!(matches!(half().drop_error(false), Error::End));
    assert_eq!(text(half().drop_error(true)), "'Sender' is dropped due to panic");
}

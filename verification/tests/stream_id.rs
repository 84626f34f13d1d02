use aquic::stream::{Payload, Priority, StreamId, StreamIdError};

#[test]
fn largest_stream_id_is_accepted() {
    assert_eq!(StreamId::new(StreamId::MAX).unwrap().raw(), StreamId::MAX);
    assert_eq!(StreamId::new(StreamId::MAX + 1), Err(StreamIdError));
    assert_eq!(StreamId::new(u64::MAX), Err(StreamIdError));
}

#[test]
fn initial_stream_ids_start_the_four_sequences() {
    assert_eq!(StreamId::initial(true, true).raw(), 0);
    assert_eq!(StreamId::initial(false, true).raw(), 1);
    assert_eq!(StreamId::initial(true, false).raw(), 2);
    assert_eq!(StreamId::initial(false, false).raw(), 3);
    assert_eq!(StreamId::init_client_bidi().raw(), 0);
    assert_eq!(StreamId::init_server_bidi().raw(), 1);
    assert_eq!(StreamId::init_client_uni().raw(), 2);
    assert_eq!(StreamId::init_server_uni().raw(), 3);
}

#[test]
fn stream_id_bits_tell_initiator_and_direction() {
    let id = StreamId::new(4 * 9 + 3).unwrap();
    assert!(id.is_server() && !id.is_client());
    assert!(id.is_uni() && !id.is_bidi());

    let id = StreamId::new(4 * 9).unwrap();
    assert!(id.is_client() && !id.is_server());
    assert!(id.is_bidi() && !id.is_uni());
}

#[test]
fn next_stream_id_keeps_its_sequence() {
    let id = StreamId::init_server_uni();
    let next = id.next().unwrap();
    assert_eq!(next.raw(), 7);
    assert!(next.is_server() && next.is_uni());
    assert_eq!(next.previous(), Ok(id));
    assert_eq!(id.previous(), Err(StreamIdError));
}

#[test]
fn there_is_no_stream_id_behind_the_last_one() {
    let last = StreamId::new(StreamId::MAX).unwrap();
    assert_eq!(last.next(), Err(StreamIdError));
    let before = StreamId::new(StreamId::MAX - 4).unwrap();
    assert_eq!(before.next(), Ok(last));
}

#[test]
fn stream_id_converts_from_and_to_integers() {
    assert_eq!(StreamId::from(7u8).raw(), 7);
    assert_eq!(StreamId::from(700u16).raw(), 700);
    assert_eq!(StreamId::from(70_000u32).raw(), 70_000);
    assert_eq!(StreamId::try_from(StreamId::MAX).map(|id| id.raw()), Ok(StreamId::MAX));
    assert_eq!(StreamId::try_from(StreamId::MAX + 1), Err(StreamIdError));
    assert_eq!(StreamId::try_from(StreamId::MAX as u128 + 1), Err(StreamIdError));
    assert_eq!(StreamId::try_from(u128::MAX), Err(StreamIdError));
    assert_eq!(StreamId::try_from(12usize).map(|id| id.raw()), Ok(12));

    let id = StreamId::new(0x1_2345_6789).unwrap();
    assert_eq!(u64::from(id), 0x1_2345_6789);
    assert_eq!(u128::from(id), 0x1_2345_6789);
    assert_eq!(u32::from(id), 0x2345_6789);
    assert_eq!(u16::from(id), 0x6789);
    assert_eq!(u8::from(id), 0x89);
    assert_eq!(usize::from(id), 0x1_2345_6789);
}

#[test]
fn equal_raw_values_are_equal_stream_ids() {
    assert_eq!(StreamId::from(9u8), StreamId::new(9).unwrap());
    assert_ne!(StreamId::from(9u8), StreamId::new(13).unwrap());
}

#[test]
fn payload_tells_the_end_of_a_stream() {
    assert!(!Payload::Item(1).is_fin());
    assert!(Payload::Last(1).is_fin());
    assert!(Payload::<u8>::Done.is_fin());
    assert_eq!(Payload::Item(1).into_inner(), Some(1));
    assert_eq!(Payload::Last(2).into_inner(), Some(2));
    assert_eq!(Payload::<u8>::Done.into_inner(), None);
}

#[test]
fn payload_is_mapped_in_place() {
    assert_eq!(Payload::Item(2).map(|n| n * 10), Payload::Item(20));
    assert_eq!(Payload::Last(3).map(|n| n * 10), Payload::Last(30));
    assert_eq!(Payload::<i32>::Done.map(|n| n * 10), Payload::Done);
}

#[test]
fn payload_mapping_may_fail() {
    let half = |n: i32| if n % 2 == 0 { Ok(n / 2) } else { Err("odd") };
    assert_eq!(Payload::Item(4).try_map(half), Ok(Payload::Item(2)));
    assert_eq!(Payload::Last(4).try_map(half), Ok(Payload::Last(2)));
    assert_eq!(Payload::Item(3).try_map(half), Err("odd"));
    assert_eq!(Payload::Last(3).try_map(half), Err("odd"));
    assert_eq!(Payload::Done.try_map(half), Ok(Payload::Done));
}

#[test]
fn urgency_is_turned_around() {
    let of = |urgency| Priority { urgency, incremental: false }.descending_urgency();
    assert_eq!(of(127), 0);
    assert_eq!(of(0), 127);
    assert_eq!(of(-128), 255);
    assert!(of(5) < of(4));
}

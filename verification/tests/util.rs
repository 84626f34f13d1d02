use aquic::stream::Payload;
use aquic::time::{Duration, Instant};
use aquic::util::crypto::{KeyStore, RandomKey};
use aquic::util::describe::{put_around, put_behind, Describe};
use aquic::util::octets::{copy_into, copy_into_slice, push_be, read_be};
use aquic::util::text::{push_decimal, push_hex};
use aquic::util::trace::Trace;
use aquic::Estimate;
use bytes::Bytes;

#[test]
fn durations_are_whole_nanoseconds() {
    assert_eq!(Duration::from_nanos(7).nanos, 7);
    assert_eq!(Duration::from_millis(3).nanos, 3_000_000);
    assert_eq!(Duration::from_secs(2).nanos, 2_000_000_000);
    assert_eq!(Duration::from_secs(u64::MAX).nanos, u64::MAX as u128 * 1_000_000_000);
}

#[test]
fn duration_since_a_later_instant_is_zero() {
    let early = Instant { nanos: 10 };
    let late = Instant { nanos: 25 };
    assert_eq!(late.saturating_duration_since(early).nanos, 15);
    assert_eq!(early.saturating_duration_since(late).nanos, 0);
    assert_eq!(late.saturating_duration_since(late).nanos, 0);
}

#[test]
fn bytes_are_written_over() {
    let mut out = vec![1, 2, 3, 4, 5];
    copy_into(&mut out, 1, &[9, 8]);
    assert_eq!(out, vec![1, 9, 8, 4, 5]);
    copy_into(&mut out, 5, &[]);
    assert_eq!(out, vec![1, 9, 8, 4, 5]);

    let mut array = [0u8; 4];
    copy_into_slice(&mut array, 2, &[7, 6]);
    assert_eq!(array, [0, 0, 7, 6]);
}

#[test]
fn big_endian_numbers_round_trip() {
    let mut out = vec![0xaa];
    push_be(&mut out, 0x0102_0304, 4);
    assert_eq!(out, vec![0xaa, 1, 2, 3, 4]);
    assert_eq!(read_be(&out[1..]), 0x0102_0304);
    assert_eq!(read_be(&[]), 0);
    assert_eq!(read_be(&[0xff; 16]), u128::MAX);

    let mut truncated = Vec::new();
    push_be(&mut truncated, 0x0102_0304, 2);
    assert_eq!(truncated, vec![3, 4]);
}

#[test]
fn numbers_are_written_in_decimal() {
    let mut out = String::from("n=");
    push_decimal(&mut out, 0);
    push_decimal(&mut out, 1_234_567_890);
    assert_eq!(out, "n=01234567890");

    let mut largest = String::new();
    push_decimal(&mut largest, u128::MAX);
    assert_eq!(largest, format!("{}", u128::MAX));
}

#[test]
fn bytes_are_written_in_hexadecimal() {
    let mut out = String::from("0x");
    push_hex(&mut out, &[0x00, 0x0f, 0xa5, 0xff]);
    assert_eq!(out, "0x000fa5ff");
}

#[test]
fn trace_has_the_version_and_the_variant_of_a_random_uuid() {
    let trace = Trace::from_random_octets([0xff; 16]);
    assert_eq!(trace.value, 0xffffffff_ffff_4fff_bfff_ffffffffffff);
    assert_eq!(trace.to_text(), "ffffffff-ffff-4fff-bfff-ffffffffffff");

    let zero = Trace::from_random_octets([0; 16]);
    assert_eq!(zero.to_text(), "00000000-0000-4000-8000-000000000000");
}

#[test]
fn traces_are_unique() {
    let a = Trace::random();
    let b = Trace::random();
    assert_ne!(a, b);
    assert_eq!(&a.to_text()[14..15], "4");
}

#[test]
fn random_key_is_the_active_and_the_only_passive_key() {
    let key = RandomKey::<32>::generate().unwrap();
    assert_eq!(key.active().len(), 32);
    assert_ne!(key.active(), &[0u8; 32][..]);
    let passive = key.passive();
    assert_eq!(passive.len(), 1);
    assert_eq!(passive[0], key.active());
    assert_eq!(key.revision(), 0);
}

#[test]
fn random_keys_differ() {
    let a = RandomKey::<16>::generate().unwrap();
    let b = RandomKey::<16>::generate().unwrap();
    assert_ne!(a.active(), b.active());
}

#[test]
fn key_is_what_the_system_has_filled() {
    let key = RandomKey::<4>::from_filled([1, 2, 3, 4], true).unwrap();
    assert_eq!(key.active(), &[1u8, 2, 3, 4][..]);
    assert!(RandomKey::<4>::from_filled([1, 2, 3, 4], false).is_none());
}

#[test]
fn erased_key_is_zero() {
    let mut key = RandomKey::<8>::generate().unwrap();
    key.erase();
    assert_eq!(key.active(), &[0u8; 8][..]);
}

#[test]
fn numbers_and_strings_describe_themselves() {
    assert_eq!(42u64.describe(), "42");
    assert_eq!(String::from("reason").describe(), "reason");
    assert_eq!(put_around("stop (", "7", ")"), "stop (7)");
    assert_eq!(put_behind(String::from("a: "), "b"), "a: b");
}

#[test]
fn weight_of_bytes_is_their_number() {
    assert_eq!(vec![1u8, 2, 3].estimate(), 3);
    assert_eq!(Vec::<u8>::new().estimate(), 0);
    assert_eq!(Bytes::from_static(b"datagram").estimate(), 8);
}

#[test]
fn weight_of_a_payload_is_that_of_its_data() {
    assert_eq!(Payload::Item(vec![1u8, 2]).estimate(), 2);
    assert_eq!(Payload::Last(vec![1u8]).estimate(), 1);
    assert_eq!(Payload::<Vec<u8>>::Done.estimate(), 0);
}

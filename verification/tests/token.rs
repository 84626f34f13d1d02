use aquic::backend::token::padded::{
    drain_padding, extract_identity_plaintext_data, extract_retry_plaintext_data,
    write_identity_associated_data, write_padding, write_plaintext_data,
    write_retry_associated_data,
};
use aquic::backend::token::reset::compose_stateless_reset;
use aquic::backend::token::{
    write_stateless_reset_packet, PaddedTokenGenerator, TokenAead, TokenHmac,
};
use aquic::backend::{Token, TokenError, TokenGenerator, TokenKind};
use aquic::net::IpAddr;
use aquic::time::SystemTime;

const PEER: IpAddr = IpAddr::V4(0x0a00_0001);
const OTHER: IpAddr = IpAddr::V4(0x0a00_0002);

fn millis(n: i128) -> SystemTime {
    SystemTime { nanos: n * 1_000_000 }
}

/// A toy algorithm: the data is masked, and a sum of everything stands behind it.
struct Masking;

fn sum(associated_data: &[u8], data: &[u8]) -> u32 {
    let mut sum: u32 = 17;
    for byte in associated_data.iter().chain([0xee].iter()).chain(data.iter()) {
        sum = sum.wrapping_mul(31).wrapping_add(*byte as u32);
    }
    sum
}

impl TokenAead for Masking {
    fn encrypt_and_pack(&mut self, associated_data: &[u8], plaintext: &mut Vec<u8>) {
        let tag = sum(associated_data, plaintext);
        for byte in plaintext.iter_mut() {
            *byte ^= 0x5a;
        }
        plaintext.extend_from_slice(&tag.to_be_bytes());
    }

    fn unpack_and_decrypt(&mut self, associated_data: &[u8], packed: &mut Vec<u8>) -> bool {
        if packed.len() < 4 {
            return false;
        }
        let tag = packed.split_off(packed.len() - 4);
        for byte in packed.iter_mut() {
            *byte ^= 0x5a;
        }
        tag == sum(associated_data, packed).to_be_bytes()
    }
}

impl TokenHmac for Masking {
    fn compute(&mut self, data: &[u8]) -> [u8; 16] {
        let mut out = [0; 16];
        out[..4].copy_from_slice(&sum(&[1], data).to_be_bytes());
        out
    }

    fn verify(&mut self, data: &[u8], hash: &[u8; 16]) -> bool {
        self.compute(data) == *hash
    }
}

fn generator() -> PaddedTokenGenerator<Masking, Masking> {
    PaddedTokenGenerator::new(Masking, Masking)
}

#[test]
fn retry_token_is_verified() {
    let mut generator = generator();
    let token =
        generator.generate_retry_token(PEER, b"scid", b"dcid", b"new", millis(5000)).unwrap().to_vec();
    match generator.verify_token(PEER, b"scid", b"new", &token, millis(5000)) {
        Ok(Token::Retry { peer_original_dcid, expires_at }) => {
            assert_eq!(peer_original_dcid.as_slice(), b"dcid");
            assert_eq!(expires_at, millis(5000));
        }
        _ => panic!("no retry token"),
    }
    assert_eq!(
        generator.verify_token(PEER, b"scid", b"new", &token, millis(5001)),
        Err(TokenError::Expired(TokenKind::Retry, millis(5000)))
    );
}

#[test]
fn retry_token_of_another_peer_is_refused() {
    let mut generator = generator();
    let token =
        generator.generate_retry_token(PEER, b"scid", b"dcid", b"new", millis(50)).unwrap().to_vec();
    let invalid = Err(TokenError::Invalid);
    assert_eq!(generator.verify_token(OTHER, b"scid", b"new", &token, millis(1)), invalid);
    assert_eq!(generator.verify_token(PEER, b"sci", b"dnew", &token, millis(1)), invalid);
    assert_eq!(generator.verify_token(PEER, b"scid", b"dcid", &token, millis(1)), invalid);
    assert_eq!(generator.verify_token(PEER, b"scid", b"new", &[], millis(1)), invalid);
    assert_eq!(generator.verify_token(PEER, &[0; 21], b"new", &token, millis(1)), invalid);
    assert_eq!(generator.verify_token(PEER, b"scid", &[0; 21], &token, millis(1)), invalid);
}

#[test]
fn identity_token_is_verified() {
    let mut generator = generator();
    let token = generator.generate_identity_token(PEER, millis(700)).to_vec();
    for (scid, dcid) in [(b"a", b"b"), (b"c", b"d")] {
        assert_eq!(
            generator.verify_token(PEER, scid, dcid, &token, millis(700)),
            Ok(Token::Identity { expires_at: millis(700) })
        );
    }
    assert_eq!(
        generator.verify_token(PEER, b"a", b"b", &token, millis(701)),
        Err(TokenError::Expired(TokenKind::Identity, millis(700)))
    );
    assert_eq!(
        generator.verify_token(OTHER, b"a", b"b", &token, millis(1)),
        Err(TokenError::Invalid)
    );
}

#[test]
fn all_tokens_have_one_length() {
    let mut generator = generator();
    let empty = generator.generate_retry_token(PEER, &[], &[], &[], millis(1)).unwrap().len();
    let full = generator
        .generate_retry_token(PEER, &[1; 20], &[2; 20], &[3; 20], millis(1))
        .unwrap()
        .len();
    let identity = generator.generate_identity_token(PEER, millis(1)).len();
    assert_eq!((empty, full, identity), (29 + 4, 29 + 4, 29 + 4));
}

#[test]
fn padding_is_random() {
    let mut generator = generator();
    let a = generator.generate_identity_token(PEER, millis(1)).to_vec();
    let b = generator.generate_identity_token(PEER, millis(1)).to_vec();
    assert_ne!(a, b);
}

#[test]
fn padding_is_drained() {
    for length in [0usize, 1, 2, 20, 254, 255] {
        let mut data = b"data".to_vec();
        write_padding(&vec![9; length], &mut data);
        assert_eq!(data.len(), 4 + length + 1);
        assert_eq!(data[data.len() - 1] as usize, length);
        assert!(drain_padding(&mut data).is_ok());
        assert_eq!(data, b"data");
    }
}

#[test]
fn absent_padding_is_not_drained() {
    assert!(drain_padding(&mut Vec::new()) == Err(TokenError::Invalid));
    assert!(drain_padding(&mut vec![1]) == Err(TokenError::Invalid));
    assert!(drain_padding(&mut vec![0, 0, 3]) == Err(TokenError::Invalid));
    assert!(drain_padding(&mut vec![0, 0, 2]) == Ok(()));
}

#[test]
fn retry_token_is_not_generated_for_long_connection_ids() {
    let mut generator = generator();
    assert!(generator.generate_retry_token(PEER, &[0; 21], &[], &[], millis(1)).is_none());
    assert!(generator.generate_retry_token(PEER, &[], &[0; 21], &[], millis(1)).is_none());
    assert!(generator.generate_retry_token(PEER, &[], &[], &[0; 21], millis(1)).is_none());
    assert!(generator.generate_retry_token(PEER, &[0; 20], &[0; 20], &[0; 20], millis(1)).is_some());
}

#[test]
fn reset_token_is_a_hash_of_the_connection_id() {
    let mut generator = generator();
    assert_eq!(generator.generate_reset_token(b"scid"), Masking.compute(b"scid"));
    assert_ne!(generator.generate_reset_token(b"scid"), generator.generate_reset_token(b"dics"));
}

#[test]
fn retry_associated_data_is_padded() {
    let mut out = vec![9];
    write_retry_associated_data(PEER, b"ab", b"xyz", &mut out);
    let mut expected = vec![0, 10, 0, 0, 1];
    expected.extend_from_slice(&[0; 12]);
    expected.push(12);
    expected.extend_from_slice(b"ab");
    expected.extend_from_slice(&[0; 18]);
    expected.push(18);
    expected.extend_from_slice(b"xyz");
    assert_eq!(out, expected);
}

#[test]
fn identity_associated_data_is_the_address() {
    let mut out = vec![9];
    write_identity_associated_data(PEER, &mut out);
    assert_eq!(out, vec![255, 10, 0, 0, 1]);
}

#[test]
fn associated_data_tells_peers_apart() {
    let (mut a, mut b) = (Vec::new(), Vec::new());
    write_retry_associated_data(PEER, b"", b"12345", &mut a);
    write_retry_associated_data(PEER, b"123", b"45", &mut b);
    assert_ne!(a, b);
    write_identity_associated_data(PEER, &mut b);
    assert_ne!(a[0], b[0]);
}

#[test]
fn plaintext_is_connection_id_padding_and_expiration() {
    let mut out = Vec::new();
    write_plaintext_data(b"ab", &[7, 7, 7], millis(0x0102), &mut out);
    assert_eq!(out, vec![b'a', b'b', 7, 7, 7, 3, 0, 0, 0, 0, 0, 0, 1, 2]);
}

#[test]
fn expiration_before_the_epoch_is_zero() {
    let mut out = Vec::new();
    write_plaintext_data(&[], &[], SystemTime { nanos: -1 }, &mut out);
    assert_eq!(out, vec![0; 9]);
    write_plaintext_data(&[], &[], SystemTime { nanos: i128::MAX }, &mut out);
    assert_eq!(out, vec![0; 9]);
}

#[test]
fn expiration_is_kept_in_whole_milliseconds() {
    let mut out = Vec::new();
    write_plaintext_data(&[], &[0; 20], SystemTime { nanos: 1_999_999 }, &mut out);
    assert_eq!(
        extract_identity_plaintext_data(out, SystemTime { nanos: 0 }),
        Ok(Token::Identity { expires_at: millis(1) })
    );
}

#[test]
fn malformed_plaintext_is_refused() {
    let now = SystemTime { nanos: 0 };
    assert!(extract_retry_plaintext_data(vec![0; 7], now) == Err(TokenError::Invalid));
    assert!(extract_retry_plaintext_data(vec![0; 8], now) == Err(TokenError::Invalid));
    assert!(extract_identity_plaintext_data(vec![0; 8], now) == Err(TokenError::Invalid));

    let mut too_much_padding = vec![1, 2, 3];
    too_much_padding.extend_from_slice(&[0; 8]);
    assert!(extract_retry_plaintext_data(too_much_padding, now) == Err(TokenError::Invalid));

    let mut long_id = Vec::new();
    write_plaintext_data(&[1; 21], &[], millis(1), &mut long_id);
    assert!(extract_retry_plaintext_data(long_id, now) == Err(TokenError::Invalid));

    let mut no_identity = Vec::new();
    write_plaintext_data(b"x", &[], millis(1), &mut no_identity);
    assert!(extract_identity_plaintext_data(no_identity, now) == Err(TokenError::Invalid));
}

#[test]
fn token_errors_describe_themselves() {
    assert_eq!(TokenError::Invalid.message(), "token is invalid");
    assert_eq!(
        TokenError::Expired(TokenKind::Retry, millis(42)).message(),
        "token retry token was expired at 42"
    );
    assert_eq!(
        TokenError::Expired(TokenKind::Identity, SystemTime { nanos: -5 }).message(),
        "token identity token was expired at 0"
    );
    assert_eq!(TokenKind::Retry.name(), "retry token");
    assert_eq!(Token::Identity { expires_at: millis(3) }.expires_at(), millis(3));
}

#[test]
fn stateless_reset_ends_with_its_token() {
    let token = [0xab; 16];
    for _ in 0..50 {
        let mut out = [0u8; 64];
        let length = write_stateless_reset_packet(60, 64, &token, &mut out).unwrap();
        assert!(length >= 21 && length < 60);
        assert_eq!(out[0] & 0b1100_0000, 0b0100_0000);
        assert_eq!(&out[length - 16..length], &token);
        assert_eq!(&out[length..], &[0u8; 64][length..]);
    }
}

#[test]
fn stateless_reset_is_smaller_than_its_trigger() {
    let mut out = [0u8; 64];
    assert_eq!(write_stateless_reset_packet(22, 64, &[1; 16], &mut out), Some(21));
    assert_eq!(write_stateless_reset_packet(21, 64, &[1; 16], &mut out), None);
    assert_eq!(write_stateless_reset_packet(0, 64, &[1; 16], &mut out), None);
    assert_eq!(write_stateless_reset_packet(64, 21, &[1; 16], &mut out), Some(21));
    assert_eq!(write_stateless_reset_packet(64, 20, &[1; 16], &mut out), None);
    assert_eq!(write_stateless_reset_packet(64, 5, &[1; 16], &mut out), None);
    assert_eq!(write_stateless_reset_packet(64, 64, &[1; 16], &mut [0u8; 20]), None);
}

#[test]
fn stateless_reset_is_composed() {
    let mut out = vec![7];
    compose_stateless_reset(0xff, &[1, 2, 3, 4], &[9; 16], &mut out);
    let mut expected = vec![7, 0b0111_1111, 1, 2, 3, 4];
    expected.extend_from_slice(&[9; 16]);
    assert_eq!(out, expected);
}

#[test]
fn reset_token_is_valid_for_its_connection_id() {
    let mut generator = generator();
    let token = generator.generate_reset_token(b"server");
    assert_eq!(generator.verify_reset_token(b"server", &token), Ok(()));
    assert_eq!(generator.verify_reset_token(b"other", &token), Err(TokenError::Invalid));
    assert_eq!(generator.verify_reset_token(b"server", &[0; 16]), Err(TokenError::Invalid));
}

use crate::util::{octets, random};
use vstd::prelude::*;

verus! {

/// Length of a Stateless Reset Token.
pub const RESET_TOKEN_LEN: usize = 16;

/// The least packet that may trigger a `Stateless Reset`, and the length of the least one.
pub const MIN_RESET_PACKET_LEN: usize = 21;

/// The length of a `Stateless Reset` is allowed: it looks like a short header packet,
/// is smaller than the packet that triggered it, and is not longer than a packet may be.
pub open spec fn reset_length_allowed(
    packet_len: nat,
    peer_packet_len: nat,
    max_packet_len: nat,
) -> bool {
    MIN_RESET_PACKET_LEN <= packet_len < peer_packet_len && packet_len <= max_packet_len
}

/// The greatest length that a `Stateless Reset` may have, if it may have any.
pub open spec fn max_reset_length(peer_packet_len: nat, max_packet_len: nat) -> int {
    if peer_packet_len - 1 < max_packet_len {
        peer_packet_len - 1
    } else {
        max_packet_len as int
    }
}

/// Two fixed bits in front of six unpredictable ones.
pub open spec fn reset_first_byte(random: u8) -> u8 {
    (random % 64 + 64) as u8
}

/// Bytes are a `Stateless Reset` with the token.
pub open spec fn is_reset_packet(packet: Seq<u8>, reset_token: Seq<u8>) -> bool {
    &&& packet.len() >= MIN_RESET_PACKET_LEN
    &&& 64 <= packet[0] < 128
    &&& packet.skip(packet.len() - RESET_TOKEN_LEN) == reset_token
}

/// Composes a `Stateless Reset` of unpredictable bytes and the token.
pub fn compose_stateless_reset(
    random_byte: u8,
    unpredictable: &[u8],
    reset_token: &[u8; 16],
    out: &mut Vec<u8>,
)
    ensures
        final(out)@ == old(out)@.push(reset_first_byte(random_byte)) + unpredictable@
            + reset_token@,
{
    assert(random_byte & 0b0011_1111 | 0b0100_0000 == random_byte % 64 + 64) by (bit_vector);
    out.push(random_byte & 0b0011_1111 | 0b0100_0000);
    out.extend_from_slice(unpredictable);
    out.extend_from_slice(reset_token.as_slice());
}

/// Creates a `Stateless Reset` packet.
///
/// Returns the length of the written packet in bytes, or `None` if the
/// triggering packet is too small or the output buffer is insufficient.
///
/// [RFC 9000](https://datatracker.ietf.org/doc/html/rfc9000#section-10.3).
pub fn write_stateless_reset_packet(
    peer_packet_len: usize,
    max_packet_len: usize,
    reset_token: &[u8; 16],
    out: &mut [u8],
) -> (r: Option<usize>)
    ensures
        final(out)@.len() == old(out)@.len(),
        r matches Some(length) ==> {
            &&& length <= old(out)@.len()
            &&& is_reset_packet(final(out)@.take(length as int), reset_token@)
            &&& reset_length_allowed(length as nat, peer_packet_len as nat, max_packet_len as nat)
            &&& final(out)@.skip(length as int) == old(out)@.skip(length as int)
        },
        r is None ==> final(out)@ == old(out)@,
        max_reset_length(peer_packet_len as nat, max_packet_len as nat) < MIN_RESET_PACKET_LEN
            ==> r is None,
        old(out)@.len() < MIN_RESET_PACKET_LEN ==> r is None,
        ({
            let max = max_reset_length(peer_packet_len as nat, max_packet_len as nat);
            MIN_RESET_PACKET_LEN <= max <= old(out)@.len() ==> r is Some
        }),
{
    // https://datatracker.ietf.org/doc/html/rfc9000#section-10.3-14
    if peer_packet_len < MIN_RESET_PACKET_LEN || max_packet_len < MIN_RESET_PACKET_LEN {
        return None;
    }
    // 1: Fixed Bits.
    // 16: Stateless Reset Token.
    // 1: https://datatracker.ietf.org/doc/html/rfc9000#section-10.3.3-2
    //    > An endpoint MUST ensure that every Stateless Reset that it sends is smaller than the packet that triggered it.
    let by_peer: usize = peer_packet_len - (1 + 16 + 1);
    let by_limit: usize = max_packet_len - (1 + 16);
    let max_unpredictable: usize = if by_peer < by_limit {
        by_peer
    } else {
        by_limit
    };
    if max_unpredictable < 4 {
        return None;
    }
    let unpredictable_length: usize = random::in_range(4, max_unpredictable);
    let length: usize = 1 + unpredictable_length + 16;
    if out.len() < length {
        return None;
    }
    let unpredictable: Vec<u8> = random::octets(unpredictable_length);
    let mut packet: Vec<u8> = Vec::new();
    compose_stateless_reset(random::byte(), unpredictable.as_slice(), reset_token, &mut packet);
    octets::copy_into_slice(out, 0, packet.as_slice());
    proof {
        assert(packet@.skip(packet@.len() - 16) =~= reset_token@);
        assert(out@.take(length as int) =~= packet@);
        assert(out@.skip(length as int) =~= old(out)@.skip(length as int));
    }
    Some(length)
}

/// A `Stateless Reset` is smaller than the packet that it answers and not longer than it may be.
/// Such a length exists if and only if the greatest one has at least twenty-one bytes.
pub proof fn law_reset_lengths(packet_len: nat, peer_packet_len: nat, max_packet_len: nat)
    ensures
        reset_length_allowed(packet_len, peer_packet_len, max_packet_len) <==> 21 <= packet_len
            && packet_len < peer_packet_len && packet_len <= max_packet_len,
        reset_length_allowed(packet_len, peer_packet_len, max_packet_len) ==> packet_len
            <= max_reset_length(peer_packet_len, max_packet_len),
        max_reset_length(peer_packet_len, max_packet_len) >= 21 ==> reset_length_allowed(
            max_reset_length(peer_packet_len, max_packet_len) as nat,
            peer_packet_len,
            max_packet_len,
        ),
        max_reset_length(peer_packet_len, max_packet_len) < 21 ==> !reset_length_allowed(
            packet_len,
            peer_packet_len,
            max_packet_len,
        ),
{
}

/// A `Stateless Reset` looks like a packet with a short header: its first two bits are fixed,
/// the other six of the first byte are as unpredictable as those that were given.
/// It ends with its token.
pub proof fn law_reset_looks_like_any_packet(
    random: u8,
    packet: Seq<u8>,
    reset_token: Seq<u8>,
)
    requires
        is_reset_packet(packet, reset_token),
    ensures
        reset_first_byte(random) >> 6 == 1,
        reset_first_byte(random) & 0x3f == random & 0x3f,
        packet.len() >= 21,
        packet[0] >> 6 == 1,
        packet.subrange(packet.len() - 16, packet.len() as int) == reset_token,
{
    let first = reset_first_byte(random);
    let byte = packet[0];
    assert(random & 0x3f == random % 64) by (bit_vector);
    assert(first >> 6 == 1 && first & 0x3f == first - 64) by (bit_vector)
        requires
            64 <= first < 128,
    ;
    assert(byte >> 6 == 1) by (bit_vector)
        requires
            64 <= byte < 128,
    ;
    assert(packet.subrange(packet.len() - 16, packet.len() as int) =~= packet.skip(
        packet.len() - 16,
    ));
}

} // verus!

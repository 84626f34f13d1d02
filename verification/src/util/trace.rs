//! Unique trace IDs of connections.

use crate::util::{octets, random, text};
use vstd::prelude::*;
use vstd::string::StringExecFns;

verus! {

/// A random trace ID, the sixteen octets of which are those of a random UUID.
#[derive(Debug, Clone, Copy, PartialEq, Eq, Structural)]
pub struct Trace {
    /// The number that the octets stand for.
    pub value: u128,
}

/// Random octets with the version and the variant of a random UUID in them.
pub open spec fn random_uuid(bytes: Seq<u8>) -> Seq<u8> {
    bytes.update(6, (bytes[6] % 16 + 0x40) as u8).update(8, (bytes[8] % 64 + 0x80) as u8)
}

/// `uuid::Builder::from_random_bytes`: the octets with the version (the upper half of octet 6)
/// and the variant (the upper two bits of octet 8) of a random UUID written into them.
#[verifier::external_body]
fn uuid_from_random_bytes(bytes: [u8; 16]) -> (r: [u8; 16])
    ensures
        r@ == random_uuid(bytes@),
{
    uuid::Builder::from_random_bytes(bytes).into_uuid().into_bytes()
}

/// The text of a UUID: its octets in hexadecimal, in five groups.
pub open spec fn uuid_text(octets: Seq<u8>) -> Seq<char> {
    text::hex(octets.subrange(0, 4)) + "-"@ + text::hex(octets.subrange(4, 6)) + "-"@ + text::hex(
        octets.subrange(6, 8),
    ) + "-"@ + text::hex(octets.subrange(8, 10)) + "-"@ + text::hex(octets.subrange(10, 16))
}

impl Trace {
    /// The trace of random octets.
    pub fn from_random_octets(bytes: [u8; 16]) -> (r: Trace)
        ensures
            r.value == octets::be_value(random_uuid(bytes@)),
    {
        let uuid: [u8; 16] = uuid_from_random_bytes(bytes);
        Trace { value: octets::read_be(uuid.as_slice()) }
    }

    /// Generates a random trace ID.
    pub fn random() -> (r: Trace)
        ensures
            exists|bytes: Seq<u8>|
                #![trigger random_uuid(bytes)]
                bytes.len() == 16 && r.value == octets::be_value(random_uuid(bytes)),
    {
        let mut bytes: [u8; 16] = [0u8; 16];
        random::fill_bytes(&mut bytes);
        Self::from_random_octets(bytes)
    }

    /// Returns the text of the trace ID.
    pub fn to_text(&self) -> (r: String)
        ensures
            r@ == uuid_text(octets::be_bytes(self.value as nat, 16)),
    {
        let mut bytes: Vec<u8> = Vec::new();
        octets::push_be(&mut bytes, self.value, 16);
        proof {
            octets::lemma_be_bytes_len(self.value as nat, 16);
            assert(bytes@ =~= octets::be_bytes(self.value as nat, 16));
        }
        let mut out = String::new();
        text::push_hex(&mut out, vstd::slice::slice_subrange(bytes.as_slice(), 0, 4));
        out.append("-");
        text::push_hex(&mut out, vstd::slice::slice_subrange(bytes.as_slice(), 4, 6));
        out.append("-");
        text::push_hex(&mut out, vstd::slice::slice_subrange(bytes.as_slice(), 6, 8));
        out.append("-");
        text::push_hex(&mut out, vstd::slice::slice_subrange(bytes.as_slice(), 8, 10));
        out.append("-");
        text::push_hex(&mut out, vstd::slice::slice_subrange(bytes.as_slice(), 10, 16));
        assert(out@ =~= uuid_text(bytes@));
        out
    }
}

/// A trace ID is a random UUID: all of its bits but those of the version and of the variant are
/// the random ones.
pub proof fn law_trace_is_a_random_uuid(bytes: Seq<u8>, i: int)
    requires
        bytes.len() == 16,
        0 <= i < 16,
    ensures
        random_uuid(bytes).len() == 16,
        i != 6 && i != 8 ==> random_uuid(bytes)[i] == bytes[i],
        random_uuid(bytes)[6] / 16 == 4,
        random_uuid(bytes)[6] % 16 == bytes[6] % 16,
        random_uuid(bytes)[8] / 64 == 2,
        random_uuid(bytes)[8] % 64 == bytes[8] % 64,
{
}

/// The text of a UUID has thirty-six characters: its digits, in five groups with hyphens
/// between them.
pub proof fn law_uuid_text_is_in_groups(octets: Seq<u8>)
    requires
        octets.len() == 16,
    ensures
        uuid_text(octets).len() == 36,
        uuid_text(octets)[8] == '-',
        uuid_text(octets)[13] == '-',
        uuid_text(octets)[18] == '-',
        uuid_text(octets)[23] == '-',
        uuid_text(octets).subrange(0, 8) == text::hex(octets.subrange(0, 4)),
        uuid_text(octets).subrange(9, 13) == text::hex(octets.subrange(4, 6)),
        uuid_text(octets).subrange(14, 18) == text::hex(octets.subrange(6, 8)),
        uuid_text(octets).subrange(19, 23) == text::hex(octets.subrange(8, 10)),
        uuid_text(octets).subrange(24, 36) == text::hex(octets.subrange(10, 16)),
{
    reveal_strlit("-");
    text::law_hex_digits(octets.subrange(0, 4), 0);
    text::law_hex_digits(octets.subrange(4, 6), 0);
    text::law_hex_digits(octets.subrange(6, 8), 0);
    text::law_hex_digits(octets.subrange(8, 10), 0);
    text::law_hex_digits(octets.subrange(10, 16), 0);
    let all = uuid_text(octets);
    assert(all.subrange(0, 8) =~= text::hex(octets.subrange(0, 4)));
    assert(all.subrange(9, 13) =~= text::hex(octets.subrange(4, 6)));
    assert(all.subrange(14, 18) =~= text::hex(octets.subrange(6, 8)));
    assert(all.subrange(19, 23) =~= text::hex(octets.subrange(8, 10)));
    assert(all.subrange(24, 36) =~= text::hex(octets.subrange(10, 16)));
}

} // verus!

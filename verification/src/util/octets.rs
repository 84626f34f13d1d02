//! Copying of bytes.

use vstd::prelude::*;

verus! {

/// `bytes` with `data` written over it from index `at` on.
pub open spec fn overwritten(bytes: Seq<u8>, at: int, data: Seq<u8>) -> Seq<u8> {
    Seq::new(
        bytes.len(),
        |i: int|
            if at <= i < at + data.len() {
                data[i - at]
            } else {
                bytes[i]
            },
    )
}

/// Writes `data` over `out` from index `at` on.
pub fn copy_into(out: &mut Vec<u8>, at: usize, data: &[u8])
    requires
        at + data@.len() <= old(out)@.len(),
    ensures
        final(out)@ == overwritten(old(out)@, at as int, data@),
{
    let mut i: usize = 0;
    while i < data.len()
        invariant
            0 <= i <= data@.len(),
            at + data@.len() <= out.len(),
            out@.len() == old(out)@.len(),
            out@ == overwritten(old(out)@, at as int, data@.take(i as int)),
        decreases data.len() - i,
    {
        out[at + i] = data[i];
        i += 1;
        assert(out@ =~= overwritten(old(out)@, at as int, data@.take(i as int)));
    }
    assert(data@.take(i as int) =~= data@);
}

/// Writes `data` over a slice from index `at` on.
pub fn copy_into_slice(out: &mut [u8], at: usize, data: &[u8])
    requires
        at + data@.len() <= old(out)@.len(),
    ensures
        final(out)@ == overwritten(old(out)@, at as int, data@),
{
    let mut i: usize = 0;
    while i < data.len()
        invariant
            0 <= i <= data@.len(),
            at + data@.len() <= out.len(),
            out@.len() == old(out)@.len(),
            out@ == overwritten(old(out)@, at as int, data@.take(i as int)),
        decreases data.len() - i,
    {
        out[at + i] = data[i];
        i += 1;
        assert(out@ =~= overwritten(old(out)@, at as int, data@.take(i as int)));
    }
    assert(data@.take(i as int) =~= data@);
}

/// The last `width` base-256 digits of `value`, the most significant one first.
pub open spec fn be_bytes(value: nat, width: nat) -> Seq<u8>
    decreases width,
{
    if width == 0 {
        Seq::empty()
    } else {
        be_bytes(value / 256, (width - 1) as nat).push((value % 256) as u8)
    }
}

/// The number that has `bytes` as its base-256 digits, the most significant one first.
pub open spec fn be_value(bytes: Seq<u8>) -> nat
    decreases bytes.len(),
{
    if bytes.len() == 0 {
        0
    } else {
        be_value(bytes.drop_last()) * 256 + bytes.last() as nat
    }
}

/// 256 to the power of `width`.
pub open spec fn pow256(width: nat) -> nat
    decreases width,
{
    if width == 0 {
        1
    } else {
        256 * pow256((width - 1) as nat)
    }
}

/// What the digits of a number stand for is the number again, if there are enough of them.
pub proof fn law_be_round_trip(value: nat, width: nat)
    requires
        value < pow256(width),
    ensures
        be_bytes(value, width).len() == width,
        be_value(be_bytes(value, width)) == value,
    decreases width,
{
    if width > 0 {
        law_be_round_trip(value / 256, (width - 1) as nat);
        assert(be_bytes(value, width).drop_last() =~= be_bytes(value / 256, (width - 1) as nat));
    }
}

pub proof fn lemma_be_bytes_len(value: nat, width: nat)
    ensures
        be_bytes(value, width).len() == width,
    decreases width,
{
    if width > 0 {
        lemma_be_bytes_len(value / 256, (width - 1) as nat);
    }
}

pub proof fn lemma_be_value_bound(bytes: Seq<u8>)
    ensures
        be_value(bytes) < pow256(bytes.len()),
    decreases bytes.len(),
{
    if bytes.len() > 0 {
        lemma_be_value_bound(bytes.drop_last());
    }
}

pub proof fn lemma_pow256_monotonic(a: nat, b: nat)
    requires
        a <= b,
    ensures
        0 < pow256(a) <= pow256(b),
    decreases b,
{
    if a < b {
        lemma_pow256_monotonic(a, (b - 1) as nat);
    } else if a > 0 {
        lemma_pow256_monotonic((a - 1) as nat, (a - 1) as nat);
    }
}

proof fn lemma_pow256_of_u128()
    ensures
        pow256(16) == 0x1_0000_0000_0000_0000_0000_0000_0000_0000,
        pow256(8) == 0x1_0000_0000_0000_0000,
        pow256(4) == 0x1_0000_0000,
        pow256(2) == 0x1_0000,
{
    reveal_with_fuel(pow256, 17);
}

/// Appends the last `width` base-256 digits of `value`, the most significant one first.
pub fn push_be(out: &mut Vec<u8>, value: u128, width: usize)
    ensures
        final(out)@ == old(out)@ + be_bytes(value as nat, width as nat),
    decreases width,
{
    if width > 0 {
        push_be(out, value / 256, width - 1);
        out.push((value % 256) as u8);
    }
    assert(out@ =~= old(out)@ + be_bytes(value as nat, width as nat));
}

/// Returns the number that has `bytes` as its base-256 digits, the most significant one first.
pub fn read_be(bytes: &[u8]) -> (r: u128)
    requires
        bytes@.len() <= 16,
    ensures
        r == be_value(bytes@),
{
    let mut value: u128 = 0;
    let mut i: usize = 0;
    assert(bytes@.take(0).len() == 0);
    while i < bytes.len()
        invariant
            i <= bytes@.len() <= 16,
            value == be_value(bytes@.take(i as int)),
        decreases bytes@.len() - i,
    {
        proof {
            let next = bytes@.take(i + 1);
            assert(next.drop_last() =~= bytes@.take(i as int));
            lemma_be_value_bound(next);
            lemma_pow256_monotonic(next.len(), 16);
            lemma_pow256_of_u128();
        }
        value = value * 256 + bytes[i] as u128;
        i = i + 1;
    }
    assert(bytes@.take(i as int) =~= bytes@);
    value
}

/// Numbers of up to eight digits fit into `u64`.
pub proof fn lemma_be_value_u64(bytes: Seq<u8>)
    requires
        bytes.len() <= 8,
    ensures
        be_value(bytes) <= u64::MAX,
{
    lemma_be_value_bound(bytes);
    lemma_pow256_monotonic(bytes.len(), 8);
    lemma_pow256_of_u128();
}

/// Numbers of up to four digits fit into `u32`.
pub proof fn lemma_be_value_u32(bytes: Seq<u8>)
    requires
        bytes.len() <= 4,
    ensures
        be_value(bytes) <= u32::MAX,
{
    lemma_be_value_bound(bytes);
    lemma_pow256_monotonic(bytes.len(), 4);
    lemma_pow256_of_u128();
}

/// A number is below 256 to the power of its width in bytes.
pub proof fn lemma_widths(a: u32, b: u64, c: u128)
    ensures
        a < pow256(4),
        b < pow256(8),
        c < pow256(16),
{
    lemma_pow256_of_u128();
}

/// Data that is written over bytes stands where it was written, and all other bytes stay.
pub proof fn law_overwritten_bytes(bytes: Seq<u8>, at: int, data: Seq<u8>)
    requires
        0 <= at,
        at + data.len() <= bytes.len(),
    ensures
        overwritten(bytes, at, data).len() == bytes.len(),
        overwritten(bytes, at, data).subrange(at, at + data.len()) == data,
        overwritten(bytes, at, data).take(at) == bytes.take(at),
        overwritten(bytes, at, data).skip(at + data.len()) == bytes.skip(at + data.len()),
{
    let after = overwritten(bytes, at, data);
    assert(after.subrange(at, at + data.len()) =~= data);
    assert(after.take(at) =~= bytes.take(at));
    assert(after.skip(at + data.len()) =~= bytes.skip(at + data.len()));
}

/// The most significant digit comes first: the digit at an index counts how often the power
/// of 256 goes into the number that has as many digits behind it.
pub proof fn law_most_significant_digit_comes_first(value: nat, width: nat, i: nat)
    requires
        i < width,
    ensures
        be_bytes(value, width).len() == width,
        be_bytes(value, width)[i as int] as nat == (value / pow256((width - 1 - i) as nat)) % 256,
    decreases width,
{
    lemma_be_bytes_len(value, width);
    lemma_be_bytes_len(value / 256, (width - 1) as nat);
    if i == width - 1 {
        assert(pow256(0) == 1);
        assert(value / 1 == value);
    } else {
        let rest = (width - 1) as nat;
        law_most_significant_digit_comes_first(value / 256, rest, i);
        let p = pow256((rest - 1 - i) as nat);
        lemma_pow256_positive((rest - 1 - i) as nat);
        assert(pow256((width - 1 - i) as nat) == 256 * p);
        vstd::arithmetic::div_mod::lemma_div_denominator(value as int, 256, p as int);
    }
}

proof fn lemma_pow256_positive(width: nat)
    ensures
        pow256(width) > 0,
    decreases width,
{
    if width > 0 {
        lemma_pow256_positive((width - 1) as nat);
    }
}

} // verus!

//! The 8-bit cyclic redundancy check used on the single-wire bus.
//!
//! The check is the Dallas/Maxim CRC-8: polynomial `0x31`, processed in
//! reflected (least-significant-bit-first) order with the bit-reversed
//! polynomial `0x8C`, and a zero initial value. A device appends the
//! checksum of a message to the message itself, so a receiver accepts a
//! transfer exactly when the checksum of the whole byte sequence, trailing
//! check byte included, comes out zero.
//!
//! Two facts proved here justify that acceptance rule: appending the
//! checksum always reduces the running value to zero
//! ([`lemma_crc8_round_trip`]), and flipping any single bit of an accepted
//! sequence makes the value nonzero ([`lemma_crc8_detects_single_bit_flip`]).

use vstd::prelude::*;

verus! {

/// One bit of the reflected CRC-8 update: shift right, and fold in the
/// reversed polynomial when the incoming bit differs from the bit shifted out.
pub open spec fn crc8_bit(crc: u8, bit: bool) -> u8 {
    if ((crc & 1) == 1) != bit {
        (crc >> 1) ^ 0x8c
    } else {
        (crc >> 1)
    }
}

/// One byte of the CRC-8 update: the eight bits of `byte`, least-significant
/// bit first.
pub open spec fn crc8_byte(crc: u8, byte: u8) -> u8 {
    let c0 = crc8_bit(crc, byte & 1 == 1);
    let c1 = crc8_bit(c0, (byte >> 1) & 1 == 1);
    let c2 = crc8_bit(c1, (byte >> 2) & 1 == 1);
    let c3 = crc8_bit(c2, (byte >> 3) & 1 == 1);
    let c4 = crc8_bit(c3, (byte >> 4) & 1 == 1);
    let c5 = crc8_bit(c4, (byte >> 5) & 1 == 1);
    let c6 = crc8_bit(c5, (byte >> 6) & 1 == 1);
    crc8_bit(c6, (byte >> 7) & 1 == 1)
}

/// The CRC-8 of a byte sequence, starting from the zero initial value.
pub open spec fn crc8(data: Seq<u8>) -> u8
    decreases data.len(),
{
    if data.len() == 0 {
        0
    } else {
        crc8_byte(crc8(data.drop_last()), data.last())
    }
}

/// One executable bit step, equal to the specification step.
fn crc8_step(crc: u8, bit: bool) -> (r: u8)
    ensures
        r == crc8_bit(crc, bit),
{
    let shifted = crc >> 1u8;
    if ((crc & 1) == 1) != bit {
        shifted ^ 0x8c
    } else {
        shifted
    }
}

/// Computes the CRC-8 of `data`.
pub fn compute_crc8(data: &[u8]) -> (r: u8)
    ensures
        r == crc8(data@),
{
    let mut crc: u8 = 0;
    let mut i: usize = 0;
    while i < data.len()
        invariant
            0 <= i <= data@.len(),
            crc == crc8(data@.take(i as int)),
        decreases data@.len() - i,
    {
        let byte = data[i];
        crc = crc8_step(crc, byte & 1 == 1);
        crc = crc8_step(crc, (byte >> 1u8) & 1 == 1);
        crc = crc8_step(crc, (byte >> 2u8) & 1 == 1);
        crc = crc8_step(crc, (byte >> 3u8) & 1 == 1);
        crc = crc8_step(crc, (byte >> 4u8) & 1 == 1);
        crc = crc8_step(crc, (byte >> 5u8) & 1 == 1);
        crc = crc8_step(crc, (byte >> 6u8) & 1 == 1);
        crc = crc8_step(crc, (byte >> 7u8) & 1 == 1);
        proof {
            assert(data@.take(i + 1).drop_last() =~= data@.take(i as int));
            assert(data@.take(i + 1).last() == data@[i as int]);
        }
        i = i + 1;
    }
    proof {
        assert(data@.take(data@.len() as int) =~= data@);
    }
    crc
}

/// Processing a byte equal to the running value clears the running value.
pub proof fn lemma_crc8_byte_self(c: u8)
    ensures
        crc8_byte(c, c) == 0,
{
    assert(crc8_byte(c, c) == 0) by (bit_vector);
}

/// The CRC-8 round trip: a message followed by its own checksum always
/// checks out as zero.
pub proof fn lemma_crc8_round_trip(data: Seq<u8>)
    ensures
        crc8(data.push(crc8(data))) == 0,
{
    let c = crc8(data);
    let whole = data.push(c);
    assert(whole.drop_last() =~= data);
    assert(whole.last() == c);
    lemma_crc8_byte_self(c);
}

/// The byte update distributes over exclusive-or in both arguments.
proof fn lemma_crc8_byte_linear(c1: u8, b1: u8, c2: u8, b2: u8)
    ensures
        crc8_byte(c1 ^ c2, b1 ^ b2) == crc8_byte(c1, b1) ^ crc8_byte(c2, b2),
{
    assert(crc8_byte(c1 ^ c2, b1 ^ b2) == crc8_byte(c1, b1) ^ crc8_byte(c2, b2)) by (bit_vector);
}

/// With a zero input byte the update never maps a nonzero value to zero.
proof fn lemma_crc8_byte_zero_keeps_nonzero(c: u8)
    requires
        c != 0,
    ensures
        crc8_byte(c, 0) != 0,
{
    assert(c != 0 ==> crc8_byte(c, 0) != 0) by (bit_vector);
}

/// The byte-wise exclusive-or of two equally long sequences.
pub open spec fn zip_xor(a: Seq<u8>, b: Seq<u8>) -> Seq<u8>
    recommends
        a.len() == b.len(),
{
    Seq::new(a.len(), |i: int| a[i] ^ b[i])
}

/// The CRC-8 is linear over exclusive-or of equally long sequences.
proof fn lemma_crc8_linear(a: Seq<u8>, b: Seq<u8>)
    requires
        a.len() == b.len(),
    ensures
        crc8(zip_xor(a, b)) == crc8(a) ^ crc8(b),
    decreases a.len(),
{
    if a.len() == 0 {
        assert(zip_xor(a, b) =~= Seq::<u8>::empty());
        assert(0u8 ^ 0u8 == 0u8) by (bit_vector);
    } else {
        lemma_crc8_linear(a.drop_last(), b.drop_last());
        assert(zip_xor(a, b).drop_last() =~= zip_xor(a.drop_last(), b.drop_last()));
        assert(zip_xor(a, b).last() == a.last() ^ b.last());
        lemma_crc8_byte_linear(crc8(a.drop_last()), a.last(), crc8(b.drop_last()), b.last());
    }
}

/// A sequence that is zero except for one set bit: bit `j` of byte `i`.
pub open spec fn single_bit_seq(len: int, i: int, j: u8) -> Seq<u8>
    recommends
        0 <= i < len,
        j < 8,
{
    Seq::new(len as nat, |k: int| if k == i { 1u8 << j } else { 0u8 })
}

/// The CRC-8 of the all-zero sequence is zero.
proof fn lemma_crc8_zeros(len: int)
    requires
        0 <= len,
    ensures
        crc8(Seq::new(len as nat, |k: int| 0u8)) == 0,
    decreases len,
{
    let zeros = Seq::new(len as nat, |k: int| 0u8);
    if len > 0 {
        lemma_crc8_zeros(len - 1);
        assert(zeros.drop_last() =~= Seq::new((len - 1) as nat, |k: int| 0u8));
        assert(crc8_byte(0, 0) == 0) by (bit_vector);
    }
}

/// The CRC-8 of a sequence with exactly one set bit is nonzero: the check
/// never accepts a lone flipped bit.
proof fn lemma_crc8_single_bit_nonzero(len: int, i: int, j: u8)
    requires
        0 <= i < len,
        j < 8,
    ensures
        crc8(single_bit_seq(len, i, j)) != 0,
    decreases len,
{
    let unit = single_bit_seq(len, i, j);
    if i == len - 1 {
        lemma_crc8_zeros(len - 1);
        assert(unit.drop_last() =~= Seq::new((len - 1) as nat, |k: int| 0u8));
        assert(unit.last() == 1u8 << j);
        assert(j < 8 ==> crc8_byte(0, 1u8 << j) != 0) by (bit_vector);
    } else {
        lemma_crc8_single_bit_nonzero(len - 1, i, j);
        assert(unit.drop_last() =~= single_bit_seq(len - 1, i, j));
        assert(unit.last() == 0u8);
        lemma_crc8_byte_zero_keeps_nonzero(crc8(unit.drop_last()));
    }
}

/// Single-bit error detection: if a byte sequence passes the check (its
/// CRC-8 is zero), then flipping any one bit of it makes the CRC-8 nonzero,
/// so the flipped sequence is rejected.
pub proof fn lemma_crc8_detects_single_bit_flip(data: Seq<u8>, i: int, j: u8)
    requires
        0 <= i < data.len(),
        j < 8,
        crc8(data) == 0,
    ensures
        crc8(data.update(i, data[i] ^ (1u8 << j))) != 0,
{
    let len = data.len() as int;
    let unit = single_bit_seq(len, i, j);
    let flipped = data.update(i, data[i] ^ (1u8 << j));
    assert(forall|x: u8| #[trigger] (x ^ 0u8) == x) by (bit_vector);
    assert(flipped =~= zip_xor(data, unit));
    lemma_crc8_linear(data, unit);
    lemma_crc8_single_bit_nonzero(len, i, j);
    assert(forall|y: u8| #[trigger] (0u8 ^ y) == y) by (bit_vector);
}

} // verus!

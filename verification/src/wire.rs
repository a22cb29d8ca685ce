//! Mathematical model of the frame wire format: the mod-256 payload
//! checksum and the serialized byte layout (delimiter, two length bytes,
//! payload, checksum byte).

use vstd::prelude::*;

verus! {

/// Byte that marks the start of every frame on the wire.
pub const FRAME_DELIMITER: u8 = 0x7E;

/// Sum of all bytes of `s`, as an unbounded integer.
pub open spec fn byte_sum(s: Seq<u8>) -> int
    decreases s.len(),
{
    if s.len() == 0 {
        0
    } else {
        byte_sum(s.drop_last()) + s.last()
    }
}

/// Sum of all bytes of `s`, reduced mod 256: the value of the running
/// 8-bit wrapping accumulator after folding in every byte of `s`.
pub open spec fn byte_sum_mod(s: Seq<u8>) -> u8 {
    (byte_sum(s) % 256) as u8
}

/// The frame checksum of a payload: `0xFF` minus the mod-256 byte sum.
pub open spec fn frame_checksum(s: Seq<u8>) -> u8 {
    (255 - byte_sum_mod(s)) as u8
}

/// High byte of the 16-bit big-endian length field.
pub open spec fn length_msb(len: nat) -> u8 {
    (len / 256) as u8
}

/// Low byte of the 16-bit big-endian length field.
pub open spec fn length_lsb(len: nat) -> u8 {
    (len % 256) as u8
}

/// The full wire image of a frame with the given payload: delimiter,
/// length (big-endian, two bytes), payload, checksum.
pub open spec fn serialized_bytes(payload: Seq<u8>) -> Seq<u8> {
    seq![FRAME_DELIMITER, length_msb(payload.len()), length_lsb(payload.len())] + payload
        + seq![frame_checksum(payload)]
}

/// A byte sum is never negative.
pub proof fn lemma_byte_sum_nonneg(s: Seq<u8>)
    ensures
        0 <= byte_sum(s),
    decreases s.len(),
{
    if s.len() > 0 {
        lemma_byte_sum_nonneg(s.drop_last());
    }
}

/// Appending a byte adds it to the byte sum.
pub proof fn lemma_byte_sum_push(s: Seq<u8>, b: u8)
    ensures
        byte_sum(s.push(b)) == byte_sum(s) + b,
{
    assert(s.push(b).drop_last() =~= s);
}

/// Folding one more byte into the running mod-256 accumulator matches the
/// mod-256 sum of the extended sequence.
pub proof fn lemma_byte_sum_mod_push(s: Seq<u8>, b: u8)
    ensures
        byte_sum_mod(s.push(b)) == ((byte_sum_mod(s) + b) % 256) as u8,
{
    lemma_byte_sum_push(s, b);
    lemma_byte_sum_nonneg(s);
    vstd::arithmetic::div_mod::lemma_add_mod_noop(byte_sum(s), b as int, 256);
    vstd::arithmetic::div_mod::lemma_small_mod(b as nat, 256);
    vstd::arithmetic::div_mod::lemma_mod_bound(byte_sum(s), 256);
    vstd::arithmetic::div_mod::lemma_mod_bound(byte_sum(s) + b, 256);
}

/// Replacing the byte at index `i` shifts the byte sum by the difference.
pub proof fn lemma_byte_sum_update(s: Seq<u8>, i: int, b: u8)
    requires
        0 <= i < s.len(),
    ensures
        byte_sum(s.update(i, b)) == byte_sum(s) - s[i] + b,
    decreases s.len(),
{
    let t = s.update(i, b);
    if i == s.len() - 1 {
        assert(t.drop_last() =~= s.drop_last());
    } else {
        assert(t.drop_last() =~= s.drop_last().update(i, b));
        lemma_byte_sum_update(s.drop_last(), i, b);
    }
}

/// Changing a single byte always changes the mod-256 byte sum: the
/// difference between old and new byte is nonzero and smaller than 256 in
/// magnitude, so it cannot vanish mod 256.
pub proof fn lemma_byte_sum_mod_update(s: Seq<u8>, i: int, b: u8)
    requires
        0 <= i < s.len(),
        b != s[i],
    ensures
        byte_sum_mod(s.update(i, b)) != byte_sum_mod(s),
{
    lemma_byte_sum_update(s, i, b);
    lemma_byte_sum_nonneg(s);
    let x = byte_sum(s);
    let d = b - s[i];
    vstd::arithmetic::div_mod::lemma_fundamental_div_mod(x, 256);
    vstd::arithmetic::div_mod::lemma_mod_bound(x, 256);
    let q = x / 256;
    let r = x % 256;
    if 0 < d {
        if r + d < 256 {
            vstd::arithmetic::div_mod::lemma_fundamental_div_mod_converse_mod(
                x + d, 256, q, r + d);
        } else {
            vstd::arithmetic::div_mod::lemma_fundamental_div_mod_converse_mod(
                x + d, 256, q + 1, r + d - 256);
        }
    } else {
        if 0 <= r + d {
            vstd::arithmetic::div_mod::lemma_fundamental_div_mod_converse_mod(
                x + d, 256, q, r + d);
        } else {
            vstd::arithmetic::div_mod::lemma_fundamental_div_mod_converse_mod(
                x + d, 256, q - 1, r + d + 256);
        }
    }
}

/// Two payloads whose mod-256 byte sums differ have different checksums.
pub proof fn lemma_checksum_injective_in_sum(s1: Seq<u8>, s2: Seq<u8>)
    requires
        byte_sum_mod(s1) != byte_sum_mod(s2),
    ensures
        frame_checksum(s1) != frame_checksum(s2),
{
}

} // verus!

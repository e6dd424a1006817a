//! The boot ROM's CRC-32.
//!
//! The register shifts left; every data byte is fed into it least
//! significant bit first, and the final register value is complemented and
//! bit-reversed. The polynomial and the initial value are parameters; the
//! boot header uses [`CRC_INIT`] and [`CRC_POLY`].

use vstd::prelude::*;

verus! {

/// Initial register value used for the boot header checksum.
pub const CRC_INIT: u32 = 0xFFFF_FFFF;

/// Generator polynomial used for the boot header checksum.
pub const CRC_POLY: u32 = 0x04C1_1DB7;

/// The 32-bit word `x` with its bits in opposite order: adjacent bits are
/// swapped, then bit pairs, then nibbles, then the four bytes.
pub open spec fn crc32_reverse_spec(x: u32) -> u32 {
    let a = ((x & 0x5555_5555u32) << 1u32) | ((x >> 1u32) & 0x5555_5555u32);
    let b = ((a & 0x3333_3333u32) << 2u32) | ((a >> 2u32) & 0x3333_3333u32);
    let c = ((b & 0x0F0F_0F0Fu32) << 4u32) | ((b >> 4u32) & 0x0F0F_0F0Fu32);
    (c << 24u32) | ((c & 0xFF00u32) << 8u32) | ((c >> 8u32) & 0xFF00u32) | (c >> 24u32)
}

/// Bit `k` of `byte`, counted from the least significant one.
pub open spec fn byte_bit(byte: u8, k: u32) -> bool {
    ((byte as u32) >> k) & 1u32 == 1u32
}

/// Whether the most significant bit of the register is set.
pub open spec fn top_bit(crc: u32) -> bool {
    crc & 0x8000_0000u32 != 0u32
}

/// The register after one input bit: it moves left by one place, and the
/// polynomial `sv` is folded in when the bit that left differs from `bit`.
pub open spec fn crc32_shift_spec(crc: u32, sv: u32, bit: bool) -> u32 {
    if top_bit(crc) != bit {
        (crc << 1u32) ^ sv
    } else {
        crc << 1u32
    }
}

/// The register after the `n` lowest bits of `byte`, lowest first.
pub open spec fn crc32_bits_spec(crc: u32, sv: u32, byte: u8, n: u32) -> u32
    decreases n,
{
    if n == 0 {
        crc
    } else {
        let k = (n - 1) as u32;
        crc32_shift_spec(crc32_bits_spec(crc, sv, byte, k), sv, byte_bit(byte, k))
    }
}

/// The register after one whole byte.
pub open spec fn crc32_byte_spec(crc: u32, sv: u32, byte: u8) -> u32 {
    crc32_bits_spec(crc, sv, byte, 8)
}

/// The register after all of `data`, starting from `iv`, with polynomial `sv`.
pub open spec fn crc32_spec(iv: u32, sv: u32, data: Seq<u8>) -> u32
    decreases data.len(),
{
    if data.len() == 0 {
        iv
    } else {
        crc32_byte_spec(crc32_spec(iv, sv, data.drop_last()), sv, data.last())
    }
}

/// The checksum that a final register value stands for: its complement,
/// bit-reversed.
pub open spec fn crc32_final_spec(crc: u32) -> u32 {
    crc32_reverse_spec(crc ^ 0xFFFF_FFFFu32)
}

/// The checksum stored in a boot header for the image `data`.
pub open spec fn image_checksum(data: Seq<u8>) -> u32 {
    crc32_final_spec(crc32_spec(CRC_INIT, CRC_POLY, data))
}

/// Reversing the bits twice gives the word back.
pub proof fn lemma_reverse_involution(x: u32)
    ensures
        crc32_reverse_spec(crc32_reverse_spec(x)) == x,
{
    assert(crc32_reverse_spec(crc32_reverse_spec(x)) == x) by (bit_vector);
}

/// Bit `i` of the reversed word is bit `31 - i` of the word.
pub proof fn lemma_reverse_mirrors_bits(x: u32, i: u32)
    requires
        i < 32,
    ensures
        (crc32_reverse_spec(x) >> i) & 1 == (x >> ((31 - i) as u32)) & 1,
{
    assert((crc32_reverse_spec(x) >> i) & 1 == (x >> ((31 - i) as u32)) & 1) by (bit_vector)
        requires
            i < 32,
    ;
}

/// A reversed byte, moved left by `k` places, carries bit `k` of the byte in
/// its most significant place. So testing the top bit of the register xor
/// that word compares the register's top bit with bit `k` of the byte.
pub proof fn lemma_reversed_byte_top_bit(crc: u32, byte: u8, k: u32)
    requires
        k < 8,
    ensures
        top_bit(crc ^ (crc32_reverse_spec(byte as u32) << k)) == (top_bit(crc) != byte_bit(
            byte,
            k,
        )),
{
    let b = byte as u32;
    assert(top_bit(crc ^ (crc32_reverse_spec(b) << k)) == (top_bit(crc) != (((b >> k) & 1u32)
        == 1u32))) by (bit_vector)
        requires
            k < 8,
            b < 256,
    ;
}

/// With no data the register keeps its initial value, and the checksum of
/// an empty image is zero.
pub proof fn lemma_checksum_empty(iv: u32, sv: u32)
    ensures
        crc32_spec(iv, sv, Seq::<u8>::empty()) == iv,
        crc32_final_spec(crc32_spec(0xFFFF_FFFF, sv, Seq::<u8>::empty())) == 0,
        image_checksum(Seq::<u8>::empty()) == 0,
{
    assert(crc32_reverse_spec(0xFFFF_FFFFu32 ^ 0xFFFF_FFFFu32) == 0u32) by (bit_vector);
}

/// The checksum can be computed in pieces: feeding `a` and then `b` leaves
/// the register as feeding `a + b` does.
pub proof fn lemma_crc32_concat(iv: u32, sv: u32, a: Seq<u8>, b: Seq<u8>)
    ensures
        crc32_spec(iv, sv, a + b) == crc32_spec(crc32_spec(iv, sv, a), sv, b),
    decreases b.len(),
{
    if b.len() == 0 {
        assert(a + b =~= a);
    } else {
        lemma_crc32_concat(iv, sv, a, b.drop_last());
        assert((a + b).drop_last() =~= a + b.drop_last());
        assert((a + b).last() == b.last());
    }
}

/// Reverses the order of the 32 bits of `x`.
pub fn crc32_reverse(x: u32) -> (r: u32)
    ensures
        r == crc32_reverse_spec(x),
{
    let a: u32 = ((x & 0x5555_5555) << 1) | ((x >> 1) & 0x5555_5555);
    let b: u32 = ((a & 0x3333_3333) << 2) | ((a >> 2) & 0x3333_3333);
    let c: u32 = ((b & 0x0F0F_0F0F) << 4) | ((b >> 4) & 0x0F0F_0F0F);
    (c << 24) | ((c & 0xFF00) << 8) | ((c >> 8) & 0xFF00) | (c >> 24)
}

/// Feeds one byte into the register.
fn crc32_byte(crc: u32, sv: u32, byte: u8) -> (r: u32)
    ensures
        r == crc32_byte_spec(crc, sv, byte),
{
    let reversed: u32 = crc32_reverse(byte as u32);
    let mut sum: u32 = reversed;
    let mut acc: u32 = crc;
    let mut x: u32 = 0;
    while x < 8
        invariant
            x <= 8,
            reversed == crc32_reverse_spec(byte as u32),
            x == 0 ==> sum == reversed,
            x > 0 ==> sum == reversed << ((x - 1) as u32),
            acc == crc32_bits_spec(crc, sv, byte, x),
        decreases 8 - x,
    {
        if x != 0 {
            assert((reversed << ((x - 1) as u32)) << 1u32 == reversed << x) by (bit_vector)
                requires
                    0 < x < 8,
            ;
            sum = sum << 1;
        } else {
            assert(reversed << 0u32 == reversed) by (bit_vector);
        }
        proof {
            lemma_reversed_byte_top_bit(acc, byte, x);
        }
        acc = if ((acc ^ sum) & 0x8000_0000) != 0 {
            (acc << 1) ^ sv
        } else {
            acc << 1
        };
        x = x + 1;
    }
    acc
}

/// Computes the CRC-32 register over `data`.
///
/// - `iv`: initial register value.
/// - `sv`: generator polynomial.
/// - `data`: the bytes to run through the register.
///
/// The result still has to go through [`crc32_final`].
pub fn crc32(iv: u32, sv: u32, data: &[u8]) -> (crc: u32)
    ensures
        crc == crc32_spec(iv, sv, data@),
{
    let mut crc: u32 = iv;
    let mut i: usize = 0;
    while i < data.len()
        invariant
            i <= data.len(),
            crc == crc32_spec(iv, sv, data@.take(i as int)),
        decreases data.len() - i,
    {
        proof {
            let next = data@.take(i + 1);
            assert(next.drop_last() =~= data@.take(i as int));
            assert(next.last() == data@[i as int]);
        }
        crc = crc32_byte(crc, sv, data[i]);
        i = i + 1;
    }
    proof {
        assert(data@.take(i as int) =~= data@);
    }
    crc
}

/// Turns the final register value into the checksum.
pub fn crc32_final(iv: u32) -> (r: u32)
    ensures
        r == crc32_final_spec(iv),
{
    crc32_reverse(iv ^ 0xFFFF_FFFF)
}

} // verus!

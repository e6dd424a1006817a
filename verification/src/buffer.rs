//! Little-endian 32-bit words and runs of bytes at fixed places of a buffer.

use vstd::prelude::*;

verus! {

/// The four bytes that hold `x`, least significant byte first.
pub open spec fn le_bytes(x: u32) -> Seq<u8> {
    seq![
        (x as int % 256) as u8,
        (x as int / 256 % 256) as u8,
        (x as int / 65536 % 256) as u8,
        (x as int / 16777216 % 256) as u8,
    ]
}

/// The word whose little-endian bytes are the first four bytes of `b`.
pub open spec fn le_word(b: Seq<u8>) -> u32 {
    (b[0] as int + b[1] as int * 256 + b[2] as int * 65536 + b[3] as int * 16777216) as u32
}

/// Decoding the bytes of a word gives the word back.
pub proof fn lemma_le_word_of_bytes(x: u32)
    ensures
        le_bytes(x).len() == 4,
        le_word(le_bytes(x)) == x,
{
}

/// Encoding the word read from four bytes gives the same four bytes.
pub proof fn lemma_le_bytes_of_word(b: Seq<u8>)
    requires
        b.len() == 4,
    ensures
        le_bytes(le_word(b)) == b,
{
    let b0 = b[0] as int;
    let b1 = b[1] as int;
    let b2 = b[2] as int;
    let b3 = b[3] as int;
    let w = b0 + b1 * 256 + b2 * 65536 + b3 * 16777216;
    assert(w % 256 == b0 && w / 256 == b1 + b2 * 256 + b3 * 65536);
    assert(w / 256 % 256 == b1 && w / 65536 == b2 + b3 * 256);
    assert(w / 65536 % 256 == b2 && w / 16777216 == b3);
    assert(le_word(b) == w);
    assert(le_bytes(le_word(b)) =~= b);
}

/// The word stored little-endian at `at`.
pub(crate) fn read_word(bytes: &[u8], at: usize) -> (x: u32)
    requires
        at + 4 <= bytes@.len(),
    ensures
        x == le_word(bytes@.subrange(at as int, at + 4)),
{
    let b0: u32 = bytes[at] as u32;
    let b1: u32 = bytes[at + 1] as u32;
    let b2: u32 = bytes[at + 2] as u32;
    let b3: u32 = bytes[at + 3] as u32;
    assert((b0 | (b1 << 8u32) | (b2 << 16u32) | (b3 << 24u32)) == b0 + b1 * 256 + b2 * 65536 + b3
        * 16777216) by (bit_vector)
        requires
            b0 < 256,
            b1 < 256,
            b2 < 256,
            b3 < 256,
    ;
    b0 | (b1 << 8) | (b2 << 16) | (b3 << 24)
}

/// Stores `x` little-endian at `at`, leaving every other byte as it was.
pub(crate) fn write_word<const N: usize>(buf: &mut [u8; N], at: usize, x: u32)
    requires
        at + 4 <= N,
    ensures
        final(buf)@ == old(buf)@.subrange(0, at as int) + le_bytes(x) + old(buf)@.subrange(
            at + 4,
            N as int,
        ),
{
    assert((x & 0xff) == x % 256 && ((x >> 8u32) & 0xff) == x / 256 % 256 && ((x >> 16u32) & 0xff)
        == x / 65536 % 256 && ((x >> 24u32) & 0xff) == x / 16777216 % 256) by (bit_vector);
    buf[at] = (x & 0xff) as u8;
    buf[at + 1] = ((x >> 8) & 0xff) as u8;
    buf[at + 2] = ((x >> 16) & 0xff) as u8;
    buf[at + 3] = ((x >> 24) & 0xff) as u8;
    assert(buf@ =~= old(buf)@.subrange(0, at as int) + le_bytes(x) + old(buf)@.subrange(
        at + 4,
        N as int,
    ));
}

/// Copies `src` into the buffer from `at` on, leaving every other byte as it
/// was.
pub(crate) fn write_bytes<const N: usize>(buf: &mut [u8; N], at: usize, src: &[u8])
    requires
        at + src@.len() <= N,
    ensures
        final(buf)@ == old(buf)@.subrange(0, at as int) + src@ + old(buf)@.subrange(
            at + src@.len(),
            N as int,
        ),
{
    let n = src.len();
    let mut i: usize = 0;
    while i < n
        invariant
            n == src@.len(),
            at + n <= N,
            i <= n,
            buf@.len() == N,
            forall|j: int| 0 <= j < at + i ==> buf@[j] == if j < at {
                old(buf)@[j]
            } else {
                src@[j - at]
            },
            forall|j: int| at + i <= j < N ==> buf@[j] == old(buf)@[j],
        decreases n - i,
    {
        buf[at + i] = src[i];
        i = i + 1;
    }
    assert(buf@ =~= old(buf)@.subrange(0, at as int) + src@ + old(buf)@.subrange(
        at + src@.len(),
        N as int,
    ));
}

/// The `M` bytes that start at `at`.
pub(crate) fn read_bytes<const M: usize>(bytes: &[u8], at: usize) -> (out: [u8; M])
    requires
        at + M <= bytes@.len(),
    ensures
        out@ == bytes@.subrange(at as int, at + M),
{
    let len = bytes.len();
    let mut out = [0u8; M];
    let mut i: usize = 0;
    while i < M
        invariant
            at + M <= len,
            len == bytes@.len(),
            i <= M,
            out@.len() == M,
            forall|j: int| 0 <= j < i ==> out@[j] == bytes@[at + j],
        decreases M - i,
    {
        out[i] = bytes[at + i];
        i = i + 1;
    }
    assert(out@ =~= bytes@.subrange(at as int, at + M));
    out
}

} // verus!

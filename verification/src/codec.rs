//! Fixed-offset little-endian reads and writes.

use vstd::prelude::*;
use crate::states::account::Pubkey;

verus! {

/// The two bytes of `x`, least significant first.
pub open spec fn u16_le_bytes(x: u16) -> Seq<u8> {
    seq![(x % 256) as u8, (x / 256) as u8]
}

/// The eight bytes of `x`, least significant first.
pub open spec fn u64_le_bytes(x: u64) -> Seq<u8> {
    seq![
        (x % 256) as u8,
        (x / 0x100 % 256) as u8,
        (x / 0x1_0000 % 256) as u8,
        (x / 0x100_0000 % 256) as u8,
        (x / 0x1_0000_0000 % 256) as u8,
        (x / 0x100_0000_0000 % 256) as u8,
        (x / 0x1_0000_0000_0000 % 256) as u8,
        (x / 0x100_0000_0000_0000) as u8,
    ]
}

/// The number whose little-endian bytes are the first two of `s`.
pub open spec fn le_u16(s: Seq<u8>) -> u16 {
    (s[0] + 0x100 * s[1]) as u16
}

/// The number whose little-endian bytes are the first eight of `s`.
pub open spec fn le_u64(s: Seq<u8>) -> u64 {
    (s[0] + 0x100 * s[1] + 0x1_0000 * s[2] + 0x100_0000 * s[3] + 0x1_0000_0000 * s[4]
        + 0x100_0000_0000 * s[5] + 0x1_0000_0000_0000 * s[6] + 0x100_0000_0000_0000 * s[7]) as u64
}

/// Reading back the bytes of a number gives the number.
pub proof fn lemma_le_u16_of_bytes(x: u16)
    ensures
        u16_le_bytes(x).len() == 2,
        le_u16(u16_le_bytes(x)) == x,
{
}

/// Writing out the number read from two bytes gives those bytes.
pub proof fn lemma_bytes_of_le_u16(s: Seq<u8>)
    requires
        s.len() == 2,
    ensures
        u16_le_bytes(le_u16(s)) == s,
{
    assert(u16_le_bytes(le_u16(s)) =~= s);
}

/// Each division by a power of 256 is the previous one divided by 256.
proof fn lemma_u64_digits(x: u64)
    ensures
        x / 0x1_0000 == x / 0x100 / 0x100,
        x / 0x100_0000 == x / 0x1_0000 / 0x100,
        x / 0x1_0000_0000 == x / 0x100_0000 / 0x100,
        x / 0x100_0000_0000 == x / 0x1_0000_0000 / 0x100,
        x / 0x1_0000_0000_0000 == x / 0x100_0000_0000 / 0x100,
        x / 0x100_0000_0000_0000 == x / 0x1_0000_0000_0000 / 0x100,
        x / 0x100_0000_0000_0000 < 0x100,
{
    assert(x / 0x1_0000 == x / 0x100 / 0x100) by (bit_vector);
    assert(x / 0x100_0000 == x / 0x1_0000 / 0x100) by (bit_vector);
    assert(x / 0x1_0000_0000 == x / 0x100_0000 / 0x100) by (bit_vector);
    assert(x / 0x100_0000_0000 == x / 0x1_0000_0000 / 0x100) by (bit_vector);
    assert(x / 0x1_0000_0000_0000 == x / 0x100_0000_0000 / 0x100) by (bit_vector);
    assert(x / 0x100_0000_0000_0000 == x / 0x1_0000_0000_0000 / 0x100) by (bit_vector);
    assert(x / 0x100_0000_0000_0000 < 0x100) by (bit_vector);
}

/// Reading back the bytes of a number gives the number.
pub proof fn lemma_le_u64_of_bytes(x: u64)
    ensures
        u64_le_bytes(x).len() == 8,
        le_u64(u64_le_bytes(x)) == x,
{
    lemma_u64_digits(x);
}

/// Writing out the number read from eight bytes gives those bytes.
pub proof fn lemma_bytes_of_le_u64(s: Seq<u8>)
    requires
        s.len() == 8,
    ensures
        u64_le_bytes(le_u64(s)) == s,
{
    let x = le_u64(s);
    lemma_u64_digits(x);
    let r7: int = s[7] as int;
    let r6: int = s[6] + 0x100 * r7;
    let r5: int = s[5] + 0x100 * r6;
    let r4: int = s[4] + 0x100 * r5;
    let r3: int = s[3] + 0x100 * r4;
    let r2: int = s[2] + 0x100 * r3;
    let r1: int = s[1] + 0x100 * r2;
    assert(x == s[0] + 0x100 * r1);
    assert(x / 0x100 == r1 && x % 256 == s[0]);
    assert(r1 / 0x100 == r2 && r1 % 256 == s[1]);
    assert(r2 / 0x100 == r3 && r2 % 256 == s[2]);
    assert(r3 / 0x100 == r4 && r3 % 256 == s[3]);
    assert(r4 / 0x100 == r5 && r4 % 256 == s[4]);
    assert(r5 / 0x100 == r6 && r5 % 256 == s[5]);
    assert(r6 / 0x100 == r7 && r6 % 256 == s[6]);
    assert(u64_le_bytes(x) =~= s);
}

/// `out` is `before` with `bytes` written over it from `offset` on.
pub open spec fn overwritten(before: Seq<u8>, offset: int, bytes: Seq<u8>, out: Seq<u8>) -> bool {
    &&& out.len() == before.len()
    &&& forall|i: int|
        0 <= i < out.len() ==> out[i] == if offset <= i < offset + bytes.len() {
            bytes[i - offset]
        } else {
            before[i]
        }
}

/// The `u16` stored little-endian at `offset`.
pub(crate) fn read_u16(data: &[u8], offset: usize) -> (x: u16)
    requires
        offset + 2 <= data.len(),
    ensures
        x == le_u16(data@.subrange(offset as int, offset + 2)),
{
    data[offset] as u16 + 0x100 * (data[offset + 1] as u16)
}

/// The `u64` stored little-endian at `offset`.
pub(crate) fn read_u64(data: &[u8], offset: usize) -> (x: u64)
    requires
        offset + 8 <= data.len(),
    ensures
        x == le_u64(data@.subrange(offset as int, offset + 8)),
{
    data[offset] as u64 + 0x100 * (data[offset + 1] as u64) + 0x1_0000 * (data[offset + 2] as u64)
        + 0x100_0000 * (data[offset + 3] as u64) + 0x1_0000_0000 * (data[offset + 4] as u64)
        + 0x100_0000_0000 * (data[offset + 5] as u64) + 0x1_0000_0000_0000 * (data[offset
        + 6] as u64) + 0x100_0000_0000_0000 * (data[offset + 7] as u64)
}

/// The address stored at `offset`.
pub(crate) fn read_pubkey(data: &[u8], offset: usize) -> (key: Pubkey)
    requires
        offset + 32 <= data.len(),
    ensures
        key@ == data@.subrange(offset as int, offset + 32),
{
    let mut key: Pubkey = [0u8; 32];
    let mut i: usize = 0;
    while i < 32
        invariant
            i <= 32,
            offset + 32 <= data.len(),
            forall|j: int| 0 <= j < i ==> key[j] == data[offset + j],
        decreases 32 - i,
    {
        key[i] = data[offset + i];
        i += 1;
    }
    assert(key@ =~= data@.subrange(offset as int, offset + 32));
    key
}

/// Copies `bytes` over `data` from `offset` on.
pub(crate) fn write_bytes(data: &mut [u8], offset: usize, bytes: &[u8])
    requires
        offset + bytes.len() <= old(data).len(),
    ensures
        overwritten(old(data)@, offset as int, bytes@, final(data)@),
{
    let mut i: usize = 0;
    while i < bytes.len()
        invariant
            i <= bytes.len(),
            offset + bytes.len() <= data.len(),
            overwritten(old(data)@, offset as int, bytes@.subrange(0, i as int), data@),
        decreases bytes.len() - i,
    {
        data[offset + i] = bytes[i];
        i += 1;
    }
    assert(bytes@.subrange(0, i as int) =~= bytes@);
}

/// Stores `x` little-endian at `offset`.
pub(crate) fn write_u16(data: &mut [u8], offset: usize, x: u16)
    requires
        offset + 2 <= old(data).len(),
    ensures
        overwritten(old(data)@, offset as int, u16_le_bytes(x), final(data)@),
{
    data[offset] = (x % 256) as u8;
    data[offset + 1] = (x / 256) as u8;
}

/// Stores `x` little-endian at `offset`.
pub(crate) fn write_u64(data: &mut [u8], offset: usize, x: u64)
    requires
        offset + 8 <= old(data).len(),
    ensures
        overwritten(old(data)@, offset as int, u64_le_bytes(x), final(data)@),
{
    data[offset] = (x % 256) as u8;
    data[offset + 1] = (x / 0x100 % 256) as u8;
    data[offset + 2] = (x / 0x1_0000 % 256) as u8;
    data[offset + 3] = (x / 0x100_0000 % 256) as u8;
    data[offset + 4] = (x / 0x1_0000_0000 % 256) as u8;
    data[offset + 5] = (x / 0x100_0000_0000 % 256) as u8;
    data[offset + 6] = (x / 0x1_0000_0000_0000 % 256) as u8;
    data[offset + 7] = (x / 0x100_0000_0000_0000) as u8;
}

} // verus!

//! Little-endian integers and byte-string helpers shared by the block
//! encodings.

use byteorder::ByteOrder;
use vstd::prelude::*;

verus! {

/// The two bytes of `n`, least significant first.
pub open spec fn u16_le(n: u16) -> Seq<u8> {
    seq![(n % 256) as u8, (n / 256) as u8]
}

/// The four bytes of `n`, least significant first.
pub open spec fn u32_le(n: u32) -> Seq<u8> {
    seq![
        (n % 256) as u8,
        ((n / 256) % 256) as u8,
        ((n / 65536) % 256) as u8,
        (n / 16777216) as u8,
    ]
}

/// The number whose little-endian bytes are the first four of `bytes`.
pub open spec fn u32_from_le(bytes: Seq<u8>) -> int {
    bytes[0] + 256 * bytes[1] + 65536 * bytes[2] + 16777216 * bytes[3]
}

/// `len` zero bytes.
pub open spec fn zeros(len: nat) -> Seq<u8> {
    Seq::new(len, |i: int| 0u8)
}

/// Whether every byte of `bytes` is zero.
pub open spec fn all_zero(bytes: Seq<u8>) -> bool {
    forall|i: int| 0 <= i < bytes.len() ==> bytes[i] == 0
}

/// Reading back the little-endian bytes of a number gives the number.
pub proof fn lemma_u32_from_le_of_le(n: u32)
    ensures
        u32_le(n).len() == 4,
        u32_from_le(u32_le(n)) == n,
{
    let q1 = n / 256;
    let q2 = n / 65536;
    let q3 = n / 16777216;
    assert(q2 == q1 / 256 && q3 == q2 / 256) by (bit_vector)
        requires
            q1 == n / 256,
            q2 == n / 65536,
            q3 == n / 16777216,
    ;
    assert(n == 256 * q1 + n % 256);
    assert(q1 == 256 * q2 + q1 % 256);
    assert(q2 == 256 * q3 + q2 % 256);
    assert(q3 < 256);
}

/// Writing the number that four bytes spell gives the same four bytes.
pub proof fn lemma_u32_le_of_from_le(bytes: Seq<u8>)
    requires
        bytes.len() == 4,
    ensures
        0 <= u32_from_le(bytes) <= u32::MAX,
        u32_le(u32_from_le(bytes) as u32) == bytes,
{
    let n = u32_from_le(bytes) as u32;
    let q1 = bytes[1] + 256 * bytes[2] + 65536 * bytes[3];
    let q2 = bytes[2] + 256 * bytes[3];
    assert(n == 256 * q1 + bytes[0]);
    assert(n / 256 == q1 && n % 256 == bytes[0]);
    assert(n == 65536 * q2 + (bytes[0] + 256 * bytes[1]));
    assert(n / 65536 == q2);
    assert(q1 == 256 * q2 + bytes[1]);
    assert(q1 % 256 == bytes[1]);
    assert(q2 % 256 == bytes[2]);
    assert(n == 16777216 * bytes[3] + (bytes[0] + 256 * bytes[1] + 65536 * bytes[2]));
    assert(n / 16777216 == bytes[3]);
    assert(u32_le(n) =~= bytes);
}

/// Calls `byteorder::LittleEndian::write_u16` on a two-byte buffer: the
/// buffer then holds the low byte of `n` followed by its high byte.
#[verifier::external_body]
fn write_u16_le(n: u16) -> (bytes: [u8; 2])
    ensures
        bytes@ == u16_le(n),
{
    let mut bytes = [0u8; 2];
    byteorder::LittleEndian::write_u16(&mut bytes, n);
    bytes
}

/// Calls `byteorder::LittleEndian::write_u32` on a four-byte buffer: the
/// buffer then holds the bytes of `n` from the least significant upwards.
#[verifier::external_body]
fn write_u32_le(n: u32) -> (bytes: [u8; 4])
    ensures
        bytes@ == u32_le(n),
{
    let mut bytes = [0u8; 4];
    byteorder::LittleEndian::write_u32(&mut bytes, n);
    bytes
}

/// Calls `byteorder::LittleEndian::read_u32` on a four-byte buffer: the
/// result is the number whose bytes, least significant first, the buffer
/// holds.
#[verifier::external_body]
fn read_u32_le(bytes: &[u8; 4]) -> (n: u32)
    ensures
        n == u32_from_le(bytes@),
{
    byteorder::LittleEndian::read_u32(bytes)
}

/// Appends every byte of `bytes` to `output`.
pub fn put_bytes(output: &mut Vec<u8>, bytes: &[u8])
    ensures
        final(output)@ == old(output)@ + bytes@,
{
    let mut i: usize = 0;
    while i < bytes.len()
        invariant
            i <= bytes.len(),
            output@ == old(output)@ + bytes@.subrange(0, i as int),
        decreases bytes.len() - i,
    {
        output.push(bytes[i]);
        i += 1;
    }
}

/// Appends `n` as two bytes, least significant first.
pub fn put_u16(output: &mut Vec<u8>, n: u16)
    ensures
        final(output)@ == old(output)@ + u16_le(n),
{
    let bytes = write_u16_le(n);
    put_bytes(output, &bytes);
}

/// Appends `n` as four bytes, least significant first.
pub fn put_u32(output: &mut Vec<u8>, n: u32)
    ensures
        final(output)@ == old(output)@ + u32_le(n),
{
    let bytes = write_u32_le(n);
    put_bytes(output, &bytes);
}

/// The number that four bytes spell, least significant first.
pub fn get_u32(bytes: &[u8; 4]) -> (n: u32)
    ensures
        n == u32_from_le(bytes@),
{
    read_u32_le(bytes)
}

/// Whether every byte of `bytes` is zero.
pub fn is_all_zero(bytes: &[u8]) -> (zero: bool)
    ensures
        zero == all_zero(bytes@),
{
    let mut i: usize = 0;
    while i < bytes.len()
        invariant
            i <= bytes.len(),
            forall|j: int| 0 <= j < i ==> bytes@[j] == 0,
        decreases bytes.len() - i,
    {
        if bytes[i] != 0 {
            return false;
        }
        i += 1;
    }
    true
}

} // verus!

//! Big-endian integers as they appear in tracker datagrams and peer frames.
//!
//! The spec functions here say what a run of bytes means as a number and which
//! bytes a number is written as. The executable functions hand the work to the
//! `byteorder` crate; their contracts are taken on trust from its documentation.

use byteorder::{BigEndian, ByteOrder};
use vstd::prelude::*;

verus! {

/// The number spelled by the first two bytes of `s`, most significant first.
pub open spec fn be16(s: Seq<u8>) -> int {
    s[0] as int * 0x100 + s[1] as int
}

/// The number spelled by the first four bytes of `s`, most significant first.
pub open spec fn be32(s: Seq<u8>) -> int {
    s[0] as int * 0x100_0000 + s[1] as int * 0x1_0000 + s[2] as int * 0x100 + s[3] as int
}

/// The number spelled by the first eight bytes of `s`, most significant first.
pub open spec fn be64(s: Seq<u8>) -> int {
    be32(s) * 0x1_0000_0000 + be32(s.skip(4))
}

/// The two bytes that spell `n`, for `0 <= n < 2^16`.
pub open spec fn bytes16(n: int) -> Seq<u8> {
    seq![(n / 0x100 % 0x100) as u8, (n % 0x100) as u8]
}

/// The four bytes that spell `n`, for `0 <= n < 2^32`.
pub open spec fn bytes32(n: int) -> Seq<u8> {
    seq![
        (n / 0x100_0000 % 0x100) as u8,
        (n / 0x1_0000 % 0x100) as u8,
        (n / 0x100 % 0x100) as u8,
        (n % 0x100) as u8,
    ]
}

/// The eight bytes that spell `n`, for `0 <= n < 2^64`.
pub open spec fn bytes64(n: int) -> Seq<u8> {
    bytes32(n / 0x1_0000_0000) + bytes32(n % 0x1_0000_0000)
}

/// The unsigned number with the same two's-complement bits as the signed `n`.
pub open spec fn unsigned(n: int, modulus: int) -> int {
    if n < 0 {
        n + modulus
    } else {
        n
    }
}

/// The signed number with the same two's-complement bits as the unsigned `n`.
pub open spec fn signed(n: int, modulus: int) -> int {
    if 2 * n >= modulus {
        n - modulus
    } else {
        n
    }
}

/// The number of values that 32 bits can hold.
pub open spec fn two_to_32() -> int {
    0x1_0000_0000
}

/// The number of values that 64 bits can hold.
pub open spec fn two_to_64() -> int {
    0x1_0000_0000_0000_0000
}

/// `BigEndian::read_u16`: the value of the first two bytes of `buf`, most
/// significant first. The outside function panics on a shorter slice.
#[verifier::external_body]
pub(crate) fn read_u16(buf: &[u8]) -> (n: u16)
    requires
        buf@.len() >= 2,
    ensures
        n as int == be16(buf@),
{
    BigEndian::read_u16(buf)
}

/// `BigEndian::read_u32`: the value of the first four bytes of `buf`, most
/// significant first. The outside function panics on a shorter slice.
#[verifier::external_body]
pub(crate) fn read_u32(buf: &[u8]) -> (n: u32)
    requires
        buf@.len() >= 4,
    ensures
        n as int == be32(buf@),
{
    BigEndian::read_u32(buf)
}

/// `BigEndian::read_i64`: the first eight bytes of `buf`, most significant
/// first, read as a two's-complement number. The outside function panics on a
/// shorter slice.
#[verifier::external_body]
pub(crate) fn read_i64(buf: &[u8]) -> (n: i64)
    requires
        buf@.len() >= 8,
    ensures
        n as int == signed(be64(buf@), two_to_64()),
{
    BigEndian::read_i64(buf)
}

/// `BigEndian::write_u16` into a fresh buffer of two bytes.
#[verifier::external_body]
pub(crate) fn write_u16(n: u16) -> (buf: Vec<u8>)
    ensures
        buf@ == bytes16(n as int),
{
    let mut buf = vec![0u8; 2];
    BigEndian::write_u16(&mut buf, n);
    buf
}

/// `BigEndian::write_u32` into a fresh buffer of four bytes.
#[verifier::external_body]
pub(crate) fn write_u32(n: u32) -> (buf: Vec<u8>)
    ensures
        buf@ == bytes32(n as int),
{
    let mut buf = vec![0u8; 4];
    BigEndian::write_u32(&mut buf, n);
    buf
}

/// `BigEndian::write_i32` into a fresh buffer of four bytes: the
/// two's-complement bits of `n`, most significant byte first.
#[verifier::external_body]
pub(crate) fn write_i32(n: i32) -> (buf: Vec<u8>)
    ensures
        buf@ == bytes32(unsigned(n as int, two_to_32())),
{
    let mut buf = vec![0u8; 4];
    BigEndian::write_i32(&mut buf, n);
    buf
}

/// `BigEndian::write_u64` into a fresh buffer of eight bytes.
#[verifier::external_body]
pub(crate) fn write_u64(n: u64) -> (buf: Vec<u8>)
    ensures
        buf@ == bytes64(n as int),
{
    let mut buf = vec![0u8; 8];
    BigEndian::write_u64(&mut buf, n);
    buf
}

/// `BigEndian::write_i64` into a fresh buffer of eight bytes: the
/// two's-complement bits of `n`, most significant byte first.
#[verifier::external_body]
pub(crate) fn write_i64(n: i64) -> (buf: Vec<u8>)
    ensures
        buf@ == bytes64(unsigned(n as int, two_to_64())),
{
    let mut buf = vec![0u8; 8];
    BigEndian::write_i64(&mut buf, n);
    buf
}

/// Whether two byte strings hold the same bytes.
pub fn same_bytes(a: &[u8], b: &[u8]) -> (same: bool)
    ensures
        same <==> a@ == b@,
{
    if a.len() != b.len() {
        return false;
    }
    let mut i: usize = 0;
    while i < a.len()
        invariant
            a@.len() == b@.len(),
            i <= a@.len(),
            a@.take(i as int) == b@.take(i as int),
        decreases a@.len() - i,
    {
        if a[i] != b[i] {
            return false;
        }
        i += 1;
    }
    assert(a@ =~= a@.take(i as int));
    assert(b@ =~= b@.take(i as int));
    true
}

/// Appends a copy of `bytes` to `out`.
pub fn append_bytes(out: &mut Vec<u8>, bytes: &[u8])
    ensures
        final(out)@ == old(out)@ + bytes@,
{
    let mut i: usize = 0;
    while i < bytes.len()
        invariant
            i <= bytes@.len(),
            out@ == old(out)@ + bytes@.take(i as int),
        decreases bytes@.len() - i,
    {
        out.push(bytes[i]);
        i += 1;
    }
}

/// A fresh copy of `bytes`.
pub fn copy_bytes(bytes: &[u8]) -> (copy: Vec<u8>)
    ensures
        copy@ == bytes@,
{
    let mut copy: Vec<u8> = Vec::new();
    append_bytes(&mut copy, bytes);
    copy
}

} // verus!

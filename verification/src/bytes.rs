//! Numbers as big-endian bytes.

use byteorder::{BigEndian, ByteOrder};
use vstd::prelude::*;

verus! {

/// The number that `bytes` spell, most significant byte first.
pub open spec fn be_value(bytes: Seq<u8>) -> nat
    decreases bytes.len(),
{
    if bytes.len() == 0 {
        0
    } else {
        be_value(bytes.drop_last()) * 256 + bytes.last() as nat
    }
}

/// The `len` low-order bytes of `n`, most significant first.
pub open spec fn be_bytes(n: nat, len: nat) -> Seq<u8>
    decreases len,
{
    if len == 0 {
        Seq::empty()
    } else {
        be_bytes(n / 256, (len - 1) as nat).push((n % 256) as u8)
    }
}

/// The bytes of a number spell the number, if `len` bytes hold it.
pub proof fn lemma_be_value_of_bytes(n: nat, len: nat)
    ensures
        be_bytes(n, len).len() == len,
        len == 4 && n < 0x1_0000_0000 ==> be_value(be_bytes(n, len)) == n,
        len == 8 && n < 0x1_0000_0000_0000_0000 ==> be_value(be_bytes(n, len)) == n,
    decreases len,
{
    lemma_be_bytes_len(n, len);
    assert(radix(4) == 0x1_0000_0000 && radix(8) == 0x1_0000_0000_0000_0000) by {
        reveal_with_fuel(radix, 9);
    }
    if len == 4 && n < 0x1_0000_0000 {
        lemma_be_value_step(n, 4, 0x1_0000_0000);
    }
    if len == 8 && n < 0x1_0000_0000_0000_0000 {
        lemma_be_value_step(n, 8, 0x1_0000_0000_0000_0000);
    }
}

proof fn lemma_be_bytes_len(n: nat, len: nat)
    ensures
        be_bytes(n, len).len() == len,
    decreases len,
{
    if len > 0 {
        lemma_be_bytes_len(n / 256, (len - 1) as nat);
    }
}

/// `256^len`.
pub open spec fn radix(len: nat) -> nat
    decreases len,
{
    if len == 0 {
        1
    } else {
        256 * radix((len - 1) as nat)
    }
}

proof fn lemma_be_value_step(n: nat, len: nat, limit: nat)
    requires
        limit == radix(len),
        n < limit,
    ensures
        be_value(be_bytes(n, len)) == n,
    decreases len,
{
    if len > 0 {
        let rest = be_bytes(n / 256, (len - 1) as nat);
        lemma_be_value_step(n / 256, (len - 1) as nat, radix((len - 1) as nat));
        assert(be_bytes(n, len).drop_last() =~= rest);
    }
}

/// `BigEndian::read_u16` of byteorder: the number that the first two bytes
/// of `buf` spell, most significant first.
#[verifier::external_body]
pub(crate) fn read_u16_be(buf: &[u8]) -> (v: u16)
    requires
        buf@.len() >= 2,
    ensures
        v == be_value(buf@.subrange(0, 2)),
{
    BigEndian::read_u16(buf)
}

/// `BigEndian::read_u32` of byteorder: the number that the first four bytes
/// of `buf` spell, most significant first.
#[verifier::external_body]
pub(crate) fn read_u32_be(buf: &[u8]) -> (v: u32)
    requires
        buf@.len() >= 4,
    ensures
        v == be_value(buf@.subrange(0, 4)),
{
    BigEndian::read_u32(buf)
}

/// `BigEndian::read_u64` of byteorder: the number that the first eight bytes
/// of `buf` spell, most significant first.
#[verifier::external_body]
pub(crate) fn read_u64_be(buf: &[u8]) -> (v: u64)
    requires
        buf@.len() >= 8,
    ensures
        v == be_value(buf@.subrange(0, 8)),
{
    BigEndian::read_u64(buf)
}

/// `BigEndian::write_u32` of byteorder: the four bytes of `n`, most
/// significant first.
#[verifier::external_body]
pub(crate) fn u32_be_bytes(n: u32) -> (bytes: [u8; 4])
    ensures
        bytes@ == be_bytes(n as nat, 4),
{
    let mut bytes = [0u8; 4];
    BigEndian::write_u32(&mut bytes, n);
    bytes
}

/// `BigEndian::write_u64` of byteorder: the eight bytes of `n`, most
/// significant first.
#[verifier::external_body]
pub(crate) fn u64_be_bytes(n: u64) -> (bytes: [u8; 8])
    ensures
        bytes@ == be_bytes(n as nat, 8),
{
    let mut bytes = [0u8; 8];
    BigEndian::write_u64(&mut bytes, n);
    bytes
}

/// A big-endian number of `n` bytes is below `256^n`.
pub proof fn lemma_be_value_bound(bytes: Seq<u8>)
    ensures
        bytes.len() == 1 ==> be_value(bytes) < 0x100,
        bytes.len() == 2 ==> be_value(bytes) < 0x1_0000,
        bytes.len() == 4 ==> be_value(bytes) < 0x1_0000_0000,
{
    reveal_with_fuel(be_value, 5);
}

} // verus!

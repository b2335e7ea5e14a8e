//! How the key of a page is derived.
//!
//! The index of the page is added to the address of the account, read as a
//! little-endian number, and the sum, one byte longer than the address to
//! hold the carry, is hashed.

use crate::types::{Address, ADDRESS_LEN};
use std::marker::PhantomData;
use tiny_keccak::{Hasher, Keccak};
use vstd::prelude::*;

verus! {

/// The Keccak-256 digest of `data`: 32 bytes.
pub uninterp spec fn keccak256(data: Seq<u8>) -> Seq<u8>;

/// `Keccak::v256`, `Hasher::update` and `Hasher::finalize` of tiny-keccak,
/// run once each: the Keccak-256 digest of `data`.
#[verifier::external_body]
fn keccak256_digest(data: &[u8]) -> (out: [u8; 32])
    ensures
        out@ == keccak256(data@),
{
    let mut hasher = Keccak::v256();
    let mut out = [0u8; 32];
    hasher.update(data);
    hasher.finalize(&mut out);
    out
}

/// A hash function from bytes to 32 bytes.
pub trait KeyHasher {
    /// The digest of `key`.
    spec fn digest(key: Seq<u8>) -> Seq<u8>;

    fn hash(key: &[u8]) -> (out: [u8; 32])
        ensures
            out@ == Self::digest(key@),
    ;
}

/// The default hash function: Keccak-256.
pub struct DefaultKeyHasher;

impl KeyHasher for DefaultKeyHasher {
    open spec fn digest(key: Seq<u8>) -> Seq<u8> {
        keccak256(key)
    }

    fn hash(key: &[u8]) -> (out: [u8; 32]) {
        keccak256_digest(key)
    }
}

/// The sum of the little-endian number `a` and `b`, as little-endian bytes,
/// one more than `a` has: each byte takes what is left of `b`, keeps the low
/// eight bits of the sum and hands the rest on.
pub open spec fn add_le(a: Seq<u8>, b: nat) -> Seq<u8>
    decreases a.len(),
{
    if a.len() == 0 {
        seq![(b % 256) as u8]
    } else {
        let sum = a[0] as nat + b;
        seq![(sum % 256) as u8] + add_le(a.drop_first(), sum / 256)
    }
}

/// What is hashed for the page `page` of the account `address`.
pub open spec fn page_addr(address: Seq<u8>, page: u32) -> Seq<u8> {
    add_le(address, page as nat)
}

/// Whether, after `len` bytes, nothing is left of an addend of at most
/// `bound` but what fits the last byte.
pub open spec fn carry_fits(len: nat, bound: nat) -> bool
    decreases len,
{
    if len == 0 {
        bound < 256
    } else {
        carry_fits((len - 1) as nat, (255 + bound) / 256)
    }
}

proof fn lemma_add_le_injective(a: Seq<u8>, b1: nat, b2: nat, bound: nat)
    requires
        b1 <= bound,
        b2 <= bound,
        carry_fits(a.len(), bound),
        add_le(a, b1) == add_le(a, b2),
    ensures
        b1 == b2,
    decreases a.len(),
{
    let x = add_le(a, b1);
    let y = add_le(a, b2);
    if a.len() == 0 {
        assert(x[0] == y[0]);
        assert(x[0] == (b1 % 256) as u8 && y[0] == (b2 % 256) as u8);
    } else {
        let s1 = a[0] as nat + b1;
        let s2 = a[0] as nat + b2;
        let t1 = add_le(a.drop_first(), s1 / 256);
        let t2 = add_le(a.drop_first(), s2 / 256);
        assert(x[0] == y[0]);
        assert(x.drop_first() =~= t1);
        assert(y.drop_first() =~= t2);
        lemma_add_le_injective(a.drop_first(), s1 / 256, s2 / 256, (255 + bound) / 256);
        assert(x[0] == (s1 % 256) as u8 && y[0] == (s2 % 256) as u8);
        assert(s1 % 256 == s2 % 256);
        assert(s1 == 256 * (s1 / 256) + s1 % 256);
        assert(s2 == 256 * (s2 / 256) + s2 % 256);
    }
}

/// The same account and page give the same bytes to hash, and two pages of
/// one account give different ones.
pub proof fn lemma_page_addr_distinct(address: Seq<u8>, page1: u32, page2: u32)
    requires
        address.len() == ADDRESS_LEN,
    ensures
        page_addr(address, page1) == page_addr(address, page2) <==> page1 == page2,
{
    if page_addr(address, page1) == page_addr(address, page2) {
        assert(carry_fits(20, 0xFFFF_FFFF)) by {
            reveal_with_fuel(carry_fits, 21);
        }
        lemma_add_le_injective(address, page1 as nat, page2 as nat, 0xFFFF_FFFF);
    }
}

/// Adds the index of a page to an address.
pub fn add_page(address: &Address, page: u32) -> (out: [u8; 21])
    ensures
        out@ == page_addr(address@, page),
{
    let bytes = address.as_slice();
    let mut out = [0u8; 21];
    let mut rest: u64 = page as u64;
    let mut i: usize = 0;
    assert(bytes@.skip(0) =~= bytes@);
    while i < 20
        invariant
            i <= 20,
            bytes@.len() == 20,
            bytes@ == address@,
            rest <= 0xFFFF_FFFF,
            page_addr(address@, page) =~= out@.subrange(0, i as int) + add_le(
                bytes@.skip(i as int),
                rest as nat,
            ),
        decreases 20 - i,
    {
        let sum = bytes[i] as u64 + rest;
        let ghost tail = bytes@.skip(i as int);
        let ghost before = out@;
        out[i] = (sum % 256) as u8;
        rest = sum / 256;
        proof {
            assert(tail[0] == bytes@[i as int]);
            assert(tail.drop_first() =~= bytes@.skip(i + 1));
            assert(out@.subrange(0, i + 1) =~= before.subrange(0, i as int) + seq![
                (sum % 256) as u8,
            ]);
        }
        i += 1;
    }
    let ghost before = out@;
    out[20] = (rest % 256) as u8;
    assert(out@ =~= before.subrange(0, 20) + seq![(rest % 256) as u8]);
    out
}

/// Derives the key of a page from the address of its account and its index.
pub trait PageHasher {
    /// The key of the page `page` of the account `address`.
    spec fn page_key(address: Seq<u8>, page: u32) -> Seq<u8>;

    fn hash(address: Address, page: u32) -> (key: [u8; 32])
        ensures
            key@ == Self::page_key(address@, page),
    ;
}

/// The page hasher that hashes the sum of address and index with `H`.
pub struct PageHasherImpl<H> {
    hash_mark: PhantomData<H>,
}

impl<H: KeyHasher> PageHasher for PageHasherImpl<H> {
    open spec fn page_key(address: Seq<u8>, page: u32) -> Seq<u8> {
        H::digest(page_addr(address, page))
    }

    fn hash(address: Address, page: u32) -> (key: [u8; 32]) {
        // `page_addr` has 21 and not 20 bytes due to possible addition carry
        let page_addr: [u8; 21] = add_page(&address, page);

        H::hash(page_addr.as_slice())
    }
}

/// The default page hasher.
pub type DefaultPageHasher = PageHasherImpl<DefaultKeyHasher>;

/// The key of a page depends on nothing but the account and the index: equal
/// accounts and indices give equal keys.
pub proof fn lemma_page_key_deterministic<P: PageHasher>(
    address1: Seq<u8>,
    page1: u32,
    address2: Seq<u8>,
    page2: u32,
)
    requires
        address1 == address2,
        page1 == page2,
    ensures
        P::page_key(address1, page1) == P::page_key(address2, page2),
{
}

} // verus!

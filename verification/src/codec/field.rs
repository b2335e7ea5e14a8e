//! The primitive fields of the wire format.
//!
//! Each field has an encoder, which appends nibbles to a writer, and a
//! decoder, which reads them from a reader. What they do is stated over two
//! families of spec functions: `enc_*` gives the nibbles of a value, and
//! `dec_*` gives what a decoder finds at a position of a stream of nibbles,
//! with the position that follows the field.

use crate::codec::error::{Field, ParseError};
use crate::nibble::{
    is_nibbles, lemma_flush_alignment, lemma_pack_nibbles_of, nibbles_of, pack, padded, Nibble,
    NibbleIter, NibbleWriter,
};
use crate::text::string_from_utf8;
use crate::types::{Address, State, ADDRESS_LEN, STATE_LEN};
use vstd::prelude::*;
use vstd::string::StringSliceAdditionalSpecFns;
use vstd::utf8::{
    decode_utf8, encode_utf8, encode_utf8_decode_utf8, encode_utf8_valid_utf8, valid_utf8,
};

verus! {

/// Whether the nibbles `part` stand in `s` at position `pos`.
pub open spec fn holds_at(s: Seq<u8>, pos: int, part: Seq<u8>) -> bool {
    &&& 0 <= pos
    &&& pos + part.len() <= s.len()
    &&& s.subrange(pos, pos + part.len()) == part
}

/// Where `a + b` stands, `a` stands followed by `b`.
pub proof fn lemma_holds_at_concat(s: Seq<u8>, pos: int, a: Seq<u8>, b: Seq<u8>)
    requires
        holds_at(s, pos, a + b),
    ensures
        holds_at(s, pos, a),
        holds_at(s, pos + a.len(), b),
{
    let whole = s.subrange(pos, pos + (a + b).len());
    assert(s.subrange(pos, pos + a.len()) =~= whole.subrange(0, a.len() as int));
    assert(whole.subrange(0, a.len() as int) =~= a);
    assert(s.subrange(pos + a.len(), pos + a.len() + b.len()) =~= whole.subrange(
        a.len() as int,
        (a + b).len() as int,
    ));
    assert(whole.subrange(a.len() as int, (a + b).len() as int) =~= b);
}

/// The leading groups of a variable-width integer: three bits of `v` each,
/// most significant first, with the continuation flag set.
pub open spec fn enc_varuint_more(v: nat) -> Seq<u8>
    decreases v,
{
    if v == 0 {
        Seq::empty()
    } else {
        enc_varuint_more(v / 8).push((8 + v % 8) as u8)
    }
}

/// The nibbles of the variable-width integer `v`: groups of three bits, most
/// significant first. The top bit of a nibble says that another group
/// follows; the last group has it clear.
pub open spec fn enc_varuint(v: nat) -> Seq<u8> {
    enc_varuint_more(v / 8).push((v % 8) as u8)
}

/// What a decoder of a variable-width integer finds at `pos`, having read the
/// value `acc` so far: the value and the position after its last group. The
/// value may not exceed `max`.
pub open spec fn dec_varuint(s: Seq<u8>, pos: int, acc: nat, max: nat, field: Field) -> Result<
    (nat, int),
    ParseError,
>
    decreases s.len() - pos,
{
    if pos < 0 || pos >= s.len() {
        Err(ParseError::NotEnoughBytes(field))
    } else {
        let value = acc * 8 + (s[pos] % 8) as nat;
        if value > max {
            Err(ParseError::TooManyBytes(field))
        } else if s[pos] < 8 {
            Ok((value, pos + 1))
        } else {
            dec_varuint(s, pos + 1, value, max, field)
        }
    }
}

/// The groups of a variable-width integer are nibbles.
pub proof fn lemma_enc_varuint_is_nibbles(v: nat)
    ensures
        is_nibbles(enc_varuint_more(v)),
        is_nibbles(enc_varuint(v)),
        enc_varuint(v).len() == enc_varuint_more(v / 8).len() + 1,
    decreases v,
{
    if v != 0 {
        lemma_enc_varuint_is_nibbles(v / 8);
    }
    if v / 8 != 0 {
        lemma_enc_varuint_is_nibbles(v / 8 / 8);
    }
}

proof fn lemma_dec_varuint_more(s: Seq<u8>, pos: int, high: nat, max: nat, field: Field)
    requires
        holds_at(s, pos, enc_varuint_more(high)),
        high <= max,
    ensures
        dec_varuint(s, pos, 0, max, field) == dec_varuint(
            s,
            pos + enc_varuint_more(high).len(),
            high,
            max,
            field,
        ),
    decreases high,
{
    if high != 0 {
        let head = enc_varuint_more(high / 8);
        let group = (8 + high % 8) as u8;
        assert(enc_varuint_more(high) =~= head + seq![group]);
        lemma_holds_at_concat(s, pos, head, seq![group]);
        lemma_dec_varuint_more(s, pos, high / 8, max, field);
        let at = pos + head.len();
        assert(s[at] == s.subrange(at, at + 1)[0]);
        assert(s[at] == group);
        assert((high / 8) * 8 + (group % 8) as nat == high);
    }
}

/// Decoding finds the integer where its encoding stands, whatever follows.
pub proof fn lemma_dec_varuint(s: Seq<u8>, pos: int, v: nat, max: nat, field: Field)
    requires
        holds_at(s, pos, enc_varuint(v)),
        v <= max,
    ensures
        dec_varuint(s, pos, 0, max, field) == Ok::<(nat, int), ParseError>(
            (v, pos + enc_varuint(v).len()),
        ),
{
    let head = enc_varuint_more(v / 8);
    let group = (v % 8) as u8;
    assert(enc_varuint(v) =~= head + seq![group]);
    lemma_holds_at_concat(s, pos, head, seq![group]);
    lemma_dec_varuint_more(s, pos, v / 8, max, field);
    let at = pos + head.len();
    assert(s[at] == s.subrange(at, at + 1)[0]);
    assert((v / 8) * 8 + (group % 8) as nat == v);
}

/// Appends the variable-width integer `v`.
pub fn encode_varuint(v: u64, w: &mut NibbleWriter)
    ensures
        final(w)@ == old(w)@ + enc_varuint(v as nat),
{
    let mut groups: Vec<Nibble> = Vec::new();
    let last = (v % 8) as u8;
    groups.push(Nibble::new(last));
    let ghost mut tail: Seq<u8> = seq![last];
    let mut rest: u64 = v / 8;
    assert(enc_varuint(v as nat) =~= enc_varuint_more(rest as nat) + tail);
    while rest > 0
        invariant
            groups@.len() == tail.len(),
            forall|i: int| 0 <= i < tail.len() ==> tail[i] == groups@[tail.len() - 1 - i]@,
            enc_varuint(v as nat) == enc_varuint_more(rest as nat) + tail,
        decreases rest,
    {
        let group = (8 + rest % 8) as u8;
        groups.push(Nibble::new(group));
        proof {
            assert(enc_varuint_more(rest as nat) =~= enc_varuint_more((rest / 8) as nat).push(
                group,
            ));
            assert(enc_varuint_more(rest as nat) + tail =~= enc_varuint_more((rest / 8) as nat)
                + (seq![group] + tail));
            tail = seq![group] + tail;
        }
        rest = rest / 8;
    }
    assert(enc_varuint(v as nat) =~= tail);
    let mut i: usize = groups.len();
    while i > 0
        invariant
            i <= groups@.len(),
            groups@.len() == tail.len(),
            forall|k: int| 0 <= k < tail.len() ==> tail[k] == groups@[tail.len() - 1 - k]@,
            w@ =~= old(w)@ + tail.subrange(0, tail.len() - i),
        decreases i,
    {
        i -= 1;
        w.push(groups[i]);
    }
    assert(tail.subrange(0, tail.len() as int) =~= tail);
}

/// Reads a variable-width integer that may not exceed `max`.
///
/// Fails with `NotEnoughBytes` when the input ends before the last group,
/// and with `TooManyBytes` at the group that takes the value above `max`.
pub fn decode_varuint(iter: &mut NibbleIter, max: u64, field: Field) -> (res: Result<
    u64,
    ParseError,
>)
    ensures
        final(iter).data() == old(iter).data(),
        old(iter).pos() <= final(iter).pos() <= final(iter).nibbles().len(),
        match res {
            Ok(v) => dec_varuint(
                old(iter).nibbles(),
                old(iter).pos() as int,
                0,
                max as nat,
                field,
            ) == Ok::<(nat, int), ParseError>((v as nat, final(iter).pos() as int)) && v <= max,
            Err(e) => dec_varuint(
                old(iter).nibbles(),
                old(iter).pos() as int,
                0,
                max as nat,
                field,
            ) == Err::<(nat, int), ParseError>(e),
        },
{
    let mut acc: u64 = 0;
    let ghost s = iter.nibbles();
    let ghost start = iter.pos() as int;
    loop
        invariant
            iter.data() == old(iter).data(),
            s == old(iter).nibbles(),
            start == old(iter).pos(),
            start <= iter.pos(),
            acc <= max,
            dec_varuint(s, start, 0, max as nat, field) == dec_varuint(
                s,
                iter.pos() as int,
                acc as nat,
                max as nat,
                field,
            ),
        decreases s.len() - iter.pos(),
    {
        let ghost at = iter.pos() as int;
        match iter.next() {
            None => {
                return Err(ParseError::NotEnoughBytes(field));
            },
            Some(nib) => {
                let digit = nib.inner();
                let payload = (digit % 8) as u64;
                assert(s[at] == digit);
                if payload > max || acc > (max - payload) / 8 {
                    return Err(ParseError::TooManyBytes(field));
                }
                acc = acc * 8 + payload;
                if digit < 8 {
                    return Ok(acc);
                }
            },
        }
    }
}

/// The nibbles of the protocol version `v`.
pub open spec fn enc_version(v: u32) -> Seq<u8> {
    enc_varuint(v as nat)
}

/// What a decoder finds at `pos` as a protocol version.
pub open spec fn dec_version(s: Seq<u8>, pos: int) -> Result<(u32, int), ParseError> {
    match dec_varuint(s, pos, 0, u32::MAX as nat, Field::Version) {
        Ok((v, next)) => Ok((v as u32, next)),
        Err(e) => Err(e),
    }
}

/// Decoding finds the version where its encoding stands.
pub proof fn lemma_dec_version(s: Seq<u8>, pos: int, v: u32)
    requires
        holds_at(s, pos, enc_version(v)),
    ensures
        dec_version(s, pos) == Ok::<(u32, int), ParseError>((v, pos + enc_version(v).len())),
{
    lemma_dec_varuint(s, pos, v as nat, u32::MAX as nat, Field::Version);
}

/// Appends the protocol version.
pub fn encode_version(version: u32, w: &mut NibbleWriter)
    ensures
        final(w)@ == old(w)@ + enc_version(version),
{
    encode_varuint(version as u64, w);
}

/// Reads a protocol version.
pub fn decode_version(iter: &mut NibbleIter) -> (res: Result<u32, ParseError>)
    ensures
        final(iter).data() == old(iter).data(),
        old(iter).pos() <= final(iter).pos() <= final(iter).nibbles().len(),
        match res {
            Ok(v) => dec_version(old(iter).nibbles(), old(iter).pos() as int) == Ok::<
                (u32, int),
                ParseError,
            >((v, final(iter).pos() as int)),
            Err(e) => dec_version(old(iter).nibbles(), old(iter).pos() as int) == Err::<
                (u32, int),
                ParseError,
            >(e),
        },
{
    match decode_varuint(iter, 0xFFFF_FFFF, Field::Version) {
        Ok(v) => Ok(v as u32),
        Err(e) => Err(e),
    }
}

/// What a decoder finds at `pos` as `n` raw bytes.
pub open spec fn dec_fixed(s: Seq<u8>, pos: int, n: nat, field: Field) -> Result<
    (Seq<u8>, int),
    ParseError,
> {
    if pos < 0 || pos + 2 * n > s.len() {
        Err(ParseError::NotEnoughBytes(field))
    } else {
        Ok((pack(s.subrange(pos, pos + 2 * n)), pos + 2 * n))
    }
}

/// Decoding finds the bytes where their nibbles stand.
pub proof fn lemma_dec_fixed(s: Seq<u8>, pos: int, bytes: Seq<u8>, field: Field)
    requires
        holds_at(s, pos, nibbles_of(bytes)),
    ensures
        dec_fixed(s, pos, bytes.len(), field) == Ok::<(Seq<u8>, int), ParseError>(
            (bytes, pos + 2 * bytes.len()),
        ),
{
    lemma_pack_nibbles_of(bytes);
}

/// Reads `n` raw bytes, or fails with `NotEnoughBytes` when fewer are left.
pub fn decode_fixed(iter: &mut NibbleIter, n: usize, field: Field) -> (res: Result<
    Vec<u8>,
    ParseError,
>)
    ensures
        final(iter).data() == old(iter).data(),
        old(iter).pos() <= final(iter).pos() <= final(iter).nibbles().len(),
        match res {
            Ok(bytes) => dec_fixed(old(iter).nibbles(), old(iter).pos() as int, n as nat, field)
                == Ok::<(Seq<u8>, int), ParseError>((bytes@, final(iter).pos() as int))
                && bytes@.len() == n,
            Err(e) => dec_fixed(old(iter).nibbles(), old(iter).pos() as int, n as nat, field)
                == Err::<(Seq<u8>, int), ParseError>(e),
        },
{
    if iter.remaining_bytes() < n {
        return Err(ParseError::NotEnoughBytes(field));
    }
    let bytes = iter.read_bytes(n);
    Ok(bytes)
}

/// The nibbles of an address: those of its 20 bytes.
pub open spec fn enc_address(addr: Seq<u8>) -> Seq<u8> {
    nibbles_of(addr)
}

/// What a decoder finds at `pos` as an address.
pub open spec fn dec_address(s: Seq<u8>, pos: int, field: Field) -> Result<
    (Seq<u8>, int),
    ParseError,
> {
    dec_fixed(s, pos, ADDRESS_LEN as nat, field)
}

/// Appends an address.
pub fn encode_address(addr: &Address, w: &mut NibbleWriter)
    ensures
        final(w)@ == old(w)@ + enc_address(addr@),
{
    w.write_bytes(addr.as_slice());
}

/// Reads an address.
pub fn decode_address(iter: &mut NibbleIter, field: Field) -> (res: Result<Address, ParseError>)
    ensures
        final(iter).data() == old(iter).data(),
        old(iter).pos() <= final(iter).pos() <= final(iter).nibbles().len(),
        match res {
            Ok(addr) => dec_address(old(iter).nibbles(), old(iter).pos() as int, field) == Ok::<
                (Seq<u8>, int),
                ParseError,
            >((addr@, final(iter).pos() as int)),
            Err(e) => dec_address(old(iter).nibbles(), old(iter).pos() as int, field) == Err::<
                (Seq<u8>, int),
                ParseError,
            >(e),
        },
{
    match decode_fixed(iter, ADDRESS_LEN, field) {
        Ok(bytes) => Ok(Address::from_slice(bytes.as_slice())),
        Err(e) => Err(e),
    }
}

/// The nibbles of a state: those of its 32 bytes.
pub open spec fn enc_state(state: Seq<u8>) -> Seq<u8> {
    nibbles_of(state)
}

/// What a decoder finds at `pos` as a state.
pub open spec fn dec_state(s: Seq<u8>, pos: int) -> Result<(Seq<u8>, int), ParseError> {
    dec_fixed(s, pos, STATE_LEN as nat, Field::State)
}

/// Appends a state.
pub fn encode_state(state: &State, w: &mut NibbleWriter)
    ensures
        final(w)@ == old(w)@ + enc_state(state@),
{
    w.write_bytes(state.as_slice());
}

/// Reads a state.
pub fn decode_state(iter: &mut NibbleIter) -> (res: Result<State, ParseError>)
    ensures
        final(iter).data() == old(iter).data(),
        old(iter).pos() <= final(iter).pos() <= final(iter).nibbles().len(),
        match res {
            Ok(state) => dec_state(old(iter).nibbles(), old(iter).pos() as int) == Ok::<
                (Seq<u8>, int),
                ParseError,
            >((state@, final(iter).pos() as int)),
            Err(e) => dec_state(old(iter).nibbles(), old(iter).pos() as int) == Err::<
                (Seq<u8>, int),
                ParseError,
            >(e),
        },
{
    match decode_fixed(iter, STATE_LEN, Field::State) {
        Ok(bytes) => Ok(State::from_slice(bytes.as_slice())),
        Err(e) => Err(e),
    }
}

/// The largest number of UTF-8 bytes of a string field.
pub const MAX_STRING_LEN: usize = 255;

/// The nibbles of a string: one byte that holds the number of bytes of its
/// UTF-8 form, then those bytes.
pub open spec fn enc_string(chars: Seq<char>) -> Seq<u8> {
    nibbles_of(seq![encode_utf8(chars).len() as u8]) + nibbles_of(encode_utf8(chars))
}

/// What a decoder finds at `pos` as a string. `len_field` names the length
/// byte and `field` the body.
pub open spec fn dec_string(s: Seq<u8>, pos: int, len_field: Field, field: Field) -> Result<
    (Seq<char>, int),
    ParseError,
> {
    match dec_fixed(s, pos, 1, len_field) {
        Err(e) => Err(e),
        Ok((len, body_pos)) => match dec_fixed(s, body_pos, len[0] as nat, field) {
            Err(e) => Err(e),
            Ok((body, next)) => if valid_utf8(body) {
                Ok((decode_utf8(body), next))
            } else {
                Err(ParseError::InvalidUTF8String(field))
            },
        },
    }
}

/// Decoding finds the string where its encoding stands.
pub proof fn lemma_dec_string(
    s: Seq<u8>,
    pos: int,
    chars: Seq<char>,
    len_field: Field,
    field: Field,
)
    requires
        holds_at(s, pos, enc_string(chars)),
        encode_utf8(chars).len() <= MAX_STRING_LEN,
    ensures
        dec_string(s, pos, len_field, field) == Ok::<(Seq<char>, int), ParseError>(
            (chars, pos + enc_string(chars).len()),
        ),
{
    let body = encode_utf8(chars);
    let len = seq![body.len() as u8];
    lemma_holds_at_concat(s, pos, nibbles_of(len), nibbles_of(body));
    lemma_dec_fixed(s, pos, len, len_field);
    lemma_dec_fixed(s, pos + 2, body, field);
    encode_utf8_valid_utf8(chars);
    encode_utf8_decode_utf8(chars);
}

/// Appends a string of at most 255 UTF-8 bytes.
pub fn encode_string(text: &str, w: &mut NibbleWriter)
    requires
        text.spec_bytes().len() <= MAX_STRING_LEN,
    ensures
        final(w)@ == old(w)@ + enc_string(text@),
{
    let bytes = text.as_bytes();
    let len = bytes.len() as u8;
    let ghost before = w@;
    w.write_byte(len);
    w.write_bytes(bytes);
    assert(w@ =~= before + enc_string(text@));
}

/// Reads a string. Fails with `NotEnoughBytes(len_field)` when the length
/// byte is missing, with `NotEnoughBytes(field)` when the body is cut short,
/// and with `InvalidUTF8String(field)` when the body is not UTF-8.
pub fn decode_string(iter: &mut NibbleIter, len_field: Field, field: Field) -> (res: Result<
    String,
    ParseError,
>)
    ensures
        final(iter).data() == old(iter).data(),
        old(iter).pos() <= final(iter).pos() <= final(iter).nibbles().len(),
        match res {
            Ok(text) => dec_string(old(iter).nibbles(), old(iter).pos() as int, len_field, field)
                == Ok::<(Seq<char>, int), ParseError>((text@, final(iter).pos() as int)),
            Err(e) => dec_string(old(iter).nibbles(), old(iter).pos() as int, len_field, field)
                == Err::<(Seq<char>, int), ParseError>(e),
        },
{
    let len = match decode_fixed(iter, 1, len_field) {
        Ok(bytes) => bytes[0],
        Err(e) => {
            return Err(e);
        },
    };
    let body = match decode_fixed(iter, len as usize, field) {
        Ok(bytes) => bytes,
        Err(e) => {
            return Err(e);
        },
    };
    match string_from_utf8(body) {
        Some(text) => Ok(text),
        None => Err(ParseError::InvalidUTF8String(field)),
    }
}

/// The largest number of bytes of a length-prefixed blob.
pub const MAX_BLOB_LEN: usize = 0xFFFF_FFFF;

/// The nibbles of a blob: its length as a variable-width integer, then its
/// bytes.
pub open spec fn enc_blob(bytes: Seq<u8>) -> Seq<u8> {
    enc_varuint(bytes.len()) + nibbles_of(bytes)
}

/// What a decoder finds at `pos` as a blob. `len_field` names the length and
/// `field` the body.
pub open spec fn dec_blob(s: Seq<u8>, pos: int, len_field: Field, field: Field) -> Result<
    (Seq<u8>, int),
    ParseError,
> {
    match dec_varuint(s, pos, 0, MAX_BLOB_LEN as nat, len_field) {
        Err(e) => Err(e),
        Ok((len, body_pos)) => dec_fixed(s, body_pos, len, field),
    }
}

/// Decoding finds the blob where its encoding stands.
pub proof fn lemma_dec_blob(s: Seq<u8>, pos: int, bytes: Seq<u8>, len_field: Field, field: Field)
    requires
        holds_at(s, pos, enc_blob(bytes)),
        bytes.len() <= MAX_BLOB_LEN,
    ensures
        dec_blob(s, pos, len_field, field) == Ok::<(Seq<u8>, int), ParseError>(
            (bytes, pos + enc_blob(bytes).len()),
        ),
{
    let len = enc_varuint(bytes.len());
    lemma_holds_at_concat(s, pos, len, nibbles_of(bytes));
    lemma_dec_varuint(s, pos, bytes.len(), MAX_BLOB_LEN as nat, len_field);
    lemma_dec_fixed(s, pos + len.len(), bytes, field);
}

/// Appends a blob of fewer than 2^32 bytes.
pub fn encode_blob(bytes: &[u8], w: &mut NibbleWriter)
    requires
        bytes@.len() <= MAX_BLOB_LEN,
    ensures
        final(w)@ == old(w)@ + enc_blob(bytes@),
{
    let ghost before = w@;
    encode_varuint(bytes.len() as u64, w);
    w.write_bytes(bytes);
    assert(w@ =~= before + enc_blob(bytes@));
}

/// Reads a blob. Fails as [`decode_varuint`] does on its length, and with
/// `NotEnoughBytes(field)` when the body is cut short.
pub fn decode_blob(iter: &mut NibbleIter, len_field: Field, field: Field) -> (res: Result<
    Vec<u8>,
    ParseError,
>)
    ensures
        final(iter).data() == old(iter).data(),
        old(iter).pos() <= final(iter).pos() <= final(iter).nibbles().len(),
        match res {
            Ok(bytes) => dec_blob(old(iter).nibbles(), old(iter).pos() as int, len_field, field)
                == Ok::<(Seq<u8>, int), ParseError>((bytes@, final(iter).pos() as int)),
            Err(e) => dec_blob(old(iter).nibbles(), old(iter).pos() as int, len_field, field)
                == Err::<(Seq<u8>, int), ParseError>(e),
        },
{
    let len = match decode_varuint(iter, 0xFFFF_FFFF, len_field) {
        Ok(len) => len,
        Err(e) => {
            return Err(e);
        },
    };
    if len > iter.remaining_bytes() as u64 {
        return Err(ParseError::NotEnoughBytes(field));
    }
    decode_fixed(iter, len as usize, field)
}

/// The nibbles of call arguments, which this layer carries as a blob.
pub open spec fn enc_abi_data(calldata: Seq<u8>) -> Seq<u8> {
    enc_blob(calldata)
}

/// What a decoder finds at `pos` as call arguments.
pub open spec fn dec_abi_data(s: Seq<u8>, pos: int) -> Result<(Seq<u8>, int), ParseError> {
    dec_blob(s, pos, Field::CalldataLength, Field::Calldata)
}

/// Appends call arguments, already serialized, without looking into them.
pub fn encode_abi_data(calldata: &[u8], w: &mut NibbleWriter)
    requires
        calldata@.len() <= MAX_BLOB_LEN,
    ensures
        final(w)@ == old(w)@ + enc_abi_data(calldata@),
{
    encode_blob(calldata, w);
}

/// Reads call arguments.
pub fn decode_abi_data(iter: &mut NibbleIter) -> (res: Result<Vec<u8>, ParseError>)
    ensures
        final(iter).data() == old(iter).data(),
        old(iter).pos() <= final(iter).pos() <= final(iter).nibbles().len(),
        match res {
            Ok(bytes) => dec_abi_data(old(iter).nibbles(), old(iter).pos() as int) == Ok::<
                (Seq<u8>, int),
                ParseError,
            >((bytes@, final(iter).pos() as int)),
            Err(e) => dec_abi_data(old(iter).nibbles(), old(iter).pos() as int) == Err::<
                (Seq<u8>, int),
                ParseError,
            >(e),
        },
{
    decode_blob(iter, Field::CalldataLength, Field::Calldata)
}

/// What a decoder finds at `pos` as a name: a string that may not be empty.
pub open spec fn dec_name(s: Seq<u8>, pos: int, len_field: Field, field: Field) -> Result<
    (Seq<char>, int),
    ParseError,
> {
    match dec_string(s, pos, len_field, field) {
        Err(e) => Err(e),
        Ok((name, next)) => if name.len() == 0 {
            Err(ParseError::EmptyField(field))
        } else {
            Ok((name, next))
        },
    }
}

/// Decoding finds the name where its encoding stands.
pub proof fn lemma_dec_name(s: Seq<u8>, pos: int, name: Seq<char>, len_field: Field, field: Field)
    requires
        holds_at(s, pos, enc_string(name)),
        encode_utf8(name).len() <= MAX_STRING_LEN,
        name.len() > 0,
    ensures
        dec_name(s, pos, len_field, field) == Ok::<(Seq<char>, int), ParseError>(
            (name, pos + enc_string(name).len()),
        ),
{
    lemma_dec_string(s, pos, name, len_field, field);
}

/// Reads a name: a string as [`decode_string`] reads it, which fails with
/// `EmptyField(field)` when it is empty.
pub fn decode_nonempty_string(iter: &mut NibbleIter, len_field: Field, field: Field) -> (res:
    Result<String, ParseError>)
    ensures
        final(iter).data() == old(iter).data(),
        old(iter).pos() <= final(iter).pos() <= final(iter).nibbles().len(),
        match res {
            Ok(text) => dec_name(old(iter).nibbles(), old(iter).pos() as int, len_field, field)
                == Ok::<(Seq<char>, int), ParseError>((text@, final(iter).pos() as int)),
            Err(e) => dec_name(old(iter).nibbles(), old(iter).pos() as int, len_field, field)
                == Err::<(Seq<char>, int), ParseError>(e),
        },
{
    match decode_string(iter, len_field, field) {
        Ok(text) => {
            if text.as_str().is_empty() {
                Err(ParseError::EmptyField(field))
            } else {
                Ok(text)
            }
        },
        Err(e) => Err(e),
    }
}

/// The encodings of strings and blobs are nibbles.
pub proof fn lemma_enc_is_nibbles(chars: Seq<char>, bytes: Seq<u8>)
    ensures
        is_nibbles(enc_string(chars)),
        is_nibbles(enc_blob(bytes)),
        is_nibbles(nibbles_of(bytes)),
{
    lemma_pack_nibbles_of(seq![encode_utf8(chars).len() as u8]);
    lemma_pack_nibbles_of(encode_utf8(chars));
    lemma_pack_nibbles_of(bytes);
    lemma_enc_varuint_is_nibbles(bytes.len());
}

/// Whether at most the one padding nibble is left in `s` after `pos`.
pub open spec fn at_eof(s: Seq<u8>, pos: int) -> bool {
    s.len() - pos <= 1
}

/// The bytes that a writer flushes for the nibbles `enc`.
pub open spec fn framed(enc: Seq<u8>) -> Seq<u8> {
    pack(padded(enc))
}

/// In the nibbles of the flushed bytes the encoding stands at the start, and
/// what follows it is at most the padding nibble.
pub proof fn lemma_framed(enc: Seq<u8>)
    requires
        is_nibbles(enc),
    ensures
        holds_at(nibbles_of(framed(enc)), 0, enc),
        at_eof(nibbles_of(framed(enc)), enc.len() as int),
        nibbles_of(framed(enc)).len() % 2 == 0,
        enc.len() % 2 == 0 ==> nibbles_of(framed(enc)).len() == enc.len(),
        enc.len() % 2 == 1 ==> nibbles_of(framed(enc)).len() == enc.len() + 1,
{
    lemma_flush_alignment(enc);
}

} // verus!

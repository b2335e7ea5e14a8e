//! Receipts on the wire.
//!
//! In order: a nibble for the kind of transaction, a nibble that is 1 for a
//! success and 0 for a failure, and then, for a success, what the
//! transaction produced and the gas it used; for a failure, a nibble for the
//! kind of error, its message and the gas used.

use crate::codec::error::{Field, ParseError};
use crate::codec::field::{
    at_eof, dec_address, dec_blob, dec_state, dec_varuint, decode_address, decode_blob,
    decode_state, decode_varuint, enc_address, enc_blob, enc_state, enc_varuint, encode_address,
    encode_blob, encode_state, encode_varuint, framed, holds_at, lemma_dec_blob,
    lemma_dec_fixed, lemma_dec_varuint, lemma_enc_is_nibbles, lemma_enc_varuint_is_nibbles,
    lemma_framed, lemma_holds_at_concat, MAX_BLOB_LEN,
};
use crate::nibble::{is_nibbles, nibbles_of, Nibble, NibbleIter, NibbleWriter};
use crate::receipt::{
    ErrorKind, ExecReceipt, Receipt, ReceiptError, ReceiptKind, ReceiptView, SpawnAppReceipt,
    TemplateReceipt,
};
use crate::text::string_from_utf8;
use crate::types::{AppAddr, TemplateAddr, WasmValue, ADDRESS_LEN, STATE_LEN};
use vstd::prelude::*;
use vstd::utf8::{
    decode_utf8, encode_utf8, encode_utf8_decode_utf8, encode_utf8_valid_utf8, valid_utf8,
};

verus! {

/// The largest number of values that a receipt carries.
pub const MAX_RESULTS: usize = 0xFFFF_FFFF;

/// What a decoder finds at `pos` as a tag of one nibble that is at most
/// `max`.
pub open spec fn dec_tag(s: Seq<u8>, pos: int, max: u8, field: Field) -> Result<
    (u8, int),
    ParseError,
> {
    if pos < 0 || pos >= s.len() {
        Err(ParseError::NotEnoughBytes(field))
    } else if s[pos] > max {
        Err(ParseError::InvalidTag(field))
    } else {
        Ok((s[pos], pos + 1))
    }
}

/// Reads a tag of one nibble that is at most `max`.
pub fn decode_tag(iter: &mut NibbleIter, max: u8, field: Field) -> (res: Result<u8, ParseError>)
    ensures
        final(iter).data() == old(iter).data(),
        old(iter).pos() <= final(iter).pos() <= final(iter).nibbles().len(),
        match res {
            Ok(tag) => dec_tag(old(iter).nibbles(), old(iter).pos() as int, max, field) == Ok::<
                (u8, int),
                ParseError,
            >((tag, final(iter).pos() as int)),
            Err(e) => dec_tag(old(iter).nibbles(), old(iter).pos() as int, max, field) == Err::<
                (u8, int),
                ParseError,
            >(e),
        },
{
    match iter.next() {
        None => Err(ParseError::NotEnoughBytes(field)),
        Some(nib) => {
            let tag = nib.inner();
            if tag > max {
                Err(ParseError::InvalidTag(field))
            } else {
                Ok(tag)
            }
        },
    }
}

/// The nibbles of a value: a tag for its type, then the value as a
/// variable-width integer.
pub open spec fn enc_value(value: WasmValue) -> Seq<u8> {
    match value {
        WasmValue::I32(v) => seq![0u8] + enc_varuint(v as nat),
        WasmValue::I64(v) => seq![1u8] + enc_varuint(v as nat),
    }
}

/// What a decoder finds at `pos` as a value.
pub open spec fn dec_value(s: Seq<u8>, pos: int) -> Result<(WasmValue, int), ParseError> {
    match dec_tag(s, pos, 1, Field::ReturnType) {
        Err(e) => Err(e),
        Ok((tag, next)) => if tag == 0 {
            match dec_varuint(s, next, 0, u32::MAX as nat, Field::ReturnValue) {
                Err(e) => Err(e),
                Ok((v, end)) => Ok((WasmValue::I32(v as u32), end)),
            }
        } else {
            match dec_varuint(s, next, 0, u64::MAX as nat, Field::ReturnValue) {
                Err(e) => Err(e),
                Ok((v, end)) => Ok((WasmValue::I64(v as u64), end)),
            }
        },
    }
}

/// The nibbles of values, one after the other.
pub open spec fn enc_values_body(values: Seq<WasmValue>) -> Seq<u8>
    decreases values.len(),
{
    if values.len() == 0 {
        Seq::empty()
    } else {
        enc_value(values[0]) + enc_values_body(values.drop_first())
    }
}

/// The nibbles of the values that a function returned: their number, then
/// each.
pub open spec fn enc_values(values: Seq<WasmValue>) -> Seq<u8> {
    enc_varuint(values.len()) + enc_values_body(values)
}

/// `rest` with `head` put before the values it found.
pub open spec fn with_values(
    head: Seq<WasmValue>,
    rest: Result<(Seq<WasmValue>, int), ParseError>,
) -> Result<(Seq<WasmValue>, int), ParseError> {
    match rest {
        Err(e) => Err(e),
        Ok((values, end)) => Ok((head + values, end)),
    }
}

/// What a decoder finds at `pos` as `count` values.
pub open spec fn dec_values_body(s: Seq<u8>, pos: int, count: nat) -> Result<
    (Seq<WasmValue>, int),
    ParseError,
>
    decreases count,
{
    if count == 0 {
        Ok((Seq::empty(), pos))
    } else {
        match dec_value(s, pos) {
            Err(e) => Err(e),
            Ok((value, next)) => with_values(
                seq![value],
                dec_values_body(s, next, (count - 1) as nat),
            ),
        }
    }
}

/// What a decoder finds at `pos` as the values that a function returned.
pub open spec fn dec_values(s: Seq<u8>, pos: int) -> Result<(Seq<WasmValue>, int), ParseError> {
    match dec_varuint(s, pos, 0, MAX_RESULTS as nat, Field::ReturnsCount) {
        Err(e) => Err(e),
        Ok((count, next)) => dec_values_body(s, next, count),
    }
}

/// The nibbles of a message: the number of bytes of its UTF-8 form as a
/// variable-width integer, then those bytes.
pub open spec fn enc_message(message: Seq<char>) -> Seq<u8> {
    enc_blob(encode_utf8(message))
}

/// What a decoder finds at `pos` as a message.
pub open spec fn dec_message(s: Seq<u8>, pos: int) -> Result<(Seq<char>, int), ParseError> {
    match dec_blob(s, pos, Field::ErrorLength, Field::ErrorMessage) {
        Err(e) => Err(e),
        Ok((bytes, next)) => if valid_utf8(bytes) {
            Ok((decode_utf8(bytes), next))
        } else {
            Err(ParseError::InvalidUTF8String(Field::ErrorMessage))
        },
    }
}

/// The tag of a kind of transaction.
pub open spec fn kind_tag(kind: ReceiptKind) -> u8 {
    match kind {
        ReceiptKind::DeployTemplate => 0,
        ReceiptKind::SpawnApp => 1,
        ReceiptKind::ExecApp => 2,
    }
}

/// The kind of transaction that a tag stands for.
pub open spec fn kind_of_tag(tag: u8) -> ReceiptKind {
    if tag == 0 {
        ReceiptKind::DeployTemplate
    } else if tag == 1 {
        ReceiptKind::SpawnApp
    } else {
        ReceiptKind::ExecApp
    }
}

/// The tag of a kind of error.
pub open spec fn error_tag(kind: ErrorKind) -> u8 {
    match kind {
        ErrorKind::Validation => 0,
        ErrorKind::AuthorMismatch => 1,
        ErrorKind::TemplateNotFound => 2,
        ErrorKind::AppNotFound => 3,
        ErrorKind::StateNotFound => 4,
        ErrorKind::OutOfGas => 5,
        ErrorKind::Execution => 6,
        ErrorKind::Busy => 7,
    }
}

/// The kind of error that a tag stands for.
pub open spec fn error_of_tag(tag: u8) -> ErrorKind {
    if tag == 0 {
        ErrorKind::Validation
    } else if tag == 1 {
        ErrorKind::AuthorMismatch
    } else if tag == 2 {
        ErrorKind::TemplateNotFound
    } else if tag == 3 {
        ErrorKind::AppNotFound
    } else if tag == 4 {
        ErrorKind::StateNotFound
    } else if tag == 5 {
        ErrorKind::OutOfGas
    } else if tag == 6 {
        ErrorKind::Execution
    } else {
        ErrorKind::Busy
    }
}

/// Whether the fields of a receipt fit the wire format.
pub open spec fn receipt_encodable(r: ReceiptView) -> bool {
    match r {
        ReceiptView::Template { .. } => true,
        ReceiptView::Spawn { results, .. } => results.len() <= MAX_RESULTS,
        ReceiptView::Exec { results, .. } => results.len() <= MAX_RESULTS,
        ReceiptView::Failed { message, .. } => encode_utf8(message).len() <= MAX_BLOB_LEN,
    }
}

/// Whether a decoder accepts a receipt: it fits the wire format, and its
/// addresses and states have their 20 and 32 bytes.
pub open spec fn receipt_valid(r: ReceiptView) -> bool {
    &&& receipt_encodable(r)
    &&& match r {
        ReceiptView::Template { addr, .. } => addr.len() == ADDRESS_LEN,
        ReceiptView::Spawn { app_addr, init_state, .. } => app_addr.len() == ADDRESS_LEN
            && init_state.len() == STATE_LEN,
        ReceiptView::Exec { new_state, .. } => new_state.len() == STATE_LEN,
        ReceiptView::Failed { .. } => true,
    }
}

/// The nibbles of a receipt.
pub open spec fn enc_receipt(r: ReceiptView) -> Seq<u8> {
    match r {
        ReceiptView::Template { addr, gas_used } => seq![0u8, 1u8] + enc_address(addr)
            + enc_varuint(gas_used as nat),
        ReceiptView::Spawn { app_addr, init_state, results, gas_used } => seq![1u8, 1u8]
            + enc_address(app_addr) + enc_state(init_state) + enc_values(results) + enc_varuint(
            gas_used as nat,
        ),
        ReceiptView::Exec { new_state, results, gas_used } => seq![2u8, 1u8] + enc_state(
            new_state,
        ) + enc_values(results) + enc_varuint(gas_used as nat),
        ReceiptView::Failed { of, kind, message, gas_used } => seq![kind_tag(of), 0u8] + seq![
            error_tag(kind),
        ] + enc_message(message) + enc_varuint(gas_used as nat),
    }
}

/// What a decoder finds at `pos` as the gas that a transaction used.
pub open spec fn dec_gas(s: Seq<u8>, pos: int) -> Result<(u64, int), ParseError> {
    match dec_varuint(s, pos, 0, u64::MAX as nat, Field::GasUsed) {
        Err(e) => Err(e),
        Ok((gas, next)) => Ok((gas as u64, next)),
    }
}

/// What a decoder finds at `pos` as the body of a failure of the kind `of`.
pub open spec fn dec_failure(s: Seq<u8>, pos: int, of: ReceiptKind) -> Result<
    (ReceiptView, int),
    ParseError,
> {
    match dec_tag(s, pos, 7, Field::ErrorKind) {
        Err(e) => Err(e),
        Ok((tag, pos1)) => match dec_message(s, pos1) {
            Err(e) => Err(e),
            Ok((message, pos2)) => match dec_gas(s, pos2) {
                Err(e) => Err(e),
                Ok((gas_used, pos3)) => Ok(
                    (ReceiptView::Failed { of, kind: error_of_tag(tag), message, gas_used }, pos3),
                ),
            },
        },
    }
}

/// What a decoder finds at `pos` as the body of a successful deployment.
pub open spec fn dec_template_success(s: Seq<u8>, pos: int) -> Result<
    (ReceiptView, int),
    ParseError,
> {
    match dec_address(s, pos, Field::TemplateAddr) {
        Err(e) => Err(e),
        Ok((addr, pos1)) => match dec_gas(s, pos1) {
            Err(e) => Err(e),
            Ok((gas_used, pos2)) => Ok((ReceiptView::Template { addr, gas_used }, pos2)),
        },
    }
}

/// What a decoder finds at `pos` as the body of a successful spawn.
pub open spec fn dec_spawn_success(s: Seq<u8>, pos: int) -> Result<(ReceiptView, int), ParseError> {
    match dec_address(s, pos, Field::AppAddr) {
        Err(e) => Err(e),
        Ok((app_addr, pos1)) => match dec_state(s, pos1) {
            Err(e) => Err(e),
            Ok((init_state, pos2)) => match dec_values(s, pos2) {
                Err(e) => Err(e),
                Ok((results, pos3)) => match dec_gas(s, pos3) {
                    Err(e) => Err(e),
                    Ok((gas_used, pos4)) => Ok(
                        (ReceiptView::Spawn { app_addr, init_state, results, gas_used }, pos4),
                    ),
                },
            },
        },
    }
}

/// What a decoder finds at `pos` as the body of a successful call.
pub open spec fn dec_exec_success(s: Seq<u8>, pos: int) -> Result<(ReceiptView, int), ParseError> {
    match dec_state(s, pos) {
        Err(e) => Err(e),
        Ok((new_state, pos1)) => match dec_values(s, pos1) {
            Err(e) => Err(e),
            Ok((results, pos2)) => match dec_gas(s, pos2) {
                Err(e) => Err(e),
                Ok((gas_used, pos3)) => Ok(
                    (ReceiptView::Exec { new_state, results, gas_used }, pos3),
                ),
            },
        },
    }
}

/// What a decoder finds at `pos` as a receipt.
pub open spec fn dec_receipt(s: Seq<u8>, pos: int) -> Result<(ReceiptView, int), ParseError> {
    match dec_tag(s, pos, 2, Field::ReceiptKind) {
        Err(e) => Err(e),
        Ok((kind, pos1)) => match dec_tag(s, pos1, 1, Field::ReceiptStatus) {
            Err(e) => Err(e),
            Ok((status, pos2)) => if status == 0 {
                dec_failure(s, pos2, kind_of_tag(kind))
            } else if kind == 0 {
                dec_template_success(s, pos2)
            } else if kind == 1 {
                dec_spawn_success(s, pos2)
            } else {
                dec_exec_success(s, pos2)
            },
        },
    }
}

/// The bytes of a receipt.
pub open spec fn receipt_bytes(r: ReceiptView) -> Seq<u8> {
    framed(enc_receipt(r))
}

/// What a whole buffer holds as a receipt: the receipt at its start, and
/// after it nothing but the padding nibble.
pub open spec fn parse_receipt(bytes: Seq<u8>) -> Result<ReceiptView, ParseError> {
    match dec_receipt(nibbles_of(bytes), 0) {
        Err(e) => Err(e),
        Ok((r, next)) => if at_eof(nibbles_of(bytes), next) {
            Ok(r)
        } else {
            Err(ParseError::ExpectedEOF)
        },
    }
}

/// The encoding of values is made of nibbles.
pub proof fn lemma_enc_values_is_nibbles(values: Seq<WasmValue>)
    ensures
        is_nibbles(enc_values_body(values)),
        is_nibbles(enc_values(values)),
    decreases values.len(),
{
    lemma_enc_varuint_is_nibbles(values.len());
    if values.len() > 0 {
        match values[0] {
            WasmValue::I32(v) => lemma_enc_varuint_is_nibbles(v as nat),
            WasmValue::I64(v) => lemma_enc_varuint_is_nibbles(v as nat),
        }
        lemma_enc_values_is_nibbles(values.drop_first());
    }
}

/// The encoding of a receipt is made of nibbles.
pub proof fn lemma_enc_receipt_is_nibbles(r: ReceiptView)
    ensures
        is_nibbles(enc_receipt(r)),
{
    match r {
        ReceiptView::Template { addr, gas_used } => {
            lemma_enc_is_nibbles(Seq::empty(), addr);
            lemma_enc_varuint_is_nibbles(gas_used as nat);
        },
        ReceiptView::Spawn { app_addr, init_state, results, gas_used } => {
            lemma_enc_is_nibbles(Seq::empty(), app_addr);
            lemma_enc_is_nibbles(Seq::empty(), init_state);
            lemma_enc_values_is_nibbles(results);
            lemma_enc_varuint_is_nibbles(gas_used as nat);
        },
        ReceiptView::Exec { new_state, results, gas_used } => {
            lemma_enc_is_nibbles(Seq::empty(), new_state);
            lemma_enc_values_is_nibbles(results);
            lemma_enc_varuint_is_nibbles(gas_used as nat);
        },
        ReceiptView::Failed { of, kind, message, gas_used } => {
            lemma_enc_is_nibbles(Seq::empty(), encode_utf8(message));
            lemma_enc_varuint_is_nibbles(gas_used as nat);
        },
    }
}

proof fn lemma_dec_tag(s: Seq<u8>, pos: int, tag: u8, max: u8, field: Field)
    requires
        holds_at(s, pos, seq![tag]),
        tag <= max,
    ensures
        dec_tag(s, pos, max, field) == Ok::<(u8, int), ParseError>((tag, pos + 1)),
{
    assert(s[pos] == s.subrange(pos, pos + 1)[0]);
}

proof fn lemma_dec_value(s: Seq<u8>, pos: int, value: WasmValue)
    requires
        holds_at(s, pos, enc_value(value)),
    ensures
        dec_value(s, pos) == Ok::<(WasmValue, int), ParseError>(
            (value, pos + enc_value(value).len()),
        ),
{
    match value {
        WasmValue::I32(v) => {
            lemma_holds_at_concat(s, pos, seq![0u8], enc_varuint(v as nat));
            lemma_dec_tag(s, pos, 0, 1, Field::ReturnType);
            lemma_dec_varuint(s, pos + 1, v as nat, u32::MAX as nat, Field::ReturnValue);
        },
        WasmValue::I64(v) => {
            lemma_holds_at_concat(s, pos, seq![1u8], enc_varuint(v as nat));
            lemma_dec_tag(s, pos, 1, 1, Field::ReturnType);
            lemma_dec_varuint(s, pos + 1, v as nat, u64::MAX as nat, Field::ReturnValue);
        },
    }
}

proof fn lemma_dec_values_body(s: Seq<u8>, pos: int, values: Seq<WasmValue>)
    requires
        holds_at(s, pos, enc_values_body(values)),
    ensures
        dec_values_body(s, pos, values.len()) == Ok::<(Seq<WasmValue>, int), ParseError>(
            (values, pos + enc_values_body(values).len()),
        ),
    decreases values.len(),
{
    if values.len() > 0 {
        let first = enc_value(values[0]);
        let rest = values.drop_first();
        lemma_holds_at_concat(s, pos, first, enc_values_body(rest));
        lemma_dec_value(s, pos, values[0]);
        lemma_dec_values_body(s, pos + first.len(), rest);
        assert(seq![values[0]] + rest =~= values);
    } else {
        assert(values =~= Seq::<WasmValue>::empty());
    }
}

/// Decoding finds the values where their encoding stands.
pub proof fn lemma_dec_values(s: Seq<u8>, pos: int, values: Seq<WasmValue>)
    requires
        holds_at(s, pos, enc_values(values)),
        values.len() <= MAX_RESULTS,
    ensures
        dec_values(s, pos) == Ok::<(Seq<WasmValue>, int), ParseError>(
            (values, pos + enc_values(values).len()),
        ),
{
    let count = enc_varuint(values.len());
    lemma_holds_at_concat(s, pos, count, enc_values_body(values));
    lemma_dec_varuint(s, pos, values.len(), MAX_RESULTS as nat, Field::ReturnsCount);
    lemma_dec_values_body(s, pos + count.len(), values);
}

proof fn lemma_dec_gas(s: Seq<u8>, pos: int, gas: u64)
    requires
        holds_at(s, pos, enc_varuint(gas as nat)),
    ensures
        dec_gas(s, pos) == Ok::<(u64, int), ParseError>(
            (gas, pos + enc_varuint(gas as nat).len()),
        ),
{
    lemma_dec_varuint(s, pos, gas as nat, u64::MAX as nat, Field::GasUsed);
}

proof fn lemma_dec_template_success(s: Seq<u8>, pos: int, addr: Seq<u8>, gas_used: u64)
    requires
        addr.len() == ADDRESS_LEN,
        holds_at(s, pos, enc_address(addr) + enc_varuint(gas_used as nat)),
    ensures
        dec_template_success(s, pos) == Ok::<(ReceiptView, int), ParseError>(
            (
                ReceiptView::Template { addr, gas_used },
                pos + (enc_address(addr) + enc_varuint(gas_used as nat)).len(),
            ),
        ),
{
    let e1 = enc_address(addr);
    lemma_holds_at_concat(s, pos, e1, enc_varuint(gas_used as nat));
    lemma_dec_fixed(s, pos, addr, Field::TemplateAddr);
    lemma_dec_gas(s, pos + e1.len(), gas_used);
}

proof fn lemma_dec_spawn_success(
    s: Seq<u8>,
    pos: int,
    app_addr: Seq<u8>,
    init_state: Seq<u8>,
    results: Seq<WasmValue>,
    gas_used: u64,
)
    requires
        app_addr.len() == ADDRESS_LEN,
        init_state.len() == STATE_LEN,
        results.len() <= MAX_RESULTS,
        holds_at(
            s,
            pos,
            enc_address(app_addr) + enc_state(init_state) + enc_values(results) + enc_varuint(
                gas_used as nat,
            ),
        ),
    ensures
        dec_spawn_success(s, pos) == Ok::<(ReceiptView, int), ParseError>(
            (
                ReceiptView::Spawn { app_addr, init_state, results, gas_used },
                pos + (enc_address(app_addr) + enc_state(init_state) + enc_values(results)
                    + enc_varuint(gas_used as nat)).len(),
            ),
        ),
{
    let e1 = enc_address(app_addr);
    let e2 = enc_state(init_state);
    let e3 = enc_values(results);
    let e4 = enc_varuint(gas_used as nat);
    lemma_holds_at_concat(s, pos, e1 + e2 + e3, e4);
    lemma_holds_at_concat(s, pos, e1 + e2, e3);
    lemma_holds_at_concat(s, pos, e1, e2);
    let pos2 = pos + e1.len();
    let pos3 = pos2 + e2.len();
    let pos4 = pos3 + e3.len();
    lemma_dec_fixed(s, pos, app_addr, Field::AppAddr);
    lemma_dec_fixed(s, pos2, init_state, Field::State);
    lemma_dec_values(s, pos3, results);
    lemma_dec_gas(s, pos4, gas_used);
}

proof fn lemma_dec_exec_success(
    s: Seq<u8>,
    pos: int,
    new_state: Seq<u8>,
    results: Seq<WasmValue>,
    gas_used: u64,
)
    requires
        new_state.len() == STATE_LEN,
        results.len() <= MAX_RESULTS,
        holds_at(
            s,
            pos,
            enc_state(new_state) + enc_values(results) + enc_varuint(gas_used as nat),
        ),
    ensures
        dec_exec_success(s, pos) == Ok::<(ReceiptView, int), ParseError>(
            (
                ReceiptView::Exec { new_state, results, gas_used },
                pos + (enc_state(new_state) + enc_values(results) + enc_varuint(
                    gas_used as nat,
                )).len(),
            ),
        ),
{
    let e1 = enc_state(new_state);
    let e2 = enc_values(results);
    let e3 = enc_varuint(gas_used as nat);
    lemma_holds_at_concat(s, pos, e1 + e2, e3);
    lemma_holds_at_concat(s, pos, e1, e2);
    let pos2 = pos + e1.len();
    let pos3 = pos2 + e2.len();
    lemma_dec_fixed(s, pos, new_state, Field::State);
    lemma_dec_values(s, pos2, results);
    lemma_dec_gas(s, pos3, gas_used);
}

proof fn lemma_dec_failure(
    s: Seq<u8>,
    pos: int,
    of: ReceiptKind,
    kind: ErrorKind,
    message: Seq<char>,
    gas_used: u64,
)
    requires
        encode_utf8(message).len() <= MAX_BLOB_LEN,
        holds_at(
            s,
            pos,
            seq![error_tag(kind)] + enc_message(message) + enc_varuint(gas_used as nat),
        ),
    ensures
        dec_failure(s, pos, of) == Ok::<(ReceiptView, int), ParseError>(
            (
                ReceiptView::Failed { of, kind, message, gas_used },
                pos + (seq![error_tag(kind)] + enc_message(message) + enc_varuint(
                    gas_used as nat,
                )).len(),
            ),
        ),
{
    let e0 = seq![error_tag(kind)];
    let e1 = enc_message(message);
    let e2 = enc_varuint(gas_used as nat);
    lemma_holds_at_concat(s, pos, e0 + e1, e2);
    lemma_holds_at_concat(s, pos, e0, e1);
    lemma_dec_tag(s, pos, error_tag(kind), 7, Field::ErrorKind);
    lemma_dec_blob(s, pos + 1, encode_utf8(message), Field::ErrorLength, Field::ErrorMessage);
    encode_utf8_valid_utf8(message);
    encode_utf8_decode_utf8(message);
    lemma_dec_gas(s, pos + 1 + e1.len(), gas_used);
}

/// The nibbles of a receipt after its two leading tags.
pub open spec fn enc_receipt_body(r: ReceiptView) -> Seq<u8> {
    match r {
        ReceiptView::Template { addr, gas_used } => enc_address(addr) + enc_varuint(
            gas_used as nat,
        ),
        ReceiptView::Spawn { app_addr, init_state, results, gas_used } => enc_address(app_addr)
            + enc_state(init_state) + enc_values(results) + enc_varuint(gas_used as nat),
        ReceiptView::Exec { new_state, results, gas_used } => enc_state(new_state) + enc_values(
            results,
        ) + enc_varuint(gas_used as nat),
        ReceiptView::Failed { of, kind, message, gas_used } => seq![error_tag(kind)]
            + enc_message(message) + enc_varuint(gas_used as nat),
    }
}

/// The two leading tags of a receipt: the kind of transaction, and 1 for a
/// success or 0 for a failure.
pub open spec fn receipt_head(r: ReceiptView) -> (u8, u8) {
    match r {
        ReceiptView::Template { .. } => (0u8, 1u8),
        ReceiptView::Spawn { .. } => (1u8, 1u8),
        ReceiptView::Exec { .. } => (2u8, 1u8),
        ReceiptView::Failed { of, .. } => (kind_tag(of), 0u8),
    }
}

/// Decoding finds the receipt where its encoding stands, whatever follows.
pub proof fn lemma_dec_receipt(s: Seq<u8>, pos: int, r: ReceiptView)
    requires
        receipt_valid(r),
        holds_at(s, pos, enc_receipt(r)),
    ensures
        dec_receipt(s, pos) == Ok::<(ReceiptView, int), ParseError>(
            (r, pos + enc_receipt(r).len()),
        ),
{
    let head = receipt_head(r);
    let body = enc_receipt_body(r);
    assert(enc_receipt(r) =~= seq![head.0] + seq![head.1] + body);
    lemma_holds_at_concat(s, pos, seq![head.0] + seq![head.1], body);
    lemma_holds_at_concat(s, pos, seq![head.0], seq![head.1]);
    lemma_dec_tag(s, pos, head.0, 2, Field::ReceiptKind);
    lemma_dec_tag(s, pos + 1, head.1, 1, Field::ReceiptStatus);
    match r {
        ReceiptView::Template { addr, gas_used } => {
            lemma_dec_template_success(s, pos + 2, addr, gas_used);
        },
        ReceiptView::Spawn { app_addr, init_state, results, gas_used } => {
            lemma_dec_spawn_success(s, pos + 2, app_addr, init_state, results, gas_used);
        },
        ReceiptView::Exec { new_state, results, gas_used } => {
            lemma_dec_exec_success(s, pos + 2, new_state, results, gas_used);
        },
        ReceiptView::Failed { of, kind, message, gas_used } => {
            lemma_dec_failure(s, pos + 2, of, kind, message, gas_used);
        },
    }
}

/// A receipt that a decoder accepts comes back from its bytes unchanged, and
/// the decoder reads them to the end: after the receipt at most the padding
/// nibble is left.
pub proof fn lemma_receipt_round_trip(r: ReceiptView)
    requires
        receipt_valid(r),
    ensures
        parse_receipt(receipt_bytes(r)) == Ok::<ReceiptView, ParseError>(r),
        at_eof(nibbles_of(receipt_bytes(r)), enc_receipt(r).len() as int),
{
    lemma_enc_receipt_is_nibbles(r);
    lemma_framed(enc_receipt(r));
    lemma_dec_receipt(nibbles_of(receipt_bytes(r)), 0, r);
}

fn encode_value(value: &WasmValue, w: &mut NibbleWriter)
    ensures
        final(w)@ == old(w)@ + enc_value(*value),
{
    let ghost before = w@;
    match value {
        WasmValue::I32(v) => {
            w.push(Nibble::new(0));
            encode_varuint(*v as u64, w);
        },
        WasmValue::I64(v) => {
            w.push(Nibble::new(1));
            encode_varuint(*v, w);
        },
    }
    assert(w@ =~= before + enc_value(*value));
}

/// Appends the values that a function returned.
pub fn encode_values(values: &[WasmValue], w: &mut NibbleWriter)
    requires
        values@.len() <= MAX_RESULTS,
    ensures
        final(w)@ == old(w)@ + enc_values(values@),
{
    let n = values.len();
    encode_varuint(n as u64, w);
    let ghost after_count = w@;
    let mut i: usize = 0;
    assert(values@.skip(0) =~= values@);
    while i < n
        invariant
            i <= n,
            n == values@.len(),
            after_count == old(w)@ + enc_varuint(n as nat),
            w@ + enc_values_body(values@.skip(i as int)) =~= after_count + enc_values_body(
                values@,
            ),
        decreases n - i,
    {
        let ghost before = w@;
        let ghost rest = values@.skip(i as int);
        encode_value(&values[i], w);
        proof {
            assert(rest[0] == values@[i as int]);
            assert(rest.drop_first() =~= values@.skip(i + 1));
            assert(before + enc_values_body(rest) =~= w@ + enc_values_body(
                values@.skip(i + 1),
            ));
        }
        i += 1;
    }
    assert(enc_values_body(values@.skip(n as int)) =~= Seq::<u8>::empty());
    assert(w@ =~= old(w)@ + enc_values(values@));
}

fn decode_value(iter: &mut NibbleIter) -> (res: Result<WasmValue, ParseError>)
    ensures
        final(iter).data() == old(iter).data(),
        old(iter).pos() <= final(iter).pos() <= final(iter).nibbles().len(),
        match res {
            Ok(value) => dec_value(old(iter).nibbles(), old(iter).pos() as int) == Ok::<
                (WasmValue, int),
                ParseError,
            >((value, final(iter).pos() as int)),
            Err(e) => dec_value(old(iter).nibbles(), old(iter).pos() as int) == Err::<
                (WasmValue, int),
                ParseError,
            >(e),
        },
{
    let tag = decode_tag(iter, 1, Field::ReturnType)?;
    if tag == 0 {
        let v = decode_varuint(iter, 0xFFFF_FFFF, Field::ReturnValue)?;
        Ok(WasmValue::I32(v as u32))
    } else {
        let v = decode_varuint(iter, u64::MAX, Field::ReturnValue)?;
        Ok(WasmValue::I64(v))
    }
}

/// Reads the values that a function returned.
pub fn decode_values(iter: &mut NibbleIter) -> (res: Result<Vec<WasmValue>, ParseError>)
    ensures
        final(iter).data() == old(iter).data(),
        old(iter).pos() <= final(iter).pos() <= final(iter).nibbles().len(),
        match res {
            Ok(values) => dec_values(old(iter).nibbles(), old(iter).pos() as int) == Ok::<
                (Seq<WasmValue>, int),
                ParseError,
            >((values@, final(iter).pos() as int)),
            Err(e) => dec_values(old(iter).nibbles(), old(iter).pos() as int) == Err::<
                (Seq<WasmValue>, int),
                ParseError,
            >(e),
        },
{
    let ghost s = iter.nibbles();
    let count = decode_varuint(iter, 0xFFFF_FFFF, Field::ReturnsCount)?;
    let ghost start = iter.pos() as int;
    let mut values: Vec<WasmValue> = Vec::new();
    let mut i: u64 = 0;
    proof {
        let r = dec_values_body(s, start, count as nat);
        if r is Ok {
            assert(values@ + r->Ok_0.0 =~= r->Ok_0.0);
        }
    }
    while i < count
        invariant
            i <= count,
            iter.data() == old(iter).data(),
            s == old(iter).nibbles(),
            old(iter).pos() <= start <= iter.pos() <= s.len(),
            values@.len() == i,
            dec_values(s, old(iter).pos() as int) == dec_values_body(s, start, count as nat),
            dec_values_body(s, start, count as nat) == with_values(
                values@,
                dec_values_body(s, iter.pos() as int, (count - i) as nat),
            ),
        decreases count - i,
    {
        let ghost at = iter.pos() as int;
        let ghost head = values@;
        let value = match decode_value(iter) {
            Ok(value) => value,
            Err(e) => {
                assert(dec_values_body(s, at, (count - i) as nat) == Err::<
                    (Seq<WasmValue>, int),
                    ParseError,
                >(e));
                return Err(e);
            },
        };
        values.push(value);
        proof {
            let rest = dec_values_body(s, iter.pos() as int, (count - i - 1) as nat);
            assert(dec_values_body(s, at, (count - i) as nat) == with_values(seq![value], rest));
            if rest is Ok {
                assert(head + (seq![value] + rest->Ok_0.0) =~= values@ + rest->Ok_0.0);
            }
        }
        i += 1;
    }
    assert(values@ + Seq::<WasmValue>::empty() =~= values@);
    Ok(values)
}

fn encode_gas(gas: u64, w: &mut NibbleWriter)
    ensures
        final(w)@ == old(w)@ + enc_varuint(gas as nat),
{
    encode_varuint(gas, w);
}

fn decode_gas(iter: &mut NibbleIter) -> (res: Result<u64, ParseError>)
    ensures
        final(iter).data() == old(iter).data(),
        old(iter).pos() <= final(iter).pos() <= final(iter).nibbles().len(),
        match res {
            Ok(gas) => dec_gas(old(iter).nibbles(), old(iter).pos() as int) == Ok::<
                (u64, int),
                ParseError,
            >((gas, final(iter).pos() as int)),
            Err(e) => dec_gas(old(iter).nibbles(), old(iter).pos() as int) == Err::<
                (u64, int),
                ParseError,
            >(e),
        },
{
    decode_varuint(iter, u64::MAX, Field::GasUsed)
}

fn encode_failure(of: ReceiptKind, error: &ReceiptError, gas_used: u64, w: &mut NibbleWriter)
    requires
        encode_utf8(error.message@).len() <= MAX_BLOB_LEN,
    ensures
        final(w)@ == old(w)@ + enc_receipt(
            ReceiptView::Failed { of, kind: error.kind, message: error.message@, gas_used },
        ),
{
    let ghost before = w@;
    let of_tag: u8 = match of {
        ReceiptKind::DeployTemplate => 0,
        ReceiptKind::SpawnApp => 1,
        ReceiptKind::ExecApp => 2,
    };
    let kind_tag: u8 = match error.kind {
        ErrorKind::Validation => 0,
        ErrorKind::AuthorMismatch => 1,
        ErrorKind::TemplateNotFound => 2,
        ErrorKind::AppNotFound => 3,
        ErrorKind::StateNotFound => 4,
        ErrorKind::OutOfGas => 5,
        ErrorKind::Execution => 6,
        ErrorKind::Busy => 7,
    };
    w.push(Nibble::new(of_tag));
    w.push(Nibble::new(0));
    w.push(Nibble::new(kind_tag));
    encode_blob(error.message.as_str().as_bytes(), w);
    encode_gas(gas_used, w);
    assert(w@ =~= before + enc_receipt(
        ReceiptView::Failed { of, kind: error.kind, message: error.message@, gas_used },
    ));
}

/// The bytes of the receipt of a deploy-template transaction.
pub fn encode_template_receipt(receipt: &TemplateReceipt) -> (bytes: Vec<u8>)
    requires
        receipt_encodable(receipt@),
    ensures
        bytes@ == receipt_bytes(receipt@),
{
    let mut w = NibbleWriter::new();
    match receipt {
        TemplateReceipt::Success { addr, gas_used } => {
            w.push(Nibble::new(0));
            w.push(Nibble::new(1));
            encode_address(addr.inner(), &mut w);
            encode_gas(*gas_used, &mut w);
        },
        TemplateReceipt::Failure { error, gas_used } => {
            encode_failure(ReceiptKind::DeployTemplate, error, *gas_used, &mut w);
        },
    }
    assert(w@ =~= enc_receipt(receipt@));
    w.into_bytes()
}

/// The bytes of the receipt of a spawn-app transaction.
pub fn encode_app_receipt(receipt: &SpawnAppReceipt) -> (bytes: Vec<u8>)
    requires
        receipt_encodable(receipt@),
    ensures
        bytes@ == receipt_bytes(receipt@),
{
    let mut w = NibbleWriter::new();
    match receipt {
        SpawnAppReceipt::Success { app_addr, init_state, results, gas_used } => {
            w.push(Nibble::new(1));
            w.push(Nibble::new(1));
            encode_address(app_addr.inner(), &mut w);
            encode_state(init_state, &mut w);
            encode_values(results.as_slice(), &mut w);
            encode_gas(*gas_used, &mut w);
        },
        SpawnAppReceipt::Failure { error, gas_used } => {
            encode_failure(ReceiptKind::SpawnApp, error, *gas_used, &mut w);
        },
    }
    assert(w@ =~= enc_receipt(receipt@));
    w.into_bytes()
}

/// The bytes of the receipt of an exec-app transaction.
pub fn encode_exec_receipt(receipt: &ExecReceipt) -> (bytes: Vec<u8>)
    requires
        receipt_encodable(receipt@),
    ensures
        bytes@ == receipt_bytes(receipt@),
{
    let mut w = NibbleWriter::new();
    match receipt {
        ExecReceipt::Success { new_state, results, gas_used } => {
            w.push(Nibble::new(2));
            w.push(Nibble::new(1));
            encode_state(new_state, &mut w);
            encode_values(results.as_slice(), &mut w);
            encode_gas(*gas_used, &mut w);
        },
        ExecReceipt::Failure { error, gas_used } => {
            encode_failure(ReceiptKind::ExecApp, error, *gas_used, &mut w);
        },
    }
    assert(w@ =~= enc_receipt(receipt@));
    w.into_bytes()
}

fn decode_failure(iter: &mut NibbleIter) -> (res: Result<(ReceiptError, u64), ParseError>)
    ensures
        final(iter).data() == old(iter).data(),
        old(iter).pos() <= final(iter).pos() <= final(iter).nibbles().len(),
        forall|of: ReceiptKind|
            match res {
                Ok((error, gas_used)) => #[trigger] dec_failure(
                    old(iter).nibbles(),
                    old(iter).pos() as int,
                    of,
                ) == Ok::<(ReceiptView, int), ParseError>(
                    (
                        ReceiptView::Failed {
                            of,
                            kind: error.kind,
                            message: error.message@,
                            gas_used,
                        },
                        final(iter).pos() as int,
                    ),
                ),
                Err(e) => #[trigger] dec_failure(old(iter).nibbles(), old(iter).pos() as int, of)
                    == Err::<(ReceiptView, int), ParseError>(e),
            },
{
    let tag = decode_tag(iter, 7, Field::ErrorKind)?;
    let kind = if tag == 0 {
        ErrorKind::Validation
    } else if tag == 1 {
        ErrorKind::AuthorMismatch
    } else if tag == 2 {
        ErrorKind::TemplateNotFound
    } else if tag == 3 {
        ErrorKind::AppNotFound
    } else if tag == 4 {
        ErrorKind::StateNotFound
    } else if tag == 5 {
        ErrorKind::OutOfGas
    } else if tag == 6 {
        ErrorKind::Execution
    } else {
        ErrorKind::Busy
    };
    let bytes = decode_blob(iter, Field::ErrorLength, Field::ErrorMessage)?;
    let message = match string_from_utf8(bytes) {
        Some(message) => message,
        None => {
            return Err(ParseError::InvalidUTF8String(Field::ErrorMessage));
        },
    };
    let gas_used = decode_gas(iter)?;
    Ok((ReceiptError { kind, message }, gas_used))
}

/// Reads a receipt. Fails with the error of the first field that is short,
/// malformed or invalid.
pub fn decode_receipt_at(iter: &mut NibbleIter) -> (res: Result<Receipt, ParseError>)
    ensures
        final(iter).data() == old(iter).data(),
        old(iter).pos() <= final(iter).pos() <= final(iter).nibbles().len(),
        match res {
            Ok(receipt) => dec_receipt(old(iter).nibbles(), old(iter).pos() as int) == Ok::<
                (ReceiptView, int),
                ParseError,
            >((receipt@, final(iter).pos() as int)),
            Err(e) => dec_receipt(old(iter).nibbles(), old(iter).pos() as int) == Err::<
                (ReceiptView, int),
                ParseError,
            >(e),
        },
{
    let kind = decode_tag(iter, 2, Field::ReceiptKind)?;
    let status = decode_tag(iter, 1, Field::ReceiptStatus)?;
    if status == 0 {
        let (error, gas_used) = decode_failure(iter)?;
        if kind == 0 {
            Ok(Receipt::DeployTemplate(TemplateReceipt::Failure { error, gas_used }))
        } else if kind == 1 {
            Ok(Receipt::SpawnApp(SpawnAppReceipt::Failure { error, gas_used }))
        } else {
            Ok(Receipt::ExecApp(ExecReceipt::Failure { error, gas_used }))
        }
    } else if kind == 0 {
        let addr = decode_address(iter, Field::TemplateAddr)?;
        let gas_used = decode_gas(iter)?;
        Ok(
            Receipt::DeployTemplate(
                TemplateReceipt::Success { addr: TemplateAddr::new(addr), gas_used },
            ),
        )
    } else if kind == 1 {
        let app_addr = decode_address(iter, Field::AppAddr)?;
        let init_state = decode_state(iter)?;
        let results = decode_values(iter)?;
        let gas_used = decode_gas(iter)?;
        Ok(
            Receipt::SpawnApp(
                SpawnAppReceipt::Success {
                    app_addr: AppAddr::new(app_addr),
                    init_state,
                    results,
                    gas_used,
                },
            ),
        )
    } else {
        let new_state = decode_state(iter)?;
        let results = decode_values(iter)?;
        let gas_used = decode_gas(iter)?;
        Ok(Receipt::ExecApp(ExecReceipt::Success { new_state, results, gas_used }))
    }
}

/// Reads a whole buffer as one receipt. Fails as [`decode_receipt_at`]
/// does, and with `ExpectedEOF` when more than the padding nibble follows
/// the receipt.
pub fn decode_receipt(bytes: &[u8]) -> (res: Result<Receipt, ParseError>)
    ensures
        match res {
            Ok(receipt) => parse_receipt(bytes@) == Ok::<ReceiptView, ParseError>(receipt@),
            Err(e) => parse_receipt(bytes@) == Err::<ReceiptView, ParseError>(e),
        },
{
    let mut iter = NibbleIter::new(bytes);
    let receipt = decode_receipt_at(&mut iter)?;
    iter.ensure_eof(ParseError::ExpectedEOF)?;
    Ok(receipt)
}

} // verus!

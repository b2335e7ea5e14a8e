//! The exec-app transaction on the wire.
//!
//! In order: the protocol version, the address of the app, the name of the
//! function and its call arguments.

use crate::codec::app::SUPPORTED_VERSION;
use crate::codec::error::{Field, ParseError};
use crate::codec::field::{
    at_eof, dec_abi_data, dec_address, dec_name, dec_version, decode_abi_data, decode_address,
    decode_nonempty_string, decode_version, enc_abi_data, enc_address, enc_string, enc_version,
    encode_abi_data, encode_address, encode_string, encode_version, framed, holds_at,
    lemma_dec_blob, lemma_dec_fixed, lemma_dec_name, lemma_dec_version, lemma_enc_is_nibbles,
    lemma_enc_varuint_is_nibbles, lemma_framed, lemma_holds_at_concat, MAX_BLOB_LEN,
    MAX_STRING_LEN,
};
use crate::nibble::{is_nibbles, nibbles_of, NibbleIter, NibbleWriter};
use crate::types::{AppAddr, AppTransaction, AppTransactionView, ADDRESS_LEN};
use vstd::prelude::*;
use vstd::utf8::encode_utf8;

verus! {

/// Whether the fields of `x` fit the wire format.
pub open spec fn exec_app_encodable(x: AppTransactionView) -> bool {
    &&& encode_utf8(x.func_name).len() <= MAX_STRING_LEN
    &&& x.calldata.len() <= MAX_BLOB_LEN
}

/// Whether a decoder accepts `x`: it fits the wire format, the address of
/// its app has 20 bytes, it is of the supported version and it names a
/// function.
pub open spec fn exec_app_valid(x: AppTransactionView) -> bool {
    &&& exec_app_encodable(x)
    &&& x.app.len() == ADDRESS_LEN
    &&& x.version == SUPPORTED_VERSION
    &&& x.func_name.len() > 0
}

/// The nibbles of an exec-app transaction.
pub open spec fn enc_exec_app(x: AppTransactionView) -> Seq<u8> {
    enc_version(x.version) + enc_address(x.app) + enc_string(x.func_name) + enc_abi_data(
        x.calldata,
    )
}

/// What a decoder finds at `pos` as an exec-app transaction.
pub open spec fn dec_exec_app(s: Seq<u8>, pos: int) -> Result<
    (AppTransactionView, int),
    ParseError,
> {
    match dec_version(s, pos) {
        Err(e) => Err(e),
        Ok((version, pos1)) => if version != SUPPORTED_VERSION {
            Err(ParseError::UnsupportedProtoVersion(version))
        } else {
            match dec_address(s, pos1, Field::AppAddr) {
                Err(e) => Err(e),
                Ok((app, pos2)) => match dec_name(s, pos2, Field::FuncLength, Field::Func) {
                    Err(e) => Err(e),
                    Ok((func_name, pos3)) => match dec_abi_data(s, pos3) {
                        Err(e) => Err(e),
                        Ok((calldata, pos4)) => Ok(
                            (AppTransactionView { version, app, func_name, calldata }, pos4),
                        ),
                    },
                },
            }
        },
    }
}

/// The bytes of an exec-app transaction.
pub open spec fn exec_app_bytes(x: AppTransactionView) -> Seq<u8> {
    framed(enc_exec_app(x))
}

/// What a whole buffer holds as an exec-app transaction: the transaction at
/// its start, and after it nothing but the padding nibble.
pub open spec fn parse_exec_app(bytes: Seq<u8>) -> Result<AppTransactionView, ParseError> {
    match dec_exec_app(nibbles_of(bytes), 0) {
        Err(e) => Err(e),
        Ok((x, next)) => if at_eof(nibbles_of(bytes), next) {
            Ok(x)
        } else {
            Err(ParseError::ExpectedEOF)
        },
    }
}

/// The encoding of an exec-app transaction is made of nibbles.
pub proof fn lemma_enc_exec_app_is_nibbles(x: AppTransactionView)
    ensures
        is_nibbles(enc_exec_app(x)),
{
    lemma_enc_varuint_is_nibbles(x.version as nat);
    lemma_enc_is_nibbles(x.func_name, x.app);
    lemma_enc_is_nibbles(x.func_name, x.calldata);
}

/// Decoding finds the transaction where its encoding stands, whatever
/// follows.
pub proof fn lemma_dec_exec_app(s: Seq<u8>, pos: int, x: AppTransactionView)
    requires
        exec_app_valid(x),
        holds_at(s, pos, enc_exec_app(x)),
    ensures
        dec_exec_app(s, pos) == Ok::<(AppTransactionView, int), ParseError>(
            (x, pos + enc_exec_app(x).len()),
        ),
{
    let e1 = enc_version(x.version);
    let e2 = enc_address(x.app);
    let e3 = enc_string(x.func_name);
    let e4 = enc_abi_data(x.calldata);
    lemma_holds_at_concat(s, pos, e1 + e2 + e3, e4);
    lemma_holds_at_concat(s, pos, e1 + e2, e3);
    lemma_holds_at_concat(s, pos, e1, e2);
    let pos1 = pos + e1.len();
    let pos2 = pos1 + e2.len();
    let pos3 = pos2 + e3.len();
    lemma_dec_version(s, pos, x.version);
    lemma_dec_fixed(s, pos1, x.app, Field::AppAddr);
    lemma_dec_name(s, pos2, x.func_name, Field::FuncLength, Field::Func);
    lemma_dec_blob(s, pos3, x.calldata, Field::CalldataLength, Field::Calldata);
}

/// An exec-app transaction that a decoder accepts comes back from its bytes
/// unchanged, and the decoder reads them to the end: after the transaction
/// at most the padding nibble is left.
pub proof fn lemma_exec_app_round_trip(x: AppTransactionView)
    requires
        exec_app_valid(x),
    ensures
        parse_exec_app(exec_app_bytes(x)) == Ok::<AppTransactionView, ParseError>(x),
        dec_exec_app(nibbles_of(exec_app_bytes(x)), 0) == Ok::<
            (AppTransactionView, int),
            ParseError,
        >((x, enc_exec_app(x).len() as int)),
        at_eof(nibbles_of(exec_app_bytes(x)), enc_exec_app(x).len() as int),
{
    lemma_enc_exec_app_is_nibbles(x);
    lemma_framed(enc_exec_app(x));
    lemma_dec_exec_app(nibbles_of(exec_app_bytes(x)), 0, x);
}

/// Appends an exec-app transaction.
pub fn encode_exec_app(tx: &AppTransaction, w: &mut NibbleWriter)
    requires
        exec_app_encodable(tx@),
    ensures
        final(w)@ == old(w)@ + enc_exec_app(tx@),
{
    let ghost before = w@;
    encode_version(tx.version, w);
    encode_address(tx.app.inner(), w);
    encode_string(tx.func_name.as_str(), w);
    encode_abi_data(tx.calldata.as_slice(), w);
    assert(w@ =~= before + enc_exec_app(tx@));
}

/// Reads an exec-app transaction. Fails with the error of the first field
/// that is short, malformed or invalid.
pub fn decode_exec_app(iter: &mut NibbleIter) -> (res: Result<AppTransaction, ParseError>)
    ensures
        final(iter).data() == old(iter).data(),
        old(iter).pos() <= final(iter).pos() <= final(iter).nibbles().len(),
        match res {
            Ok(tx) => dec_exec_app(old(iter).nibbles(), old(iter).pos() as int) == Ok::<
                (AppTransactionView, int),
                ParseError,
            >((tx@, final(iter).pos() as int)),
            Err(e) => dec_exec_app(old(iter).nibbles(), old(iter).pos() as int) == Err::<
                (AppTransactionView, int),
                ParseError,
            >(e),
        },
{
    let version = decode_version(iter)?;
    if version != SUPPORTED_VERSION {
        return Err(ParseError::UnsupportedProtoVersion(version));
    }
    let app = decode_address(iter, Field::AppAddr)?;
    let func_name = decode_nonempty_string(iter, Field::FuncLength, Field::Func)?;
    let calldata = decode_abi_data(iter)?;

    Ok(AppTransaction { version, app: AppAddr::new(app), func_name, calldata })
}

/// The bytes of an exec-app transaction.
pub fn exec_app_to_bytes(tx: &AppTransaction) -> (bytes: Vec<u8>)
    requires
        exec_app_encodable(tx@),
    ensures
        bytes@ == exec_app_bytes(tx@),
{
    let mut w = NibbleWriter::new();
    encode_exec_app(tx, &mut w);
    assert(w@ =~= enc_exec_app(tx@));
    w.into_bytes()
}

/// Reads a whole buffer as one exec-app transaction. Fails as
/// [`decode_exec_app`] does, and with `ExpectedEOF` when more than the
/// padding nibble follows the transaction.
pub fn exec_app_from_bytes(bytes: &[u8]) -> (res: Result<AppTransaction, ParseError>)
    ensures
        match res {
            Ok(tx) => parse_exec_app(bytes@) == Ok::<AppTransactionView, ParseError>(tx@),
            Err(e) => parse_exec_app(bytes@) == Err::<AppTransactionView, ParseError>(e),
        },
{
    let mut iter = NibbleIter::new(bytes);
    let tx = decode_exec_app(&mut iter)?;
    iter.ensure_eof(ParseError::ExpectedEOF)?;
    Ok(tx)
}

} // verus!

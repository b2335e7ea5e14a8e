//! The spawn-app transaction on the wire.
//!
//! In order: the protocol version, the address of the template, the name of
//! the app, the name of the constructor and its call arguments.

use crate::codec::error::{Field, ParseError};
use crate::codec::field::{
    at_eof, dec_abi_data, dec_address, dec_name, dec_version, decode_abi_data, decode_address,
    decode_nonempty_string, enc_abi_data, enc_address, enc_string, enc_version, encode_abi_data,
    encode_address, encode_string, framed, holds_at, lemma_dec_blob, lemma_dec_fixed,
    lemma_dec_name, lemma_dec_version, lemma_enc_is_nibbles, lemma_enc_varuint_is_nibbles,
    lemma_framed, lemma_holds_at_concat, MAX_BLOB_LEN, MAX_STRING_LEN,
};
use crate::nibble::{is_nibbles, nibbles_of, NibbleIter, NibbleWriter};
use crate::types::{App, SpawnApp, SpawnAppView, TemplateAddr, ADDRESS_LEN};
use vstd::prelude::*;
use vstd::utf8::encode_utf8;

verus! {

/// The one protocol version that decoders accept.
pub const SUPPORTED_VERSION: u32 = 0;

/// Whether the fields of `x` fit the wire format.
pub open spec fn spawn_app_encodable(x: SpawnAppView) -> bool {
    &&& encode_utf8(x.name).len() <= MAX_STRING_LEN
    &&& encode_utf8(x.ctor_name).len() <= MAX_STRING_LEN
    &&& x.calldata.len() <= MAX_BLOB_LEN
}

/// Whether a decoder accepts `x`: it fits the wire format, the address of
/// its template has 20 bytes, it is of the supported version and it names
/// its app and its constructor.
pub open spec fn spawn_app_valid(x: SpawnAppView) -> bool {
    &&& spawn_app_encodable(x)
    &&& x.template.len() == ADDRESS_LEN
    &&& x.version == SUPPORTED_VERSION
    &&& x.name.len() > 0
    &&& x.ctor_name.len() > 0
}

/// The nibbles of a spawn-app transaction.
pub open spec fn enc_spawn_app(x: SpawnAppView) -> Seq<u8> {
    enc_version(x.version) + enc_address(x.template) + enc_string(x.name) + enc_string(
        x.ctor_name,
    ) + enc_abi_data(x.calldata)
}

/// What a decoder finds at `pos` as a spawn-app transaction.
pub open spec fn dec_spawn_app(s: Seq<u8>, pos: int) -> Result<(SpawnAppView, int), ParseError> {
    match dec_version(s, pos) {
        Err(e) => Err(e),
        Ok((version, pos1)) => if version != SUPPORTED_VERSION {
            Err(ParseError::UnsupportedProtoVersion(version))
        } else {
            match dec_address(s, pos1, Field::TemplateAddr) {
                Err(e) => Err(e),
                Ok((template, pos2)) => match dec_name(s, pos2, Field::NameLength, Field::Name) {
                    Err(e) => Err(e),
                    Ok((name, pos3)) => match dec_name(s, pos3, Field::CtorLength, Field::Ctor) {
                        Err(e) => Err(e),
                        Ok((ctor_name, pos4)) => match dec_abi_data(s, pos4) {
                            Err(e) => Err(e),
                            Ok((calldata, pos5)) => Ok(
                                (
                                    SpawnAppView { version, template, name, ctor_name, calldata },
                                    pos5,
                                ),
                            ),
                        },
                    },
                },
            }
        },
    }
}

/// The bytes of a spawn-app transaction.
pub open spec fn spawn_app_bytes(x: SpawnAppView) -> Seq<u8> {
    framed(enc_spawn_app(x))
}

/// What a whole buffer holds as a spawn-app transaction: the transaction at
/// its start, and after it nothing but the padding nibble.
pub open spec fn parse_spawn_app(bytes: Seq<u8>) -> Result<SpawnAppView, ParseError> {
    match dec_spawn_app(nibbles_of(bytes), 0) {
        Err(e) => Err(e),
        Ok((x, next)) => if at_eof(nibbles_of(bytes), next) {
            Ok(x)
        } else {
            Err(ParseError::ExpectedEOF)
        },
    }
}

/// The encoding of a spawn-app transaction is made of nibbles.
pub proof fn lemma_enc_spawn_app_is_nibbles(x: SpawnAppView)
    ensures
        is_nibbles(enc_spawn_app(x)),
{
    lemma_enc_varuint_is_nibbles(x.version as nat);
    lemma_enc_is_nibbles(x.name, x.template);
    lemma_enc_is_nibbles(x.ctor_name, x.calldata);
}

/// Decoding finds the transaction where its encoding stands, whatever
/// follows.
pub proof fn lemma_dec_spawn_app(s: Seq<u8>, pos: int, x: SpawnAppView)
    requires
        spawn_app_valid(x),
        holds_at(s, pos, enc_spawn_app(x)),
    ensures
        dec_spawn_app(s, pos) == Ok::<(SpawnAppView, int), ParseError>(
            (x, pos + enc_spawn_app(x).len()),
        ),
{
    let e1 = enc_version(x.version);
    let e2 = enc_address(x.template);
    let e3 = enc_string(x.name);
    let e4 = enc_string(x.ctor_name);
    let e5 = enc_abi_data(x.calldata);
    lemma_holds_at_concat(s, pos, e1 + e2 + e3 + e4, e5);
    lemma_holds_at_concat(s, pos, e1 + e2 + e3, e4);
    lemma_holds_at_concat(s, pos, e1 + e2, e3);
    lemma_holds_at_concat(s, pos, e1, e2);
    let pos1 = pos + e1.len();
    let pos2 = pos1 + e2.len();
    let pos3 = pos2 + e3.len();
    let pos4 = pos3 + e4.len();
    lemma_dec_version(s, pos, x.version);
    lemma_dec_fixed(s, pos1, x.template, Field::TemplateAddr);
    lemma_dec_name(s, pos2, x.name, Field::NameLength, Field::Name);
    lemma_dec_name(s, pos3, x.ctor_name, Field::CtorLength, Field::Ctor);
    lemma_dec_blob(s, pos4, x.calldata, Field::CalldataLength, Field::Calldata);
}

/// A spawn-app transaction that a decoder accepts comes back from its bytes
/// unchanged, and the decoder reads them to the end: after the transaction
/// at most the padding nibble is left.
pub proof fn lemma_spawn_app_round_trip(x: SpawnAppView)
    requires
        spawn_app_valid(x),
    ensures
        parse_spawn_app(spawn_app_bytes(x)) == Ok::<SpawnAppView, ParseError>(x),
        dec_spawn_app(nibbles_of(spawn_app_bytes(x)), 0) == Ok::<(SpawnAppView, int), ParseError>(
            (x, enc_spawn_app(x).len() as int),
        ),
        at_eof(nibbles_of(spawn_app_bytes(x)), enc_spawn_app(x).len() as int),
{
    lemma_enc_spawn_app_is_nibbles(x);
    lemma_framed(enc_spawn_app(x));
    lemma_dec_spawn_app(nibbles_of(spawn_app_bytes(x)), 0, x);
}

/// Appends a spawn-app transaction.
pub fn encode_spawn_app(spawn: &SpawnApp, w: &mut NibbleWriter)
    requires
        spawn_app_encodable(spawn@),
    ensures
        final(w)@ == old(w)@ + enc_spawn_app(spawn@),
{
    let ghost before = w@;
    encode_version(spawn, w);
    encode_template(spawn, w);
    encode_name(spawn, w);
    encode_ctor(spawn, w);
    encode_ctor_calldata(spawn, w);
    assert(w@ =~= before + enc_spawn_app(spawn@));
}

/// Reads a spawn-app transaction. Fails with the error of the first field
/// that is short, malformed or invalid.
pub fn decode_spawn_app(iter: &mut NibbleIter) -> (res: Result<SpawnApp, ParseError>)
    ensures
        final(iter).data() == old(iter).data(),
        old(iter).pos() <= final(iter).pos() <= final(iter).nibbles().len(),
        match res {
            Ok(spawn) => dec_spawn_app(old(iter).nibbles(), old(iter).pos() as int) == Ok::<
                (SpawnAppView, int),
                ParseError,
            >((spawn@, final(iter).pos() as int)),
            Err(e) => dec_spawn_app(old(iter).nibbles(), old(iter).pos() as int) == Err::<
                (SpawnAppView, int),
                ParseError,
            >(e),
        },
{
    let version = crate::codec::field::decode_version(iter)?;
    if version != SUPPORTED_VERSION {
        return Err(ParseError::UnsupportedProtoVersion(version));
    }
    let template = decode_template(iter)?;
    let name = decode_name(iter)?;
    let ctor_name = decode_ctor(iter)?;
    let calldata = decode_ctor_calldata(iter)?;

    let app = App { version, name, template };

    let spawn = SpawnApp { app, ctor_name, calldata };

    Ok(spawn)
}

/// The bytes of a spawn-app transaction.
pub fn spawn_app_to_bytes(spawn: &SpawnApp) -> (bytes: Vec<u8>)
    requires
        spawn_app_encodable(spawn@),
    ensures
        bytes@ == spawn_app_bytes(spawn@),
{
    let mut w = NibbleWriter::new();
    encode_spawn_app(spawn, &mut w);
    assert(w@ =~= enc_spawn_app(spawn@));
    w.into_bytes()
}

/// Reads a whole buffer as one spawn-app transaction. Fails as
/// [`decode_spawn_app`] does, and with `ExpectedEOF` when more than the
/// padding nibble follows the transaction.
pub fn spawn_app_from_bytes(bytes: &[u8]) -> (res: Result<SpawnApp, ParseError>)
    ensures
        match res {
            Ok(spawn) => parse_spawn_app(bytes@) == Ok::<SpawnAppView, ParseError>(spawn@),
            Err(e) => parse_spawn_app(bytes@) == Err::<SpawnAppView, ParseError>(e),
        },
{
    let mut iter = NibbleIter::new(bytes);
    let spawn = decode_spawn_app(&mut iter)?;
    iter.ensure_eof(ParseError::ExpectedEOF)?;
    Ok(spawn)
}

fn encode_version(spawn: &SpawnApp, w: &mut NibbleWriter)
    ensures
        final(w)@ == old(w)@ + enc_version(spawn@.version),
{
    let version = spawn.app.version;
    crate::codec::field::encode_version(version, w);
}

fn encode_name(spawn: &SpawnApp, w: &mut NibbleWriter)
    requires
        encode_utf8(spawn@.name).len() <= MAX_STRING_LEN,
    ensures
        final(w)@ == old(w)@ + enc_string(spawn@.name),
{
    let name = &spawn.app.name;
    encode_string(name.as_str(), w);
}

fn encode_template(spawn: &SpawnApp, w: &mut NibbleWriter)
    ensures
        final(w)@ == old(w)@ + enc_address(spawn@.template),
{
    let template = &spawn.app.template;
    encode_address(template.inner(), w);
}

fn encode_ctor(spawn: &SpawnApp, w: &mut NibbleWriter)
    requires
        encode_utf8(spawn@.ctor_name).len() <= MAX_STRING_LEN,
    ensures
        final(w)@ == old(w)@ + enc_string(spawn@.ctor_name),
{
    let ctor_name = &spawn.ctor_name;

    encode_string(ctor_name.as_str(), w);
}

fn encode_ctor_calldata(spawn: &SpawnApp, w: &mut NibbleWriter)
    requires
        spawn@.calldata.len() <= MAX_BLOB_LEN,
    ensures
        final(w)@ == old(w)@ + enc_abi_data(spawn@.calldata),
{
    let ctor_calldata = spawn.calldata.as_slice();
    encode_abi_data(ctor_calldata, w);
}

fn decode_template(iter: &mut NibbleIter) -> (res: Result<TemplateAddr, ParseError>)
    ensures
        final(iter).data() == old(iter).data(),
        old(iter).pos() <= final(iter).pos() <= final(iter).nibbles().len(),
        match res {
            Ok(addr) => dec_address(
                old(iter).nibbles(),
                old(iter).pos() as int,
                Field::TemplateAddr,
            ) == Ok::<(Seq<u8>, int), ParseError>((addr@, final(iter).pos() as int)),
            Err(e) => dec_address(old(iter).nibbles(), old(iter).pos() as int, Field::TemplateAddr)
                == Err::<(Seq<u8>, int), ParseError>(e),
        },
{
    let addr = decode_address(iter, Field::TemplateAddr)?;

    Ok(TemplateAddr::new(addr))
}

/// Reads the name of the app, which may not be empty.
pub fn decode_name(iter: &mut NibbleIter) -> (res: Result<String, ParseError>)
    ensures
        final(iter).data() == old(iter).data(),
        old(iter).pos() <= final(iter).pos() <= final(iter).nibbles().len(),
        match res {
            Ok(text) => dec_name(
                old(iter).nibbles(),
                old(iter).pos() as int,
                Field::NameLength,
                Field::Name,
            ) == Ok::<(Seq<char>, int), ParseError>((text@, final(iter).pos() as int)),
            Err(e) => dec_name(
                old(iter).nibbles(),
                old(iter).pos() as int,
                Field::NameLength,
                Field::Name,
            ) == Err::<(Seq<char>, int), ParseError>(e),
        },
{
    decode_nonempty_string(iter, Field::NameLength, Field::Name)
}

/// Reads the name of the constructor, which may not be empty.
pub fn decode_ctor(iter: &mut NibbleIter) -> (res: Result<String, ParseError>)
    ensures
        final(iter).data() == old(iter).data(),
        old(iter).pos() <= final(iter).pos() <= final(iter).nibbles().len(),
        match res {
            Ok(text) => dec_name(
                old(iter).nibbles(),
                old(iter).pos() as int,
                Field::CtorLength,
                Field::Ctor,
            ) == Ok::<(Seq<char>, int), ParseError>((text@, final(iter).pos() as int)),
            Err(e) => dec_name(
                old(iter).nibbles(),
                old(iter).pos() as int,
                Field::CtorLength,
                Field::Ctor,
            ) == Err::<(Seq<char>, int), ParseError>(e),
        },
{
    decode_nonempty_string(iter, Field::CtorLength, Field::Ctor)
}

/// Reads the call arguments of the constructor.
pub fn decode_ctor_calldata(iter: &mut NibbleIter) -> (res: Result<Vec<u8>, ParseError>)
    ensures
        final(iter).data() == old(iter).data(),
        old(iter).pos() <= final(iter).pos() <= final(iter).nibbles().len(),
        match res {
            Ok(bytes) => dec_abi_data(old(iter).nibbles(), old(iter).pos() as int) == Ok::<
                (Seq<u8>, int),
                ParseError,
            >((bytes@, final(iter).pos() as int)),
            Err(e) => dec_abi_data(old(iter).nibbles(), old(iter).pos() as int) == Err::<
                (Seq<u8>, int),
                ParseError,
            >(e),
        },
{
    decode_abi_data(iter)
}

} // verus!

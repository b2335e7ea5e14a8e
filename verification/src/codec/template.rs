//! The deploy-template transaction on the wire.
//!
//! In order: the protocol version, the address of the author, the name of
//! the template, its code and its data layout.

use crate::codec::app::SUPPORTED_VERSION;
use crate::codec::error::{Field, ParseError};
use crate::codec::field::{
    at_eof, dec_address, dec_blob, dec_name, dec_varuint, dec_version, decode_address,
    decode_blob, decode_nonempty_string, decode_varuint, decode_version, enc_address, enc_blob,
    enc_string, enc_varuint, enc_version, encode_address, encode_blob, encode_string,
    encode_varuint, encode_version, framed, holds_at, lemma_dec_blob, lemma_dec_fixed,
    lemma_dec_name, lemma_dec_varuint, lemma_dec_version, lemma_enc_is_nibbles,
    lemma_enc_varuint_is_nibbles, lemma_framed, lemma_holds_at_concat, MAX_BLOB_LEN,
    MAX_STRING_LEN,
};
use crate::nibble::{is_nibbles, nibbles_of, NibbleIter, NibbleWriter};
use crate::types::{AppTemplate, AppTemplateView, AuthorAddr, DataLayout, ADDRESS_LEN};
use vstd::prelude::*;
use vstd::utf8::encode_utf8;

verus! {

/// The largest number of variables of a data layout on the wire.
pub const MAX_LAYOUT_VARS: usize = 0xFFFF_FFFF;

/// The nibbles of the variable lengths `vars`, one variable-width integer
/// each.
pub open spec fn enc_vars(vars: Seq<u32>) -> Seq<u8>
    decreases vars.len(),
{
    if vars.len() == 0 {
        Seq::empty()
    } else {
        enc_varuint(vars[0] as nat) + enc_vars(vars.drop_first())
    }
}

/// The nibbles of a data layout: the number of variables, then the length of
/// each.
pub open spec fn enc_layout(vars: Seq<u32>) -> Seq<u8> {
    enc_varuint(vars.len()) + enc_vars(vars)
}

/// What a decoder finds at `pos` as `count` variable lengths.
pub open spec fn dec_vars(s: Seq<u8>, pos: int, count: nat) -> Result<(Seq<u32>, int), ParseError>
    decreases count,
{
    if count == 0 {
        Ok((Seq::empty(), pos))
    } else {
        match dec_varuint(s, pos, 0, u32::MAX as nat, Field::LayoutVar) {
            Err(e) => Err(e),
            Ok((var, next)) => with_first(var as u32, dec_vars(s, next, (count - 1) as nat)),
        }
    }
}

/// `rest` with `var` put before the lengths it found.
pub open spec fn with_first(var: u32, rest: Result<(Seq<u32>, int), ParseError>) -> Result<
    (Seq<u32>, int),
    ParseError,
> {
    match rest {
        Err(e) => Err(e),
        Ok((vars, next)) => Ok((seq![var] + vars, next)),
    }
}

/// `rest` with `head` put before the lengths it found.
pub open spec fn with_head(head: Seq<u32>, rest: Result<(Seq<u32>, int), ParseError>) -> Result<
    (Seq<u32>, int),
    ParseError,
> {
    match rest {
        Err(e) => Err(e),
        Ok((vars, next)) => Ok((head + vars, next)),
    }
}

/// What a decoder finds at `pos` as a data layout.
pub open spec fn dec_layout(s: Seq<u8>, pos: int) -> Result<(Seq<u32>, int), ParseError> {
    match dec_varuint(s, pos, 0, MAX_LAYOUT_VARS as nat, Field::LayoutCount) {
        Err(e) => Err(e),
        Ok((count, next)) => dec_vars(s, next, count),
    }
}

/// The encoding of variable lengths is made of nibbles.
pub proof fn lemma_enc_vars_is_nibbles(vars: Seq<u32>)
    ensures
        is_nibbles(enc_vars(vars)),
        is_nibbles(enc_layout(vars)),
    decreases vars.len(),
{
    lemma_enc_varuint_is_nibbles(vars.len());
    if vars.len() > 0 {
        lemma_enc_varuint_is_nibbles(vars[0] as nat);
        lemma_enc_vars_is_nibbles(vars.drop_first());
    }
}

/// Decoding finds the variable lengths where their encoding stands.
pub proof fn lemma_dec_vars(s: Seq<u8>, pos: int, vars: Seq<u32>)
    requires
        holds_at(s, pos, enc_vars(vars)),
    ensures
        dec_vars(s, pos, vars.len()) == Ok::<(Seq<u32>, int), ParseError>(
            (vars, pos + enc_vars(vars).len()),
        ),
    decreases vars.len(),
{
    if vars.len() > 0 {
        let first = enc_varuint(vars[0] as nat);
        let rest = vars.drop_first();
        lemma_holds_at_concat(s, pos, first, enc_vars(rest));
        lemma_dec_varuint(s, pos, vars[0] as nat, u32::MAX as nat, Field::LayoutVar);
        lemma_dec_vars(s, pos + first.len(), rest);
        assert(seq![vars[0]] + rest =~= vars);
        assert(dec_vars(s, pos, vars.len()) == with_first(
            vars[0],
            dec_vars(s, pos + first.len(), rest.len()),
        ));
    } else {
        assert(vars =~= Seq::<u32>::empty());
    }
}

/// Decoding finds the layout where its encoding stands.
pub proof fn lemma_dec_layout(s: Seq<u8>, pos: int, vars: Seq<u32>)
    requires
        holds_at(s, pos, enc_layout(vars)),
        vars.len() <= MAX_LAYOUT_VARS,
    ensures
        dec_layout(s, pos) == Ok::<(Seq<u32>, int), ParseError>(
            (vars, pos + enc_layout(vars).len()),
        ),
{
    let count = enc_varuint(vars.len());
    lemma_holds_at_concat(s, pos, count, enc_vars(vars));
    lemma_dec_varuint(s, pos, vars.len(), MAX_LAYOUT_VARS as nat, Field::LayoutCount);
    lemma_dec_vars(s, pos + count.len(), vars);
}

/// Appends a data layout of fewer than 2^32 variables.
pub fn encode_layout(layout: &DataLayout, w: &mut NibbleWriter)
    requires
        layout@.len() <= MAX_LAYOUT_VARS,
    ensures
        final(w)@ == old(w)@ + enc_layout(layout@),
{
    let n = layout.len();
    encode_varuint(n as u64, w);
    let ghost after_count = w@;
    let mut i: usize = 0;
    assert(layout@.skip(0) =~= layout@);
    while i < n
        invariant
            i <= n,
            n == layout@.len(),
            after_count == old(w)@ + enc_varuint(n as nat),
            w@ + enc_vars(layout@.skip(i as int)) =~= after_count + enc_vars(layout@),
        decreases n - i,
    {
        let ghost before = w@;
        let ghost rest = layout@.skip(i as int);
        encode_varuint(layout.var_len(i) as u64, w);
        proof {
            assert(rest.drop_first() =~= layout@.skip(i + 1));
            assert(before + enc_vars(rest) =~= w@ + enc_vars(layout@.skip(i + 1)));
        }
        i += 1;
    }
    assert(enc_vars(layout@.skip(n as int)) =~= Seq::<u8>::empty());
    assert(w@ =~= old(w)@ + enc_layout(layout@));
}

/// Reads a data layout. Fails as [`decode_varuint`] does on the count and
/// on the first variable length that is short or too large.
pub fn decode_layout(iter: &mut NibbleIter) -> (res: Result<DataLayout, ParseError>)
    ensures
        final(iter).data() == old(iter).data(),
        old(iter).pos() <= final(iter).pos() <= final(iter).nibbles().len(),
        match res {
            Ok(layout) => dec_layout(old(iter).nibbles(), old(iter).pos() as int) == Ok::<
                (Seq<u32>, int),
                ParseError,
            >((layout@, final(iter).pos() as int)),
            Err(e) => dec_layout(old(iter).nibbles(), old(iter).pos() as int) == Err::<
                (Seq<u32>, int),
                ParseError,
            >(e),
        },
{
    let ghost s = iter.nibbles();
    let count = decode_varuint(iter, 0xFFFF_FFFF, Field::LayoutCount)?;
    let ghost start = iter.pos() as int;
    let mut vars: Vec<u32> = Vec::new();
    let mut i: u64 = 0;
    assert(with_head(vars@, dec_vars(s, start, count as nat)) =~= dec_vars(s, start, count as nat))
        by {
        let r = dec_vars(s, start, count as nat);
        if r is Ok {
            assert(vars@ + r->Ok_0.0 =~= r->Ok_0.0);
        }
    }
    while i < count
        invariant
            i <= count,
            iter.data() == old(iter).data(),
            s == old(iter).nibbles(),
            old(iter).pos() <= start <= iter.pos() <= s.len(),
            vars@.len() == i,
            dec_layout(s, old(iter).pos() as int) == dec_vars(s, start, count as nat),
            dec_vars(s, start, count as nat) == with_head(
                vars@,
                dec_vars(s, iter.pos() as int, (count - i) as nat),
            ),
        decreases count - i,
    {
        let ghost at = iter.pos() as int;
        let ghost head = vars@;
        let var = match decode_varuint(iter, 0xFFFF_FFFF, Field::LayoutVar) {
            Ok(var) => var,
            Err(e) => {
                assert(dec_vars(s, at, (count - i) as nat) == Err::<(Seq<u32>, int), ParseError>(
                    e,
                ));
                return Err(e);
            },
        };
        vars.push(var as u32);
        proof {
            let rest = dec_vars(s, iter.pos() as int, (count - i - 1) as nat);
            assert(dec_vars(s, at, (count - i) as nat) == with_first(var as u32, rest));
            if rest is Ok {
                assert(head + (seq![var as u32] + rest->Ok_0.0) =~= vars@ + rest->Ok_0.0);
            }
        }
        i += 1;
    }
    assert(vars@ + Seq::<u32>::empty() =~= vars@);
    Ok(DataLayout::new(vars))
}

/// Whether the fields of a template and its author fit the wire format.
pub open spec fn deploy_template_encodable(t: AppTemplateView, author: Seq<u8>) -> bool {
    &&& encode_utf8(t.name).len() <= MAX_STRING_LEN
    &&& t.code.len() <= MAX_BLOB_LEN
    &&& t.data.len() <= MAX_LAYOUT_VARS
}

/// Whether a decoder accepts the template: it fits the wire format, the
/// address of its author has 20 bytes, it is of the supported version and it
/// has a name.
pub open spec fn deploy_template_valid(t: AppTemplateView, author: Seq<u8>) -> bool {
    &&& deploy_template_encodable(t, author)
    &&& author.len() == ADDRESS_LEN
    &&& t.version == SUPPORTED_VERSION
    &&& t.name.len() > 0
}

/// The nibbles of a deploy-template transaction.
pub open spec fn enc_deploy_template(t: AppTemplateView, author: Seq<u8>) -> Seq<u8> {
    enc_version(t.version) + enc_address(author) + enc_string(t.name) + enc_blob(t.code)
        + enc_layout(t.data)
}

/// What a decoder finds at `pos` as a deploy-template transaction: the
/// template and the address of its author.
pub open spec fn dec_deploy_template(s: Seq<u8>, pos: int) -> Result<
    ((AppTemplateView, Seq<u8>), int),
    ParseError,
> {
    match dec_version(s, pos) {
        Err(e) => Err(e),
        Ok((version, pos1)) => if version != SUPPORTED_VERSION {
            Err(ParseError::UnsupportedProtoVersion(version))
        } else {
            match dec_address(s, pos1, Field::Author) {
                Err(e) => Err(e),
                Ok((author, pos2)) => match dec_name(s, pos2, Field::NameLength, Field::Name) {
                    Err(e) => Err(e),
                    Ok((name, pos3)) => match dec_blob(s, pos3, Field::CodeLength, Field::Code) {
                        Err(e) => Err(e),
                        Ok((code, pos4)) => match dec_layout(s, pos4) {
                            Err(e) => Err(e),
                            Ok((data, pos5)) => Ok(
                                ((AppTemplateView { version, name, code, data }, author), pos5),
                            ),
                        },
                    },
                },
            }
        },
    }
}

/// The bytes of a deploy-template transaction.
pub open spec fn deploy_template_bytes(t: AppTemplateView, author: Seq<u8>) -> Seq<u8> {
    framed(enc_deploy_template(t, author))
}

/// What a whole buffer holds as a deploy-template transaction: the
/// transaction at its start, and after it nothing but the padding nibble.
pub open spec fn parse_deploy_template(bytes: Seq<u8>) -> Result<
    (AppTemplateView, Seq<u8>),
    ParseError,
> {
    match dec_deploy_template(nibbles_of(bytes), 0) {
        Err(e) => Err(e),
        Ok((x, next)) => if at_eof(nibbles_of(bytes), next) {
            Ok(x)
        } else {
            Err(ParseError::ExpectedEOF)
        },
    }
}

/// The encoding of a deploy-template transaction is made of nibbles.
pub proof fn lemma_enc_deploy_template_is_nibbles(t: AppTemplateView, author: Seq<u8>)
    ensures
        is_nibbles(enc_deploy_template(t, author)),
{
    lemma_enc_varuint_is_nibbles(t.version as nat);
    lemma_enc_is_nibbles(t.name, author);
    lemma_enc_is_nibbles(t.name, t.code);
    lemma_enc_vars_is_nibbles(t.data);
}

/// Decoding finds the transaction where its encoding stands, whatever
/// follows.
pub proof fn lemma_dec_deploy_template(s: Seq<u8>, pos: int, t: AppTemplateView, author: Seq<u8>)
    requires
        deploy_template_valid(t, author),
        holds_at(s, pos, enc_deploy_template(t, author)),
    ensures
        dec_deploy_template(s, pos) == Ok::<((AppTemplateView, Seq<u8>), int), ParseError>(
            ((t, author), pos + enc_deploy_template(t, author).len()),
        ),
{
    let e1 = enc_version(t.version);
    let e2 = enc_address(author);
    let e3 = enc_string(t.name);
    let e4 = enc_blob(t.code);
    let e5 = enc_layout(t.data);
    lemma_holds_at_concat(s, pos, e1 + e2 + e3 + e4, e5);
    lemma_holds_at_concat(s, pos, e1 + e2 + e3, e4);
    lemma_holds_at_concat(s, pos, e1 + e2, e3);
    lemma_holds_at_concat(s, pos, e1, e2);
    let pos1 = pos + e1.len();
    let pos2 = pos1 + e2.len();
    let pos3 = pos2 + e3.len();
    let pos4 = pos3 + e4.len();
    lemma_dec_version(s, pos, t.version);
    lemma_dec_fixed(s, pos1, author, Field::Author);
    lemma_dec_name(s, pos2, t.name, Field::NameLength, Field::Name);
    lemma_dec_blob(s, pos3, t.code, Field::CodeLength, Field::Code);
    lemma_dec_layout(s, pos4, t.data);
}

/// A deploy-template transaction that a decoder accepts comes back from its
/// bytes unchanged, and the decoder reads them to the end: after the
/// transaction at most the padding nibble is left.
pub proof fn lemma_deploy_template_round_trip(t: AppTemplateView, author: Seq<u8>)
    requires
        deploy_template_valid(t, author),
    ensures
        parse_deploy_template(deploy_template_bytes(t, author)) == Ok::<
            (AppTemplateView, Seq<u8>),
            ParseError,
        >((t, author)),
        dec_deploy_template(nibbles_of(deploy_template_bytes(t, author)), 0) == Ok::<
            ((AppTemplateView, Seq<u8>), int),
            ParseError,
        >(((t, author), enc_deploy_template(t, author).len() as int)),
        at_eof(
            nibbles_of(deploy_template_bytes(t, author)),
            enc_deploy_template(t, author).len() as int,
        ),
{
    lemma_enc_deploy_template_is_nibbles(t, author);
    lemma_framed(enc_deploy_template(t, author));
    lemma_dec_deploy_template(nibbles_of(deploy_template_bytes(t, author)), 0, t, author);
}

/// Appends a deploy-template transaction.
pub fn encode_deploy_template(template: &AppTemplate, author: &AuthorAddr, w: &mut NibbleWriter)
    requires
        deploy_template_encodable(template@, author@),
    ensures
        final(w)@ == old(w)@ + enc_deploy_template(template@, author@),
{
    let ghost before = w@;
    encode_version(template.version, w);
    encode_address(author.inner(), w);
    encode_string(template.name.as_str(), w);
    encode_blob(template.code.as_slice(), w);
    encode_layout(&template.data, w);
    assert(w@ =~= before + enc_deploy_template(template@, author@));
}

/// Reads a deploy-template transaction. Fails with the error of the first
/// field that is short, malformed or invalid.
pub fn decode_deploy_template(iter: &mut NibbleIter) -> (res: Result<
    (AppTemplate, AuthorAddr),
    ParseError,
>)
    ensures
        final(iter).data() == old(iter).data(),
        old(iter).pos() <= final(iter).pos() <= final(iter).nibbles().len(),
        match res {
            Ok((template, author)) => dec_deploy_template(
                old(iter).nibbles(),
                old(iter).pos() as int,
            ) == Ok::<((AppTemplateView, Seq<u8>), int), ParseError>(
                ((template@, author@), final(iter).pos() as int),
            ),
            Err(e) => dec_deploy_template(old(iter).nibbles(), old(iter).pos() as int) == Err::<
                ((AppTemplateView, Seq<u8>), int),
                ParseError,
            >(e),
        },
{
    let version = decode_version(iter)?;
    if version != SUPPORTED_VERSION {
        return Err(ParseError::UnsupportedProtoVersion(version));
    }
    let author = decode_address(iter, Field::Author)?;
    let name = decode_nonempty_string(iter, Field::NameLength, Field::Name)?;
    let code = decode_blob(iter, Field::CodeLength, Field::Code)?;
    let data = decode_layout(iter)?;

    let template = AppTemplate { version, name, code, data };

    Ok((template, AuthorAddr::new(author)))
}

/// The bytes of a deploy-template transaction.
pub fn deploy_template_to_bytes(template: &AppTemplate, author: &AuthorAddr) -> (bytes: Vec<u8>)
    requires
        deploy_template_encodable(template@, author@),
    ensures
        bytes@ == deploy_template_bytes(template@, author@),
{
    let mut w = NibbleWriter::new();
    encode_deploy_template(template, author, &mut w);
    assert(w@ =~= enc_deploy_template(template@, author@));
    w.into_bytes()
}

/// Reads a whole buffer as one deploy-template transaction. Fails as
/// [`decode_deploy_template`] does, and with `ExpectedEOF` when more than the
/// padding nibble follows the transaction.
pub fn deploy_template_from_bytes(bytes: &[u8]) -> (res: Result<
    (AppTemplate, AuthorAddr),
    ParseError,
>)
    ensures
        match res {
            Ok((template, author)) => parse_deploy_template(bytes@) == Ok::<
                (AppTemplateView, Seq<u8>),
                ParseError,
            >((template@, author@)),
            Err(e) => parse_deploy_template(bytes@) == Err::<
                (AppTemplateView, Seq<u8>),
                ParseError,
            >(e),
        },
{
    let mut iter = NibbleIter::new(bytes);
    let decoded = decode_deploy_template(&mut iter)?;
    iter.ensure_eof(ParseError::ExpectedEOF)?;
    Ok(decoded)
}

} // verus!

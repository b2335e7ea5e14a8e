//! The byte-oriented wire form of a contract.
//!
//! In order: the protocol version (4 bytes), the name (a length byte, then
//! UTF-8), the address of the author, the number of admins (1 byte), the
//! number of dependencies (2 bytes), and the code (8 bytes of length, then
//! the bytes). Numbers are big-endian. Admins and dependencies are read and
//! refused unless their number is zero.

use crate::bytes::{be_value, lemma_be_value_bound, read_u16_be, read_u32_be, read_u64_be};
use crate::text::string_from_utf8;
use crate::types::{Address, ADDRESS_LEN};
use vstd::prelude::*;
use vstd::slice::slice_subrange;
use vstd::utf8::{decode_utf8, valid_utf8};

verus! {

/// The field of a contract that the parser was reading.
#[derive(Clone, Copy, Debug, PartialEq, Eq, Structural)]
pub enum Field {
    Version,
    NameLength,
    Name,
    Author,
    AdminsCount,
    Admins,
    DepsCount,
    Deps,
    CodeLength,
    Code,
}

/// Why the bytes of a contract were refused.
#[derive(Clone, Copy, Debug, PartialEq, Eq, Structural)]
pub enum Error {
    EmptyName,
    NameNotValidUTF8String,
    DepsNotSupportedYet,
    AdminsNotSupportedYet,
    NotEnoughBytes(Field),
    UnsupportedProtoVersion(u32),
    /// Bytes are left after the code.
    TrailingBytes,
}

/// A contract as it comes off the wire.
#[derive(Clone, Debug, PartialEq, Eq)]
pub struct WasmContract {
    pub name: String,
    pub wasm: Vec<u8>,
    pub author: Address,
    pub admins: Vec<Address>,
}

/// What a [`WasmContract`] of the wire holds; it has no admins.
pub struct WasmContractView {
    pub name: Seq<char>,
    pub wasm: Seq<u8>,
    pub author: Seq<u8>,
}

/// The big-endian number in the `n` bytes at `pos`, with the position after
/// them.
pub open spec fn take_number(bytes: Seq<u8>, pos: int, n: nat, field: Field) -> Result<
    (nat, int),
    Error,
> {
    if pos + n > bytes.len() {
        Err(Error::NotEnoughBytes(field))
    } else {
        Ok((be_value(bytes.subrange(pos, pos + n)), pos + n))
    }
}

/// The `n` bytes at `pos`, with the position after them.
pub open spec fn take_bytes(bytes: Seq<u8>, pos: int, n: nat, field: Field) -> Result<
    (Seq<u8>, int),
    Error,
> {
    if pos + n > bytes.len() {
        Err(Error::NotEnoughBytes(field))
    } else {
        Ok((bytes.subrange(pos, pos + n), pos + n))
    }
}

/// The version at `pos`, which must be zero.
pub open spec fn version_at(bytes: Seq<u8>, pos: int) -> Result<(u32, int), Error> {
    match take_number(bytes, pos, 4, Field::Version) {
        Err(e) => Err(e),
        Ok((version, next)) => if version != 0 {
            Err(Error::UnsupportedProtoVersion(version as u32))
        } else {
            Ok((0u32, next))
        },
    }
}

/// The name at `pos`: not empty, and valid UTF-8.
pub open spec fn name_at(bytes: Seq<u8>, pos: int) -> Result<(Seq<char>, int), Error> {
    match take_number(bytes, pos, 1, Field::NameLength) {
        Err(e) => Err(e),
        Ok((len, body)) => if len == 0 {
            Err(Error::EmptyName)
        } else {
            match take_bytes(bytes, body, len, Field::Name) {
                Err(e) => Err(e),
                Ok((name, next)) => if valid_utf8(name) {
                    Ok((decode_utf8(name), next))
                } else {
                    Err(Error::NameNotValidUTF8String)
                },
            }
        },
    }
}

/// The number of admins at `pos`, which must be zero.
pub open spec fn admins_at(bytes: Seq<u8>, pos: int) -> Result<int, Error> {
    match take_number(bytes, pos, 1, Field::AdminsCount) {
        Err(e) => Err(e),
        Ok((count, next)) => if count > 0 {
            Err(Error::AdminsNotSupportedYet)
        } else {
            Ok(next)
        },
    }
}

/// The number of dependencies at `pos`, which must be zero.
pub open spec fn deps_at(bytes: Seq<u8>, pos: int) -> Result<int, Error> {
    match take_number(bytes, pos, 2, Field::DepsCount) {
        Err(e) => Err(e),
        Ok((count, next)) => if count > 0 {
            Err(Error::DepsNotSupportedYet)
        } else {
            Ok(next)
        },
    }
}

/// The code at `pos`, after its length.
pub open spec fn code_at(bytes: Seq<u8>, pos: int) -> Result<(Seq<u8>, int), Error> {
    match take_number(bytes, pos, 8, Field::CodeLength) {
        Err(e) => Err(e),
        Ok((len, body)) => take_bytes(bytes, body, len, Field::Code),
    }
}

/// The contract that `bytes` hold: its fields in order, and nothing after
/// them. The error is that of the first field that is short or refused.
pub open spec fn contract_of(bytes: Seq<u8>) -> Result<WasmContractView, Error> {
    match version_at(bytes, 0) {
        Err(e) => Err(e),
        Ok((_, pos1)) => match name_at(bytes, pos1) {
            Err(e) => Err(e),
            Ok((name, pos2)) => match take_bytes(bytes, pos2, ADDRESS_LEN as nat, Field::Author) {
                Err(e) => Err(e),
                Ok((author, pos3)) => match admins_at(bytes, pos3) {
                    Err(e) => Err(e),
                    Ok(pos4) => match deps_at(bytes, pos4) {
                        Err(e) => Err(e),
                        Ok(pos5) => match code_at(bytes, pos5) {
                            Err(e) => Err(e),
                            Ok((wasm, pos6)) => if pos6 != bytes.len() {
                                Err(Error::TrailingBytes)
                            } else {
                                Ok(WasmContractView { name, wasm, author })
                            },
                        },
                    },
                },
            },
        },
    }
}

/// A position in a byte buffer, which moves forward as fields are read.
pub struct Cursor<'a> {
    bytes: &'a [u8],
    pos: usize,
}

impl<'a> Cursor<'a> {
    #[verifier::type_invariant]
    closed spec fn in_range(&self) -> bool {
        self.pos <= self.bytes@.len()
    }

    /// The bytes of the buffer.
    pub closed spec fn data(&self) -> Seq<u8> {
        self.bytes@
    }

    /// The position of the next byte to read.
    pub closed spec fn position(&self) -> int {
        self.pos as int
    }

    /// A cursor at the start of `bytes`.
    pub fn new(bytes: &'a [u8]) -> (cursor: Cursor<'a>)
        ensures
            cursor.data() == bytes@,
            cursor.position() == 0,
    {
        Cursor { bytes, pos: 0 }
    }

    /// The number of bytes that are left to read.
    pub fn remaining(&self) -> (n: usize)
        ensures
            n == self.data().len() - self.position(),
    {
        proof {
            use_type_invariant(self);
        }
        self.bytes.len() - self.pos
    }

    /// Whether every byte has been read.
    pub fn at_end(&self) -> (end: bool)
        ensures
            end == (self.position() == self.data().len()),
            0 <= self.position() <= self.data().len(),
    {
        proof {
            use_type_invariant(self);
        }
        self.pos == self.bytes.len()
    }

    /// Reads `n` bytes, or none of them when fewer are left.
    pub fn read_exact(&mut self, n: usize) -> (res: Option<&'a [u8]>)
        ensures
            final(self).data() == old(self).data(),
            0 <= old(self).position() <= old(self).data().len(),
            match res {
                Some(bytes) => {
                    &&& old(self).position() + n <= old(self).data().len()
                    &&& bytes@ == old(self).data().subrange(
                        old(self).position(),
                        old(self).position() + n,
                    )
                    &&& final(self).position() == old(self).position() + n
                },
                None => {
                    &&& old(self).position() + n > old(self).data().len()
                    &&& final(self).position() == old(self).position()
                },
            },
    {
        proof {
            use_type_invariant(&*self);
        }
        if n > self.bytes.len() - self.pos {
            return None;
        }
        let bytes = slice_subrange(self.bytes, self.pos, self.pos + n);
        self.pos = self.pos + n;
        Some(bytes)
    }

    /// Reads a big-endian number of `n` bytes, where `n` is 1, 2, 4 or 8.
    fn read_number(&mut self, n: usize, field: Field) -> (res: Result<u64, Error>)
        requires
            n == 1 || n == 2 || n == 4 || n == 8,
        ensures
            final(self).data() == old(self).data(),
            match res {
                Ok(v) => take_number(old(self).data(), old(self).position(), n as nat, field)
                    == Ok::<(nat, int), Error>((v as nat, final(self).position())),
                Err(e) => take_number(old(self).data(), old(self).position(), n as nat, field)
                    == Err::<(nat, int), Error>(e),
            },
    {
        match self.read_exact(n) {
            None => Err(Error::NotEnoughBytes(field)),
            Some(bytes) => {
                assert(bytes@.subrange(0, n as int) =~= bytes@);
                if n == 1 {
                    assert(bytes@.drop_last() =~= Seq::<u8>::empty());
                    assert(be_value(bytes@) == bytes@[0]) by {
                        reveal_with_fuel(be_value, 2);
                    }
                    Ok(bytes[0] as u64)
                } else if n == 2 {
                    Ok(read_u16_be(bytes) as u64)
                } else if n == 4 {
                    Ok(read_u32_be(bytes) as u64)
                } else {
                    Ok(read_u64_be(bytes))
                }
            },
        }
    }

    /// Reads `n` bytes of the field `field`.
    fn read_field(&mut self, n: usize, field: Field) -> (res: Result<&'a [u8], Error>)
        ensures
            final(self).data() == old(self).data(),
            match res {
                Ok(bytes) => take_bytes(old(self).data(), old(self).position(), n as nat, field)
                    == Ok::<(Seq<u8>, int), Error>((bytes@, final(self).position())),
                Err(e) => take_bytes(old(self).data(), old(self).position(), n as nat, field)
                    == Err::<(Seq<u8>, int), Error>(e),
            },
    {
        match self.read_exact(n) {
            None => Err(Error::NotEnoughBytes(field)),
            Some(bytes) => Ok(bytes),
        }
    }
}

/// Reads a contract from its bytes.
///
/// Fails with the error of the first field that is short or refused: a
/// version other than zero, an empty name or one that is not UTF-8, a number
/// of admins or of dependencies other than zero; and with `TrailingBytes`
/// when bytes follow the code.
pub fn parse_contract(bytes: &[u8]) -> (res: Result<WasmContract, Error>)
    ensures
        match res {
            Ok(contract) => contract_of(bytes@) == Ok::<WasmContractView, Error>(
                WasmContractView {
                    name: contract.name@,
                    wasm: contract.wasm@,
                    author: contract.author@,
                },
            ) && contract.admins@.len() == 0,
            Err(e) => contract_of(bytes@) == Err::<WasmContractView, Error>(e),
        },
{
    let mut cursor = Cursor::new(bytes);

    parse_version(&mut cursor)?;
    let name = parse_name(&mut cursor)?;
    let author = parse_author(&mut cursor)?;
    let admins = parse_admins(&mut cursor)?;
    let _deps = parse_deps(&mut cursor)?;
    let wasm = parse_code(&mut cursor)?;
    if !cursor.at_end() {
        return Err(Error::TrailingBytes);
    }

    let contract = WasmContract { name, wasm, author, admins };

    Ok(contract)
}

fn parse_version(cursor: &mut Cursor) -> (res: Result<u32, Error>)
    ensures
        final(cursor).data() == old(cursor).data(),
        match res {
            Ok(v) => version_at(old(cursor).data(), old(cursor).position()) == Ok::<
                (u32, int),
                Error,
            >((v, final(cursor).position())),
            Err(e) => version_at(old(cursor).data(), old(cursor).position()) == Err::<
                (u32, int),
                Error,
            >(e),
        },
{
    let version = cursor.read_number(4, Field::Version)?;
    proof {
        lemma_be_value_bound(
            old(cursor).data().subrange(old(cursor).position(), old(cursor).position() + 4),
        );
    }
    if version != 0 {
        return Err(Error::UnsupportedProtoVersion(version as u32));
    }

    Ok(0)
}

/// Reads the name of a contract, which may not be empty.
pub fn parse_name(cursor: &mut Cursor) -> (res: Result<String, Error>)
    ensures
        final(cursor).data() == old(cursor).data(),
        match res {
            Ok(name) => name_at(old(cursor).data(), old(cursor).position()) == Ok::<
                (Seq<char>, int),
                Error,
            >((name@, final(cursor).position())),
            Err(e) => name_at(old(cursor).data(), old(cursor).position()) == Err::<
                (Seq<char>, int),
                Error,
            >(e),
        },
{
    let name_len = cursor.read_number(1, Field::NameLength)?;
    proof {
        lemma_be_value_bound(
            old(cursor).data().subrange(old(cursor).position(), old(cursor).position() + 1),
        );
    }
    let name_len = name_len as usize;
    if name_len == 0 {
        return Err(Error::EmptyName);
    }

    let name_buf = cursor.read_field(name_len, Field::Name)?;

    let name = string_from_utf8(vstd::slice::slice_to_vec(name_buf));
    match name {
        Some(name) => Ok(name),
        None => Err(Error::NameNotValidUTF8String),
    }
}

fn parse_author(cursor: &mut Cursor) -> (res: Result<Address, Error>)
    ensures
        final(cursor).data() == old(cursor).data(),
        match res {
            Ok(addr) => take_bytes(
                old(cursor).data(),
                old(cursor).position(),
                ADDRESS_LEN as nat,
                Field::Author,
            ) == Ok::<(Seq<u8>, int), Error>((addr@, final(cursor).position())),
            Err(e) => take_bytes(
                old(cursor).data(),
                old(cursor).position(),
                ADDRESS_LEN as nat,
                Field::Author,
            ) == Err::<(Seq<u8>, int), Error>(e),
        },
{
    parse_address(cursor, Field::Author)
}

fn parse_admins(cursor: &mut Cursor) -> (res: Result<Vec<Address>, Error>)
    ensures
        final(cursor).data() == old(cursor).data(),
        match res {
            Ok(admins) => admins_at(old(cursor).data(), old(cursor).position()) == Ok::<
                int,
                Error,
            >(final(cursor).position()) && admins@.len() == 0,
            Err(e) => admins_at(old(cursor).data(), old(cursor).position()) == Err::<int, Error>(
                e,
            ),
        },
{
    let admin_count = cursor.read_number(1, Field::AdminsCount)?;
    if admin_count > 0 {
        return Err(Error::AdminsNotSupportedYet);
    }

    Ok(Vec::new())
}

fn parse_deps(cursor: &mut Cursor) -> (res: Result<(), Error>)
    ensures
        final(cursor).data() == old(cursor).data(),
        match res {
            Ok(()) => deps_at(old(cursor).data(), old(cursor).position()) == Ok::<int, Error>(
                final(cursor).position(),
            ),
            Err(e) => deps_at(old(cursor).data(), old(cursor).position()) == Err::<int, Error>(e),
        },
{
    let deps_count = cursor.read_number(2, Field::DepsCount)?;
    if deps_count > 0 {
        return Err(Error::DepsNotSupportedYet);
    }

    Ok(())
}

fn parse_code(cursor: &mut Cursor) -> (res: Result<Vec<u8>, Error>)
    ensures
        final(cursor).data() == old(cursor).data(),
        match res {
            Ok(code) => code_at(old(cursor).data(), old(cursor).position()) == Ok::<
                (Seq<u8>, int),
                Error,
            >((code@, final(cursor).position())),
            Err(e) => code_at(old(cursor).data(), old(cursor).position()) == Err::<
                (Seq<u8>, int),
                Error,
            >(e),
        },
{
    let code_len = cursor.read_number(8, Field::CodeLength)?;
    if code_len > cursor.remaining() as u64 {
        return Err(Error::NotEnoughBytes(Field::Code));
    }
    let code = cursor.read_field(code_len as usize, Field::Code)?;

    Ok(vstd::slice::slice_to_vec(code))
}

fn parse_address(cursor: &mut Cursor, field: Field) -> (res: Result<Address, Error>)
    ensures
        final(cursor).data() == old(cursor).data(),
        match res {
            Ok(addr) => take_bytes(
                old(cursor).data(),
                old(cursor).position(),
                ADDRESS_LEN as nat,
                field,
            ) == Ok::<(Seq<u8>, int), Error>((addr@, final(cursor).position())),
            Err(e) => take_bytes(
                old(cursor).data(),
                old(cursor).position(),
                ADDRESS_LEN as nat,
                field,
            ) == Err::<(Seq<u8>, int), Error>(e),
        },
{
    let addr = cursor.read_field(ADDRESS_LEN, field)?;

    Ok(Address::from_slice(addr))
}

} // verus!

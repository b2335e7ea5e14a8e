//! The values that an app exchanges with its caller.

use vstd::prelude::*;
use vstd::std_specs::convert::FromSpecImpl;

verus! {

/// An amount of coins.
#[derive(Clone, Copy, Debug, PartialEq, Eq, Hash, Structural)]
pub struct Amount(pub u64);

/// The digit of base 16 for a value below 16, in lower case.
pub open spec fn hex_digit(value: u8) -> char {
    if value < 10 {
        (48 + value) as char
    } else {
        (87 + value) as char
    }
}

fn digit_char(value: u8) -> (c: char)
    requires
        value < 16,
    ensures
        c == hex_digit(value),
{
    if value < 10 {
        (48 + value) as char
    } else {
        (87 + value) as char
    }
}

/// The two digits of base 16 of a byte, the high one first.
pub fn byte_as_chars(byte: u8) -> (chars: (char, char))
    ensures
        chars.0 == hex_digit(byte / 16),
        chars.1 == hex_digit(byte % 16),
{
    assert((byte & 0xF0) >> 4 == byte / 16) by (bit_vector);
    assert(byte & 0x0F == byte % 16) by (bit_vector);
    let msb: u8 = (byte & 0xF0) >> 4;
    let lsb: u8 = byte & 0x0F;

    let a = digit_char(msb);
    let b = digit_char(lsb);

    (a, b)
}

/// The digits of base 16 of `bytes`, two per byte.
pub open spec fn hex_of(bytes: Seq<u8>) -> Seq<char> {
    Seq::new(
        2 * bytes.len(),
        |i: int|
            if i % 2 == 0 {
                hex_digit(bytes[i / 2] / 16)
            } else {
                hex_digit(bytes[i / 2] % 16)
            },
    )
}

/// An address that borrows its 20 bytes.
#[derive(Debug, PartialEq, Eq, Clone, Hash)]
pub struct Address<'a>(pub &'a [u8; 20]);

/// An address that owns its 20 bytes.
#[derive(Debug, PartialEq, Eq, Clone, Hash)]
pub struct AddressOwned(pub [u8; 20]);

impl<'a> Address<'a> {
    /// Size in bytes
    pub fn len() -> (n: usize)
        ensures
            n == 20,
    {
        20
    }

    /// The bytes of the address.
    pub fn as_slice(&self) -> (bytes: &[u8])
        ensures
            bytes@ == self.0@,
    {
        self.0.as_slice()
    }

    /// Creates a new type with cloned data
    pub fn to_owned(&self) -> (owned: AddressOwned)
        ensures
            owned.0@ == self.0@,
    {
        let bytes = *self.0;

        AddressOwned(bytes)
    }

    /// The address over the 20 bytes of `bytes`.
    pub fn from_array(bytes: &'a [u8; 20]) -> (addr: Address<'a>)
        ensures
            addr.0@ == bytes@,
    {
        Address(bytes)
    }

    /// The address in base 16.
    pub fn to_hex(&self) -> (text: Vec<char>)
        ensures
            text@ == hex_of(self.0@),
    {
        hex_chars(self.0)
    }
}

impl AddressOwned {
    /// Size in bytes
    pub fn len() -> (n: usize)
        ensures
            n == 20,
    {
        20
    }

    /// Returns a type containing borrowed data
    pub fn deref(&self) -> (addr: Address<'_>)
        ensures
            addr.0@ == self.0@,
    {
        Address(&self.0)
    }

    /// The bytes of the address.
    pub fn as_slice(&self) -> (bytes: &[u8])
        ensures
            bytes@ == self.0@,
    {
        self.0.as_slice()
    }

    /// The address made of the 20 bytes of `bytes`.
    pub fn from_slice(bytes: &[u8]) -> (addr: AddressOwned)
        requires
            bytes@.len() == 20,
        ensures
            addr.0@ == bytes@,
    {
        let mut out = [0u8; 20];
        let mut i: usize = 0;
        while i < 20
            invariant
                i <= 20,
                bytes@.len() == 20,
                forall|j: int| 0 <= j < i ==> out@[j] == bytes@[j],
            decreases 20 - i,
        {
            out[i] = bytes[i];
            i += 1;
        }
        assert(out@ =~= bytes@);
        AddressOwned(out)
    }

    /// The address in base 16.
    pub fn to_hex(&self) -> (text: Vec<char>)
        ensures
            text@ == hex_of(self.0@),
    {
        hex_chars(&self.0)
    }
}

fn hex_chars(bytes: &[u8; 20]) -> (text: Vec<char>)
    ensures
        text@ == hex_of(bytes@),
{
    let mut text: Vec<char> = Vec::new();
    let mut i: usize = 0;
    while i < 20
        invariant
            i <= 20,
            text@.len() == 2 * i,
            forall|j: int| 0 <= j < 2 * i ==> text@[j] == hex_of(bytes@)[j],
        decreases 20 - i,
    {
        let (a, b) = byte_as_chars(bytes[i]);
        text.push(a);
        text.push(b);
        i += 1;
    }
    assert(text@ =~= hex_of(bytes@));
    text
}

/// Primitive value
#[derive(Debug, PartialEq)]
pub enum Primitive<'a> {
    Nil,
    Bool(bool),
    Address(Address<'a>),
    AddressOwned(AddressOwned),
    Amount(Amount),
    I8(i8),
    U8(u8),
    I16(i16),
    U16(u16),
    I32(i32),
    U32(u32),
    I64(i64),
    U64(u64),
}

/// Composite value
#[derive(Debug, PartialEq)]
pub enum Composite<'a> {
    /// An `Array`
    Array(&'a [Value<'a>]),
    ArrayOwned(Vec<Value<'a>>),
}

/// A value
#[derive(Debug, PartialEq)]
pub enum Value<'a> {
    /// A `Primitive` value
    Primitive(Primitive<'a>),
    /// A `Composite` value
    Composite(Composite<'a>),
}

impl<'a> Value<'a> {
    /// The value that stands for nothing.
    pub fn none() -> (value: Value<'static>)
        ensures
            value == Value::Primitive(Primitive::Nil),
    {
        Value::Primitive(Primitive::Nil)
    }

    /// Whether the value stands for nothing.
    pub fn is_none(&self) -> (none: bool)
        ensures
            none == (*self == Value::Primitive(Primitive::Nil)),
    {
        match self {
            Value::Primitive(Primitive::Nil) => true,
            _ => false,
        }
    }

    /// The address that the value holds, borrowed or owned.
    pub fn into_address_owned(self) -> (addr: AddressOwned)
        requires
            self matches Value::Primitive(p) && (p is Address || p is AddressOwned),
        ensures
            self matches Value::Primitive(Primitive::Address(a)) ==> addr.0@ == a.0@,
            self matches Value::Primitive(Primitive::AddressOwned(a)) ==> addr == a,
    {
        match self {
            Value::Primitive(Primitive::Address(addr)) => addr.to_owned(),
            Value::Primitive(Primitive::AddressOwned(addr)) => addr,
            _ => {
                assert(false);
                AddressOwned([0u8; 20])
            },
        }
    }

    /// The values of an owned array.
    pub fn into_array(self) -> (values: Vec<Value<'a>>)
        requires
            self matches Value::Composite(Composite::ArrayOwned(_)),
        ensures
            self == Value::Composite(Composite::ArrayOwned(values)),
    {
        match self {
            Value::Composite(Composite::ArrayOwned(values)) => values,
            _ => {
                assert(false);
                Vec::new()
            },
        }
    }

    /// The `bool` that the value holds.
    pub fn into_bool(self) -> (v: bool)
        requires
            self matches Value::Primitive(Primitive::Bool(_)),
        ensures
            self == Value::Primitive(Primitive::Bool(v)),
    {
        match self {
            Value::Primitive(Primitive::Bool(v)) => v,
            _ => {
                assert(false);
                false
            },
        }
    }

    /// The `bool` that the value holds, if it holds one and not nothing.
    pub fn into_opt_bool(self) -> (v: Option<bool>)
        requires
            self matches Value::Primitive(p) && (p is Nil || p is Bool),
        ensures
            match v {
                Some(v) => self == Value::Primitive(Primitive::Bool(v)),
                None => self == Value::Primitive(Primitive::Nil),
            },
    {
        match self {
            Value::Primitive(Primitive::Nil) => None,
            Value::Primitive(Primitive::Bool(v)) => Some(v),
            _ => {
                assert(false);
                None
            },
        }
    }

    /// The `Amount` that the value holds.
    pub fn into_amount(self) -> (v: Amount)
        requires
            self matches Value::Primitive(Primitive::Amount(_)),
        ensures
            self == Value::Primitive(Primitive::Amount(v)),
    {
        match self {
            Value::Primitive(Primitive::Amount(v)) => v,
            _ => {
                assert(false);
                Amount(0)
            },
        }
    }

    /// The `Amount` that the value holds, if it holds one and not nothing.
    pub fn into_opt_amount(self) -> (v: Option<Amount>)
        requires
            self matches Value::Primitive(p) && (p is Nil || p is Amount),
        ensures
            match v {
                Some(v) => self == Value::Primitive(Primitive::Amount(v)),
                None => self == Value::Primitive(Primitive::Nil),
            },
    {
        match self {
            Value::Primitive(Primitive::Nil) => None,
            Value::Primitive(Primitive::Amount(v)) => Some(v),
            _ => {
                assert(false);
                None
            },
        }
    }

    /// The `i8` that the value holds.
    pub fn into_i8(self) -> (v: i8)
        requires
            self matches Value::Primitive(Primitive::I8(_)),
        ensures
            self == Value::Primitive(Primitive::I8(v)),
    {
        match self {
            Value::Primitive(Primitive::I8(v)) => v,
            _ => {
                assert(false);
                0
            },
        }
    }

    /// The `i8` that the value holds, if it holds one and not nothing.
    pub fn into_opt_i8(self) -> (v: Option<i8>)
        requires
            self matches Value::Primitive(p) && (p is Nil || p is I8),
        ensures
            match v {
                Some(v) => self == Value::Primitive(Primitive::I8(v)),
                None => self == Value::Primitive(Primitive::Nil),
            },
    {
        match self {
            Value::Primitive(Primitive::Nil) => None,
            Value::Primitive(Primitive::I8(v)) => Some(v),
            _ => {
                assert(false);
                None
            },
        }
    }

    /// The `u8` that the value holds.
    pub fn into_u8(self) -> (v: u8)
        requires
            self matches Value::Primitive(Primitive::U8(_)),
        ensures
            self == Value::Primitive(Primitive::U8(v)),
    {
        match self {
            Value::Primitive(Primitive::U8(v)) => v,
            _ => {
                assert(false);
                0
            },
        }
    }

    /// The `u8` that the value holds, if it holds one and not nothing.
    pub fn into_opt_u8(self) -> (v: Option<u8>)
        requires
            self matches Value::Primitive(p) && (p is Nil || p is U8),
        ensures
            match v {
                Some(v) => self == Value::Primitive(Primitive::U8(v)),
                None => self == Value::Primitive(Primitive::Nil),
            },
    {
        match self {
            Value::Primitive(Primitive::Nil) => None,
            Value::Primitive(Primitive::U8(v)) => Some(v),
            _ => {
                assert(false);
                None
            },
        }
    }

    /// The `i16` that the value holds.
    pub fn into_i16(self) -> (v: i16)
        requires
            self matches Value::Primitive(Primitive::I16(_)),
        ensures
            self == Value::Primitive(Primitive::I16(v)),
    {
        match self {
            Value::Primitive(Primitive::I16(v)) => v,
            _ => {
                assert(false);
                0
            },
        }
    }

    /// The `i16` that the value holds, if it holds one and not nothing.
    pub fn into_opt_i16(self) -> (v: Option<i16>)
        requires
            self matches Value::Primitive(p) && (p is Nil || p is I16),
        ensures
            match v {
                Some(v) => self == Value::Primitive(Primitive::I16(v)),
                None => self == Value::Primitive(Primitive::Nil),
            },
    {
        match self {
            Value::Primitive(Primitive::Nil) => None,
            Value::Primitive(Primitive::I16(v)) => Some(v),
            _ => {
                assert(false);
                None
            },
        }
    }

    /// The `u16` that the value holds.
    pub fn into_u16(self) -> (v: u16)
        requires
            self matches Value::Primitive(Primitive::U16(_)),
        ensures
            self == Value::Primitive(Primitive::U16(v)),
    {
        match self {
            Value::Primitive(Primitive::U16(v)) => v,
            _ => {
                assert(false);
                0
            },
        }
    }

    /// The `u16` that the value holds, if it holds one and not nothing.
    pub fn into_opt_u16(self) -> (v: Option<u16>)
        requires
            self matches Value::Primitive(p) && (p is Nil || p is U16),
        ensures
            match v {
                Some(v) => self == Value::Primitive(Primitive::U16(v)),
                None => self == Value::Primitive(Primitive::Nil),
            },
    {
        match self {
            Value::Primitive(Primitive::Nil) => None,
            Value::Primitive(Primitive::U16(v)) => Some(v),
            _ => {
                assert(false);
                None
            },
        }
    }

    /// The `i32` that the value holds.
    pub fn into_i32(self) -> (v: i32)
        requires
            self matches Value::Primitive(Primitive::I32(_)),
        ensures
            self == Value::Primitive(Primitive::I32(v)),
    {
        match self {
            Value::Primitive(Primitive::I32(v)) => v,
            _ => {
                assert(false);
                0
            },
        }
    }

    /// The `i32` that the value holds, if it holds one and not nothing.
    pub fn into_opt_i32(self) -> (v: Option<i32>)
        requires
            self matches Value::Primitive(p) && (p is Nil || p is I32),
        ensures
            match v {
                Some(v) => self == Value::Primitive(Primitive::I32(v)),
                None => self == Value::Primitive(Primitive::Nil),
            },
    {
        match self {
            Value::Primitive(Primitive::Nil) => None,
            Value::Primitive(Primitive::I32(v)) => Some(v),
            _ => {
                assert(false);
                None
            },
        }
    }

    /// The `u32` that the value holds.
    pub fn into_u32(self) -> (v: u32)
        requires
            self matches Value::Primitive(Primitive::U32(_)),
        ensures
            self == Value::Primitive(Primitive::U32(v)),
    {
        match self {
            Value::Primitive(Primitive::U32(v)) => v,
            _ => {
                assert(false);
                0
            },
        }
    }

    /// The `u32` that the value holds, if it holds one and not nothing.
    pub fn into_opt_u32(self) -> (v: Option<u32>)
        requires
            self matches Value::Primitive(p) && (p is Nil || p is U32),
        ensures
            match v {
                Some(v) => self == Value::Primitive(Primitive::U32(v)),
                None => self == Value::Primitive(Primitive::Nil),
            },
    {
        match self {
            Value::Primitive(Primitive::Nil) => None,
            Value::Primitive(Primitive::U32(v)) => Some(v),
            _ => {
                assert(false);
                None
            },
        }
    }

    /// The `i64` that the value holds.
    pub fn into_i64(self) -> (v: i64)
        requires
            self matches Value::Primitive(Primitive::I64(_)),
        ensures
            self == Value::Primitive(Primitive::I64(v)),
    {
        match self {
            Value::Primitive(Primitive::I64(v)) => v,
            _ => {
                assert(false);
                0
            },
        }
    }

    /// The `i64` that the value holds, if it holds one and not nothing.
    pub fn into_opt_i64(self) -> (v: Option<i64>)
        requires
            self matches Value::Primitive(p) && (p is Nil || p is I64),
        ensures
            match v {
                Some(v) => self == Value::Primitive(Primitive::I64(v)),
                None => self == Value::Primitive(Primitive::Nil),
            },
    {
        match self {
            Value::Primitive(Primitive::Nil) => None,
            Value::Primitive(Primitive::I64(v)) => Some(v),
            _ => {
                assert(false);
                None
            },
        }
    }

    /// The `u64` that the value holds.
    pub fn into_u64(self) -> (v: u64)
        requires
            self matches Value::Primitive(Primitive::U64(_)),
        ensures
            self == Value::Primitive(Primitive::U64(v)),
    {
        match self {
            Value::Primitive(Primitive::U64(v)) => v,
            _ => {
                assert(false);
                0
            },
        }
    }

    /// The `u64` that the value holds, if it holds one and not nothing.
    pub fn into_opt_u64(self) -> (v: Option<u64>)
        requires
            self matches Value::Primitive(p) && (p is Nil || p is U64),
        ensures
            match v {
                Some(v) => self == Value::Primitive(Primitive::U64(v)),
                None => self == Value::Primitive(Primitive::Nil),
            },
    {
        match self {
            Value::Primitive(Primitive::Nil) => None,
            Value::Primitive(Primitive::U64(v)) => Some(v),
            _ => {
                assert(false);
                None
            },
        }
    }
}

impl From<bool> for Value<'_> {
    fn from(num: bool) -> (value: Self) {
        let prim = Primitive::Bool(num);
        Value::Primitive(prim)
    }
}

impl FromSpecImpl<bool> for Value<'_> {
    open spec fn obeys_from_spec() -> bool {
        true
    }

    open spec fn from_spec(num: bool) -> Self {
        Value::Primitive(Primitive::Bool(num))
    }
}

impl From<Amount> for Value<'_> {
    fn from(num: Amount) -> (value: Self) {
        let prim = Primitive::Amount(num);
        Value::Primitive(prim)
    }
}

impl FromSpecImpl<Amount> for Value<'_> {
    open spec fn obeys_from_spec() -> bool {
        true
    }

    open spec fn from_spec(num: Amount) -> Self {
        Value::Primitive(Primitive::Amount(num))
    }
}

impl From<i8> for Value<'_> {
    fn from(num: i8) -> (value: Self) {
        let prim = Primitive::I8(num);
        Value::Primitive(prim)
    }
}

impl FromSpecImpl<i8> for Value<'_> {
    open spec fn obeys_from_spec() -> bool {
        true
    }

    open spec fn from_spec(num: i8) -> Self {
        Value::Primitive(Primitive::I8(num))
    }
}

impl From<u8> for Value<'_> {
    fn from(num: u8) -> (value: Self) {
        let prim = Primitive::U8(num);
        Value::Primitive(prim)
    }
}

impl FromSpecImpl<u8> for Value<'_> {
    open spec fn obeys_from_spec() -> bool {
        true
    }

    open spec fn from_spec(num: u8) -> Self {
        Value::Primitive(Primitive::U8(num))
    }
}

impl From<i16> for Value<'_> {
    fn from(num: i16) -> (value: Self) {
        let prim = Primitive::I16(num);
        Value::Primitive(prim)
    }
}

impl FromSpecImpl<i16> for Value<'_> {
    open spec fn obeys_from_spec() -> bool {
        true
    }

    open spec fn from_spec(num: i16) -> Self {
        Value::Primitive(Primitive::I16(num))
    }
}

impl From<u16> for Value<'_> {
    fn from(num: u16) -> (value: Self) {
        let prim = Primitive::U16(num);
        Value::Primitive(prim)
    }
}

impl FromSpecImpl<u16> for Value<'_> {
    open spec fn obeys_from_spec() -> bool {
        true
    }

    open spec fn from_spec(num: u16) -> Self {
        Value::Primitive(Primitive::U16(num))
    }
}

impl From<i32> for Value<'_> {
    fn from(num: i32) -> (value: Self) {
        let prim = Primitive::I32(num);
        Value::Primitive(prim)
    }
}

impl FromSpecImpl<i32> for Value<'_> {
    open spec fn obeys_from_spec() -> bool {
        true
    }

    open spec fn from_spec(num: i32) -> Self {
        Value::Primitive(Primitive::I32(num))
    }
}

impl From<u32> for Value<'_> {
    fn from(num: u32) -> (value: Self) {
        let prim = Primitive::U32(num);
        Value::Primitive(prim)
    }
}

impl FromSpecImpl<u32> for Value<'_> {
    open spec fn obeys_from_spec() -> bool {
        true
    }

    open spec fn from_spec(num: u32) -> Self {
        Value::Primitive(Primitive::U32(num))
    }
}

impl From<i64> for Value<'_> {
    fn from(num: i64) -> (value: Self) {
        let prim = Primitive::I64(num);
        Value::Primitive(prim)
    }
}

impl FromSpecImpl<i64> for Value<'_> {
    open spec fn obeys_from_spec() -> bool {
        true
    }

    open spec fn from_spec(num: i64) -> Self {
        Value::Primitive(Primitive::I64(num))
    }
}

impl From<u64> for Value<'_> {
    fn from(num: u64) -> (value: Self) {
        let prim = Primitive::U64(num);
        Value::Primitive(prim)
    }
}

impl FromSpecImpl<u64> for Value<'_> {
    open spec fn obeys_from_spec() -> bool {
        true
    }

    open spec fn from_spec(num: u64) -> Self {
        Value::Primitive(Primitive::U64(num))
    }
}

impl<'a> From<Address<'a>> for Value<'a> {
    fn from(addr: Address<'a>) -> (value: Self) {
        let addr = Primitive::Address(addr);
        Value::Primitive(addr)
    }
}

impl<'a> FromSpecImpl<Address<'a>> for Value<'a> {
    open spec fn obeys_from_spec() -> bool {
        true
    }

    open spec fn from_spec(addr: Address<'a>) -> Self {
        Value::Primitive(Primitive::Address(addr))
    }
}

impl From<AddressOwned> for Value<'_> {
    fn from(addr: AddressOwned) -> (value: Self) {
        let addr = Primitive::AddressOwned(addr);
        Value::Primitive(addr)
    }
}

impl FromSpecImpl<AddressOwned> for Value<'_> {
    open spec fn obeys_from_spec() -> bool {
        true
    }

    open spec fn from_spec(addr: AddressOwned) -> Self {
        Value::Primitive(Primitive::AddressOwned(addr))
    }
}

impl<'a> From<Vec<Value<'a>>> for Value<'a> {
    fn from(array: Vec<Value<'a>>) -> (value: Value<'a>) {
        let comp = Composite::ArrayOwned(array);
        Value::Composite(comp)
    }
}

impl<'a> FromSpecImpl<Vec<Value<'a>>> for Value<'a> {
    open spec fn obeys_from_spec() -> bool {
        true
    }

    open spec fn from_spec(array: Vec<Value<'a>>) -> Self {
        Value::Composite(Composite::ArrayOwned(array))
    }
}

} // verus!

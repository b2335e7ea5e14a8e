//! What a decoder reports when the input is short, malformed or invalid.

use vstd::prelude::*;

verus! {

/// The field of a wire message that a decoder was reading.
#[derive(Clone, Copy, Debug, PartialEq, Eq, Structural)]
pub enum Field {
    Version,
    Author,
    NameLength,
    Name,
    TemplateAddr,
    AppAddr,
    CtorLength,
    Ctor,
    FuncLength,
    Func,
    CalldataLength,
    Calldata,
    CodeLength,
    Code,
    LayoutCount,
    LayoutVar,
    ReceiptKind,
    ReceiptStatus,
    State,
    GasUsed,
    ReturnsCount,
    ReturnType,
    ReturnValue,
    ErrorKind,
    ErrorLength,
    ErrorMessage,
}

/// Why a wire message was rejected.
#[derive(Clone, Copy, Debug, PartialEq, Eq, Structural)]
pub enum ParseError {
    /// Nibbles are left after the message and its one padding nibble.
    ExpectedEOF,
    /// A field that must hold something is empty.
    EmptyField(Field),
    /// The input ends before the field does.
    NotEnoughBytes(Field),
    /// The number in the field is larger than the field allows.
    TooManyBytes(Field),
    /// The field holds a tag that stands for nothing.
    InvalidTag(Field),
    /// The bytes of the field are not UTF-8.
    InvalidUTF8String(Field),
    /// The message is of a protocol version other than the supported one.
    UnsupportedProtoVersion(u32),
}

impl ParseError {
    /// The text of the error.
    pub open spec fn text(self) -> Seq<char> {
        match self {
            ParseError::ExpectedEOF => "expected the end of the input"@,
            ParseError::EmptyField(_) => "a field is empty"@,
            ParseError::NotEnoughBytes(_) => "not enough bytes for a field"@,
            ParseError::TooManyBytes(_) => "a number is too large for its field"@,
            ParseError::InvalidTag(_) => "a field holds an unknown tag"@,
            ParseError::InvalidUTF8String(_) => "a field is not valid UTF-8"@,
            ParseError::UnsupportedProtoVersion(_) => "the protocol version is not supported"@,
        }
    }

    /// The text of the error, for a receipt.
    pub fn message(&self) -> (msg: String)
        ensures
            msg@ == self.text(),
    {
        let text = match self {
            ParseError::ExpectedEOF => "expected the end of the input",
            ParseError::EmptyField(_) => "a field is empty",
            ParseError::NotEnoughBytes(_) => "not enough bytes for a field",
            ParseError::TooManyBytes(_) => "a number is too large for its field",
            ParseError::InvalidTag(_) => "a field holds an unknown tag",
            ParseError::InvalidUTF8String(_) => "a field is not valid UTF-8",
            ParseError::UnsupportedProtoVersion(_) => "the protocol version is not supported",
        };
        text.to_owned()
    }
}

} // verus!

//! What crosses the boundary to the host as raw bytes.

use crate::text::string_from_utf8;
use vstd::prelude::*;
use vstd::slice::slice_to_vec;
use vstd::utf8::{decode_utf8, encode_utf8, valid_utf8};

verus! {

/// A failure that a host function signals: the bytes of its message.
#[allow(non_camel_case_types)]
#[derive(Clone, Debug, PartialEq, Eq)]
pub struct svm_trap_t {
    pub error: Vec<u8>,
}

/// The message that stands in for one that is not UTF-8.
pub open spec fn trap_fallback() -> Seq<char> {
    "svm_trap_t (exact error message had an interpretation error."@
}

/// The message of a trap with the bytes `error`.
pub open spec fn trap_message(error: Seq<u8>) -> Seq<char> {
    if valid_utf8(error) {
        decode_utf8(error)
    } else {
        trap_fallback()
    }
}

impl svm_trap_t {
    /// A trap with room for a message of `size` bytes, all zero.
    pub fn allocate(size: usize) -> (trap: svm_trap_t)
        ensures
            trap.error@ == Seq::new(size as nat, |i: int| 0u8),
    {
        let mut error: Vec<u8> = Vec::new();
        while error.len() < size
            invariant
                error@.len() <= size,
                forall|i: int| 0 <= i < error@.len() ==> error@[i] == 0,
            decreases size - error@.len(),
        {
            error.push(0);
        }
        assert(error@ =~= Seq::new(size as nat, |i: int| 0u8));

        svm_trap_t { error }
    }

    /// The trap with the message `err`.
    pub fn from_string(err: String) -> (trap: svm_trap_t)
        ensures
            trap.error@ == encode_utf8(err@),
    {
        let error = slice_to_vec(err.as_str().as_bytes());

        svm_trap_t { error }
    }

    /// The message of the trap; where its bytes are not UTF-8, a text that
    /// says so.
    pub fn message(&self) -> (msg: String)
        ensures
            msg@ == trap_message(self.error@),
    {
        match string_from_utf8(slice_to_vec(self.error.as_slice())) {
            Some(s) => s,
            None => "svm_trap_t (exact error message had an interpretation error.".to_owned(),
        }
    }
}

} // verus!

//! The bridge between the sandbox and the functions that the host provides.
//!
//! A host function is registered under a namespace and a name with the types
//! of its parameters and of its results. At a call the arguments of the
//! sandbox are turned into bytes for the host, and the bytes that the host
//! hands back are read against the declared result types. A failure that the
//! host signals, and any mismatch, ends the call with an error that the
//! sandbox raises as a trap.

use crate::bytes::{
    be_bytes, be_value, lemma_be_value_of_bytes, read_u32_be, read_u64_be, u32_be_bytes,
    u64_be_bytes,
};
use crate::ffi::{svm_trap_t, trap_message};
use crate::text::string_from_utf8;
use crate::types::{WasmType, WasmValue};
use vstd::prelude::*;
use vstd::slice::slice_subrange;
use vstd::utf8::{decode_utf8, valid_utf8};

verus! {

/// A type of the sandbox that a host function may take or return.
#[derive(Clone, Copy, Debug, PartialEq, Eq, Structural)]
pub enum HostType {
    I32,
    I64,
}

/// A value as the sandbox holds it. Values of types that host functions do
/// not take are all `Other`.
#[derive(Clone, Copy, Debug, PartialEq, Eq, Structural)]
pub enum HostVal {
    I32(i32),
    I64(i64),
    Other,
}

/// An error that ends a call; the sandbox raises it as a trap.
#[derive(Clone, Debug, PartialEq, Eq)]
pub struct RuntimeError {
    message: String,
}

impl View for RuntimeError {
    type V = Seq<char>;

    closed spec fn view(&self) -> Seq<char> {
        self.message@
    }
}

impl RuntimeError {
    /// The error with the message `message`.
    pub fn new(message: String) -> (err: RuntimeError)
        ensures
            err@ == message@,
    {
        RuntimeError { message }
    }

    /// The message of the error.
    pub fn message(&self) -> (msg: &str)
        ensures
            msg@ == self@,
    {
        self.message.as_str()
    }
}

/// The type of the sandbox for a declared type.
pub open spec fn host_type(ty: WasmType) -> HostType {
    match ty {
        WasmType::I32 => HostType::I32,
        WasmType::I64 => HostType::I64,
    }
}

/// The value of the sandbox for a value of the host: the same bits.
pub open spec fn host_val(value: WasmValue) -> HostVal {
    match value {
        WasmValue::I32(v) => HostVal::I32(v as i32),
        WasmValue::I64(v) => HostVal::I64(v as i64),
    }
}

/// The value of the host for a value of the sandbox: the same bits.
pub open spec fn wasm_val(value: HostVal) -> WasmValue
    recommends
        value != HostVal::Other,
{
    match value {
        HostVal::I32(v) => WasmValue::I32(v as u32),
        HostVal::I64(v) => WasmValue::I64(v as u64),
        HostVal::Other => WasmValue::I32(0),
    }
}

/// The types of `values`, in order.
pub open spec fn types_of(values: Seq<WasmValue>) -> Seq<WasmType> {
    Seq::new(values.len(), |i: int| values[i].spec_ty())
}

/// The tag byte of a type.
pub open spec fn type_tag(ty: WasmType) -> u8 {
    match ty {
        WasmType::I32 => 0,
        WasmType::I64 => 1,
    }
}

/// The bytes of a value: the tag of its type, then its 4 or 8 bytes, most
/// significant first.
pub open spec fn value_bytes(value: WasmValue) -> Seq<u8> {
    match value {
        WasmValue::I32(v) => seq![0u8] + be_bytes(v as nat, 4),
        WasmValue::I64(v) => seq![1u8] + be_bytes(v as nat, 8),
    }
}

/// The bytes of values, one after the other.
pub open spec fn values_body(values: Seq<WasmValue>) -> Seq<u8>
    decreases values.len(),
{
    if values.len() == 0 {
        Seq::empty()
    } else {
        value_bytes(values[0]) + values_body(values.drop_first())
    }
}

/// The bytes of at most 255 values: their number in one byte, then each.
pub open spec fn values_bytes(values: Seq<WasmValue>) -> Seq<u8> {
    seq![values.len() as u8] + values_body(values)
}

/// What stands at `pos` as one value, with the position after it.
pub open spec fn value_at(bytes: Seq<u8>, pos: int) -> Option<(WasmValue, int)> {
    if pos < 0 || pos >= bytes.len() {
        None
    } else if bytes[pos] == 0 {
        if pos + 5 > bytes.len() {
            None
        } else {
            Some((WasmValue::I32(be_value(bytes.subrange(pos + 1, pos + 5)) as u32), pos + 5))
        }
    } else if bytes[pos] == 1 {
        if pos + 9 > bytes.len() {
            None
        } else {
            Some((WasmValue::I64(be_value(bytes.subrange(pos + 1, pos + 9)) as u64), pos + 9))
        }
    } else {
        None
    }
}

/// What stands at `pos` as `count` values, with the position after them.
pub open spec fn values_at(bytes: Seq<u8>, pos: int, count: nat) -> Option<
    (Seq<WasmValue>, int),
>
    decreases count,
{
    if count == 0 {
        Some((Seq::empty(), pos))
    } else {
        match value_at(bytes, pos) {
            None => None,
            Some((value, next)) => match values_at(bytes, next, (count - 1) as nat) {
                None => None,
                Some((rest, end)) => Some((seq![value] + rest, end)),
            },
        }
    }
}

/// The values that `bytes` hold: a count, that many values, and nothing
/// after them.
pub open spec fn parse_values(bytes: Seq<u8>) -> Option<Seq<WasmValue>> {
    if bytes.len() == 0 {
        None
    } else {
        match values_at(bytes, 1, bytes[0] as nat) {
            None => None,
            Some((values, end)) => if end == bytes.len() {
                Some(values)
            } else {
                None
            },
        }
    }
}

/// The bytes of at most 255 types: their number in one byte, then the tag of
/// each.
pub open spec fn types_bytes(types: Seq<WasmType>) -> Seq<u8> {
    seq![types.len() as u8] + Seq::new(types.len(), |i: int| type_tag(types[i]))
}

/// The types that `bytes` hold: a count and that many tags, each 0 or 1,
/// and nothing after them.
pub open spec fn parse_types(bytes: Seq<u8>) -> Option<Seq<WasmType>> {
    if bytes.len() == 0 || bytes.len() != 1 + bytes[0] || exists|i: int|
        1 <= i < bytes.len() && bytes[i] > 1 {
        None
    } else {
        Some(
            Seq::new(
                (bytes.len() - 1) as nat,
                |i: int|
                    if bytes[i + 1] == 0 {
                        WasmType::I32
                    } else {
                        WasmType::I64
                    },
            ),
        )
    }
}

/// The bytes of at most 255 values, for the host.
pub fn encode_wasm_values(values: &[WasmValue]) -> (bytes: Vec<u8>)
    requires
        values@.len() <= 255,
    ensures
        bytes@ == values_bytes(values@),
{
    let mut bytes: Vec<u8> = Vec::new();
    bytes.push(values.len() as u8);
    let mut i: usize = 0;
    assert(values@.skip(0) =~= values@);
    while i < values.len()
        invariant
            i <= values@.len(),
            values@.len() <= 255,
            bytes@ + values_body(values@.skip(i as int)) =~= values_bytes(values@),
        decreases values@.len() - i,
    {
        let ghost before = bytes@;
        let ghost rest = values@.skip(i as int);
        match values[i] {
            WasmValue::I32(v) => {
                bytes.push(0);
                let be = u32_be_bytes(v);
                let mut k: usize = 0;
                while k < 4
                    invariant
                        k <= 4,
                        be@ == be_bytes(v as nat, 4),
                        be@.len() == 4,
                        bytes@ =~= before + seq![0u8] + be@.subrange(0, k as int),
                    decreases 4 - k,
                {
                    bytes.push(be[k]);
                    k += 1;
                }
                assert(be@.subrange(0, 4) =~= be@);
            },
            WasmValue::I64(v) => {
                bytes.push(1);
                let be = u64_be_bytes(v);
                let mut k: usize = 0;
                while k < 8
                    invariant
                        k <= 8,
                        be@ == be_bytes(v as nat, 8),
                        be@.len() == 8,
                        bytes@ =~= before + seq![1u8] + be@.subrange(0, k as int),
                    decreases 8 - k,
                {
                    bytes.push(be[k]);
                    k += 1;
                }
                assert(be@.subrange(0, 8) =~= be@);
            },
        }
        proof {
            assert(rest[0] == values@[i as int]);
            assert(rest.drop_first() =~= values@.skip(i + 1));
            assert(bytes@ =~= before + value_bytes(values@[i as int]));
            assert(before + values_body(rest) =~= bytes@ + values_body(values@.skip(i + 1)));
        }
        i += 1;
    }
    assert(values_body(values@.skip(i as int)) =~= Seq::<u8>::empty());
    assert(bytes@ =~= values_bytes(values@));
    bytes
}

proof fn lemma_value_at(bytes: Seq<u8>, pos: int, value: WasmValue)
    requires
        0 <= pos,
        pos + value_bytes(value).len() <= bytes.len(),
        bytes.subrange(pos, pos + value_bytes(value).len()) == value_bytes(value),
    ensures
        value_at(bytes, pos) == Some((value, pos + value_bytes(value).len())),
{
    let part = value_bytes(value);
    lemma_be_value_of_bytes(0, 4);
    lemma_be_value_of_bytes(0, 8);
    match value {
        WasmValue::I32(v) => {
            lemma_be_value_of_bytes(v as nat, 4);
            assert(bytes[pos] == part[0]);
            assert(bytes.subrange(pos + 1, pos + 5) =~= part.subrange(1, 5));
            assert(part.subrange(1, 5) =~= be_bytes(v as nat, 4));
        },
        WasmValue::I64(v) => {
            lemma_be_value_of_bytes(v as nat, 8);
            assert(bytes[pos] == part[0]);
            assert(bytes.subrange(pos + 1, pos + 9) =~= part.subrange(1, 9));
            assert(part.subrange(1, 9) =~= be_bytes(v as nat, 8));
        },
    }
}

proof fn lemma_values_at(bytes: Seq<u8>, pos: int, values: Seq<WasmValue>)
    requires
        0 <= pos,
        pos + values_body(values).len() <= bytes.len(),
        bytes.subrange(pos, pos + values_body(values).len()) == values_body(values),
    ensures
        values_at(bytes, pos, values.len()) == Some(
            (values, pos + values_body(values).len()),
        ),
    decreases values.len(),
{
    if values.len() == 0 {
        assert(values =~= Seq::<WasmValue>::empty());
    } else {
        let first = value_bytes(values[0]);
        let rest = values.drop_first();
        let whole = bytes.subrange(pos, pos + values_body(values).len());
        assert(bytes.subrange(pos, pos + first.len()) =~= whole.subrange(0, first.len() as int));
        assert(whole.subrange(0, first.len() as int) =~= first);
        assert(bytes.subrange(pos + first.len(), pos + first.len() + values_body(rest).len())
            =~= whole.subrange(first.len() as int, whole.len() as int));
        assert(whole.subrange(first.len() as int, whole.len() as int) =~= values_body(rest));
        lemma_value_at(bytes, pos, values[0]);
        lemma_values_at(bytes, pos + first.len(), rest);
        assert(seq![values[0]] + rest =~= values);
    }
}

/// What is written for the host is read back unchanged: at most 255 values
/// come back from their bytes as they were.
pub proof fn lemma_values_round_trip(values: Seq<WasmValue>)
    requires
        values.len() <= 255,
    ensures
        parse_values(values_bytes(values)) == Some(values),
{
    let bytes = values_bytes(values);
    assert(bytes[0] == values.len() as u8);
    assert(bytes.subrange(1, 1 + values_body(values).len() as int) =~= values_body(values));
    lemma_values_at(bytes, 1, values);
}

/// `rest` with `head` put before the values it found.
pub open spec fn after_values(head: Seq<WasmValue>, rest: Option<(Seq<WasmValue>, int)>) -> Option<
    (Seq<WasmValue>, int),
> {
    match rest {
        None => None,
        Some((values, end)) => Some((head + values, end)),
    }
}

/// Reads values from the bytes of the host.
pub fn decode_wasm_values(bytes: &[u8]) -> (res: Option<Vec<WasmValue>>)
    ensures
        match res {
            Some(values) => parse_values(bytes@) == Some(values@),
            None => parse_values(bytes@) is None,
        },
{
    if bytes.len() == 0 {
        return None;
    }
    let count = bytes[0] as usize;
    let mut values: Vec<WasmValue> = Vec::new();
    let mut pos: usize = 1;
    let mut i: usize = 0;
    proof {
        let all = values_at(bytes@, 1, count as nat);
        if all is Some {
            assert(values@ + all->Some_0.0 =~= all->Some_0.0);
        }
    }
    while i < count
        invariant
            i <= count,
            1 <= pos <= bytes@.len(),
            count == bytes@[0],
            values@.len() == i,
            values_at(bytes@, 1, count as nat) == after_values(
                values@,
                values_at(bytes@, pos as int, (count - i) as nat),
            ),
        decreases count - i,
    {
        let ghost head = values@;
        let ghost at = pos as int;
        if pos >= bytes.len() {
            return None;
        }
        let tag = bytes[pos];
        let value = if tag == 0 {
            if bytes.len() - pos < 5 {
                return None;
            }
            let v = read_u32_be(slice_subrange(bytes, pos + 1, pos + 5));
            proof {
                let part = bytes@.subrange(pos + 1, pos + 5);
                assert(part.subrange(0, 4) =~= part);
            }
            pos = pos + 5;
            WasmValue::I32(v)
        } else if tag == 1 {
            if bytes.len() - pos < 9 {
                return None;
            }
            let v = read_u64_be(slice_subrange(bytes, pos + 1, pos + 9));
            proof {
                let part = bytes@.subrange(pos + 1, pos + 9);
                assert(part.subrange(0, 8) =~= part);
            }
            pos = pos + 9;
            WasmValue::I64(v)
        } else {
            return None;
        };
        values.push(value);
        proof {
            assert(value_at(bytes@, at) == Some((value, pos as int)));
            let rest = values_at(bytes@, pos as int, (count - i - 1) as nat);
            if rest is Some {
                assert(head + (seq![value] + rest->Some_0.0) =~= values@ + rest->Some_0.0);
            }
        }
        i += 1;
    }
    assert(values@ + Seq::<WasmValue>::empty() =~= values@);
    if pos != bytes.len() {
        return None;
    }
    Some(values)
}

/// Reads types from the bytes of the host.
pub fn decode_wasm_types(bytes: &[u8]) -> (res: Option<Vec<WasmType>>)
    ensures
        match res {
            Some(types) => parse_types(bytes@) == Some(types@),
            None => parse_types(bytes@) is None,
        },
{
    if bytes.len() == 0 || bytes.len() - 1 != bytes[0] as usize {
        return None;
    }
    let mut types: Vec<WasmType> = Vec::new();
    let mut i: usize = 1;
    while i < bytes.len()
        invariant
            1 <= i <= bytes@.len(),
            types@.len() == i - 1,
            forall|j: int| 1 <= j < i ==> bytes@[j] <= 1,
            forall|j: int|
                0 <= j < i - 1 ==> types@[j] == if bytes@[j + 1] == 0 {
                    WasmType::I32
                } else {
                    WasmType::I64
                },
        decreases bytes@.len() - i,
    {
        if bytes[i] == 0 {
            types.push(WasmType::I32);
        } else if bytes[i] == 1 {
            types.push(WasmType::I64);
        } else {
            return None;
        }
        i += 1;
    }
    assert(parse_types(bytes@)->0 =~= types@);
    Some(types)
}

/// The bytes of at most 255 types, for the host.
pub fn encode_wasm_types(types: &[WasmType]) -> (bytes: Vec<u8>)
    requires
        types@.len() <= 255,
    ensures
        bytes@ == types_bytes(types@),
{
    let mut bytes: Vec<u8> = Vec::new();
    bytes.push(types.len() as u8);
    let mut i: usize = 0;
    while i < types.len()
        invariant
            i <= types@.len(),
            bytes@.len() == i + 1,
            bytes@[0] == types@.len() as u8,
            forall|j: int| 0 <= j < i ==> bytes@[j + 1] == type_tag(types@[j]),
        decreases types@.len() - i,
    {
        match types[i] {
            WasmType::I32 => bytes.push(0),
            WasmType::I64 => bytes.push(1),
        }
        i += 1;
    }
    assert(bytes@ =~= types_bytes(types@));
    bytes
}

/// A zeroed buffer for the host to write `count` results into: room for the
/// count and for a tag and eight bytes each.
pub fn alloc_wasm_values(count: usize) -> (bytes: Vec<u8>)
    requires
        count <= 255,
    ensures
        bytes@ == Seq::new((1 + 9 * count) as nat, |i: int| 0u8),
{
    let size = 1 + 9 * count;
    let mut bytes: Vec<u8> = Vec::new();
    while bytes.len() < size
        invariant
            bytes@.len() <= size,
            forall|i: int| 0 <= i < bytes@.len() ==> bytes@[i] == 0,
        decreases size - bytes@.len(),
    {
        bytes.push(0);
    }
    assert(bytes@ =~= Seq::new((1 + 9 * count) as nat, |i: int| 0u8));
    bytes
}

/// The types of the sandbox for declared types.
pub fn to_wasmer_types(types: &[WasmType]) -> (host: Vec<HostType>)
    ensures
        host@ == Seq::new(types@.len(), |i: int| host_type(types@[i])),
{
    let mut host: Vec<HostType> = Vec::new();
    let mut i: usize = 0;
    while i < types.len()
        invariant
            i <= types@.len(),
            host@.len() == i,
            forall|j: int| 0 <= j < i ==> host@[j] == host_type(types@[j]),
        decreases types@.len() - i,
    {
        let ty = match types[i] {
            WasmType::I32 => HostType::I32,
            WasmType::I64 => HostType::I64,
        };
        host.push(ty);
        i += 1;
    }
    assert(host@ =~= Seq::new(types@.len(), |i: int| host_type(types@[i])));
    host
}

/// Reads the results of a host function against the declared types: the
/// values that the bytes hold, if they hold values and their types are the
/// declared ones, in number and in order.
pub fn to_wasm_values(bytes: &[u8], types: &[WasmType]) -> (res: Option<Vec<WasmValue>>)
    ensures
        match res {
            Some(values) => parse_values(bytes@) == Some(values@) && types_of(values@)
                == types@,
            None => parse_values(bytes@) is None || types_of(parse_values(bytes@)->0)
                != types@,
        },
{
    let results = decode_wasm_values(bytes);

    if results.is_none() {
        return None;
    }

    let results = results.unwrap();

    if results.len() != types.len() {
        return None;
    }

    let mut i: usize = 0;
    while i < results.len()
        invariant
            i <= results@.len(),
            results@.len() == types@.len(),
            parse_values(bytes@) == Some(results@),
            forall|j: int| 0 <= j < i ==> results@[j].spec_ty() == types@[j],
        decreases results@.len() - i,
    {
        if results[i].ty() != types[i] {
            assert(types_of(results@)[i as int] != types@[i as int]);
            return None;
        }
        i += 1;
    }
    assert(types_of(results@) =~= types@);

    Some(results)
}

/// The text of the error for an argument of a type that host functions do
/// not take.
pub open spec fn invalid_argument() -> Seq<char> {
    "Invalid argument type"@
}

/// The text of the error for results that do not match the declared types.
pub open spec fn invalid_results() -> Seq<char> {
    "Invalid WASM values"@
}

/// Turns the arguments of the sandbox into values for the host. Fails at an
/// argument that is neither a 32-bit nor a 64-bit integer.
pub fn wasmer_vals_to_wasm_vals(wasmer_vals: &[HostVal]) -> (res: Result<
    Vec<WasmValue>,
    RuntimeError,
>)
    ensures
        match res {
            Ok(values) => {
                &&& values@.len() == wasmer_vals@.len()
                &&& forall|i: int|
                    0 <= i < values@.len() ==> wasmer_vals@[i] != HostVal::Other && values@[i]
                        == wasm_val(wasmer_vals@[i])
            },
            Err(e) => {
                &&& exists|i: int|
                    0 <= i < wasmer_vals@.len() && wasmer_vals@[i] == HostVal::Other
                &&& e@ == invalid_argument()
            },
        },
{
    let mut values: Vec<WasmValue> = Vec::new();

    let mut i: usize = 0;
    while i < wasmer_vals.len()
        invariant
            i <= wasmer_vals@.len(),
            values@.len() == i,
            forall|j: int|
                0 <= j < i ==> wasmer_vals@[j] != HostVal::Other && values@[j] == wasm_val(
                    wasmer_vals@[j],
                ),
        decreases wasmer_vals@.len() - i,
    {
        let value = match wasmer_vals[i] {
            HostVal::I32(v) => WasmValue::I32(
                #[verifier::truncate]
                (v as u32),
            ),
            HostVal::I64(v) => WasmValue::I64(
                #[verifier::truncate]
                (v as u64),
            ),
            HostVal::Other => {
                return Err(RuntimeError::new("Invalid argument type".to_owned()));
            },
        };

        values.push(value);
        i += 1;
    }

    Ok(values)
}

/// Turns values of the host into values of the sandbox.
pub fn wasm_vals_to_wasmer_vals(vals: &[WasmValue]) -> (host: Vec<HostVal>)
    ensures
        host@ == Seq::new(vals@.len(), |i: int| host_val(vals@[i])),
{
    let mut host: Vec<HostVal> = Vec::new();
    let mut i: usize = 0;
    while i < vals.len()
        invariant
            i <= vals@.len(),
            host@.len() == i,
            forall|j: int| 0 <= j < i ==> host@[j] == host_val(vals@[j]),
        decreases vals@.len() - i,
    {
        let val = match vals[i] {
            WasmValue::I32(v) => HostVal::I32(
                #[verifier::truncate]
                (v as i32),
            ),
            WasmValue::I64(v) => HostVal::I64(
                #[verifier::truncate]
                (v as i64),
            ),
        };
        host.push(val);
        i += 1;
    }
    assert(host@ =~= Seq::new(vals@.len(), |i: int| host_val(vals@[i])));
    host
}

/// A function that the host provides to the sandbox.
#[derive(Debug, PartialEq, Eq)]
pub struct ExternImport {
    name: String,
    namespace: String,
    params: Vec<WasmType>,
    results: Vec<WasmType>,
}

impl ExternImport {
    #[verifier::type_invariant]
    closed spec fn encodable(&self) -> bool {
        self.params@.len() <= 255 && self.results@.len() <= 255
    }

    /// The name of the function.
    pub closed spec fn spec_name(&self) -> Seq<char> {
        self.name@
    }

    /// The namespace of the function.
    pub closed spec fn spec_namespace(&self) -> Seq<char> {
        self.namespace@
    }

    /// The declared types of the parameters.
    pub closed spec fn params(&self) -> Seq<WasmType> {
        self.params@
    }

    /// The declared types of the results.
    pub closed spec fn results(&self) -> Seq<WasmType> {
        self.results@
    }

    /// Registers a function with at most 255 parameters and 255 results.
    pub fn new(
        name: String,
        namespace: String,
        params: Vec<WasmType>,
        results: Vec<WasmType>,
    ) -> (import: ExternImport)
        requires
            params@.len() <= 255,
            results@.len() <= 255,
        ensures
            import.spec_name() == name@,
            import.spec_namespace() == namespace@,
            import.params() == params@,
            import.results() == results@,
    {
        ExternImport { name, namespace, params, results }
    }

    /// A copy of the import.
    pub fn duplicate(&self) -> (copy: ExternImport)
        ensures
            copy.spec_name() == self.spec_name(),
            copy.spec_namespace() == self.spec_namespace(),
            copy.params() == self.params(),
            copy.results() == self.results(),
    {
        proof {
            use_type_invariant(self);
        }
        ExternImport {
            name: self.name.clone(),
            namespace: self.namespace.clone(),
            params: vstd::slice::slice_to_vec(self.params.as_slice()),
            results: vstd::slice::slice_to_vec(self.results.as_slice()),
        }
    }

    /// The name of the function.
    pub fn name(&self) -> (name: &str)
        ensures
            name@ == self.spec_name(),
    {
        self.name.as_str()
    }

    /// The namespace of the function.
    pub fn namespace(&self) -> (namespace: &str)
        ensures
            namespace@ == self.spec_namespace(),
    {
        self.namespace.as_str()
    }

    /// The types of the function as the sandbox declares them: parameters
    /// and results.
    pub fn wasmer_function_ty(&self) -> (ty: (Vec<HostType>, Vec<HostType>))
        ensures
            ty.0@ == Seq::new(self.params().len(), |i: int| host_type(self.params()[i])),
            ty.1@ == Seq::new(self.results().len(), |i: int| host_type(self.results()[i])),
    {
        let params = to_wasmer_types(self.params.as_slice());
        let results = to_wasmer_types(self.results.as_slice());

        (params, results)
    }

    /// The first half of a call: turns the arguments into the bytes that the
    /// host function takes, and a zeroed buffer for its results. Fails where
    /// an argument is no integer or the arguments are not of the declared
    /// types.
    pub fn begin_call(&self, args: &[HostVal]) -> (res: Result<(Vec<u8>, Vec<u8>), RuntimeError>)
        ensures
            match res {
                Ok((bytes, results)) => {
                    &&& args@.len() == self.params().len()
                    &&& forall|i: int|
                        0 <= i < args@.len() ==> args@[i] != HostVal::Other && wasm_val(
                            args@[i],
                        ).spec_ty() == self.params()[i]
                    &&& bytes@ == values_bytes(Seq::new(args@.len(), |i: int| wasm_val(args@[i])))
                    &&& results@ == Seq::new((1 + 9 * self.results().len()) as nat, |i: int| 0u8)
                },
                Err(e) => {
                    &&& e@ == invalid_argument()
                    &&& args@.len() != self.params().len() || exists|i: int|
                        0 <= i < args@.len() && (args@[i] == HostVal::Other || wasm_val(
                            args@[i],
                        ).spec_ty() != self.params()[i])
                },
            },
    {
        proof {
            use_type_invariant(self);
        }
        let values = wasmer_vals_to_wasm_vals(args)?;
        if values.len() != self.params.len() {
            return Err(RuntimeError::new("Invalid argument type".to_owned()));
        }
        let mut i: usize = 0;
        while i < values.len()
            invariant
                i <= values@.len(),
                values@.len() == self.params@.len(),
                values@.len() == args@.len(),
                forall|j: int| 0 <= j < values@.len() ==> values@[j] == wasm_val(args@[j]),
                forall|j: int| 0 <= j < i ==> values@[j].spec_ty() == self.params@[j],
            decreases values@.len() - i,
        {
            if values[i].ty() != self.params[i] {
                assert(wasm_val(args@[i as int]).spec_ty() != self.params()[i as int]);
                return Err(RuntimeError::new("Invalid argument type".to_owned()));
            }
            i += 1;
        }
        assert(values@ =~= Seq::new(args@.len(), |i: int| wasm_val(args@[i])));
        let bytes = encode_wasm_values(values.as_slice());
        let results = alloc_wasm_values(self.results.len());
        Ok((bytes, results))
    }

    /// The second half of a call: what the sandbox gets back. A trap of the
    /// host ends the call with the trap's message; otherwise the bytes of
    /// the results are read against the declared types, and a mismatch ends
    /// the call too.
    pub fn finish_call(&self, trap: Option<&svm_trap_t>, results: &[u8]) -> (res: Result<
        Vec<HostVal>,
        RuntimeError,
    >)
        ensures
            match trap {
                Some(trap) => res matches Err(e) && e@ == trap_message(trap.error@),
                None => match res {
                    Ok(vals) => {
                        &&& parse_values(results@) matches Some(values)
                        &&& types_of(values) == self.results()
                        &&& vals@ == Seq::new(values.len(), |i: int| host_val(values[i]))
                    },
                    Err(e) => {
                        &&& e@ == invalid_results()
                        &&& parse_values(results@) is None || types_of(parse_values(results@)->0)
                            != self.results()
                    },
                },
            },
    {
        if let Some(trap) = trap {
            let err_msg: String = trap.message();
            let err = RuntimeError::new(err_msg);

            return Err(err);
        }

        let vals = to_wasm_values(results, self.results.as_slice());

        if let Some(vals) = vals {
            let vals = wasm_vals_to_wasmer_vals(vals.as_slice());

            Ok(vals)
        } else {
            Err(RuntimeError::new("Invalid WASM values".to_owned()))
        }
    }
}

/// Why a host function could not be registered.
#[derive(Clone, Copy, Debug, PartialEq, Eq, Structural)]
pub enum ImportError {
    NullHostEnv,
    InvalidParams,
    InvalidReturns,
    NameNotUtf8,
    NamespaceNotUtf8,
}

impl ImportError {
    /// The text of the error.
    pub open spec fn text(self) -> Seq<char> {
        match self {
            ImportError::NullHostEnv => "`host_env` parameter must not be NULL"@,
            ImportError::InvalidParams => "invalid types of parameters"@,
            ImportError::InvalidReturns => "invalid types of results"@,
            ImportError::NameNotUtf8 => "the name of the import is not valid UTF-8"@,
            ImportError::NamespaceNotUtf8 => "the namespace of the import is not valid UTF-8"@,
        }
    }

    /// The text of the error, for the host.
    pub fn message(&self) -> (msg: String)
        ensures
            msg@ == self.text(),
    {
        let text = match self {
            ImportError::NullHostEnv => "`host_env` parameter must not be NULL",
            ImportError::InvalidParams => "invalid types of parameters",
            ImportError::InvalidReturns => "invalid types of results",
            ImportError::NameNotUtf8 => "the name of the import is not valid UTF-8",
            ImportError::NamespaceNotUtf8 => "the namespace of the import is not valid UTF-8",
        };
        text.to_owned()
    }
}

/// What the registration of a host function gives for its raw parts: the
/// first error in the order host environment, parameters, results, name,
/// namespace; or the import.
pub open spec fn import_of(
    namespace: Seq<u8>,
    import_name: Seq<u8>,
    host_env_is_null: bool,
    params: Seq<u8>,
    results: Seq<u8>,
) -> Result<(Seq<char>, Seq<char>, Seq<WasmType>, Seq<WasmType>), ImportError> {
    if host_env_is_null {
        Err(ImportError::NullHostEnv)
    } else if parse_types(params) is None {
        Err(ImportError::InvalidParams)
    } else if parse_types(results) is None {
        Err(ImportError::InvalidReturns)
    } else if !valid_utf8(import_name) {
        Err(ImportError::NameNotUtf8)
    } else if !valid_utf8(namespace) {
        Err(ImportError::NamespaceNotUtf8)
    } else {
        Ok(
            (
                decode_utf8(import_name),
                decode_utf8(namespace),
                parse_types(params)->0,
                parse_types(results)->0,
            ),
        )
    }
}

/// The host functions of a runtime: a list with a capacity fixed at its
/// allocation.
pub struct Imports {
    list: Vec<ExternImport>,
    capacity: usize,
}

impl Imports {
    /// The imports registered so far.
    pub closed spec fn view(&self) -> Seq<ExternImport> {
        self.list@
    }

    /// The number of imports that the list can hold.
    pub closed spec fn spec_capacity(&self) -> nat {
        self.capacity as nat
    }

    /// An empty list with room for `count` imports.
    pub fn with_capacity(count: u32) -> (imports: Imports)
        ensures
            imports.view().len() == 0,
            imports.spec_capacity() == count,
    {
        Imports { list: Vec::new(), capacity: count as usize }
    }

    /// The number of imports registered so far.
    pub fn len(&self) -> (n: usize)
        ensures
            n == self.view().len(),
    {
        self.list.len()
    }

    /// The number of imports that the list can hold.
    pub fn capacity(&self) -> (n: usize)
        ensures
            n == self.spec_capacity(),
    {
        self.capacity
    }

    /// The imports registered so far.
    pub fn as_slice(&self) -> (list: &[ExternImport])
        ensures
            list@ == self.view(),
    {
        self.list.as_slice()
    }

    /// Registers a host function from its raw parts, in a list that has
    /// room for one more. On an error the list stays as it is.
    pub fn import_func_new(
        &mut self,
        namespace: Vec<u8>,
        import_name: Vec<u8>,
        host_env_is_null: bool,
        params: &[u8],
        results: &[u8],
    ) -> (res: Result<(), ImportError>)
        requires
            old(self).view().len() < old(self).spec_capacity(),
        ensures
            final(self).spec_capacity() == old(self).spec_capacity(),
            match res {
                Ok(()) => {
                    &&& import_of(namespace@, import_name@, host_env_is_null, params@, results@)
                        matches Ok(parts)
                    &&& final(self).view().len() == old(self).view().len() + 1
                    &&& final(self).view().drop_last() == old(self).view()
                    &&& final(self).view().last().spec_name() == parts.0
                    &&& final(self).view().last().spec_namespace() == parts.1
                    &&& final(self).view().last().params() == parts.2
                    &&& final(self).view().last().results() == parts.3
                },
                Err(e) => {
                    &&& import_of(namespace@, import_name@, host_env_is_null, params@, results@)
                        == Err::<(Seq<char>, Seq<char>, Seq<WasmType>, Seq<WasmType>), ImportError>(
                        e,
                    )
                    &&& final(self).view() == old(self).view()
                },
            },
    {
        if host_env_is_null {
            return Err(ImportError::NullHostEnv);
        }

        let params = match decode_wasm_types(params) {
            Some(params) => params,
            None => {
                return Err(ImportError::InvalidParams);
            },
        };

        let results = match decode_wasm_types(results) {
            Some(results) => results,
            None => {
                return Err(ImportError::InvalidReturns);
            },
        };

        let import_name = match string_from_utf8(import_name) {
            Some(name) => name,
            None => {
                return Err(ImportError::NameNotUtf8);
            },
        };

        let namespace = match string_from_utf8(namespace) {
            Some(namespace) => namespace,
            None => {
                return Err(ImportError::NamespaceNotUtf8);
            },
        };

        let import = ExternImport::new(import_name, namespace, params, results);

        let ghost before = self.list@;
        self.list.push(import);
        assert(self.list@.drop_last() =~= before);

        Ok(())
    }
}

} // verus!

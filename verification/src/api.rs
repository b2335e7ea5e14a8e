//! Building the bytes of transactions from raw parts, as an embedding host
//! hands them over: byte buffers that have yet to be checked.

use crate::bytes::{be_value, read_u32_be};
use crate::codec::app::{spawn_app_bytes, spawn_app_to_bytes};
use crate::codec::field::{MAX_BLOB_LEN, MAX_STRING_LEN};
use crate::codec::template::{deploy_template_bytes, deploy_template_to_bytes, MAX_LAYOUT_VARS};
use crate::codec::tx::{exec_app_bytes, exec_app_to_bytes};
use crate::text::string_from_utf8;
use crate::types::{
    Address, App, AppAddr, AppTemplate, AppTemplateView, AppTransaction, AppTransactionView,
    AuthorAddr, DataLayout, SpawnApp, SpawnAppView, TemplateAddr, ADDRESS_LEN,
};
use vstd::prelude::*;
use vstd::slice::{slice_subrange, slice_to_vec};
use vstd::utf8::{decode_utf8, encode_utf8, decode_utf8_encode_utf8, valid_utf8};

verus! {

/// Why raw parts do not make a transaction.
#[derive(Clone, Copy, Debug, PartialEq, Eq, Structural)]
pub enum ApiError {
    /// An address does not have 20 bytes.
    InvalidAddress,
    /// A name is not valid UTF-8.
    InvalidUtf8,
    /// A name has more than 255 bytes.
    NameTooLong,
    /// The bytes of a data layout are not a sequence of 4-byte lengths.
    InvalidLayout,
    /// The code or the call arguments have 2^32 bytes or more, or the data
    /// layout has 2^32 variables or more.
    TooManyBytes,
}

/// The address that raw bytes hold: they must be 20.
pub fn address_from_raw(bytes: &[u8]) -> (res: Result<Address, ApiError>)
    ensures
        match res {
            Ok(addr) => bytes@.len() == ADDRESS_LEN && addr@ == bytes@,
            Err(e) => bytes@.len() != ADDRESS_LEN && e == ApiError::InvalidAddress,
        },
{
    if bytes.len() != ADDRESS_LEN {
        return Err(ApiError::InvalidAddress);
    }
    Ok(Address::from_slice(bytes))
}

/// The name that raw bytes hold: valid UTF-8 of at most 255 bytes.
pub fn name_from_raw(bytes: &[u8]) -> (res: Result<String, ApiError>)
    ensures
        match res {
            Ok(name) => valid_utf8(bytes@) && bytes@.len() <= MAX_STRING_LEN && name@
                == decode_utf8(bytes@) && encode_utf8(name@) == bytes@,
            Err(e) => if !valid_utf8(bytes@) {
                e == ApiError::InvalidUtf8
            } else {
                bytes@.len() > MAX_STRING_LEN && e == ApiError::NameTooLong
            },
        },
{
    match string_from_utf8(slice_to_vec(bytes)) {
        None => Err(ApiError::InvalidUtf8),
        Some(name) => {
            if bytes.len() > MAX_STRING_LEN {
                return Err(ApiError::NameTooLong);
            }
            proof {
                decode_utf8_encode_utf8(bytes@);
            }
            Ok(name)
        },
    }
}

/// The variable lengths that the bytes of a raw data layout spell: 4 bytes
/// each, most significant first.
pub open spec fn layout_of_raw(bytes: Seq<u8>) -> Seq<u32> {
    Seq::new(bytes.len() / 4, |i: int| be_value(bytes.subrange(4 * i, 4 * i + 4)) as u32)
}

/// The data layout that raw bytes hold: their number must be a multiple of
/// four.
pub fn layout_from_raw(bytes: &[u8]) -> (res: Result<DataLayout, ApiError>)
    ensures
        match res {
            Ok(layout) => bytes@.len() % 4 == 0 && layout@ == layout_of_raw(bytes@),
            Err(e) => bytes@.len() % 4 != 0 && e == ApiError::InvalidLayout,
        },
{
    if bytes.len() % 4 != 0 {
        return Err(ApiError::InvalidLayout);
    }
    let mut vars: Vec<u32> = Vec::new();
    let mut i: usize = 0;
    while i < bytes.len() / 4
        invariant
            i <= bytes@.len() / 4,
            bytes@.len() % 4 == 0,
            vars@.len() == i,
            forall|j: int| 0 <= j < i ==> vars@[j] == layout_of_raw(bytes@)[j],
        decreases bytes@.len() / 4 - i,
    {
        let part = slice_subrange(bytes, 4 * i, 4 * i + 4);
        assert(part@.subrange(0, 4) =~= part@);
        vars.push(read_u32_be(part));
        i += 1;
    }
    assert(vars@ =~= layout_of_raw(bytes@));
    Ok(DataLayout::new(vars))
}

/// What the raw parts of a deploy-template transaction hold, or the first
/// error in the order author, name, data layout, sizes.
pub open spec fn template_of_raw(
    version: u32,
    author: Seq<u8>,
    name: Seq<u8>,
    code: Seq<u8>,
    data: Seq<u8>,
) -> Result<(AppTemplateView, Seq<u8>), ApiError> {
    if author.len() != ADDRESS_LEN {
        Err(ApiError::InvalidAddress)
    } else if !valid_utf8(name) {
        Err(ApiError::InvalidUtf8)
    } else if name.len() > MAX_STRING_LEN {
        Err(ApiError::NameTooLong)
    } else if data.len() % 4 != 0 {
        Err(ApiError::InvalidLayout)
    } else if data.len() / 4 > MAX_LAYOUT_VARS || code.len() > MAX_BLOB_LEN {
        Err(ApiError::TooManyBytes)
    } else {
        Ok(
            (
                AppTemplateView {
                    version,
                    name: decode_utf8(name),
                    code,
                    data: layout_of_raw(data),
                },
                author,
            ),
        )
    }
}

/// Builds the bytes of a deploy-template transaction from raw parts.
pub fn encode_app_template(
    version: u32,
    author: &[u8],
    name: &[u8],
    code: &[u8],
    data: &[u8],
) -> (res: Result<Vec<u8>, ApiError>)
    ensures
        match res {
            Ok(bytes) => template_of_raw(version, author@, name@, code@, data@) matches Ok(parts)
                && bytes@ == deploy_template_bytes(parts.0, parts.1),
            Err(e) => template_of_raw(version, author@, name@, code@, data@) == Err::<
                (AppTemplateView, Seq<u8>),
                ApiError,
            >(e),
        },
{
    let author = AuthorAddr::new(address_from_raw(author)?);
    let name = name_from_raw(name)?;
    let data = layout_from_raw(data)?;
    if data.len() > MAX_LAYOUT_VARS || code.len() > MAX_BLOB_LEN {
        return Err(ApiError::TooManyBytes);
    }
    let template = AppTemplate { version, name, code: slice_to_vec(code), data };

    Ok(deploy_template_to_bytes(&template, &author))
}

/// What the raw parts of a spawn-app transaction hold, or the first error in
/// the order template address, name, constructor name, call arguments.
pub open spec fn spawn_of_raw(
    version: u32,
    template: Seq<u8>,
    name: Seq<u8>,
    ctor_name: Seq<u8>,
    calldata: Seq<u8>,
) -> Result<SpawnAppView, ApiError> {
    if template.len() != ADDRESS_LEN {
        Err(ApiError::InvalidAddress)
    } else if !valid_utf8(name) {
        Err(ApiError::InvalidUtf8)
    } else if name.len() > MAX_STRING_LEN {
        Err(ApiError::NameTooLong)
    } else if !valid_utf8(ctor_name) {
        Err(ApiError::InvalidUtf8)
    } else if ctor_name.len() > MAX_STRING_LEN {
        Err(ApiError::NameTooLong)
    } else if calldata.len() > MAX_BLOB_LEN {
        Err(ApiError::TooManyBytes)
    } else {
        Ok(
            SpawnAppView {
                version,
                template,
                name: decode_utf8(name),
                ctor_name: decode_utf8(ctor_name),
                calldata,
            },
        )
    }
}

/// Builds the bytes of a spawn-app transaction from raw parts.
pub fn encode_spawn_app(
    version: u32,
    template_addr: &[u8],
    name: &[u8],
    ctor_name: &[u8],
    calldata: &[u8],
) -> (res: Result<Vec<u8>, ApiError>)
    ensures
        match res {
            Ok(bytes) => spawn_of_raw(version, template_addr@, name@, ctor_name@, calldata@)
                matches Ok(spawn) && bytes@ == spawn_app_bytes(spawn),
            Err(e) => spawn_of_raw(version, template_addr@, name@, ctor_name@, calldata@) == Err::<
                SpawnAppView,
                ApiError,
            >(e),
        },
{
    let template = TemplateAddr::new(address_from_raw(template_addr)?);
    let name = name_from_raw(name)?;
    let ctor_name = name_from_raw(ctor_name)?;
    if calldata.len() > MAX_BLOB_LEN {
        return Err(ApiError::TooManyBytes);
    }
    let spawn = SpawnApp {
        app: App { version, name, template },
        ctor_name,
        calldata: slice_to_vec(calldata),
    };

    Ok(spawn_app_to_bytes(&spawn))
}

/// What the raw parts of an exec-app transaction hold, or the first error in
/// the order app address, function name, call arguments.
pub open spec fn tx_of_raw(
    version: u32,
    app: Seq<u8>,
    func_name: Seq<u8>,
    calldata: Seq<u8>,
) -> Result<AppTransactionView, ApiError> {
    if app.len() != ADDRESS_LEN {
        Err(ApiError::InvalidAddress)
    } else if !valid_utf8(func_name) {
        Err(ApiError::InvalidUtf8)
    } else if func_name.len() > MAX_STRING_LEN {
        Err(ApiError::NameTooLong)
    } else if calldata.len() > MAX_BLOB_LEN {
        Err(ApiError::TooManyBytes)
    } else {
        Ok(AppTransactionView { version, app, func_name: decode_utf8(func_name), calldata })
    }
}

/// Builds the bytes of an exec-app transaction from raw parts.
pub fn encode_app_tx(version: u32, app_addr: &[u8], func_name: &[u8], calldata: &[u8]) -> (res:
    Result<Vec<u8>, ApiError>)
    ensures
        match res {
            Ok(bytes) => tx_of_raw(version, app_addr@, func_name@, calldata@) matches Ok(tx)
                && bytes@ == exec_app_bytes(tx),
            Err(e) => tx_of_raw(version, app_addr@, func_name@, calldata@) == Err::<
                AppTransactionView,
                ApiError,
            >(e),
        },
{
    let app = AppAddr::new(address_from_raw(app_addr)?);
    let func_name = name_from_raw(func_name)?;
    if calldata.len() > MAX_BLOB_LEN {
        return Err(ApiError::TooManyBytes);
    }
    let tx = AppTransaction { version, app, func_name, calldata: slice_to_vec(calldata) };

    Ok(exec_app_to_bytes(&tx))
}

} // verus!

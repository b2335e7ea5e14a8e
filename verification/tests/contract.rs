use svm::contract::{parse_contract, Error, Field, WasmContract};
use svm::types::Address;

fn contract_bytes(version: u32, name: &[u8], admins: u8, deps: u16, code: &[u8]) -> Vec<u8> {
    let mut bytes = Vec::new();
    bytes.extend_from_slice(&version.to_be_bytes());
    bytes.push(name.len() as u8);
    bytes.extend_from_slice(name);
    bytes.extend_from_slice(Address::of("author").as_slice());
    bytes.push(admins);
    bytes.extend_from_slice(&deps.to_be_bytes());
    bytes.extend_from_slice(&(code.len() as u64).to_be_bytes());
    bytes.extend_from_slice(code);
    bytes
}

#[test]
fn parse_contract_reads_every_field() {
    let bytes = contract_bytes(0, b"Vault", 0, 0, &[0x00, 0x61, 0x73, 0x6D]);

    let expected = WasmContract {
        name: "Vault".to_string(),
        wasm: vec![0x00, 0x61, 0x73, 0x6D],
        author: Address::of("author"),
        admins: vec![],
    };
    assert_eq!(Ok(expected), parse_contract(&bytes));
}

#[test]
fn parse_contract_reads_big_endian_numbers() {
    // a code of 258 bytes has the length 0x0102
    let code = vec![7u8; 258];
    let bytes = contract_bytes(0, b"n", 0, 0, &code);
    assert_eq!(&[0, 0, 0, 0, 0, 0, 1, 2], &bytes[29..37]);

    let contract = parse_contract(&bytes).unwrap();
    assert_eq!(code, contract.wasm);

    let bytes = contract_bytes(0x0100_0000, b"n", 0, 0, &[]);
    assert_eq!(Err(Error::UnsupportedProtoVersion(0x0100_0000)), parse_contract(&bytes));
    let bytes = contract_bytes(1, b"n", 0, 0, &[]);
    assert_eq!(Err(Error::UnsupportedProtoVersion(1)), parse_contract(&bytes));
}

#[test]
fn parse_contract_names_the_field_that_is_cut_short() {
    let bytes = contract_bytes(0, b"Vault", 0, 0, &[1, 2, 3]);

    assert_eq!(Err(Error::NotEnoughBytes(Field::Version)), parse_contract(&bytes[..3]));
    assert_eq!(Err(Error::NotEnoughBytes(Field::NameLength)), parse_contract(&bytes[..4]));
    assert_eq!(Err(Error::NotEnoughBytes(Field::Name)), parse_contract(&bytes[..7]));
    assert_eq!(Err(Error::NotEnoughBytes(Field::Author)), parse_contract(&bytes[..29]));
    assert_eq!(Err(Error::NotEnoughBytes(Field::AdminsCount)), parse_contract(&bytes[..30]));
    assert_eq!(Err(Error::NotEnoughBytes(Field::DepsCount)), parse_contract(&bytes[..32]));
    assert_eq!(Err(Error::NotEnoughBytes(Field::CodeLength)), parse_contract(&bytes[..40]));
    assert_eq!(
        Err(Error::NotEnoughBytes(Field::Code)),
        parse_contract(&bytes[..bytes.len() - 1])
    );
}

#[test]
fn parse_contract_refuses_bad_names() {
    let bytes = contract_bytes(0, b"", 0, 0, &[]);
    assert_eq!(Err(Error::EmptyName), parse_contract(&bytes));

    let bytes = contract_bytes(0, &[0xC3, 0x28], 0, 0, &[]);
    assert_eq!(Err(Error::NameNotValidUTF8String), parse_contract(&bytes));
}

#[test]
fn parse_contract_refuses_admins_and_dependencies() {
    let bytes = contract_bytes(0, b"Vault", 1, 0, &[]);
    assert_eq!(Err(Error::AdminsNotSupportedYet), parse_contract(&bytes));

    let bytes = contract_bytes(0, b"Vault", 0, 1, &[]);
    assert_eq!(Err(Error::DepsNotSupportedYet), parse_contract(&bytes));
}

#[test]
fn parse_contract_refuses_trailing_bytes() {
    let mut bytes = contract_bytes(0, b"Vault", 0, 0, &[1]);
    bytes.push(0);

    assert_eq!(Err(Error::TrailingBytes), parse_contract(&bytes));
}

use svm::codec::app::{
    decode_spawn_app, encode_spawn_app, spawn_app_from_bytes, spawn_app_to_bytes,
};
use svm::codec::error::{Field, ParseError};
use svm::codec::field::{
    decode_address, decode_blob, decode_string, decode_varuint, decode_version, encode_address,
    encode_blob, encode_string, encode_varuint, encode_version,
};
use svm::codec::serialize::{
    AppTemplateDeserializer, AppTemplateSerializer, DefaultAppTemplateDeserializer,
    DefaultAppTemplateSerializer,
};
use svm::codec::template::{deploy_template_from_bytes, deploy_template_to_bytes};
use svm::codec::tx::{exec_app_from_bytes, exec_app_to_bytes};
use svm::nibble::{NibbleIter, NibbleWriter};
use svm::types::{Address, App, AppAddr, AppTemplate, AppTransaction, AuthorAddr, SpawnApp};

fn assert_encode_decode(version: u32) {
    let mut w = NibbleWriter::new();

    encode_version(version, &mut w);

    let data = w.into_bytes();
    let mut iter = NibbleIter::new(&data[..]);

    let decoded = decode_version(&mut iter).unwrap();
    assert_eq!(version, decoded);

    assert_eq!(Ok(()), iter.ensure_eof(ParseError::ExpectedEOF));
}

#[test]
fn encode_decode_version() {
    assert_encode_decode(0);
    assert_encode_decode(std::u8::MAX.into());
    assert_encode_decode(std::u16::MAX.into());
    assert_encode_decode(1 << 20);
}

#[test]
fn encode_decode_spawn_app() {
    let spawn = SpawnApp {
        app: App {
            version: 0,
            name: "my-app".to_string(),
            template: Address::of("my-template").into(),
        },
        ctor_name: "initialize".to_string(),
        calldata: vec![0x10, 0x20, 0x30],
    };

    let mut w = NibbleWriter::new();
    encode_spawn_app(&spawn, &mut w);

    let bytes = w.into_bytes();
    let mut iter = NibbleIter::new(&bytes[..]);

    let decoded = decode_spawn_app(&mut iter).unwrap();

    assert_eq!(spawn, decoded);
}

#[test]
fn serialize_deploy_template() {
    let template = AppTemplate {
        version: 0,
        name: "My Template".to_string(),
        code: vec![0x0C, 0x00, 0x0D, 0x0E],
        data: vec![10, 20, 30].into(),
    };

    let author = Address::of("@author").into();
    let bytes = DefaultAppTemplateSerializer::serialize(&template, &author);

    let decoded = DefaultAppTemplateDeserializer::deserialize(&bytes[..]).unwrap();
    assert_eq!((template, author), decoded);
}

#[test]
fn version_is_written_in_groups_of_three_bits() {
    let mut w = NibbleWriter::new();
    encode_version(0, &mut w);
    assert_eq!(vec![0x00], w.into_bytes());

    let mut w = NibbleWriter::new();
    encode_version(7, &mut w);
    assert_eq!(vec![0x70], w.into_bytes());

    // 8 = 0b001_000: a group with the continuation flag, then the last group
    let mut w = NibbleWriter::new();
    encode_version(8, &mut w);
    assert_eq!(vec![0x90], w.into_bytes());

    // 255 = 0b011_111_111
    let mut w = NibbleWriter::new();
    encode_version(255, &mut w);
    assert_eq!(vec![0xBF, 0x70], w.into_bytes());
}

#[test]
fn version_round_trips_at_its_upper_bound() {
    assert_encode_decode(u32::MAX);
}

#[test]
fn version_decoder_reports_short_and_oversized_input() {
    let mut iter = NibbleIter::new(&[]);
    assert_eq!(Err(ParseError::NotEnoughBytes(Field::Version)), decode_version(&mut iter));

    // every group says that another follows
    let bytes = [0x99];
    let mut iter = NibbleIter::new(&bytes[..]);
    assert_eq!(Err(ParseError::NotEnoughBytes(Field::Version)), decode_version(&mut iter));

    // twelve groups of 0b111 exceed 32 bits
    let bytes = [0xFF, 0xFF, 0xFF, 0xFF, 0xFF, 0xF7];
    let mut iter = NibbleIter::new(&bytes[..]);
    assert_eq!(Err(ParseError::TooManyBytes(Field::Version)), decode_version(&mut iter));
}

#[test]
fn varuint_round_trips_64_bits() {
    for value in [0u64, 1, 7, 8, 1 << 32, u64::MAX - 1, u64::MAX] {
        let mut w = NibbleWriter::new();
        encode_varuint(value, &mut w);
        let bytes = w.into_bytes();
        let mut iter = NibbleIter::new(&bytes[..]);
        assert_eq!(Ok(value), decode_varuint(&mut iter, u64::MAX, Field::GasUsed));
    }
}

#[test]
fn varuint_decoder_enforces_its_bound() {
    let mut w = NibbleWriter::new();
    encode_varuint(256, &mut w);
    let bytes = w.into_bytes();

    let mut iter = NibbleIter::new(&bytes[..]);
    assert_eq!(Ok(256), decode_varuint(&mut iter, 256, Field::GasUsed));
    let mut iter = NibbleIter::new(&bytes[..]);
    assert_eq!(
        Err(ParseError::TooManyBytes(Field::GasUsed)),
        decode_varuint(&mut iter, 255, Field::GasUsed)
    );
}

#[test]
fn address_is_written_as_its_raw_bytes() {
    let addr = Address::of("abc");
    let mut w = NibbleWriter::new();
    encode_address(&addr, &mut w);
    let bytes = w.into_bytes();

    let mut expected = vec![0u8; 20];
    expected[0] = b'a';
    expected[1] = b'b';
    expected[2] = b'c';
    assert_eq!(expected, bytes);

    let mut iter = NibbleIter::new(&bytes[..]);
    assert_eq!(Ok(addr), decode_address(&mut iter, Field::Author));

    let mut iter = NibbleIter::new(&bytes[..19]);
    assert_eq!(
        Err(ParseError::NotEnoughBytes(Field::Author)),
        decode_address(&mut iter, Field::Author)
    );
}

#[test]
fn string_decoder_tells_its_three_failures_apart() {
    let mut w = NibbleWriter::new();
    encode_string("héllo", &mut w);
    let bytes = w.into_bytes();
    assert_eq!(vec![6, b'h', 0xC3, 0xA9, b'l', b'l', b'o'], bytes);

    let mut iter = NibbleIter::new(&bytes[..]);
    assert_eq!(
        Ok("héllo".to_string()),
        decode_string(&mut iter, Field::NameLength, Field::Name)
    );

    let mut iter = NibbleIter::new(&[]);
    assert_eq!(
        Err(ParseError::NotEnoughBytes(Field::NameLength)),
        decode_string(&mut iter, Field::NameLength, Field::Name)
    );

    let mut iter = NibbleIter::new(&bytes[..4]);
    assert_eq!(
        Err(ParseError::NotEnoughBytes(Field::Name)),
        decode_string(&mut iter, Field::NameLength, Field::Name)
    );

    let invalid = [2, 0xC3, 0x28];
    let mut iter = NibbleIter::new(&invalid[..]);
    assert_eq!(
        Err(ParseError::InvalidUTF8String(Field::Name)),
        decode_string(&mut iter, Field::NameLength, Field::Name)
    );
}

#[test]
fn blob_is_prefixed_with_its_length() {
    let mut w = NibbleWriter::new();
    encode_blob(&[0xAA, 0xBB], &mut w);
    let bytes = w.into_bytes();
    assert_eq!(vec![0x2A, 0xAB, 0xB0], bytes);

    let mut iter = NibbleIter::new(&bytes[..]);
    assert_eq!(Ok(vec![0xAA, 0xBB]), decode_blob(&mut iter, Field::CodeLength, Field::Code));
    assert_eq!(Ok(()), iter.ensure_eof(ParseError::ExpectedEOF));

    let mut iter = NibbleIter::new(&bytes[..2]);
    assert_eq!(
        Err(ParseError::NotEnoughBytes(Field::Code)),
        decode_blob(&mut iter, Field::CodeLength, Field::Code)
    );
}

fn spawn_app() -> SpawnApp {
    SpawnApp {
        app: App {
            version: 0,
            name: "My App".to_string(),
            template: Address::of("template").into(),
        },
        ctor_name: "initialize".to_string(),
        calldata: vec![0, 0, 0, 10],
    }
}

#[test]
fn spawn_app_bytes_round_trip() {
    let spawn = spawn_app();
    let bytes = spawn_app_to_bytes(&spawn);

    assert_eq!(Ok(spawn), spawn_app_from_bytes(&bytes[..]));
}

#[test]
fn spawn_app_rejects_trailing_bytes() {
    let mut bytes = spawn_app_to_bytes(&spawn_app());
    bytes.push(0);

    assert_eq!(Err(ParseError::ExpectedEOF), spawn_app_from_bytes(&bytes[..]));
}

#[test]
fn spawn_app_rejects_an_unsupported_version() {
    let mut spawn = spawn_app();
    spawn.app.version = 1;
    let bytes = spawn_app_to_bytes(&spawn);

    assert_eq!(Err(ParseError::UnsupportedProtoVersion(1)), spawn_app_from_bytes(&bytes[..]));
}

#[test]
fn spawn_app_rejects_empty_names() {
    let mut spawn = spawn_app();
    spawn.app.name = String::new();
    let bytes = spawn_app_to_bytes(&spawn);
    assert_eq!(Err(ParseError::EmptyField(Field::Name)), spawn_app_from_bytes(&bytes[..]));

    let mut spawn = spawn_app();
    spawn.ctor_name = String::new();
    let bytes = spawn_app_to_bytes(&spawn);
    assert_eq!(Err(ParseError::EmptyField(Field::Ctor)), spawn_app_from_bytes(&bytes[..]));
}

#[test]
fn spawn_app_names_the_field_that_is_cut_short() {
    let bytes = spawn_app_to_bytes(&spawn_app());

    assert_eq!(Err(ParseError::NotEnoughBytes(Field::Version)), spawn_app_from_bytes(&[]));
    assert_eq!(
        Err(ParseError::NotEnoughBytes(Field::TemplateAddr)),
        spawn_app_from_bytes(&bytes[..10])
    );
    // the version takes one nibble, so each later field starts in the middle of a byte
    assert_eq!(
        Err(ParseError::NotEnoughBytes(Field::NameLength)),
        spawn_app_from_bytes(&bytes[..21])
    );
    assert_eq!(Err(ParseError::NotEnoughBytes(Field::Name)), spawn_app_from_bytes(&bytes[..24]));
    assert_eq!(
        Err(ParseError::NotEnoughBytes(Field::Calldata)),
        spawn_app_from_bytes(&bytes[..bytes.len() - 1])
    );
}

#[test]
fn deploy_template_bytes_round_trip() {
    let template = AppTemplate {
        version: 0,
        name: "Counter".to_string(),
        code: vec![0x00, 0x61, 0x73, 0x6D],
        data: vec![4].into(),
    };
    let author = AuthorAddr::new(Address::of("author"));
    let bytes = deploy_template_to_bytes(&template, &author);

    assert_eq!(Ok((template, author)), deploy_template_from_bytes(&bytes[..]));
    assert_eq!(None, DefaultAppTemplateDeserializer::deserialize(&bytes[..bytes.len() - 1]));
}

#[test]
fn deploy_template_fields_come_in_order() {
    let template = AppTemplate {
        version: 0,
        name: "T".to_string(),
        code: vec![0xCC],
        data: vec![4, 9].into(),
    };
    let author = AuthorAddr::new(Address::new([0x11; 20]));
    let bytes = deploy_template_to_bytes(&template, &author);

    let mut nibbles = vec![0u8];
    nibbles.extend(std::iter::repeat(1).take(40));
    nibbles.extend([0, 1, 5, 4]);
    nibbles.extend([1, 0xC, 0xC]);
    nibbles.extend([2, 4, 9, 1]);
    let expected: Vec<u8> = nibbles.chunks(2).map(|pair| pair[0] << 4 | pair[1]).collect();
    assert_eq!(expected, bytes);
}

#[test]
fn exec_app_bytes_round_trip() {
    let tx = AppTransaction {
        version: 0,
        app: AppAddr::new(Address::of("app")),
        func_name: "add_and_mul".to_string(),
        calldata: vec![5, 3],
    };
    let bytes = exec_app_to_bytes(&tx);

    assert_eq!(Ok(tx), exec_app_from_bytes(&bytes[..]));

    let mut longer = bytes.clone();
    longer.push(0);
    assert_eq!(Err(ParseError::ExpectedEOF), exec_app_from_bytes(&longer[..]));
    assert_eq!(
        Err(ParseError::NotEnoughBytes(Field::AppAddr)),
        exec_app_from_bytes(&bytes[..5])
    );
}

#[test]
fn exec_app_rejects_an_empty_function_name() {
    let tx = AppTransaction {
        version: 0,
        app: AppAddr::new(Address::of("app")),
        func_name: String::new(),
        calldata: vec![],
    };
    let bytes = exec_app_to_bytes(&tx);

    assert_eq!(Err(ParseError::EmptyField(Field::Func)), exec_app_from_bytes(&bytes[..]));
}

use svm::api::{
    address_from_raw, encode_app_template, encode_app_tx, encode_spawn_app, layout_from_raw,
    name_from_raw, ApiError,
};
use svm::codec::app::spawn_app_from_bytes;
use svm::codec::template::deploy_template_from_bytes;
use svm::codec::tx::exec_app_from_bytes;
use svm::gas::{maybe_gas, linear_gas, DefaultGasEstimator, Gas, GasEstimator, MaybeGas};
use svm::sdk::value::{byte_as_chars, Address, AddressOwned, Amount, Composite, Primitive, Value};
use svm::text::same_text;
use svm::types::{AppTemplate, DataLayout};
use svm::vault::{
    assert_not_same, initialize, multisig_initialize, simple_initialize, vault_type, Masters,
    VaultError, VaultStore, VaultType,
};

#[test]
fn multisig_vault_needs_three_distinct_master_keys() {
    let a = svm::types::Address::of("a");
    let b = svm::types::Address::of("b");
    let c = svm::types::Address::of("c");

    assert_eq!(Err(VaultError::SameMasterKeys), multisig_initialize(&[a, a, a]));
    assert_eq!(Err(VaultError::SameMasterKeys), multisig_initialize(&[a, b, a]));
    assert_eq!(Err(VaultError::SameMasterKeys), multisig_initialize(&[a, b, b]));
    assert_eq!(Err(VaultError::SameMasterKeys), multisig_initialize(&[a, a, c]));
    assert_eq!(
        "Master Keys must be different from one another.",
        VaultError::SameMasterKeys.message()
    );

    let stores = multisig_initialize(&[a, b, c]).unwrap();
    assert_eq!(
        vec![
            VaultStore::Type(VaultType::MultiSig),
            VaultStore::MasterAccount { account: a, index: 1 },
            VaultStore::MasterAccount { account: b, index: 2 },
            VaultStore::MasterAccount { account: c, index: 3 },
        ],
        stores
    );
    assert_eq!(Ok(()), assert_not_same(&a, &b));
    assert_eq!(Err(VaultError::SameMasterKeys), assert_not_same(&b, &b));
}

#[test]
fn vault_setup_writes_keys_then_limit_then_account() {
    let a = svm::types::Address::of("a");
    let spender = svm::types::Address::of("spender");

    assert_eq!(VaultType::Simple, vault_type(false));
    assert_eq!(VaultType::MultiSig, vault_type(true));
    assert_eq!(
        vec![
            VaultStore::Type(VaultType::Simple),
            VaultStore::MasterAccount { account: a, index: 1 }
        ],
        simple_initialize(&[a])
    );

    let stores = initialize(&Masters::Simple([a]), Some(500), Some(spender)).unwrap();
    assert_eq!(
        vec![
            VaultStore::Type(VaultType::Simple),
            VaultStore::MasterAccount { account: a, index: 1 },
            VaultStore::SpendingLimit(500),
            VaultStore::SpendingAccount(spender),
        ],
        stores
    );
    assert_eq!(2, initialize(&Masters::Simple([a]), None, None).unwrap().len());
    assert_eq!(
        Err(VaultError::SameMasterKeys),
        initialize(&Masters::MultiSig([a, a, a]), Some(500), Some(spender))
    );
}

#[test]
fn gas_estimates_follow_the_schedule() {
    assert_eq!(1_000, linear_gas(1_000, 10, 0));
    assert_eq!(1_030, linear_gas(1_000, 10, 3));
    assert_eq!(u64::MAX, linear_gas(u64::MAX - 5, 2, 3));
    assert_eq!(u64::MAX - 1, linear_gas(u64::MAX - 5, 2, 2));

    let template = AppTemplate {
        version: 0,
        name: "T".to_string(),
        code: vec![0; 10],
        data: DataLayout::new(vec![4, 8]),
    };
    let gas = DefaultGasEstimator::est_deploy_template(&template);
    assert_eq!(Gas::Fixed(1_000 + 10 * 100 + 2 * 50), gas);
    assert_eq!(2_100, gas.max_gas());
    assert_eq!(2_100, gas.min_gas());

    let range = Gas::Range { min: 5, max: 9 };
    assert_eq!(9, range.max_gas());
    assert_eq!(5, range.min_gas());
}

#[test]
fn gas_limit_applies_only_where_gas_is_metered() {
    assert_eq!(MaybeGas::Unlimited, maybe_gas(false, 10));
    assert_eq!(MaybeGas::Limit(10), maybe_gas(true, 10));

    assert!(MaybeGas::new().covers(u64::MAX));
    assert!(MaybeGas::with(10).covers(10));
    assert!(!MaybeGas::with(10).covers(11));
    assert_eq!(11, MaybeGas::new().charge(11));
    assert_eq!(10, MaybeGas::with(10).charge(11));
    assert_eq!(9, MaybeGas::with(10).charge(9));
}

#[test]
fn bytes_print_as_two_hex_digits() {
    assert_eq!(('0', '0'), byte_as_chars(0x00));
    assert_eq!(('0', '9'), byte_as_chars(0x09));
    assert_eq!(('a', 'f'), byte_as_chars(0xAF));
    assert_eq!(('f', 'f'), byte_as_chars(0xFF));

    let mut bytes = [0u8; 20];
    bytes[0] = 0x1A;
    bytes[19] = 0xE0;
    let text: String = AddressOwned(bytes).to_hex().into_iter().collect();
    assert_eq!("1a000000000000000000000000000000000000e0", text);
    let text: String = Address(&bytes).to_hex().into_iter().collect();
    assert_eq!("1a000000000000000000000000000000000000e0", text);
}

#[test]
fn sdk_addresses_borrow_and_own() {
    let bytes = [7u8; 20];
    let addr = Address::from_array(&bytes);
    let owned = addr.to_owned();

    assert_eq!(AddressOwned(bytes), owned);
    assert_eq!(addr, owned.deref());
    assert_eq!(&bytes[..], owned.as_slice());
    assert_eq!(&bytes[..], addr.as_slice());
    assert_eq!(owned, AddressOwned::from_slice(&bytes[..]));
    assert_eq!(20, Address::len());
    assert_eq!(20, AddressOwned::len());
}

#[test]
fn values_wrap_and_unwrap() {
    assert_eq!(Value::Primitive(Primitive::Bool(true)), Value::from(true));
    assert_eq!(Value::Primitive(Primitive::U32(7)), Value::from(7u32));
    assert_eq!(Value::Primitive(Primitive::I64(-7)), Value::from(-7i64));
    assert_eq!(Value::Primitive(Primitive::Amount(Amount(5))), Value::from(Amount(5)));

    assert_eq!(7, Value::from(7u32).into_u32());
    assert_eq!(Some(7), Value::from(7u32).into_opt_u32());
    assert_eq!(None, Value::none().into_opt_u32());
    assert_eq!(Amount(5), Value::from(Amount(5)).into_amount());
    assert!(Value::from(false).into_opt_bool() == Some(false));
    assert!(Value::none().is_none());
    assert!(!Value::from(0u8).is_none());

    let bytes = [3u8; 20];
    let owned = Value::from(Address(&bytes)).into_address_owned();
    assert_eq!(AddressOwned(bytes), owned);
    assert_eq!(owned.clone(), Value::from(owned).into_address_owned());

    let array = Value::from(vec![Value::from(1u8), Value::from(2u8)]);
    assert_eq!(
        Value::Composite(Composite::ArrayOwned(vec![Value::from(1u8), Value::from(2u8)])),
        array
    );
    assert_eq!(2, array.into_array().len());
}

#[test]
fn texts_are_compared_by_their_characters() {
    assert!(same_text("endpoint", "endpoint"));
    assert!(!same_text("endpoint", "endpoints"));
    assert!(!same_text("é", "e"));
    assert!(same_text("", ""));
}

#[test]
fn raw_parts_are_checked() {
    assert_eq!(Err(ApiError::InvalidAddress), address_from_raw(&[0; 19]));
    assert_eq!(Ok(svm::types::Address::new([1; 20])), address_from_raw(&[1; 20]));

    assert_eq!(Ok("name".to_string()), name_from_raw(b"name"));
    assert_eq!(Err(ApiError::InvalidUtf8), name_from_raw(&[0xC3, 0x28]));
    assert_eq!(Err(ApiError::NameTooLong), name_from_raw(&[b'a'; 256]));

    assert_eq!(Ok(DataLayout::new(vec![4, 0x0102_0304])), layout_from_raw(&[0, 0, 0, 4, 1, 2, 3, 4]));
    assert_eq!(Ok(DataLayout::new(vec![])), layout_from_raw(&[]));
    assert_eq!(Err(ApiError::InvalidLayout), layout_from_raw(&[0, 0, 0]));
}

#[test]
fn transactions_are_built_from_raw_parts() {
    let addr = [5u8; 20];

    let bytes = encode_app_template(0, &addr, b"Counter", &[1, 2, 3], &[0, 0, 0, 4]).unwrap();
    let (template, author) = deploy_template_from_bytes(&bytes).unwrap();
    assert_eq!("Counter", template.name);
    assert_eq!(vec![1, 2, 3], template.code);
    assert_eq!(DataLayout::new(vec![4]), template.data);
    assert_eq!(&addr[..], author.inner().as_slice());

    let bytes = encode_spawn_app(0, &addr, b"My App", b"initialize", &[0, 0, 0, 10]).unwrap();
    let spawn = spawn_app_from_bytes(&bytes).unwrap();
    assert_eq!("My App", spawn.app.name);
    assert_eq!("initialize", spawn.ctor_name);
    assert_eq!(vec![0, 0, 0, 10], spawn.calldata);

    let bytes = encode_app_tx(0, &addr, b"add_and_mul", &[5, 3]).unwrap();
    let tx = exec_app_from_bytes(&bytes).unwrap();
    assert_eq!("add_and_mul", tx.func_name);
    assert_eq!(&addr[..], tx.app.inner().as_slice());

    assert_eq!(
        Err(ApiError::InvalidAddress),
        encode_app_tx(0, &addr[..3], b"add_and_mul", &[5, 3])
    );
    assert_eq!(
        Err(ApiError::InvalidUtf8),
        encode_spawn_app(0, &addr, b"My App", &[0xFF], &[])
    );
    assert_eq!(
        Err(ApiError::InvalidLayout),
        encode_app_template(0, &addr, b"Counter", &[], &[1])
    );
}

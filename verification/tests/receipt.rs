use svm::codec::error::{Field, ParseError};
use svm::codec::receipt::{
    decode_receipt, encode_app_receipt, encode_exec_receipt, encode_template_receipt,
};
use svm::receipt::{
    ErrorKind, ExecReceipt, Receipt, ReceiptError, SpawnAppReceipt, TemplateReceipt,
};
use svm::types::{Address, AppAddr, State, TemplateAddr, WasmValue};

#[test]
fn template_receipt_round_trip() {
    let receipt = TemplateReceipt::Success {
        addr: TemplateAddr::new(Address::of("template")),
        gas_used: 1_450,
    };
    let bytes = encode_template_receipt(&receipt);

    // kind 0, success 1, then the address
    assert_eq!(0x01, bytes[0]);
    assert_eq!(b't', bytes[1]);

    let decoded = decode_receipt(&bytes).unwrap().into_deploy_template().unwrap();
    assert_eq!(receipt, decoded);
    assert!(decoded.success());
    assert_eq!(1_450, decoded.gas_used());
    assert_eq!(Some(&TemplateAddr::new(Address::of("template"))), decoded.get_template_addr());
}

#[test]
fn spawn_receipt_round_trip() {
    let receipt = SpawnAppReceipt::Success {
        app_addr: AppAddr::new(Address::of("app")),
        init_state: State::new([7; 32]),
        results: vec![WasmValue::I32(10), WasmValue::I64(u64::MAX)],
        gas_used: 0,
    };
    let bytes = encode_app_receipt(&receipt);
    assert_eq!(0x11, bytes[0]);

    let decoded = decode_receipt(&bytes).unwrap();
    assert_eq!(Receipt::SpawnApp(receipt.clone()), decoded);
    assert_eq!(None, decoded.clone().into_exec_app());
    let decoded = decoded.into_spawn_app().unwrap();
    assert_eq!(Some(&State::new([7; 32])), decoded.get_init_state());
    assert_eq!(Some(&AppAddr::new(Address::of("app"))), decoded.get_app_addr());
}

#[test]
fn exec_receipt_round_trip() {
    let receipt = ExecReceipt::Success {
        new_state: State::new([1; 32]),
        results: vec![WasmValue::I32(45)],
        gas_used: u64::MAX,
    };
    let bytes = encode_exec_receipt(&receipt);
    assert_eq!(0x21, bytes[0]);

    let decoded = decode_receipt(&bytes).unwrap().into_exec_app().unwrap();
    assert_eq!(receipt, decoded);
    assert_eq!(Some(&vec![WasmValue::I32(45)]), decoded.get_returns());
}

#[test]
fn failed_receipts_carry_the_error_and_no_payload() {
    for kind in [
        ErrorKind::Validation,
        ErrorKind::AuthorMismatch,
        ErrorKind::TemplateNotFound,
        ErrorKind::AppNotFound,
        ErrorKind::StateNotFound,
        ErrorKind::OutOfGas,
        ErrorKind::Execution,
        ErrorKind::Busy,
    ] {
        let error = ReceiptError { kind, message: "boom — failed".to_string() };

        let receipt = ExecReceipt::Failure { error: error.clone(), gas_used: 77 };
        let bytes = encode_exec_receipt(&receipt);
        assert_eq!(0x20, bytes[0]);
        let decoded = decode_receipt(&bytes).unwrap().into_exec_app().unwrap();
        assert_eq!(receipt, decoded);
        assert!(!decoded.success());
        assert_eq!(None, decoded.get_new_state());
        assert_eq!(None, decoded.get_returns());
        assert_eq!(77, decoded.gas_used());

        let receipt = SpawnAppReceipt::Failure { error: error.clone(), gas_used: 1 };
        let bytes = encode_app_receipt(&receipt);
        assert_eq!(Ok(Receipt::SpawnApp(receipt)), decode_receipt(&bytes));

        let receipt = TemplateReceipt::Failure { error, gas_used: 0 };
        let bytes = encode_template_receipt(&receipt);
        assert_eq!(Ok(Receipt::DeployTemplate(receipt)), decode_receipt(&bytes));
    }
}

#[test]
fn malformed_receipts_are_refused() {
    assert_eq!(Err(ParseError::NotEnoughBytes(Field::ReceiptKind)), decode_receipt(&[]));
    assert_eq!(Err(ParseError::InvalidTag(Field::ReceiptKind)), decode_receipt(&[0x31]));
    assert_eq!(Err(ParseError::InvalidTag(Field::ReceiptStatus)), decode_receipt(&[0x02]));
    assert_eq!(Err(ParseError::NotEnoughBytes(Field::TemplateAddr)), decode_receipt(&[0x01]));
    assert_eq!(Err(ParseError::NotEnoughBytes(Field::State)), decode_receipt(&[0x21, 0]));
    assert_eq!(Err(ParseError::InvalidTag(Field::ErrorKind)), decode_receipt(&[0x20, 0x80]));

    let receipt = ExecReceipt::Success {
        new_state: State::new([1; 32]),
        results: vec![WasmValue::I32(45)],
        gas_used: 3,
    };
    let mut bytes = encode_exec_receipt(&receipt);
    bytes.push(0);
    assert_eq!(Err(ParseError::ExpectedEOF), decode_receipt(&bytes));

    // a value with a tag that stands for no type
    let mut bytes = vec![0x21];
    bytes.extend_from_slice(&[1; 32]);
    bytes.push(0x12);
    assert_eq!(Err(ParseError::InvalidTag(Field::ReturnType)), decode_receipt(&bytes));
}

use svm::ffi::svm_trap_t;
use svm::import::{
    alloc_wasm_values, decode_wasm_types, decode_wasm_values, encode_wasm_types,
    encode_wasm_values, to_wasm_values, to_wasmer_types, wasm_vals_to_wasmer_vals,
    wasmer_vals_to_wasm_vals, ExternImport, HostType, HostVal, ImportError, Imports,
};
use svm::types::{WasmType, WasmValue};

fn counter_mul() -> ExternImport {
    ExternImport::new(
        "counter_mul".to_string(),
        "host".to_string(),
        vec![WasmType::I32, WasmType::I32],
        vec![WasmType::I32],
    )
}

#[test]
fn wasm_values_have_a_count_a_tag_and_big_endian_bytes() {
    let values = [WasmValue::I32(0x0102_0304), WasmValue::I64(5)];
    let bytes = encode_wasm_values(&values);

    assert_eq!(vec![2, 0, 1, 2, 3, 4, 1, 0, 0, 0, 0, 0, 0, 0, 5], bytes);
    assert_eq!(Some(values.to_vec()), decode_wasm_values(&bytes));
    assert_eq!(vec![0], encode_wasm_values(&[]));
    assert_eq!(Some(vec![]), decode_wasm_values(&[0]));
}

#[test]
fn malformed_wasm_values_are_refused() {
    assert_eq!(None, decode_wasm_values(&[]));
    // a count of one and no value
    assert_eq!(None, decode_wasm_values(&[1]));
    // an unknown tag
    assert_eq!(None, decode_wasm_values(&[1, 2, 0, 0, 0, 0]));
    // a value that is cut short
    assert_eq!(None, decode_wasm_values(&[1, 0, 0, 0, 0]));
    assert_eq!(None, decode_wasm_values(&[1, 1, 0, 0, 0, 0, 0, 0, 0]));
    // bytes after the last value
    assert_eq!(None, decode_wasm_values(&[1, 0, 0, 0, 0, 7, 0]));
}

#[test]
fn wasm_types_round_trip() {
    let types = [WasmType::I64, WasmType::I32];
    let bytes = encode_wasm_types(&types);

    assert_eq!(vec![2, 1, 0], bytes);
    assert_eq!(Some(types.to_vec()), decode_wasm_types(&bytes));
    assert_eq!(None, decode_wasm_types(&[]));
    assert_eq!(None, decode_wasm_types(&[2, 0]));
    assert_eq!(None, decode_wasm_types(&[1, 2]));
    assert_eq!(vec![HostType::I64, HostType::I32], to_wasmer_types(&types));
}

#[test]
fn results_are_checked_against_the_declared_types() {
    let bytes = encode_wasm_values(&[WasmValue::I32(45)]);

    assert_eq!(Some(vec![WasmValue::I32(45)]), to_wasm_values(&bytes, &[WasmType::I32]));
    assert_eq!(None, to_wasm_values(&bytes, &[WasmType::I64]));
    assert_eq!(None, to_wasm_values(&bytes, &[]));
    assert_eq!(None, to_wasm_values(&bytes, &[WasmType::I32, WasmType::I32]));
    assert_eq!(None, to_wasm_values(&[9], &[WasmType::I32]));
}

#[test]
fn sandbox_values_keep_their_bits() {
    let vals = [HostVal::I32(-1), HostVal::I64(i64::MIN), HostVal::I32(7)];
    let values = wasmer_vals_to_wasm_vals(&vals).unwrap();

    assert_eq!(
        vec![WasmValue::I32(u32::MAX), WasmValue::I64(1 << 63), WasmValue::I32(7)],
        values
    );
    assert_eq!(vals.to_vec(), wasm_vals_to_wasmer_vals(&values));

    let err = wasmer_vals_to_wasm_vals(&[HostVal::I32(1), HostVal::Other]).unwrap_err();
    assert_eq!("Invalid argument type", err.message());
}

#[test]
fn a_call_marshals_arguments_and_results() {
    let import = counter_mul();
    assert_eq!("counter_mul", import.name());
    assert_eq!("host", import.namespace());
    assert_eq!((vec![HostType::I32, HostType::I32], vec![HostType::I32]), import.wasmer_function_ty());

    let (args, results) = import.begin_call(&[HostVal::I32(0), HostVal::I32(3)]).unwrap();
    assert_eq!(vec![2, 0, 0, 0, 0, 0, 0, 0, 0, 0, 3], args);
    assert_eq!(vec![0; 10], results);
    assert_eq!(results, alloc_wasm_values(1));

    let results = encode_wasm_values(&[WasmValue::I32(30)]);
    assert_eq!(Ok(vec![HostVal::I32(30)]), import.finish_call(None, &results));
}

#[test]
fn a_call_with_arguments_of_other_types_is_refused() {
    let import = counter_mul();

    for args in [
        vec![HostVal::I32(0)],
        vec![HostVal::I32(0), HostVal::I64(3)],
        vec![HostVal::I32(0), HostVal::Other],
        vec![HostVal::I32(0), HostVal::I32(1), HostVal::I32(2)],
    ] {
        let err = import.begin_call(&args).unwrap_err();
        assert_eq!("Invalid argument type", err.message());
    }
}

#[test]
fn a_trap_of_the_host_ends_the_call_with_its_message() {
    let import = counter_mul();
    let trap = svm_trap_t::from_string("no such variable".to_string());
    let results = encode_wasm_values(&[WasmValue::I32(30)]);

    let err = import.finish_call(Some(&trap), &results).unwrap_err();
    assert_eq!("no such variable", err.message());

    let trap = svm_trap_t { error: vec![0xFF, 0xFE] };
    let err = import.finish_call(Some(&trap), &results).unwrap_err();
    assert_eq!("svm_trap_t (exact error message had an interpretation error.", err.message());
}

#[test]
fn results_of_other_types_end_the_call() {
    let import = counter_mul();

    let results = encode_wasm_values(&[WasmValue::I64(30)]);
    let err = import.finish_call(None, &results).unwrap_err();
    assert_eq!("Invalid WASM values", err.message());

    // the zeroed buffer that the host never filled holds no value
    let err = import.finish_call(None, &alloc_wasm_values(1)).unwrap_err();
    assert_eq!("Invalid WASM values", err.message());
}

#[test]
fn trap_allocation_is_zeroed() {
    let trap = svm_trap_t::allocate(3);
    assert_eq!(vec![0, 0, 0], trap.error);
    assert_eq!("\0\0\0", trap.message());
}

#[test]
fn imports_are_registered_from_raw_parts() {
    let mut imports = Imports::with_capacity(2);
    assert_eq!(0, imports.len());
    assert_eq!(2, imports.capacity());

    let res = imports.import_func_new(
        b"host".to_vec(),
        b"counter_mul".to_vec(),
        false,
        &[2, 0, 0],
        &[1, 0],
    );
    assert_eq!(Ok(()), res);
    assert_eq!(&[counter_mul()], imports.as_slice());
    assert_eq!(counter_mul(), imports.as_slice()[0].duplicate());
}

#[test]
fn registration_reports_the_first_bad_part() {
    let mut imports = Imports::with_capacity(1);
    let bad_utf8 = vec![0xC3, 0x28];

    let res = imports.import_func_new(bad_utf8.clone(), bad_utf8.clone(), true, &[], &[]);
    assert_eq!(Err(ImportError::NullHostEnv), res);
    assert_eq!("`host_env` parameter must not be NULL", ImportError::NullHostEnv.message());

    let res = imports.import_func_new(bad_utf8.clone(), bad_utf8.clone(), false, &[], &[]);
    assert_eq!(Err(ImportError::InvalidParams), res);

    let res = imports.import_func_new(bad_utf8.clone(), bad_utf8.clone(), false, &[0], &[1, 3]);
    assert_eq!(Err(ImportError::InvalidReturns), res);

    let res = imports.import_func_new(bad_utf8.clone(), bad_utf8.clone(), false, &[0], &[0]);
    assert_eq!(Err(ImportError::NameNotUtf8), res);

    let res = imports.import_func_new(bad_utf8.clone(), b"f".to_vec(), false, &[0], &[0]);
    assert_eq!(Err(ImportError::NamespaceNotUtf8), res);

    assert_eq!(0, imports.len());
}

use svm::codec::app::spawn_app_to_bytes;
use svm::codec::error::{Field, ParseError};
use svm::codec::template::deploy_template_to_bytes;
use svm::codec::tx::exec_app_to_bytes;
use svm::gas::{DefaultGasEstimator, Gas, MaybeGas};
use svm::receipt::{ErrorKind, ExecReceipt, ReceiptError, SpawnAppReceipt, TemplateReceipt};
use svm::runtime::{settle_gas, Execution, Runtime, SandboxOutcome, Verdict};
use svm::storage::kv::MemoryKV;
use svm::types::{
    Address, App, AppAddr, AppTemplate, AppTransaction, AuthorAddr, CreatorAddr, SpawnApp, State,
    TemplateAddr, WasmValue,
};

type MemoryRuntime = Runtime<MemoryKV, DefaultGasEstimator>;

fn author() -> AuthorAddr {
    AuthorAddr::new(Address::of("author"))
}

fn creator() -> CreatorAddr {
    CreatorAddr::new(Address::of("spawner"))
}

fn template_bytes(name: &str) -> Vec<u8> {
    let template = AppTemplate {
        version: 0,
        name: name.to_string(),
        code: vec![0x00, 0x61, 0x73, 0x6D],
        data: vec![4].into(),
    };
    deploy_template_to_bytes(&template, &author())
}

fn spawn_bytes(template: &TemplateAddr, init: u32) -> Vec<u8> {
    let spawn = SpawnApp {
        app: App { version: 0, name: "My App".to_string(), template: *template },
        ctor_name: "initialize".to_string(),
        calldata: init.to_be_bytes().to_vec(),
    };
    spawn_app_to_bytes(&spawn)
}

fn exec_bytes(app: &AppAddr, func_name: &str, args: &[u32]) -> Vec<u8> {
    let mut calldata = Vec::new();
    for arg in args {
        calldata.extend_from_slice(&arg.to_be_bytes());
    }
    let tx = AppTransaction {
        version: 0,
        app: *app,
        func_name: func_name.to_string(),
        calldata,
    };
    exec_app_to_bytes(&tx)
}

fn arg(calldata: &[u8], index: usize) -> u32 {
    let mut bytes = [0u8; 4];
    bytes.copy_from_slice(&calldata[4 * index..4 * index + 4]);
    u32::from_be_bytes(bytes)
}

/// Stands in for the sandbox: runs the two functions of the counter on the
/// first page of the app.
fn run_counter(runtime: &mut MemoryRuntime, execution: &Execution) -> SandboxOutcome {
    let calldata = execution.arguments().to_vec();
    match execution.function() {
        "initialize" => {
            let init = arg(&calldata, 0);
            runtime.write_page(execution, 0, &init.to_be_bytes());
            SandboxOutcome::Returned { results: vec![], gas_used: 10 }
        }
        "add_and_mul" => {
            let page = runtime.read_page(execution, 0).unwrap();
            let old = arg(&page, 0);
            let new = (old + arg(&calldata, 0)) * arg(&calldata, 1);
            runtime.write_page(execution, 0, &new.to_be_bytes());
            SandboxOutcome::Returned { results: vec![WasmValue::I32(new)], gas_used: 25 }
        }
        name => SandboxOutcome::Trapped {
            message: format!("no function `{}`", name),
            gas_used: 3,
        },
    }
}

fn deploy(runtime: &mut MemoryRuntime) -> TemplateAddr {
    let receipt = runtime.deploy_template(&template_bytes("Counter"), &author(), MaybeGas::new());
    *receipt.get_template_addr().unwrap()
}

fn spawn(runtime: &mut MemoryRuntime, template: &TemplateAddr) -> (AppAddr, State) {
    let bytes = spawn_bytes(template, 10);
    let execution = runtime.spawn_app_begin(&bytes, &creator(), MaybeGas::new()).unwrap();
    let outcome = run_counter(runtime, &execution);
    let receipt = runtime.spawn_app_finish(execution, outcome);
    (*receipt.get_app_addr().unwrap(), *receipt.get_init_state().unwrap())
}

#[test]
fn counter_end_to_end() {
    let mut runtime = MemoryRuntime::new(MemoryKV::new());

    // deploy
    let bytes = template_bytes("Counter");
    assert_eq!(Ok(()), runtime.validate_template(&bytes));
    let receipt = runtime.deploy_template(&bytes, &author(), MaybeGas::new());
    assert!(receipt.success());
    let template = *receipt.get_template_addr().unwrap();

    // spawn with the constructor argument 10
    let bytes = spawn_bytes(&template, 10);
    assert_eq!(Ok(()), runtime.validate_app(&bytes));
    let execution = runtime.spawn_app_begin(&bytes, &creator(), MaybeGas::new()).unwrap();
    let outcome = run_counter(&mut runtime, &execution);
    let receipt = runtime.spawn_app_finish(execution, outcome);
    assert!(receipt.success());
    let app = *receipt.get_app_addr().unwrap();
    let init_state = *receipt.get_init_state().unwrap();
    assert_ne!(State::empty(), init_state);
    assert_eq!(init_state, runtime.head());

    // execute add_and_mul(5, 3) against that state
    let bytes = exec_bytes(&app, "add_and_mul", &[5, 3]);
    assert_eq!(Ok(app), runtime.validate_tx(&bytes));
    let execution = runtime.exec_app_begin(&bytes, &init_state, MaybeGas::new()).unwrap();
    let outcome = run_counter(&mut runtime, &execution);
    let first = runtime.exec_app_finish(execution, outcome);
    assert!(first.success());
    assert_eq!(Some(&vec![WasmValue::I32(45)]), first.get_returns());
    let new_state = *first.get_new_state().unwrap();
    assert_ne!(init_state, new_state);

    // the same transaction against the original state gives the same receipt
    let execution = runtime.exec_app_begin(&bytes, &init_state, MaybeGas::new()).unwrap();
    let outcome = run_counter(&mut runtime, &execution);
    let second = runtime.exec_app_finish(execution, outcome);
    assert_eq!(first, second);

    // and against the updated state it goes on from 45
    let execution = runtime.exec_app_begin(&bytes, &new_state, MaybeGas::new()).unwrap();
    let outcome = run_counter(&mut runtime, &execution);
    let third = runtime.exec_app_finish(execution, outcome);
    assert_eq!(Some(&vec![WasmValue::I32(150)]), third.get_returns());
}

#[test]
fn template_address_is_derived_from_the_transaction() {
    let mut a = MemoryRuntime::new(MemoryKV::new());
    let mut b = MemoryRuntime::new(MemoryKV::new());

    assert_eq!(deploy(&mut a), deploy(&mut b));

    let other = b.deploy_template(&template_bytes("Other"), &author(), MaybeGas::new());
    assert_ne!(deploy(&mut a), *other.get_template_addr().unwrap());
}

#[test]
fn each_spawn_gets_a_fresh_address() {
    let mut runtime = MemoryRuntime::new(MemoryKV::new());
    let template = deploy(&mut runtime);

    let (first, _) = spawn(&mut runtime, &template);
    let (second, _) = spawn(&mut runtime, &template);
    assert_ne!(first, second);
}

#[test]
fn deploy_refuses_malformed_bytes() {
    let mut runtime = MemoryRuntime::new(MemoryKV::new());
    let bytes = template_bytes("Counter");

    let cut = &bytes[..bytes.len() - 2];
    assert_eq!(Err(ParseError::NotEnoughBytes(Field::Code)), runtime.validate_template(cut));
    let receipt = runtime.deploy_template(cut, &author(), MaybeGas::new());
    let expected = TemplateReceipt::Failure {
        error: ReceiptError {
            kind: ErrorKind::Validation,
            message: "not enough bytes for a field".to_string(),
        },
        gas_used: 0,
    };
    assert_eq!(expected, receipt);
}

#[test]
fn deploy_refuses_another_author() {
    let mut runtime = MemoryRuntime::new(MemoryKV::new());
    let other = AuthorAddr::new(Address::of("someone else"));

    let receipt = runtime.deploy_template(&template_bytes("Counter"), &other, MaybeGas::new());
    assert!(!receipt.success());
    match receipt {
        TemplateReceipt::Failure { error, gas_used } => {
            assert_eq!(ErrorKind::AuthorMismatch, error.kind);
            assert_eq!(0, gas_used);
        }
        _ => unreachable!(),
    }
}

#[test]
fn deploy_is_charged_its_estimate() {
    let mut runtime = MemoryRuntime::new(MemoryKV::new());
    let bytes = template_bytes("Counter");

    // 1000 for the transaction, 100 for each of 4 bytes of code, 50 for one variable
    assert_eq!(Ok(Gas::Fixed(1_450)), runtime.estimate_deploy_template(&bytes));

    let receipt = runtime.deploy_template(&bytes, &author(), MaybeGas::with(1_449));
    match receipt {
        TemplateReceipt::Failure { error, gas_used } => {
            assert_eq!(ErrorKind::OutOfGas, error.kind);
            assert_eq!(1_449, gas_used);
        }
        _ => unreachable!(),
    }

    let receipt = runtime.deploy_template(&bytes, &author(), MaybeGas::with(1_450));
    assert!(receipt.success());
    assert_eq!(1_450, receipt.gas_used());
}

#[test]
fn spawn_needs_a_deployed_template() {
    let mut runtime = MemoryRuntime::new(MemoryKV::new());
    let unknown = TemplateAddr::new(Address::of("nowhere"));

    let receipt = runtime
        .spawn_app_begin(&spawn_bytes(&unknown, 10), &creator(), MaybeGas::new())
        .err()
        .unwrap();
    match receipt {
        SpawnAppReceipt::Failure { error, gas_used } => {
            assert_eq!(ErrorKind::TemplateNotFound, error.kind);
            assert_eq!(0, gas_used);
        }
        _ => unreachable!(),
    }
    assert_eq!(
        Err(ParseError::NotEnoughBytes(Field::Version)),
        runtime.validate_app(&[])
    );
}

#[test]
fn exec_needs_a_spawned_app_and_a_known_state() {
    let mut runtime = MemoryRuntime::new(MemoryKV::new());
    let template = deploy(&mut runtime);
    let (app, _) = spawn(&mut runtime, &template);

    let unknown = AppAddr::new(Address::of("nowhere"));
    let bytes = exec_bytes(&unknown, "add_and_mul", &[5, 3]);
    let receipt = runtime.exec_app_begin(&bytes, &State::empty(), MaybeGas::new()).err().unwrap();
    match receipt {
        ExecReceipt::Failure { error, .. } => assert_eq!(ErrorKind::AppNotFound, error.kind),
        _ => unreachable!(),
    }

    let bytes = exec_bytes(&app, "add_and_mul", &[5, 3]);
    let receipt =
        runtime.exec_app_begin(&bytes, &State::new([9; 32]), MaybeGas::new()).err().unwrap();
    match receipt {
        ExecReceipt::Failure { error, .. } => assert_eq!(ErrorKind::StateNotFound, error.kind),
        _ => unreachable!(),
    }
}

#[test]
fn a_run_over_its_gas_limit_fails_and_leaves_the_storage_unchanged() {
    let mut runtime = MemoryRuntime::new(MemoryKV::new());
    let template = deploy(&mut runtime);
    let (app, init_state) = spawn(&mut runtime, &template);

    // the payload costs 1000 + 10 * 8 and the run 25
    let bytes = exec_bytes(&app, "add_and_mul", &[5, 3]);
    assert_eq!(
        Ok(Gas::Range { min: 1_080, max: 10_001_080 }),
        runtime.estimate_exec_app(&bytes)
    );
    let limit = MaybeGas::with(1_104);
    let execution = runtime.exec_app_begin(&bytes, &init_state, limit).unwrap();
    assert_eq!(Some(24), execution.gas_left());
    let outcome = run_counter(&mut runtime, &execution);
    let receipt = runtime.exec_app_finish(execution, outcome);
    let expected = ExecReceipt::Failure {
        error: ReceiptError { kind: ErrorKind::OutOfGas, message: "out of gas".to_string() },
        gas_used: 1_104,
    };
    assert_eq!(expected, receipt);
    assert_eq!(init_state, runtime.head());

    // the counter is still 10: with enough gas the call returns 45
    let limit = MaybeGas::with(1_105);
    let execution = runtime.exec_app_begin(&bytes, &init_state, limit).unwrap();
    let outcome = run_counter(&mut runtime, &execution);
    let receipt = runtime.exec_app_finish(execution, outcome);
    assert_eq!(Some(&vec![WasmValue::I32(45)]), receipt.get_returns());
    assert_eq!(1_105, receipt.gas_used());
}

#[test]
fn a_payload_over_the_gas_limit_does_not_start() {
    let mut runtime = MemoryRuntime::new(MemoryKV::new());
    let template = deploy(&mut runtime);

    let bytes = spawn_bytes(&template, 10);
    let receipt = runtime.spawn_app_begin(&bytes, &creator(), MaybeGas::with(1_039)).err().unwrap();
    match receipt {
        SpawnAppReceipt::Failure { error, gas_used } => {
            assert_eq!(ErrorKind::OutOfGas, error.kind);
            assert_eq!(1_039, gas_used);
        }
        _ => unreachable!(),
    }
}

#[test]
fn a_trap_discards_the_writes_and_reports_the_gas_used() {
    let mut runtime = MemoryRuntime::new(MemoryKV::new());
    let template = deploy(&mut runtime);
    let (app, init_state) = spawn(&mut runtime, &template);

    let bytes = exec_bytes(&app, "no_such_function", &[]);
    let execution = runtime.exec_app_begin(&bytes, &init_state, MaybeGas::with(5_000)).unwrap();
    runtime.write_page(&execution, 0, &[0, 0, 0, 99]);
    let outcome = run_counter(&mut runtime, &execution);
    let receipt = runtime.exec_app_finish(execution, outcome);
    let expected = ExecReceipt::Failure {
        error: ReceiptError {
            kind: ErrorKind::Execution,
            message: "no function `no_such_function`".to_string(),
        },
        gas_used: 1_003,
    };
    assert_eq!(expected, receipt);
    assert_eq!(init_state, runtime.head());

    let bytes = exec_bytes(&app, "add_and_mul", &[5, 3]);
    let execution = runtime.exec_app_begin(&bytes, &init_state, MaybeGas::new()).unwrap();
    assert_eq!(Some(vec![0, 0, 0, 10]), runtime.read_page(&execution, 0));
    assert_eq!(Some(&[0x00, 0x61, 0x73, 0x6D][..]), runtime.code(&execution));
    assert_eq!(&app, execution.app_addr());
}

#[test]
fn gas_is_settled_by_limit_and_outcome() {
    let returned = SandboxOutcome::Returned { results: vec![], gas_used: 50 };
    let trapped = SandboxOutcome::Trapped { message: "trap".to_string(), gas_used: 50 };

    assert_eq!(Verdict::Commit { gas_used: 150 }, settle_gas(MaybeGas::new(), 100, &returned));
    assert_eq!(Verdict::Commit { gas_used: 150 }, settle_gas(MaybeGas::with(150), 100, &returned));
    assert_eq!(
        Verdict::Fail { kind: ErrorKind::OutOfGas, gas_used: 149 },
        settle_gas(MaybeGas::with(149), 100, &returned)
    );
    assert_eq!(
        Verdict::Fail { kind: ErrorKind::OutOfGas, gas_used: 149 },
        settle_gas(MaybeGas::with(149), 100, &trapped)
    );
    assert_eq!(
        Verdict::Fail { kind: ErrorKind::Execution, gas_used: 150 },
        settle_gas(MaybeGas::with(150), 100, &trapped)
    );
    assert_eq!(
        Verdict::Commit { gas_used: u64::MAX },
        settle_gas(MaybeGas::new(), u64::MAX, &returned)
    );
}

#[test]
fn a_second_run_is_refused_while_one_is_in_flight() {
    let mut runtime = MemoryRuntime::new(MemoryKV::new());
    let template = deploy(&mut runtime);
    let (app, init_state) = spawn(&mut runtime, &template);

    let bytes = exec_bytes(&app, "add_and_mul", &[5, 3]);
    let execution = runtime.exec_app_begin(&bytes, &init_state, MaybeGas::new()).unwrap();

    let busy = ReceiptError {
        kind: ErrorKind::Busy,
        message: "another run is in flight".to_string(),
    };
    let second = runtime.exec_app_begin(&bytes, &init_state, MaybeGas::new()).err().unwrap();
    assert_eq!(ExecReceipt::Failure { error: busy.clone(), gas_used: 0 }, second);
    let second = runtime
        .spawn_app_begin(&spawn_bytes(&template, 1), &creator(), MaybeGas::new())
        .err()
        .unwrap();
    assert_eq!(SpawnAppReceipt::Failure { error: busy, gas_used: 0 }, second);

    // the first run is not disturbed, and after it the next can begin
    let outcome = run_counter(&mut runtime, &execution);
    let receipt = runtime.exec_app_finish(execution, outcome);
    assert_eq!(Some(&vec![WasmValue::I32(45)]), receipt.get_returns());
    assert!(runtime.exec_app_begin(&bytes, &init_state, MaybeGas::new()).is_ok());
}

//! Receipts: what the runtime reports of a transaction.
//!
//! A receipt is either a success, which carries what the transaction
//! produced, or a failure, which carries an error and nothing else but the
//! gas that was used.

use crate::types::{AppAddr, State, TemplateAddr, WasmValue};
use vstd::prelude::*;

verus! {

/// The kind of failure that a receipt reports.
#[derive(Clone, Copy, Debug, PartialEq, Eq, Structural)]
pub enum ErrorKind {
    /// The bytes of the transaction were refused by the decoder.
    Validation,
    /// The author that the transaction names is not the one that sent it.
    AuthorMismatch,
    /// The transaction refers to a template that was never deployed.
    TemplateNotFound,
    /// The transaction refers to an app that was never spawned.
    AppNotFound,
    /// The transaction starts from a state that the storage does not know.
    StateNotFound,
    /// The cost of the transaction exceeds its gas limit.
    OutOfGas,
    /// The sandbox trapped.
    Execution,
    /// Another run is in flight on the runtime.
    Busy,
}

/// The error of a failed transaction.
#[derive(Clone, Debug, PartialEq, Eq)]
pub struct ReceiptError {
    pub kind: ErrorKind,
    pub message: String,
}

/// The receipt of a deploy-template transaction.
#[derive(Clone, Debug, PartialEq, Eq)]
pub enum TemplateReceipt {
    Success { addr: TemplateAddr, gas_used: u64 },
    Failure { error: ReceiptError, gas_used: u64 },
}

/// The receipt of a spawn-app transaction.
#[derive(Clone, Debug, PartialEq, Eq)]
pub enum SpawnAppReceipt {
    Success { app_addr: AppAddr, init_state: State, results: Vec<WasmValue>, gas_used: u64 },
    Failure { error: ReceiptError, gas_used: u64 },
}

/// The receipt of an exec-app transaction.
#[derive(Clone, Debug, PartialEq, Eq)]
pub enum ExecReceipt {
    Success { new_state: State, results: Vec<WasmValue>, gas_used: u64 },
    Failure { error: ReceiptError, gas_used: u64 },
}

/// A receipt of any of the three kinds.
#[derive(Clone, Debug, PartialEq, Eq)]
pub enum Receipt {
    DeployTemplate(TemplateReceipt),
    SpawnApp(SpawnAppReceipt),
    ExecApp(ExecReceipt),
}

/// The kind of transaction that a receipt belongs to.
#[derive(Clone, Copy, Debug, PartialEq, Eq, Structural)]
pub enum ReceiptKind {
    DeployTemplate,
    SpawnApp,
    ExecApp,
}

/// What a receipt holds.
pub enum ReceiptView {
    Template { addr: Seq<u8>, gas_used: u64 },
    Spawn { app_addr: Seq<u8>, init_state: Seq<u8>, results: Seq<WasmValue>, gas_used: u64 },
    Exec { new_state: Seq<u8>, results: Seq<WasmValue>, gas_used: u64 },
    Failed { of: ReceiptKind, kind: ErrorKind, message: Seq<char>, gas_used: u64 },
}

impl View for TemplateReceipt {
    type V = ReceiptView;

    open spec fn view(&self) -> ReceiptView {
        match *self {
            TemplateReceipt::Success { addr, gas_used } => ReceiptView::Template {
                addr: addr@,
                gas_used,
            },
            TemplateReceipt::Failure { error, gas_used } => ReceiptView::Failed {
                of: ReceiptKind::DeployTemplate,
                kind: error.kind,
                message: error.message@,
                gas_used,
            },
        }
    }
}

impl View for SpawnAppReceipt {
    type V = ReceiptView;

    open spec fn view(&self) -> ReceiptView {
        match *self {
            SpawnAppReceipt::Success { app_addr, init_state, results, gas_used } => {
                ReceiptView::Spawn {
                    app_addr: app_addr@,
                    init_state: init_state@,
                    results: results@,
                    gas_used,
                }
            },
            SpawnAppReceipt::Failure { error, gas_used } => ReceiptView::Failed {
                of: ReceiptKind::SpawnApp,
                kind: error.kind,
                message: error.message@,
                gas_used,
            },
        }
    }
}

impl View for ExecReceipt {
    type V = ReceiptView;

    open spec fn view(&self) -> ReceiptView {
        match *self {
            ExecReceipt::Success { new_state, results, gas_used } => ReceiptView::Exec {
                new_state: new_state@,
                results: results@,
                gas_used,
            },
            ExecReceipt::Failure { error, gas_used } => ReceiptView::Failed {
                of: ReceiptKind::ExecApp,
                kind: error.kind,
                message: error.message@,
                gas_used,
            },
        }
    }
}

impl View for Receipt {
    type V = ReceiptView;

    open spec fn view(&self) -> ReceiptView {
        match *self {
            Receipt::DeployTemplate(r) => r@,
            Receipt::SpawnApp(r) => r@,
            Receipt::ExecApp(r) => r@,
        }
    }
}

impl TemplateReceipt {
    /// Whether the transaction succeeded.
    pub fn success(&self) -> (ok: bool)
        ensures
            ok == (self is Success),
    {
        match self {
            TemplateReceipt::Success { .. } => true,
            TemplateReceipt::Failure { .. } => false,
        }
    }

    /// The gas that the transaction used.
    pub fn gas_used(&self) -> (gas: u64)
        ensures
            gas == match *self {
                TemplateReceipt::Success { gas_used, .. } => gas_used,
                TemplateReceipt::Failure { gas_used, .. } => gas_used,
            },
    {
        match self {
            TemplateReceipt::Success { gas_used, .. } => *gas_used,
            TemplateReceipt::Failure { gas_used, .. } => *gas_used,
        }
    }

    /// The address of the template, which a success carries.
    pub fn get_template_addr(&self) -> (addr: Option<&TemplateAddr>)
        ensures
            match *self {
                TemplateReceipt::Success { addr: a, .. } => addr == Some(&a),
                TemplateReceipt::Failure { .. } => addr is None,
            },
    {
        match self {
            TemplateReceipt::Success { addr, .. } => Some(addr),
            TemplateReceipt::Failure { .. } => None,
        }
    }
}

impl SpawnAppReceipt {
    /// Whether the transaction succeeded.
    pub fn success(&self) -> (ok: bool)
        ensures
            ok == (self is Success),
    {
        match self {
            SpawnAppReceipt::Success { .. } => true,
            SpawnAppReceipt::Failure { .. } => false,
        }
    }

    /// The gas that the transaction used.
    pub fn gas_used(&self) -> (gas: u64)
        ensures
            gas == match *self {
                SpawnAppReceipt::Success { gas_used, .. } => gas_used,
                SpawnAppReceipt::Failure { gas_used, .. } => gas_used,
            },
    {
        match self {
            SpawnAppReceipt::Success { gas_used, .. } => *gas_used,
            SpawnAppReceipt::Failure { gas_used, .. } => *gas_used,
        }
    }

    /// The address of the app, which a success carries.
    pub fn get_app_addr(&self) -> (addr: Option<&AppAddr>)
        ensures
            match *self {
                SpawnAppReceipt::Success { app_addr, .. } => addr == Some(&app_addr),
                SpawnAppReceipt::Failure { .. } => addr is None,
            },
    {
        match self {
            SpawnAppReceipt::Success { app_addr, .. } => Some(app_addr),
            SpawnAppReceipt::Failure { .. } => None,
        }
    }

    /// The state after the constructor, which a success carries.
    pub fn get_init_state(&self) -> (state: Option<&State>)
        ensures
            match *self {
                SpawnAppReceipt::Success { init_state, .. } => state == Some(&init_state),
                SpawnAppReceipt::Failure { .. } => state is None,
            },
    {
        match self {
            SpawnAppReceipt::Success { init_state, .. } => Some(init_state),
            SpawnAppReceipt::Failure { .. } => None,
        }
    }
}

impl ExecReceipt {
    /// Whether the transaction succeeded.
    pub fn success(&self) -> (ok: bool)
        ensures
            ok == (self is Success),
    {
        match self {
            ExecReceipt::Success { .. } => true,
            ExecReceipt::Failure { .. } => false,
        }
    }

    /// The gas that the transaction used.
    pub fn gas_used(&self) -> (gas: u64)
        ensures
            gas == match *self {
                ExecReceipt::Success { gas_used, .. } => gas_used,
                ExecReceipt::Failure { gas_used, .. } => gas_used,
            },
    {
        match self {
            ExecReceipt::Success { gas_used, .. } => *gas_used,
            ExecReceipt::Failure { gas_used, .. } => *gas_used,
        }
    }

    /// The state after the call, which a success carries.
    pub fn get_new_state(&self) -> (state: Option<&State>)
        ensures
            match *self {
                ExecReceipt::Success { new_state, .. } => state == Some(&new_state),
                ExecReceipt::Failure { .. } => state is None,
            },
    {
        match self {
            ExecReceipt::Success { new_state, .. } => Some(new_state),
            ExecReceipt::Failure { .. } => None,
        }
    }

    /// The values that the function returned, which a success carries.
    pub fn get_returns(&self) -> (values: Option<&Vec<WasmValue>>)
        ensures
            match *self {
                ExecReceipt::Success { results, .. } => values == Some(&results),
                ExecReceipt::Failure { .. } => values is None,
            },
    {
        match self {
            ExecReceipt::Success { results, .. } => Some(results),
            ExecReceipt::Failure { .. } => None,
        }
    }
}

impl Receipt {
    /// The receipt of a deploy-template transaction, if this is one.
    pub fn into_deploy_template(self) -> (receipt: Option<TemplateReceipt>)
        ensures
            match self {
                Receipt::DeployTemplate(r) => receipt == Some(r),
                _ => receipt is None,
            },
    {
        match self {
            Receipt::DeployTemplate(r) => Some(r),
            _ => None,
        }
    }

    /// The receipt of a spawn-app transaction, if this is one.
    pub fn into_spawn_app(self) -> (receipt: Option<SpawnAppReceipt>)
        ensures
            match self {
                Receipt::SpawnApp(r) => receipt == Some(r),
                _ => receipt is None,
            },
    {
        match self {
            Receipt::SpawnApp(r) => Some(r),
            _ => None,
        }
    }

    /// The receipt of an exec-app transaction, if this is one.
    pub fn into_exec_app(self) -> (receipt: Option<ExecReceipt>)
        ensures
            match self {
                Receipt::ExecApp(r) => receipt == Some(r),
                _ => receipt is None,
            },
    {
        match self {
            Receipt::ExecApp(r) => Some(r),
            _ => None,
        }
    }
}

} // verus!

//! Gas: the unit that bounds the cost of a transaction, and the static
//! estimate of that cost.

use crate::types::{
    AppTemplate, AppTemplateView, AppTransaction, AppTransactionView, SpawnApp, SpawnAppView,
};
use vstd::prelude::*;

verus! {

/// The estimated cost of a transaction.
#[derive(Clone, Copy, Debug, PartialEq, Eq, Structural)]
pub enum Gas {
    /// The cost is known before the transaction runs.
    Fixed(u64),
    /// The cost depends on how the transaction runs, within these bounds.
    Range { min: u64, max: u64 },
}

impl Gas {
    /// The upper bound of the estimate.
    pub open spec fn spec_max(self) -> u64 {
        match self {
            Gas::Fixed(gas) => gas,
            Gas::Range { max, .. } => max,
        }
    }

    /// The lower bound of the estimate.
    pub open spec fn spec_min(self) -> u64 {
        match self {
            Gas::Fixed(gas) => gas,
            Gas::Range { min, .. } => min,
        }
    }

    /// The upper bound of the estimate: for a caller who needs one number.
    pub fn max_gas(&self) -> (gas: u64)
        ensures
            gas == self.spec_max(),
    {
        match self {
            Gas::Fixed(gas) => *gas,
            Gas::Range { max, .. } => *max,
        }
    }

    /// The lower bound of the estimate.
    pub fn min_gas(&self) -> (gas: u64)
        ensures
            gas == self.spec_min(),
    {
        match self {
            Gas::Fixed(gas) => *gas,
            Gas::Range { min, .. } => *min,
        }
    }
}

/// A gas limit, or none where gas is not metered.
#[derive(Clone, Copy, Debug, PartialEq, Eq, Structural)]
pub enum MaybeGas {
    Unlimited,
    Limit(u64),
}

impl MaybeGas {
    /// No limit.
    pub fn new() -> (gas: MaybeGas)
        ensures
            gas == MaybeGas::Unlimited,
    {
        MaybeGas::Unlimited
    }

    /// The limit `limit`.
    pub fn with(limit: u64) -> (gas: MaybeGas)
        ensures
            gas == MaybeGas::Limit(limit),
    {
        MaybeGas::Limit(limit)
    }

    /// Whether a cost of `gas` is within the limit.
    pub open spec fn allows(self, gas: u64) -> bool {
        match self {
            MaybeGas::Unlimited => true,
            MaybeGas::Limit(limit) => gas <= limit,
        }
    }

    /// Whether a cost of `gas` is within the limit.
    pub fn covers(&self, gas: u64) -> (ok: bool)
        ensures
            ok == self.allows(gas),
    {
        match self {
            MaybeGas::Unlimited => true,
            MaybeGas::Limit(limit) => gas <= *limit,
        }
    }

    /// The most that can be charged under the limit for a cost of `gas`.
    pub open spec fn spec_charge(self, gas: u64) -> u64 {
        match self {
            MaybeGas::Unlimited => gas,
            MaybeGas::Limit(limit) => if gas <= limit {
                gas
            } else {
                limit
            },
        }
    }

    /// The most that can be charged under the limit for a cost of `gas`.
    pub fn charge(&self, gas: u64) -> (charged: u64)
        ensures
            charged == self.spec_charge(gas),
    {
        match self {
            MaybeGas::Unlimited => gas,
            MaybeGas::Limit(limit) => if gas <= *limit {
                gas
            } else {
                *limit
            },
        }
    }
}

/// The gas limit of a transaction: `gas_limit` where gas is metered, and
/// none where it is not.
pub fn maybe_gas(gas_metering: bool, gas_limit: u64) -> (gas: MaybeGas)
    ensures
        gas == if gas_metering {
            MaybeGas::Limit(gas_limit)
        } else {
            MaybeGas::Unlimited
        },
{
    if gas_metering {
        MaybeGas::with(gas_limit)
    } else {
        MaybeGas::new()
    }
}

/// The cost of taking a transaction in, before its payload counts.
pub const TX_BASE_GAS: u64 = 1_000;

/// The cost of each byte of code that a template installs.
pub const CODE_BYTE_GAS: u64 = 100;

/// The cost of each variable that a template declares.
pub const LAYOUT_VAR_GAS: u64 = 50;

/// The cost of each byte of call arguments.
pub const CALLDATA_BYTE_GAS: u64 = 10;

/// The most that one call into the sandbox may cost on top of its payload.
pub const CALL_CEILING_GAS: u64 = 10_000_000;

/// `base + rate * count`, no larger than the largest gas amount.
pub open spec fn linear_cost(base: u64, rate: u64, count: nat) -> u64 {
    if base + rate * count > u64::MAX {
        u64::MAX
    } else {
        (base + rate * count) as u64
    }
}

/// `base + rate * count`, saturating.
pub fn linear_gas(base: u64, rate: u64, count: usize) -> (gas: u64)
    ensures
        gas == linear_cost(base, rate, count as nat),
{
    let count = count as u64;
    let room = u64::MAX - base;
    if rate == 0 {
        assert(rate * count == 0) by (nonlinear_arith)
            requires
                rate == 0,
        ;
        base
    } else if count > room / rate {
        assert(rate * count > room) by (nonlinear_arith)
            requires
                count > room / rate,
                rate > 0,
        ;
        u64::MAX
    } else {
        assert(rate * count <= room) by (nonlinear_arith)
            requires
                count <= room / rate,
                rate > 0,
        ;
        base + rate * count
    }
}

/// The cost of a deploy-template transaction: fixed by the size of the code
/// and the number of declared variables.
pub open spec fn deploy_template_gas(template: AppTemplateView) -> Gas {
    Gas::Fixed(
        linear_cost(
            linear_cost(TX_BASE_GAS, CODE_BYTE_GAS, template.code.len()),
            LAYOUT_VAR_GAS,
            template.data.len(),
        ),
    )
}

/// The least cost of a call with `calldata` bytes of arguments.
pub open spec fn payload_gas(calldata: nat) -> u64 {
    linear_cost(TX_BASE_GAS, CALLDATA_BYTE_GAS, calldata)
}

/// The estimate of a call with `calldata` bytes of arguments: from the cost
/// of its payload up to that plus the ceiling of one call.
pub open spec fn call_gas(calldata: nat) -> Gas {
    Gas::Range {
        min: payload_gas(calldata),
        max: linear_cost(payload_gas(calldata), CALL_CEILING_GAS, 1),
    }
}

/// The cost of a spawn-app transaction.
pub open spec fn spawn_app_gas(spawn: SpawnAppView) -> Gas {
    call_gas(spawn.calldata.len())
}

/// The cost of an exec-app transaction.
pub open spec fn exec_app_gas(tx: AppTransactionView) -> Gas {
    call_gas(tx.calldata.len())
}

/// Estimates the cost of a transaction from the transaction alone: it runs
/// nothing and touches no storage.
pub trait GasEstimator {
    /// The estimate for a deploy-template transaction.
    spec fn deploy_template_estimate(template: AppTemplateView) -> Gas;

    /// The estimate for a spawn-app transaction.
    spec fn spawn_app_estimate(spawn: SpawnAppView) -> Gas;

    /// The estimate for an exec-app transaction.
    spec fn exec_app_estimate(tx: AppTransactionView) -> Gas;

    fn est_deploy_template(template: &AppTemplate) -> (gas: Gas)
        ensures
            gas == Self::deploy_template_estimate(template@),
            gas.spec_min() <= gas.spec_max(),
    ;

    fn est_spawn_app(spawn: &SpawnApp) -> (gas: Gas)
        ensures
            gas == Self::spawn_app_estimate(spawn@),
            gas.spec_min() <= gas.spec_max(),
    ;

    fn est_exec_app(tx: &AppTransaction) -> (gas: Gas)
        ensures
            gas == Self::exec_app_estimate(tx@),
            gas.spec_min() <= gas.spec_max(),
    ;
}

/// The default estimator.
pub struct DefaultGasEstimator;

fn estimate_call(calldata: usize) -> (gas: Gas)
    ensures
        gas == call_gas(calldata as nat),
        gas.spec_min() <= gas.spec_max(),
{
    let min = linear_gas(TX_BASE_GAS, CALLDATA_BYTE_GAS, calldata);
    let max = linear_gas(min, CALL_CEILING_GAS, 1);
    Gas::Range { min, max }
}

impl GasEstimator for DefaultGasEstimator {
    open spec fn deploy_template_estimate(template: AppTemplateView) -> Gas {
        deploy_template_gas(template)
    }

    open spec fn spawn_app_estimate(spawn: SpawnAppView) -> Gas {
        spawn_app_gas(spawn)
    }

    open spec fn exec_app_estimate(tx: AppTransactionView) -> Gas {
        exec_app_gas(tx)
    }

    fn est_deploy_template(template: &AppTemplate) -> (gas: Gas) {
        let code = linear_gas(TX_BASE_GAS, CODE_BYTE_GAS, template.code.len());
        Gas::Fixed(linear_gas(code, LAYOUT_VAR_GAS, template.data.len()))
    }

    fn est_spawn_app(spawn: &SpawnApp) -> (gas: Gas) {
        estimate_call(spawn.calldata.len())
    }

    fn est_exec_app(tx: &AppTransaction) -> (gas: Gas) {
        estimate_call(tx.calldata.len())
    }
}

} // verus!

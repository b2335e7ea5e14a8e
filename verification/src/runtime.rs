//! The runtime: what a node does with one transaction.
//!
//! A transaction passes through stages. Its bytes are validated by decoding
//! them, its gas is estimated from the decoded transaction alone, and then
//! it is carried out. A deployment runs no code and is carried out in one
//! step. A spawn and a call run code in the sandbox, which is not part of
//! this library: `begin` readies the storage and hands out an
//! [`Execution`], the caller runs the sandbox, which reads and writes pages
//! through the runtime, and `finish` takes the outcome, commits the writes
//! or discards them, and returns the receipt.

use crate::bytes::{be_bytes, u64_be_bytes};
use crate::codec::app::{parse_spawn_app, spawn_app_from_bytes};
use crate::codec::error::ParseError;
use crate::codec::template::{deploy_template_from_bytes, parse_deploy_template};
use crate::codec::tx::{exec_app_from_bytes, parse_exec_app};
use crate::gas::{Gas, GasEstimator, MaybeGas};
use crate::receipt::{ErrorKind, ExecReceipt, ReceiptError, SpawnAppReceipt, TemplateReceipt};
use crate::storage::hasher::{keccak256, DefaultKeyHasher, DefaultPageHasher, KeyHasher, PageHasher};
use crate::storage::kv::{KvModel, StatefulKV};
use crate::types::{
    Address, AppAddr, AppTemplate, AppTemplateView, AppTransactionView, AuthorAddr, CreatorAddr,
    SpawnAppView, State, TemplateAddr, WasmValue, ADDRESS_LEN,
};
use std::marker::PhantomData;
use vstd::prelude::*;
use vstd::slice::{slice_subrange, slice_to_vec};

verus! {

/// What the sandbox reports of a run.
#[derive(Clone, Debug, PartialEq, Eq)]
pub enum SandboxOutcome {
    /// The function returned. `gas_used` is what the run cost.
    Returned { results: Vec<WasmValue>, gas_used: u64 },
    /// The run was cut short by a trap. `gas_used` is what it cost up to the
    /// trap.
    Trapped { message: String, gas_used: u64 },
}

impl SandboxOutcome {
    /// What the run cost.
    pub open spec fn spec_gas_used(self) -> u64 {
        match self {
            SandboxOutcome::Returned { gas_used, .. } => gas_used,
            SandboxOutcome::Trapped { gas_used, .. } => gas_used,
        }
    }

    /// What the run cost.
    pub fn gas_used(&self) -> (gas: u64)
        ensures
            gas == self.spec_gas_used(),
    {
        match self {
            SandboxOutcome::Returned { gas_used, .. } => *gas_used,
            SandboxOutcome::Trapped { gas_used, .. } => *gas_used,
        }
    }
}

/// How a run ends for the storage and for the receipt.
#[derive(Clone, Copy, Debug, PartialEq, Eq, Structural)]
pub enum Verdict {
    /// The writes are committed.
    Commit { gas_used: u64 },
    /// The writes are discarded.
    Fail { kind: ErrorKind, gas_used: u64 },
}

/// The cost of the payload and the cost of the run together, no larger than
/// the largest gas amount.
pub open spec fn total_gas(payload: u64, used: u64) -> u64 {
    if payload + used > u64::MAX {
        u64::MAX
    } else {
        (payload + used) as u64
    }
}

/// How a run that cost `used` on top of `payload` ends under `limit`: a cost
/// over the limit is a failure for want of gas, charged up to the limit; a
/// trap within the limit is a failure that is charged what the run cost; and
/// a return within the limit is committed.
pub open spec fn settle(limit: MaybeGas, payload: u64, returned: bool, used: u64) -> Verdict {
    let total = total_gas(payload, used);
    if !limit.allows(total) {
        Verdict::Fail { kind: ErrorKind::OutOfGas, gas_used: limit.spec_charge(total) }
    } else if !returned {
        Verdict::Fail { kind: ErrorKind::Execution, gas_used: total }
    } else {
        Verdict::Commit { gas_used: total }
    }
}

/// A run whose cost exceeds the limit fails for want of gas, whatever it
/// returned; a run within the limit that fails is charged what it cost up to
/// the failure; and only a run within the limit that returned is committed.
pub proof fn lemma_gas_bound_enforced(limit: MaybeGas, payload: u64, returned: bool, used: u64)
    ensures
        !limit.allows(total_gas(payload, used)) ==> (settle(limit, payload, returned, used)
            matches Verdict::Fail { kind, gas_used } && kind == ErrorKind::OutOfGas
            && limit.allows(gas_used)),
        limit.allows(total_gas(payload, used)) && !returned ==> settle(
            limit,
            payload,
            returned,
            used,
        ) == (Verdict::Fail { kind: ErrorKind::Execution, gas_used: total_gas(payload, used) }),
        settle(limit, payload, returned, used) is Commit <==> returned && limit.allows(
            total_gas(payload, used),
        ),
{
}

/// Decides how a run ends.
pub fn settle_gas(limit: MaybeGas, payload: u64, outcome: &SandboxOutcome) -> (verdict: Verdict)
    ensures
        verdict == settle(limit, payload, outcome is Returned, outcome.spec_gas_used()),
{
    let used = outcome.gas_used();
    let total = if used > u64::MAX - payload {
        u64::MAX
    } else {
        payload + used
    };
    if !limit.covers(total) {
        Verdict::Fail { kind: ErrorKind::OutOfGas, gas_used: limit.charge(total) }
    } else {
        match outcome {
            SandboxOutcome::Returned { .. } => Verdict::Commit { gas_used: total },
            SandboxOutcome::Trapped { .. } => Verdict::Fail {
                kind: ErrorKind::Execution,
                gas_used: total,
            },
        }
    }
}

/// The address of a template: the first 20 bytes of the digest of its
/// deploy-template transaction.
pub open spec fn template_address(bytes: Seq<u8>) -> Seq<u8> {
    keccak256(bytes).subrange(0, ADDRESS_LEN as int)
}

/// The address of the app that is the `nonce`-th spawned by this runtime:
/// the first 20 bytes of the digest of the template's address, the
/// creator's address and the nonce.
pub open spec fn app_address(template: Seq<u8>, creator: Seq<u8>, nonce: nat) -> Seq<u8> {
    keccak256(template + creator + be_bytes(nonce, 8)).subrange(0, ADDRESS_LEN as int)
}

/// A deployed template.
pub struct TemplateRecord {
    pub addr: TemplateAddr,
    pub template: AppTemplate,
    pub author: AuthorAddr,
}

/// A spawned app.
pub struct AppRecord {
    pub addr: AppAddr,
    pub template: TemplateAddr,
}

/// Which of the two kinds of run an execution is.
#[derive(Clone, Copy, Debug, PartialEq, Eq, Structural)]
pub enum ExecutionKind {
    Spawn,
    Call,
}

/// A run that has begun: what the sandbox is to run, and under which limit.
pub struct Execution {
    kind: ExecutionKind,
    app: AppAddr,
    template: TemplateAddr,
    template_index: usize,
    func_name: String,
    calldata: Vec<u8>,
    gas_limit: MaybeGas,
    payload_gas: u64,
}

impl Execution {
    /// The kind of run.
    pub closed spec fn kind(&self) -> ExecutionKind {
        self.kind
    }

    /// The address of the app that runs.
    pub closed spec fn app(&self) -> Seq<u8> {
        self.app@
    }

    /// The address of the template of the app.
    pub closed spec fn template(&self) -> Seq<u8> {
        self.template@
    }

    /// The index of the template among the deployed ones.
    pub closed spec fn template_index(&self) -> int {
        self.template_index as int
    }

    /// The name of the function to run.
    pub closed spec fn func_name(&self) -> Seq<char> {
        self.func_name@
    }

    /// The call arguments.
    pub closed spec fn calldata(&self) -> Seq<u8> {
        self.calldata@
    }

    /// The gas limit of the transaction.
    pub closed spec fn gas_limit(&self) -> MaybeGas {
        self.gas_limit
    }

    /// The cost of the payload, which is charged before the run.
    pub closed spec fn payload_gas(&self) -> u64 {
        self.payload_gas
    }

    /// The address of the app that runs.
    pub fn app_addr(&self) -> (addr: &AppAddr)
        ensures
            addr@ == self.app(),
    {
        &self.app
    }

    /// The name of the function to run.
    pub fn function(&self) -> (name: &str)
        ensures
            name@ == self.func_name(),
    {
        self.func_name.as_str()
    }

    /// The call arguments.
    pub fn arguments(&self) -> (calldata: &[u8])
        ensures
            calldata@ == self.calldata(),
    {
        self.calldata.as_slice()
    }

    /// The gas that is left for the run, where gas is limited.
    pub fn gas_left(&self) -> (left: Option<u64>)
        ensures
            match self.gas_limit() {
                MaybeGas::Unlimited => left is None,
                MaybeGas::Limit(limit) => left == Some((limit - self.payload_gas()) as u64)
                    && self.payload_gas() <= limit,
            },
            self.gas_limit().allows(self.payload_gas()),
    {
        proof {
            use_type_invariant(self);
        }
        match self.gas_limit {
            MaybeGas::Unlimited => None,
            MaybeGas::Limit(limit) => Some(limit - self.payload_gas),
        }
    }

    #[verifier::type_invariant]
    closed spec fn payload_within_limit(&self) -> bool {
        self.gas_limit.allows(self.payload_gas)
    }
}

/// What a runtime holds.
pub struct RuntimeModel {
    pub store: KvModel,
    /// The deployed templates, in the order of their deployment: address,
    /// template and address of the author.
    pub templates: Seq<(Seq<u8>, AppTemplateView, Seq<u8>)>,
    /// The spawned apps, in the order of their spawning: address and address
    /// of the template.
    pub apps: Seq<(Seq<u8>, Seq<u8>)>,
    /// Whether a run has begun and is not finished.
    pub running: bool,
}

impl RuntimeModel {
    /// Whether a template with the address `addr` is deployed.
    pub open spec fn has_template(self, addr: Seq<u8>) -> bool {
        exists|i: int| 0 <= i < self.templates.len() && (#[trigger] self.templates[i]).0 == addr
    }

    /// Whether an app with the address `addr` is spawned.
    pub open spec fn has_app(self, addr: Seq<u8>) -> bool {
        exists|i: int| 0 <= i < self.apps.len() && (#[trigger] self.apps[i]).0 == addr
    }

    /// Whether the app at `i` is the first with the address `addr`.
    pub open spec fn first_app(self, addr: Seq<u8>, i: int) -> bool {
        &&& 0 <= i < self.apps.len()
        &&& self.apps[i].0 == addr
        &&& forall|j: int| 0 <= j < i ==> (#[trigger] self.apps[j]).0 != addr
    }

    /// The address of the template of the app with the address `addr`.
    pub open spec fn template_of(self, addr: Seq<u8>) -> Seq<u8> {
        self.apps[choose|i: int| self.first_app(addr, i)].1
    }
}

/// The text of the error of a transaction that names another author than
/// the one who sent it.
pub open spec fn author_mismatch_text() -> Seq<char> {
    "the transaction names another author"@
}

/// The text of the error of a run that is refused because another is in
/// flight.
pub open spec fn busy_text() -> Seq<char> {
    "another run is in flight"@
}

/// The text of the error of a transaction over its gas limit.
pub open spec fn out_of_gas_text() -> Seq<char> {
    "out of gas"@
}

/// The text of the error of a transaction whose template is not deployed.
pub open spec fn template_not_found_text() -> Seq<char> {
    "the template is not deployed"@
}

/// The text of the error of a transaction whose app is not spawned.
pub open spec fn app_not_found_text() -> Seq<char> {
    "the app is not spawned"@
}

/// The text of the error of a transaction that starts from an unknown state.
pub open spec fn state_not_found_text() -> Seq<char> {
    "the state is not known"@
}

/// A runtime over the storage `S` with the gas estimator `G`.
pub struct Runtime<S: StatefulKV, G: GasEstimator> {
    store: S,
    templates: Vec<TemplateRecord>,
    apps: Vec<AppRecord>,
    running: bool,
    estimator: PhantomData<G>,
}

fn failure(kind: ErrorKind, message: &str) -> (error: ReceiptError)
    ensures
        error.kind == kind,
        error.message@ == message@,
{
    ReceiptError { kind, message: message.to_owned() }
}

impl<S: StatefulKV, G: GasEstimator> Runtime<S, G> {
    /// What the runtime holds.
    pub closed spec fn model(&self) -> RuntimeModel {
        RuntimeModel {
            store: self.store.model(),
            templates: Seq::new(
                self.templates@.len(),
                |i: int|
                    (
                        self.templates@[i].addr@,
                        self.templates@[i].template@,
                        self.templates@[i].author@,
                    ),
            ),
            apps: Seq::new(
                self.apps@.len(),
                |i: int| (self.apps@[i].addr@, self.apps@[i].template@),
            ),
            running: self.running,
        }
    }

    /// Whether the runtime is in order.
    pub closed spec fn wf(&self) -> bool {
        self.store.wf()
    }

    /// A runtime over `store` with no template and no app.
    pub fn new(store: S) -> (runtime: Runtime<S, G>)
        requires
            store.wf(),
        ensures
            runtime.wf(),
            runtime.model().store == store.model(),
            runtime.model().templates.len() == 0,
            runtime.model().apps.len() == 0,
            !runtime.model().running,
    {
        Runtime {
            store,
            templates: Vec::new(),
            apps: Vec::new(),
            running: false,
            estimator: PhantomData,
        }
    }

    /// Checks the bytes of a deploy-template transaction by decoding them.
    pub fn validate_template(&self, bytes: &[u8]) -> (res: Result<(), ParseError>)
        ensures
            match res {
                Ok(()) => parse_deploy_template(bytes@) is Ok,
                Err(e) => parse_deploy_template(bytes@) == Err::<
                    (AppTemplateView, Seq<u8>),
                    ParseError,
                >(e),
            },
    {
        match deploy_template_from_bytes(bytes) {
            Ok(_) => Ok(()),
            Err(e) => Err(e),
        }
    }

    /// Checks the bytes of a spawn-app transaction by decoding them.
    pub fn validate_app(&self, bytes: &[u8]) -> (res: Result<(), ParseError>)
        ensures
            match res {
                Ok(()) => parse_spawn_app(bytes@) is Ok,
                Err(e) => parse_spawn_app(bytes@) == Err::<SpawnAppView, ParseError>(e),
            },
    {
        match spawn_app_from_bytes(bytes) {
            Ok(_) => Ok(()),
            Err(e) => Err(e),
        }
    }

    /// Checks the bytes of an exec-app transaction by decoding them, and
    /// returns the address of the app that they name.
    pub fn validate_tx(&self, bytes: &[u8]) -> (res: Result<AppAddr, ParseError>)
        ensures
            match res {
                Ok(addr) => parse_exec_app(bytes@) matches Ok(tx) && tx.app == addr@,
                Err(e) => parse_exec_app(bytes@) == Err::<AppTransactionView, ParseError>(e),
            },
    {
        match exec_app_from_bytes(bytes) {
            Ok(tx) => Ok(tx.app),
            Err(e) => Err(e),
        }
    }

    /// Estimates the gas of a deploy-template transaction.
    pub fn estimate_deploy_template(&self, bytes: &[u8]) -> (res: Result<Gas, ParseError>)
        ensures
            match res {
                Ok(gas) => parse_deploy_template(bytes@) matches Ok(decoded) && gas
                    == G::deploy_template_estimate(decoded.0),
                Err(e) => parse_deploy_template(bytes@) == Err::<
                    (AppTemplateView, Seq<u8>),
                    ParseError,
                >(e),
            },
    {
        match deploy_template_from_bytes(bytes) {
            Ok((template, _)) => Ok(G::est_deploy_template(&template)),
            Err(e) => Err(e),
        }
    }

    /// Estimates the gas of a spawn-app transaction.
    pub fn estimate_spawn_app(&self, bytes: &[u8]) -> (res: Result<Gas, ParseError>)
        ensures
            match res {
                Ok(gas) => parse_spawn_app(bytes@) matches Ok(spawn) && gas
                    == G::spawn_app_estimate(spawn),
                Err(e) => parse_spawn_app(bytes@) == Err::<SpawnAppView, ParseError>(e),
            },
    {
        match spawn_app_from_bytes(bytes) {
            Ok(spawn) => Ok(G::est_spawn_app(&spawn)),
            Err(e) => Err(e),
        }
    }

    /// Estimates the gas of an exec-app transaction.
    pub fn estimate_exec_app(&self, bytes: &[u8]) -> (res: Result<Gas, ParseError>)
        ensures
            match res {
                Ok(gas) => parse_exec_app(bytes@) matches Ok(tx) && gas == G::exec_app_estimate(
                    tx,
                ),
                Err(e) => parse_exec_app(bytes@) == Err::<AppTransactionView, ParseError>(e),
            },
    {
        match exec_app_from_bytes(bytes) {
            Ok(tx) => Ok(G::est_exec_app(&tx)),
            Err(e) => Err(e),
        }
    }

    fn find_template(&self, addr: &TemplateAddr) -> (found: Option<usize>)
        ensures
            match found {
                Some(i) => i < self.templates@.len() && self.templates@[i as int].addr@ == addr@,
                None => !self.model().has_template(addr@),
            },
    {
        let mut i: usize = 0;
        while i < self.templates.len()
            invariant
                i <= self.templates@.len(),
                forall|j: int| 0 <= j < i ==> self.templates@[j].addr@ != addr@,
            decreases self.templates@.len() - i,
        {
            if self.templates[i].addr.inner().same(addr.inner()) {
                return Some(i);
            }
            i += 1;
        }
        proof {
            if self.model().has_template(addr@) {
                let j = choose|j: int|
                    0 <= j < self.model().templates.len() && (#[trigger] self.model().templates[
                        j
                    ]).0 == addr@;
                assert(self.templates@[j].addr@ == addr@);
            }
        }
        None
    }

    fn find_app(&self, addr: &AppAddr) -> (found: Option<usize>)
        ensures
            match found {
                Some(i) => self.model().first_app(addr@, i as int) && self.apps@[i as int].template@
                    == self.model().template_of(addr@),
                None => !self.model().has_app(addr@),
            },
    {
        let mut i: usize = 0;
        while i < self.apps.len()
            invariant
                i <= self.apps@.len(),
                forall|j: int| 0 <= j < i ==> self.apps@[j].addr@ != addr@,
            decreases self.apps@.len() - i,
        {
            if self.apps[i].addr.inner().same(addr.inner()) {
                proof {
                    let m = self.model();
                    assert forall|j: int| 0 <= j < i implies (#[trigger] m.apps[j]).0 != addr@ by {
                        assert(self.apps@[j].addr@ != addr@);
                    }
                    assert(m.first_app(addr@, i as int));
                    let c = choose|c: int| m.first_app(addr@, c);
                    assert(m.first_app(addr@, c));
                    if c < i {
                        assert(m.apps[c].0 != addr@);
                    }
                    if i < c {
                        assert(m.apps[i as int].0 != addr@);
                    }
                }
                return Some(i);
            }
            i += 1;
        }
        proof {
            if self.model().has_app(addr@) {
                let j = choose|j: int|
                    0 <= j < self.model().apps.len() && (#[trigger] self.model().apps[j]).0
                        == addr@;
                assert(self.apps@[j].addr@ == addr@);
            }
        }
        None
    }

    /// Deploys a template. No code runs and the storage of accounts is not
    /// touched.
    ///
    /// Fails, and leaves the runtime as it is, when the bytes are refused by
    /// the decoder, when they name another author than `author`, and when
    /// the estimated gas exceeds `gas_limit`. Otherwise the template is kept
    /// under the address derived from the bytes.
    pub fn deploy_template(
        &mut self,
        bytes: &[u8],
        author: &AuthorAddr,
        gas_limit: MaybeGas,
    ) -> (receipt: TemplateReceipt)
        requires
            old(self).wf(),
        ensures
            final(self).wf(),
            final(self).model().store == old(self).model().store,
            final(self).model().apps == old(self).model().apps,
            final(self).model().running == old(self).model().running,
            match parse_deploy_template(bytes@) {
                Err(e) => {
                    &&& receipt matches TemplateReceipt::Failure { error, gas_used }
                    &&& error.kind == ErrorKind::Validation
                    &&& error.message@ == e.text()
                    &&& gas_used == 0
                    &&& final(self).model() == old(self).model()
                },
                Ok((template, named)) => if named != author@ {
                    &&& receipt matches TemplateReceipt::Failure { error, gas_used }
                    &&& error.kind == ErrorKind::AuthorMismatch
                    &&& error.message@ == author_mismatch_text()
                    &&& gas_used == 0
                    &&& final(self).model() == old(self).model()
                } else if !gas_limit.allows(G::deploy_template_estimate(template).spec_max()) {
                    &&& receipt matches TemplateReceipt::Failure { error, gas_used }
                    &&& error.kind == ErrorKind::OutOfGas
                    &&& error.message@ == out_of_gas_text()
                    &&& gas_used == gas_limit.spec_charge(
                        G::deploy_template_estimate(template).spec_max(),
                    )
                    &&& final(self).model() == old(self).model()
                } else {
                    &&& receipt matches TemplateReceipt::Success { addr, gas_used }
                    &&& addr@ == template_address(bytes@)
                    &&& gas_used == G::deploy_template_estimate(template).spec_max()
                    &&& final(self).model().templates == old(self).model().templates.push(
                        (addr@, template, named),
                    )
                },
            },
    {
        let (template, named) = match deploy_template_from_bytes(bytes) {
            Ok(decoded) => decoded,
            Err(e) => {
                let error = ReceiptError { kind: ErrorKind::Validation, message: e.message() };
                return TemplateReceipt::Failure { error, gas_used: 0 };
            },
        };
        if !named.inner().same(author.inner()) {
            let error = failure(ErrorKind::AuthorMismatch, "the transaction names another author");
            return TemplateReceipt::Failure { error, gas_used: 0 };
        }
        let gas = G::est_deploy_template(&template).max_gas();
        if !gas_limit.covers(gas) {
            let error = failure(ErrorKind::OutOfGas, "out of gas");
            return TemplateReceipt::Failure { error, gas_used: gas_limit.charge(gas) };
        }
        let digest = DefaultKeyHasher::hash(bytes);
        let addr = TemplateAddr::new(
            Address::from_slice(slice_subrange(digest.as_slice(), 0, ADDRESS_LEN)),
        );
        let ghost before = self.model().templates;
        self.templates.push(TemplateRecord { addr, template, author: named });
        proof {
            assert(self.model().templates =~= before.push((addr@, template@, named@)));
            assert(self.model().apps =~= old(self).model().apps);
        }
        TemplateReceipt::Success { addr, gas_used: gas }
    }

    /// The code of the template of a run, where this runtime holds the
    /// template.
    pub fn code(&self, execution: &Execution) -> (code: Option<&[u8]>)
        ensures
            match code {
                Some(code) => 0 <= execution.template_index() < self.model().templates.len()
                    && code@ == self.model().templates[execution.template_index()].1.code,
                None => execution.template_index() >= self.model().templates.len(),
            },
    {
        if execution.template_index < self.templates.len() {
            Some(self.templates[execution.template_index].template.code.as_slice())
        } else {
            None
        }
    }

    /// The storage of the runtime.
    pub fn store(&self) -> (store: &S)
        ensures
            store.model() == self.model().store,
            self.wf() ==> store.wf(),
    {
        &self.store
    }

    /// Reads a page of the app of a run, as the run sees it: with its own
    /// writes.
    pub fn read_page(&self, execution: &Execution, page: u32) -> (value: Option<Vec<u8>>)
        requires
            self.wf(),
        ensures
            match value {
                Some(v) => self.model().store.read(
                    DefaultPageHasher::page_key(execution.app(), page),
                ) == Some(v@),
                None => self.model().store.read(
                    DefaultPageHasher::page_key(execution.app(), page),
                ) is None,
            },
    {
        let key = DefaultPageHasher::hash(*execution.app.inner(), page);
        self.store.read(key.as_slice())
    }

    /// Writes a page of the app of a run. The write is buffered until the
    /// run is finished.
    pub fn write_page(&mut self, execution: &Execution, page: u32, value: &[u8])
        requires
            old(self).wf(),
        ensures
            final(self).wf(),
            final(self).model().store == old(self).model().store.write(
                DefaultPageHasher::page_key(execution.app(), page),
                value@,
            ),
            final(self).model().templates == old(self).model().templates,
            final(self).model().apps == old(self).model().apps,
            final(self).model().running == old(self).model().running,
    {
        let key = DefaultPageHasher::hash(*execution.app.inner(), page);
        self.store.write(key.as_slice(), value);
    }

    /// The fingerprint of the last checkpoint of the storage.
    pub fn head(&self) -> (state: State)
        requires
            self.wf(),
        ensures
            state@ == self.model().store.head,
    {
        self.store.head()
    }

    /// Begins the spawning of an app.
    ///
    /// Fails, and leaves the runtime as it is, when another run is in
    /// flight, when the bytes are refused by the decoder, when the template
    /// is not deployed, and when the gas of
    /// the payload alone exceeds `gas_limit`. Otherwise the writes that the
    /// storage had buffered are dropped and the run of the constructor can
    /// start.
    pub fn spawn_app_begin(
        &mut self,
        bytes: &[u8],
        creator: &CreatorAddr,
        gas_limit: MaybeGas,
    ) -> (res: Result<Execution, SpawnAppReceipt>)
        requires
            old(self).wf(),
        ensures
            final(self).wf(),
            final(self).model().templates == old(self).model().templates,
            final(self).model().apps == old(self).model().apps,
            final(self).model().running == (old(self).model().running || res is Ok),
            old(self).model().running ==> {
                &&& res matches Err(SpawnAppReceipt::Failure { error, gas_used })
                &&& error.kind == ErrorKind::Busy
                &&& error.message@ == busy_text()
                &&& gas_used == 0
                &&& final(self).model() == old(self).model()
            },
            !old(self).model().running ==> match parse_spawn_app(bytes@) {
                Err(e) => {
                    &&& res matches Err(SpawnAppReceipt::Failure { error, gas_used })
                    &&& error.kind == ErrorKind::Validation
                    &&& error.message@ == e.text()
                    &&& gas_used == 0
                    &&& final(self).model() == old(self).model()
                },
                Ok(spawn) => if !old(self).model().has_template(spawn.template) {
                    &&& res matches Err(SpawnAppReceipt::Failure { error, gas_used })
                    &&& error.kind == ErrorKind::TemplateNotFound
                    &&& error.message@ == template_not_found_text()
                    &&& gas_used == 0
                    &&& final(self).model() == old(self).model()
                } else if !gas_limit.allows(G::spawn_app_estimate(spawn).spec_min()) {
                    &&& res matches Err(SpawnAppReceipt::Failure { error, gas_used })
                    &&& error.kind == ErrorKind::OutOfGas
                    &&& error.message@ == out_of_gas_text()
                    &&& gas_used == gas_limit.spec_charge(G::spawn_app_estimate(spawn).spec_min())
                    &&& final(self).model() == old(self).model()
                } else {
                    &&& res matches Ok(execution)
                    &&& execution.kind() == ExecutionKind::Spawn
                    &&& execution.app() == app_address(
                        spawn.template,
                        creator@,
                        old(self).model().apps.len(),
                    )
                    &&& execution.template() == spawn.template
                    &&& 0 <= execution.template_index() < final(self).model().templates.len()
                    &&& final(self).model().templates[execution.template_index()].0
                        == spawn.template
                    &&& execution.func_name() == spawn.ctor_name
                    &&& execution.calldata() == spawn.calldata
                    &&& execution.gas_limit() == gas_limit
                    &&& execution.payload_gas() == G::spawn_app_estimate(spawn).spec_min()
                    &&& final(self).model().store == old(self).model().store.discard()
                },
            },
    {
        if self.running {
            let error = failure(ErrorKind::Busy, "another run is in flight");
            return Err(SpawnAppReceipt::Failure { error, gas_used: 0 });
        }
        let spawn = match spawn_app_from_bytes(bytes) {
            Ok(spawn) => spawn,
            Err(e) => {
                let error = ReceiptError { kind: ErrorKind::Validation, message: e.message() };
                return Err(SpawnAppReceipt::Failure { error, gas_used: 0 });
            },
        };
        let template_index = match self.find_template(&spawn.app.template) {
            Some(i) => i,
            None => {
                let error = failure(ErrorKind::TemplateNotFound, "the template is not deployed");
                return Err(SpawnAppReceipt::Failure { error, gas_used: 0 });
            },
        };
        proof {
            assert(self.model().templates[template_index as int].0 == spawn@.template);
        }
        let payload_gas = G::est_spawn_app(&spawn).min_gas();
        if !gas_limit.covers(payload_gas) {
            let error = failure(ErrorKind::OutOfGas, "out of gas");
            return Err(
                SpawnAppReceipt::Failure { error, gas_used: gas_limit.charge(payload_gas) },
            );
        }
        let mut preimage: Vec<u8> = slice_to_vec(spawn.app.template.inner().as_slice());
        let ghost template = preimage@;
        let creator_bytes = creator.inner().as_slice();
        let mut i: usize = 0;
        while i < creator_bytes.len()
            invariant
                i <= creator_bytes@.len(),
                preimage@ =~= template + creator_bytes@.subrange(0, i as int),
            decreases creator_bytes@.len() - i,
        {
            preimage.push(creator_bytes[i]);
            i += 1;
        }
        let nonce = u64_be_bytes(self.apps.len() as u64);
        let mut k: usize = 0;
        while k < 8
            invariant
                k <= 8,
                nonce@.len() == 8,
                i == creator_bytes@.len(),
                preimage@ =~= template + creator_bytes@.subrange(0, i as int) + nonce@.subrange(
                    0,
                    k as int,
                ),
            decreases 8 - k,
        {
            preimage.push(nonce[k]);
            k += 1;
        }
        proof {
            assert(creator_bytes@.subrange(0, i as int) =~= creator@);
            assert(nonce@.subrange(0, 8) =~= nonce@);
            assert(preimage@ =~= spawn@.template + creator@ + be_bytes(
                self.apps@.len() as nat,
                8,
            ));
        }
        let digest = DefaultKeyHasher::hash(preimage.as_slice());
        let app = AppAddr::new(
            Address::from_slice(slice_subrange(digest.as_slice(), 0, ADDRESS_LEN)),
        );
        self.store.discard();
        self.running = true;
        Ok(
            Execution {
                kind: ExecutionKind::Spawn,
                app,
                template: spawn.app.template,
                template_index,
                func_name: spawn.ctor_name,
                calldata: spawn.calldata,
                gas_limit,
                payload_gas,
            },
        )
    }

    /// Finishes the spawning of an app with the outcome of the run of its
    /// constructor.
    ///
    /// As [`settle`] decides, the writes of the run are committed, the app
    /// is registered and the receipt carries its address, the new state and
    /// what the constructor returned; or the writes are discarded, which
    /// leaves the committed contents and the state as they were, and the
    /// receipt carries the error.
    pub fn spawn_app_finish(&mut self, execution: Execution, outcome: SandboxOutcome) -> (receipt:
        SpawnAppReceipt)
        requires
            old(self).wf(),
        ensures
            final(self).wf(),
            final(self).model().templates == old(self).model().templates,
            !final(self).model().running,
            match settle(
                execution.gas_limit(),
                execution.payload_gas(),
                outcome is Returned,
                outcome.spec_gas_used(),
            ) {
                Verdict::Commit { gas_used: total } => {
                    &&& receipt matches SpawnAppReceipt::Success {
                        app_addr,
                        init_state,
                        results,
                        gas_used,
                    }
                    &&& app_addr@ == execution.app()
                    &&& outcome matches SandboxOutcome::Returned { results: returned, .. }
                    &&& results == returned
                    &&& gas_used == total
                    &&& init_state@ == S::fingerprint(old(self).model().store.visible())
                    &&& final(self).model().store == old(self).model().store.checkpoint(
                        init_state@,
                    )
                    &&& final(self).model().apps == old(self).model().apps.push(
                        (execution.app(), execution.template()),
                    )
                },
                Verdict::Fail { kind, gas_used: charged } => {
                    &&& receipt matches SpawnAppReceipt::Failure { error, gas_used }
                    &&& error.kind == kind
                    &&& gas_used == charged
                    &&& kind == ErrorKind::OutOfGas ==> error.message@ == out_of_gas_text()
                    &&& kind == ErrorKind::Execution ==> (outcome matches SandboxOutcome::Trapped {
                        message,
                        ..
                    } && error.message == message)
                    &&& final(self).model().store == old(self).model().store.discard()
                    &&& final(self).model().apps == old(self).model().apps
                },
            },
    {
        let verdict = settle_gas(execution.gas_limit, execution.payload_gas, &outcome);
        self.running = false;
        match verdict {
            Verdict::Commit { gas_used } => {
                let results = match outcome {
                    SandboxOutcome::Returned { results, .. } => results,
                    SandboxOutcome::Trapped { .. } => {
                        assert(false);
                        Vec::new()
                    },
                };
                let init_state = self.store.checkpoint();
                let ghost before = self.model().apps;
                self.apps.push(AppRecord { addr: execution.app, template: execution.template });
                proof {
                    assert(self.model().apps =~= before.push(
                        (execution.app(), execution.template()),
                    ));
                    assert(self.model().templates =~= old(self).model().templates);
                }
                SpawnAppReceipt::Success {
                    app_addr: execution.app,
                    init_state,
                    results,
                    gas_used,
                }
            },
            Verdict::Fail { kind, gas_used } => {
                self.store.discard();
                let error = match outcome {
                    SandboxOutcome::Trapped { message, .. } => {
                        if kind == ErrorKind::Execution {
                            ReceiptError { kind, message }
                        } else {
                            failure(kind, "out of gas")
                        }
                    },
                    SandboxOutcome::Returned { .. } => failure(kind, "out of gas"),
                };
                SpawnAppReceipt::Failure { error, gas_used }
            },
        }
    }

    /// Begins a call of a function of an app, from the state `prior_state`.
    ///
    /// Fails, and leaves the runtime as it is, when another run is in
    /// flight, when the bytes are refused by the decoder, when the app is
    /// not spawned, when the gas of the payload
    /// alone exceeds `gas_limit`, and when the storage does not know
    /// `prior_state`. Otherwise the storage goes back to `prior_state` and
    /// the run can start.
    pub fn exec_app_begin(
        &mut self,
        bytes: &[u8],
        prior_state: &State,
        gas_limit: MaybeGas,
    ) -> (res: Result<Execution, ExecReceipt>)
        requires
            old(self).wf(),
        ensures
            final(self).wf(),
            final(self).model().templates == old(self).model().templates,
            final(self).model().apps == old(self).model().apps,
            final(self).model().running == (old(self).model().running || res is Ok),
            old(self).model().running ==> {
                &&& res matches Err(ExecReceipt::Failure { error, gas_used })
                &&& error.kind == ErrorKind::Busy
                &&& error.message@ == busy_text()
                &&& gas_used == 0
                &&& final(self).model() == old(self).model()
            },
            !old(self).model().running ==> match parse_exec_app(bytes@) {
                Err(e) => {
                    &&& res matches Err(ExecReceipt::Failure { error, gas_used })
                    &&& error.kind == ErrorKind::Validation
                    &&& error.message@ == e.text()
                    &&& gas_used == 0
                    &&& final(self).model() == old(self).model()
                },
                Ok(tx) => if !old(self).model().has_app(tx.app) {
                    &&& res matches Err(ExecReceipt::Failure { error, gas_used })
                    &&& error.kind == ErrorKind::AppNotFound
                    &&& error.message@ == app_not_found_text()
                    &&& gas_used == 0
                    &&& final(self).model() == old(self).model()
                } else if !old(self).model().has_template(old(self).model().template_of(tx.app)) {
                    &&& res matches Err(ExecReceipt::Failure { error, gas_used })
                    &&& error.kind == ErrorKind::TemplateNotFound
                    &&& error.message@ == template_not_found_text()
                    &&& gas_used == 0
                    &&& final(self).model() == old(self).model()
                } else if !gas_limit.allows(G::exec_app_estimate(tx).spec_min()) {
                    &&& res matches Err(ExecReceipt::Failure { error, gas_used })
                    &&& error.kind == ErrorKind::OutOfGas
                    &&& error.message@ == out_of_gas_text()
                    &&& gas_used == gas_limit.spec_charge(G::exec_app_estimate(tx).spec_min())
                    &&& final(self).model() == old(self).model()
                } else if !old(self).model().store.knows(prior_state@) {
                    &&& res matches Err(ExecReceipt::Failure { error, gas_used })
                    &&& error.kind == ErrorKind::StateNotFound
                    &&& error.message@ == state_not_found_text()
                    &&& gas_used == G::exec_app_estimate(tx).spec_min()
                    &&& final(self).model() == old(self).model()
                } else {
                    &&& res matches Ok(execution)
                    &&& execution.kind() == ExecutionKind::Call
                    &&& execution.app() == tx.app
                    &&& execution.template() == old(self).model().template_of(tx.app)
                    &&& 0 <= execution.template_index() < final(self).model().templates.len()
                    &&& final(self).model().templates[execution.template_index()].0
                        == execution.template()
                    &&& execution.func_name() == tx.func_name
                    &&& execution.calldata() == tx.calldata
                    &&& execution.gas_limit() == gas_limit
                    &&& execution.payload_gas() == G::exec_app_estimate(tx).spec_min()
                    &&& final(self).model().store == old(self).model().store.rewind(prior_state@)
                },
            },
    {
        if self.running {
            let error = failure(ErrorKind::Busy, "another run is in flight");
            return Err(ExecReceipt::Failure { error, gas_used: 0 });
        }
        let tx = match exec_app_from_bytes(bytes) {
            Ok(tx) => tx,
            Err(e) => {
                let error = ReceiptError { kind: ErrorKind::Validation, message: e.message() };
                return Err(ExecReceipt::Failure { error, gas_used: 0 });
            },
        };
        let app_index = match self.find_app(&tx.app) {
            Some(i) => i,
            None => {
                let error = failure(ErrorKind::AppNotFound, "the app is not spawned");
                return Err(ExecReceipt::Failure { error, gas_used: 0 });
            },
        };
        let template = self.apps[app_index].template;
        let template_index = match self.find_template(&template) {
            Some(i) => i,
            None => {
                let error = failure(ErrorKind::TemplateNotFound, "the template is not deployed");
                return Err(ExecReceipt::Failure { error, gas_used: 0 });
            },
        };
        proof {
            assert(self.model().templates[template_index as int].0 == template@);
        }
        let payload_gas = G::est_exec_app(&tx).min_gas();
        if !gas_limit.covers(payload_gas) {
            let error = failure(ErrorKind::OutOfGas, "out of gas");
            return Err(ExecReceipt::Failure { error, gas_used: gas_limit.charge(payload_gas) });
        }
        if !self.store.rewind(prior_state) {
            let error = failure(ErrorKind::StateNotFound, "the state is not known");
            return Err(ExecReceipt::Failure { error, gas_used: gas_limit.charge(payload_gas) });
        }
        self.running = true;
        Ok(
            Execution {
                kind: ExecutionKind::Call,
                app: tx.app,
                template,
                template_index,
                func_name: tx.func_name,
                calldata: tx.calldata,
                gas_limit,
                payload_gas,
            },
        )
    }

    /// Finishes a call with the outcome of the run.
    ///
    /// As [`settle`] decides, the writes of the run are committed and the
    /// receipt carries the new state and what the function returned; or the
    /// writes are discarded, which leaves the committed contents and the
    /// state as they were, and the receipt carries the error.
    pub fn exec_app_finish(&mut self, execution: Execution, outcome: SandboxOutcome) -> (receipt:
        ExecReceipt)
        requires
            old(self).wf(),
        ensures
            final(self).wf(),
            final(self).model().templates == old(self).model().templates,
            final(self).model().apps == old(self).model().apps,
            !final(self).model().running,
            match settle(
                execution.gas_limit(),
                execution.payload_gas(),
                outcome is Returned,
                outcome.spec_gas_used(),
            ) {
                Verdict::Commit { gas_used: total } => {
                    &&& receipt matches ExecReceipt::Success { new_state, results, gas_used }
                    &&& outcome matches SandboxOutcome::Returned { results: returned, .. }
                    &&& results == returned
                    &&& gas_used == total
                    &&& new_state@ == S::fingerprint(old(self).model().store.visible())
                    &&& final(self).model().store == old(self).model().store.checkpoint(new_state@)
                },
                Verdict::Fail { kind, gas_used: charged } => {
                    &&& receipt matches ExecReceipt::Failure { error, gas_used }
                    &&& error.kind == kind
                    &&& gas_used == charged
                    &&& kind == ErrorKind::OutOfGas ==> error.message@ == out_of_gas_text()
                    &&& kind == ErrorKind::Execution ==> (outcome matches SandboxOutcome::Trapped {
                        message,
                        ..
                    } && error.message == message)
                    &&& final(self).model().store == old(self).model().store.discard()
                },
            },
    {
        let verdict = settle_gas(execution.gas_limit, execution.payload_gas, &outcome);
        self.running = false;
        match verdict {
            Verdict::Commit { gas_used } => {
                let results = match outcome {
                    SandboxOutcome::Returned { results, .. } => results,
                    SandboxOutcome::Trapped { .. } => {
                        assert(false);
                        Vec::new()
                    },
                };
                let new_state = self.store.checkpoint();
                ExecReceipt::Success { new_state, results, gas_used }
            },
            Verdict::Fail { kind, gas_used } => {
                self.store.discard();
                let error = match outcome {
                    SandboxOutcome::Trapped { message, .. } => {
                        if kind == ErrorKind::Execution {
                            ReceiptError { kind, message }
                        } else {
                            failure(kind, "out of gas")
                        }
                    },
                    SandboxOutcome::Returned { .. } => failure(kind, "out of gas"),
                };
                ExecReceipt::Failure { error, gas_used }
            },
        }
    }
}

} // verus!

//! The fixed-size identifiers and the transactions that travel on the wire.

use vstd::prelude::*;
use vstd::std_specs::convert::FromSpecImpl;
use vstd::string::StringSliceAdditionalSpecFns;

verus! {

/// The number of bytes of an [`Address`].
pub const ADDRESS_LEN: usize = 20;

/// The number of bytes of a [`State`].
pub const STATE_LEN: usize = 32;

/// The first `n` bytes of `bytes`, filled up with zeros where `bytes` is
/// shorter.
pub open spec fn zero_extended(bytes: Seq<u8>, n: nat) -> Seq<u8> {
    Seq::new(
        n,
        |i: int|
            if i < bytes.len() {
                bytes[i]
            } else {
                0u8
            },
    )
}

/// A 20-byte identifier of an author, a template, an app or an account.
#[derive(Clone, Copy, Debug, PartialEq, Eq, Hash)]
pub struct Address {
    bytes: [u8; 20],
}

impl View for Address {
    type V = Seq<u8>;

    closed spec fn view(&self) -> Seq<u8> {
        self.bytes@
    }
}

impl Address {
    /// The size of an address in bytes.
    pub fn len() -> (n: usize)
        ensures
            n == ADDRESS_LEN,
    {
        ADDRESS_LEN
    }

    /// The address made of `bytes`.
    pub fn new(bytes: [u8; 20]) -> (addr: Address)
        ensures
            addr@ == bytes@,
    {
        Address { bytes }
    }

    /// The address made of the 20 bytes of `bytes`.
    pub fn from_slice(bytes: &[u8]) -> (addr: Address)
        requires
            bytes@.len() == ADDRESS_LEN,
        ensures
            addr@ == bytes@,
    {
        let mut out = [0u8; 20];
        let mut i: usize = 0;
        while i < 20
            invariant
                i <= 20,
                bytes@.len() == 20,
                forall|j: int| 0 <= j < i ==> out@[j] == bytes@[j],
            decreases 20 - i,
        {
            out[i] = bytes[i];
            i += 1;
        }
        assert(out@ =~= bytes@);
        Address { bytes: out }
    }

    /// The address whose bytes are the first 20 bytes of the UTF-8 form of
    /// `s`, filled up with zeros where `s` is shorter.
    pub fn of(s: &str) -> (addr: Address)
        ensures
            addr@ == zero_extended(s.spec_bytes(), ADDRESS_LEN as nat),
    {
        let bytes = s.as_bytes();
        let mut out = [0u8; 20];
        let mut i: usize = 0;
        while i < 20 && i < bytes.len()
            invariant
                i <= 20,
                i <= bytes@.len(),
                forall|j: int| 0 <= j < i ==> out@[j] == bytes@[j],
                forall|j: int| i <= j < 20 ==> out@[j] == 0,
            decreases 20 - i,
        {
            out[i] = bytes[i];
            i += 1;
        }
        assert(out@ =~= zero_extended(bytes@, 20));
        Address { bytes: out }
    }

    /// The bytes of the address.
    pub fn as_slice(&self) -> (bytes: &[u8])
        ensures
            bytes@ == self@,
            bytes@.len() == ADDRESS_LEN,
    {
        self.bytes.as_slice()
    }

    /// The bytes of the address, as an array.
    pub fn bytes(&self) -> (bytes: [u8; 20])
        ensures
            bytes@ == self@,
    {
        self.bytes
    }

    /// Whether the two addresses hold the same bytes.
    pub fn same(&self, other: &Address) -> (eq: bool)
        ensures
            eq == (self@ == other@),
    {
        let mut i: usize = 0;
        while i < 20
            invariant
                i <= 20,
                forall|j: int| 0 <= j < i ==> self.bytes@[j] == other.bytes@[j],
            decreases 20 - i,
        {
            if self.bytes[i] != other.bytes[i] {
                return false;
            }
            i += 1;
        }
        assert(self@ =~= other@);
        true
    }

    /// An address has 20 bytes.
    pub proof fn lemma_len(self)
        ensures
            self@.len() == ADDRESS_LEN,
    {
    }
}

/// A 32-byte fingerprint of a committed snapshot of an account's storage.
#[derive(Clone, Copy, Debug, PartialEq, Eq, Hash)]
pub struct State {
    bytes: [u8; 32],
}

impl View for State {
    type V = Seq<u8>;

    closed spec fn view(&self) -> Seq<u8> {
        self.bytes@
    }
}

impl State {
    /// The size of a state in bytes.
    pub fn len() -> (n: usize)
        ensures
            n == STATE_LEN,
    {
        STATE_LEN
    }

    /// The state made of `bytes`.
    pub fn new(bytes: [u8; 32]) -> (state: State)
        ensures
            state@ == bytes@,
    {
        State { bytes }
    }

    /// The all-zero state: that of an account before its first checkpoint.
    pub fn empty() -> (state: State)
        ensures
            state@ == Seq::new(STATE_LEN as nat, |i: int| 0u8),
    {
        let state = State { bytes: [0u8; 32] };
        assert(state@ =~= Seq::new(STATE_LEN as nat, |i: int| 0u8));
        state
    }

    /// The state made of the 32 bytes of `bytes`.
    pub fn from_slice(bytes: &[u8]) -> (state: State)
        requires
            bytes@.len() == STATE_LEN,
        ensures
            state@ == bytes@,
    {
        let mut out = [0u8; 32];
        let mut i: usize = 0;
        while i < 32
            invariant
                i <= 32,
                bytes@.len() == 32,
                forall|j: int| 0 <= j < i ==> out@[j] == bytes@[j],
            decreases 32 - i,
        {
            out[i] = bytes[i];
            i += 1;
        }
        assert(out@ =~= bytes@);
        State { bytes: out }
    }

    /// The bytes of the state.
    pub fn as_slice(&self) -> (bytes: &[u8])
        ensures
            bytes@ == self@,
            bytes@.len() == STATE_LEN,
    {
        self.bytes.as_slice()
    }

    /// Whether the two states hold the same bytes.
    pub fn same(&self, other: &State) -> (eq: bool)
        ensures
            eq == (self@ == other@),
    {
        let mut i: usize = 0;
        while i < 32
            invariant
                i <= 32,
                forall|j: int| 0 <= j < i ==> self.bytes@[j] == other.bytes@[j],
            decreases 32 - i,
        {
            if self.bytes[i] != other.bytes[i] {
                return false;
            }
            i += 1;
        }
        assert(self@ =~= other@);
        true
    }

    /// A state has 32 bytes.
    pub proof fn lemma_len(self)
        ensures
            self@.len() == STATE_LEN,
    {
    }
}

/// The address of a deployed template.
#[derive(Clone, Copy, Debug, PartialEq, Eq, Hash)]
pub struct TemplateAddr {
    addr: Address,
}

impl View for TemplateAddr {
    type V = Seq<u8>;

    closed spec fn view(&self) -> Seq<u8> {
        self.addr@
    }
}

impl TemplateAddr {
    /// Wraps `addr`.
    pub fn new(addr: Address) -> (wrapped: TemplateAddr)
        ensures
            wrapped@ == addr@,
    {
        TemplateAddr { addr }
    }

    /// The address inside.
    pub fn inner(&self) -> (addr: &Address)
        ensures
            addr@ == self@,
    {
        &self.addr
    }

    /// The address has 20 bytes.
    pub proof fn lemma_len(self)
        ensures
            self@.len() == ADDRESS_LEN,
    {
    }
}

impl From<Address> for TemplateAddr {
    fn from(addr: Address) -> (wrapped: TemplateAddr) {
        TemplateAddr { addr }
    }
}

impl FromSpecImpl<Address> for TemplateAddr {
    open spec fn obeys_from_spec() -> bool {
        true
    }

    closed spec fn from_spec(addr: Address) -> TemplateAddr {
        TemplateAddr { addr }
    }
}

/// The address of a spawned app.
#[derive(Clone, Copy, Debug, PartialEq, Eq, Hash)]
pub struct AppAddr {
    addr: Address,
}

impl View for AppAddr {
    type V = Seq<u8>;

    closed spec fn view(&self) -> Seq<u8> {
        self.addr@
    }
}

impl AppAddr {
    /// Wraps `addr`.
    pub fn new(addr: Address) -> (wrapped: AppAddr)
        ensures
            wrapped@ == addr@,
    {
        AppAddr { addr }
    }

    /// The address inside.
    pub fn inner(&self) -> (addr: &Address)
        ensures
            addr@ == self@,
    {
        &self.addr
    }

    /// The address has 20 bytes.
    pub proof fn lemma_len(self)
        ensures
            self@.len() == ADDRESS_LEN,
    {
    }
}

impl From<Address> for AppAddr {
    fn from(addr: Address) -> (wrapped: AppAddr) {
        AppAddr { addr }
    }
}

impl FromSpecImpl<Address> for AppAddr {
    open spec fn obeys_from_spec() -> bool {
        true
    }

    closed spec fn from_spec(addr: Address) -> AppAddr {
        AppAddr { addr }
    }
}

/// The address of the author of a template.
#[derive(Clone, Copy, Debug, PartialEq, Eq, Hash)]
pub struct AuthorAddr {
    addr: Address,
}

impl View for AuthorAddr {
    type V = Seq<u8>;

    closed spec fn view(&self) -> Seq<u8> {
        self.addr@
    }
}

impl AuthorAddr {
    /// Wraps `addr`.
    pub fn new(addr: Address) -> (wrapped: AuthorAddr)
        ensures
            wrapped@ == addr@,
    {
        AuthorAddr { addr }
    }

    /// The address inside.
    pub fn inner(&self) -> (addr: &Address)
        ensures
            addr@ == self@,
    {
        &self.addr
    }

    /// The address has 20 bytes.
    pub proof fn lemma_len(self)
        ensures
            self@.len() == ADDRESS_LEN,
    {
    }
}

impl From<Address> for AuthorAddr {
    fn from(addr: Address) -> (wrapped: AuthorAddr) {
        AuthorAddr { addr }
    }
}

impl FromSpecImpl<Address> for AuthorAddr {
    open spec fn obeys_from_spec() -> bool {
        true
    }

    closed spec fn from_spec(addr: Address) -> AuthorAddr {
        AuthorAddr { addr }
    }
}

/// The address of the account that spawns an app.
#[derive(Clone, Copy, Debug, PartialEq, Eq, Hash)]
pub struct CreatorAddr {
    addr: Address,
}

impl View for CreatorAddr {
    type V = Seq<u8>;

    closed spec fn view(&self) -> Seq<u8> {
        self.addr@
    }
}

impl CreatorAddr {
    /// Wraps `addr`.
    pub fn new(addr: Address) -> (wrapped: CreatorAddr)
        ensures
            wrapped@ == addr@,
    {
        CreatorAddr { addr }
    }

    /// The address inside.
    pub fn inner(&self) -> (addr: &Address)
        ensures
            addr@ == self@,
    {
        &self.addr
    }

    /// The address has 20 bytes.
    pub proof fn lemma_len(self)
        ensures
            self@.len() == ADDRESS_LEN,
    {
    }
}

impl From<Address> for CreatorAddr {
    fn from(addr: Address) -> (wrapped: CreatorAddr) {
        CreatorAddr { addr }
    }
}

impl FromSpecImpl<Address> for CreatorAddr {
    open spec fn obeys_from_spec() -> bool {
        true
    }

    closed spec fn from_spec(addr: Address) -> CreatorAddr {
        CreatorAddr { addr }
    }
}

/// The declared data layout of a template: the byte length of each of its
/// variables, in order.
#[derive(Clone, Debug, PartialEq, Eq)]
pub struct DataLayout {
    vars: Vec<u32>,
}

impl View for DataLayout {
    type V = Seq<u32>;

    closed spec fn view(&self) -> Seq<u32> {
        self.vars@
    }
}

impl DataLayout {
    /// The layout whose variables have the lengths `vars`.
    pub fn new(vars: Vec<u32>) -> (layout: DataLayout)
        ensures
            layout@ == vars@,
    {
        DataLayout { vars }
    }

    /// The number of variables.
    pub fn len(&self) -> (n: usize)
        ensures
            n == self@.len(),
    {
        self.vars.len()
    }

    /// The byte length of the variable `index`.
    pub fn var_len(&self, index: usize) -> (len: u32)
        requires
            index < self@.len(),
        ensures
            len == self@[index as int],
    {
        self.vars[index]
    }
}

impl From<Vec<u32>> for DataLayout {
    fn from(vars: Vec<u32>) -> (layout: DataLayout) {
        DataLayout { vars }
    }
}

impl FromSpecImpl<Vec<u32>> for DataLayout {
    open spec fn obeys_from_spec() -> bool {
        true
    }

    closed spec fn from_spec(vars: Vec<u32>) -> DataLayout {
        DataLayout { vars }
    }
}

/// A template: reusable code with its declared data layout.
#[derive(Clone, Debug, PartialEq, Eq)]
pub struct AppTemplate {
    pub version: u32,
    pub name: String,
    pub code: Vec<u8>,
    pub data: DataLayout,
}

/// What an [`AppTemplate`] holds.
pub struct AppTemplateView {
    pub version: u32,
    pub name: Seq<char>,
    pub code: Seq<u8>,
    pub data: Seq<u32>,
}

impl View for AppTemplate {
    type V = AppTemplateView;

    open spec fn view(&self) -> AppTemplateView {
        AppTemplateView {
            version: self.version,
            name: self.name@,
            code: self.code@,
            data: self.data@,
        }
    }
}

/// An app: an instance of a template.
#[derive(Clone, Debug, PartialEq, Eq)]
pub struct App {
    pub version: u32,
    pub name: String,
    pub template: TemplateAddr,
}

/// A transaction that spawns an app from a template and runs its
/// constructor.
#[derive(Clone, Debug, PartialEq, Eq)]
pub struct SpawnApp {
    pub app: App,
    pub ctor_name: String,
    pub calldata: Vec<u8>,
}

/// What a [`SpawnApp`] holds.
pub struct SpawnAppView {
    pub version: u32,
    pub template: Seq<u8>,
    pub name: Seq<char>,
    pub ctor_name: Seq<char>,
    pub calldata: Seq<u8>,
}

impl View for SpawnApp {
    type V = SpawnAppView;

    open spec fn view(&self) -> SpawnAppView {
        SpawnAppView {
            version: self.app.version,
            template: self.app.template@,
            name: self.app.name@,
            ctor_name: self.ctor_name@,
            calldata: self.calldata@,
        }
    }
}

/// A transaction that runs a function of an app.
#[derive(Clone, Debug, PartialEq, Eq)]
pub struct AppTransaction {
    pub version: u32,
    pub app: AppAddr,
    pub func_name: String,
    pub calldata: Vec<u8>,
}

/// What an [`AppTransaction`] holds.
pub struct AppTransactionView {
    pub version: u32,
    pub app: Seq<u8>,
    pub func_name: Seq<char>,
    pub calldata: Seq<u8>,
}

impl View for AppTransaction {
    type V = AppTransactionView;

    open spec fn view(&self) -> AppTransactionView {
        AppTransactionView {
            version: self.version,
            app: self.app@,
            func_name: self.func_name@,
            calldata: self.calldata@,
        }
    }
}

/// The type of a value that crosses the boundary of the sandbox.
#[derive(Clone, Copy, Debug, PartialEq, Eq, Hash, Structural)]
pub enum WasmType {
    I32,
    I64,
}

/// A value that crosses the boundary of the sandbox.
#[derive(Clone, Copy, Debug, PartialEq, Eq, Hash, Structural)]
pub enum WasmValue {
    I32(u32),
    I64(u64),
}

impl WasmValue {
    /// The type of the value.
    pub open spec fn spec_ty(&self) -> WasmType {
        match *self {
            WasmValue::I32(_) => WasmType::I32,
            WasmValue::I64(_) => WasmType::I64,
        }
    }

    /// The type of the value.
    #[verifier::when_used_as_spec(spec_ty)]
    pub fn ty(&self) -> (ty: WasmType)
        ensures
            ty == self.spec_ty(),
    {
        match self {
            WasmValue::I32(_) => WasmType::I32,
            WasmValue::I64(_) => WasmType::I64,
        }
    }
}

/// The bytes of the address that stands for the number `n`: its four bytes,
/// least significant first, and then zeros.
pub open spec fn address_of_number(n: u32) -> Seq<u8> {
    zero_extended(
        seq![
            (n % 256) as u8,
            (n / 0x100 % 256) as u8,
            (n / 0x1_0000 % 256) as u8,
            (n / 0x100_0000) as u8,
        ],
        ADDRESS_LEN as nat,
    )
}

impl From<u32> for Address {
    fn from(n: u32) -> (addr: Address) {
        let mut bytes = [0u8; 20];
        bytes[0] = (n % 256) as u8;
        bytes[1] = (n / 0x100 % 256) as u8;
        bytes[2] = (n / 0x1_0000 % 256) as u8;
        bytes[3] = (n / 0x100_0000) as u8;
        let addr = Address { bytes };
        proof {
            Address::lemma_from_number(n);
            assert(addr@ =~= address_of_number(n));
            assert(number_address(n).bytes =~= addr.bytes);
        }
        addr
    }
}

/// The address that stands for the number `n`.
pub closed spec fn number_address(n: u32) -> Address {
    let zeros = vstd::array::spec_array_fill_for_copy_type::<u8, 20>(0u8);
    let b0 = vstd::array::spec_array_update(zeros, 0, (n % 256) as u8);
    let b1 = vstd::array::spec_array_update(b0, 1, (n / 0x100 % 256) as u8);
    let b2 = vstd::array::spec_array_update(b1, 2, (n / 0x1_0000 % 256) as u8);
    let b3 = vstd::array::spec_array_update(b2, 3, (n / 0x100_0000) as u8);
    Address { bytes: b3 }
}

impl FromSpecImpl<u32> for Address {
    open spec fn obeys_from_spec() -> bool {
        true
    }

    open spec fn from_spec(n: u32) -> Address {
        number_address(n)
    }
}

impl Address {
    /// The address made from a number holds the number's bytes.
    pub proof fn lemma_from_number(n: u32)
        ensures
            number_address(n)@ == address_of_number(n),
    {
        broadcast use vstd::array::axiom_spec_array_update;
        broadcast use vstd::array::axiom_spec_array_fill_for_copy_type;

        assert(number_address(n)@ =~= address_of_number(n));
    }
}

} // verus!

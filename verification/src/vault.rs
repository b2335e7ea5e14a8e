//! The rules by which a vault is set up: an app that guards funds behind
//! one master key, or behind three that must differ.

use crate::types::Address;
use vstd::prelude::*;

verus! {

/// The two kinds of vault.
#[derive(Clone, Copy, Debug, PartialEq, Eq, Structural)]
pub enum VaultType {
    Simple,
    MultiSig,
}

/// Why the setup of a vault is refused.
#[derive(Clone, Copy, Debug, PartialEq, Eq, Structural)]
pub enum VaultError {
    /// Two of the master keys are the same.
    SameMasterKeys,
}

impl VaultError {
    /// The text of the error.
    pub open spec fn text(self) -> Seq<char> {
        "Master Keys must be different from one another."@
    }

    /// The text of the error.
    pub fn message(&self) -> (msg: String)
        ensures
            msg@ == self.text(),
    {
        "Master Keys must be different from one another.".to_owned()
    }
}

/// What the setup of a vault writes to its storage.
#[derive(Clone, Copy, Debug, PartialEq, Eq)]
pub enum VaultStore {
    Type(VaultType),
    MasterAccount { account: Address, index: u32 },
    SpendingLimit(u64),
    SpendingAccount(Address),
}

/// What a [`VaultStore`] holds.
pub enum VaultStoreView {
    Type(VaultType),
    MasterAccount { account: Seq<u8>, index: u32 },
    SpendingLimit(u64),
    SpendingAccount(Seq<u8>),
}

impl View for VaultStore {
    type V = VaultStoreView;

    open spec fn view(&self) -> VaultStoreView {
        match *self {
            VaultStore::Type(ty) => VaultStoreView::Type(ty),
            VaultStore::MasterAccount { account, index } => VaultStoreView::MasterAccount {
                account: account@,
                index,
            },
            VaultStore::SpendingLimit(limit) => VaultStoreView::SpendingLimit(limit),
            VaultStore::SpendingAccount(account) => VaultStoreView::SpendingAccount(account@),
        }
    }
}

/// What the stores hold, in order.
pub open spec fn stores_view(stores: Seq<VaultStore>) -> Seq<VaultStoreView> {
    Seq::new(stores.len(), |i: int| stores[i]@)
}

/// The kind of vault that the flag of a setup stands for.
pub fn vault_type(multisig: bool) -> (ty: VaultType)
    ensures
        ty == if multisig {
            VaultType::MultiSig
        } else {
            VaultType::Simple
        },
{
    if multisig {
        VaultType::MultiSig
    } else {
        VaultType::Simple
    }
}

/// Checks that two master keys differ.
pub fn assert_not_same(addr1: &Address, addr2: &Address) -> (res: Result<(), VaultError>)
    ensures
        res is Ok <==> addr1@ != addr2@,
        res is Err ==> res == Err::<(), VaultError>(VaultError::SameMasterKeys),
{
    if addr1.same(addr2) {
        Err(VaultError::SameMasterKeys)
    } else {
        Ok(())
    }
}

/// What the setup of a simple vault writes.
pub open spec fn simple_stores(master: Seq<u8>) -> Seq<VaultStoreView> {
    seq![
        VaultStoreView::Type(VaultType::Simple),
        VaultStoreView::MasterAccount { account: master, index: 1 },
    ]
}

/// What the setup of a vault with three keys writes.
pub open spec fn multisig_stores(a: Seq<u8>, b: Seq<u8>, c: Seq<u8>) -> Seq<VaultStoreView> {
    seq![
        VaultStoreView::Type(VaultType::MultiSig),
        VaultStoreView::MasterAccount { account: a, index: 1 },
        VaultStoreView::MasterAccount { account: b, index: 2 },
        VaultStoreView::MasterAccount { account: c, index: 3 },
    ]
}

/// Whether the three keys differ from one another.
pub open spec fn all_differ(a: Seq<u8>, b: Seq<u8>, c: Seq<u8>) -> bool {
    a != b && a != c && b != c
}

/// Sets up a simple vault.
pub fn simple_initialize(masters: &[Address; 1]) -> (stores: Vec<VaultStore>)
    ensures
        stores_view(stores@) == simple_stores(masters@[0]@),
{
    let mut stores: Vec<VaultStore> = Vec::new();
    stores.push(VaultStore::Type(VaultType::Simple));
    stores.push(VaultStore::MasterAccount { account: masters[0], index: 1 });
    assert(stores_view(stores@) =~= simple_stores(masters@[0]@));
    stores
}

/// Sets up a vault with three master keys, which must differ from one
/// another: where two are the same, nothing is written.
pub fn multisig_initialize(masters: &[Address; 3]) -> (res: Result<Vec<VaultStore>, VaultError>)
    ensures
        match res {
            Ok(stores) => all_differ(masters@[0]@, masters@[1]@, masters@[2]@) && stores_view(
                stores@,
            ) == multisig_stores(masters@[0]@, masters@[1]@, masters@[2]@),
            Err(e) => !all_differ(masters@[0]@, masters@[1]@, masters@[2]@) && e
                == VaultError::SameMasterKeys,
        },
{
    let (a, b, c) = (&masters[0], &masters[1], &masters[2]);

    assert_not_same(a, b)?;
    assert_not_same(a, c)?;
    assert_not_same(b, c)?;

    let mut stores: Vec<VaultStore> = Vec::new();
    stores.push(VaultStore::Type(VaultType::MultiSig));
    stores.push(VaultStore::MasterAccount { account: *a, index: 1 });
    stores.push(VaultStore::MasterAccount { account: *b, index: 2 });
    stores.push(VaultStore::MasterAccount { account: *c, index: 3 });
    assert(stores_view(stores@) =~= multisig_stores(masters@[0]@, masters@[1]@, masters@[2]@));
    Ok(stores)
}

/// The master keys of a setup, as its call arguments give them.
#[derive(Clone, Copy, Debug, PartialEq, Eq)]
pub enum Masters {
    Simple([Address; 1]),
    MultiSig([Address; 3]),
}

/// What follows the master keys in what a setup writes: the spending limit
/// and the spending account, where they are given.
pub open spec fn spending_stores(limit: Option<u64>, account: Option<Seq<u8>>) -> Seq<
    VaultStoreView,
> {
    (match limit {
        Some(limit) => seq![VaultStoreView::SpendingLimit(limit)],
        None => Seq::empty(),
    }) + (match account {
        Some(account) => seq![VaultStoreView::SpendingAccount(account)],
        None => Seq::empty(),
    })
}

/// Sets up a vault: decides what is written to its storage, in order. Fails
/// before anything is written when a vault of three keys is given two that
/// are the same.
pub fn initialize(masters: &Masters, limit: Option<u64>, account: Option<Address>) -> (res: Result<
    Vec<VaultStore>,
    VaultError,
>)
    ensures
        match *masters {
            Masters::Simple(keys) => res matches Ok(stores) && stores_view(stores@)
                == simple_stores(keys@[0]@) + spending_stores(
                limit,
                match account {
                    Some(a) => Some(a@),
                    None => None,
                },
            ),
            Masters::MultiSig(keys) => if all_differ(keys@[0]@, keys@[1]@, keys@[2]@) {
                res matches Ok(stores) && stores_view(stores@) == multisig_stores(
                    keys@[0]@,
                    keys@[1]@,
                    keys@[2]@,
                ) + spending_stores(
                    limit,
                    match account {
                        Some(a) => Some(a@),
                        None => None,
                    },
                )
            } else {
                res == Err::<Vec<VaultStore>, VaultError>(VaultError::SameMasterKeys)
            },
        },
{
    let mut stores = match masters {
        Masters::Simple(keys) => simple_initialize(keys),
        Masters::MultiSig(keys) => multisig_initialize(keys)?,
    };
    let ghost head = stores_view(stores@);

    if let Some(limit) = limit {
        stores.push(VaultStore::SpendingLimit(limit));
    }

    if let Some(account) = account {
        stores.push(VaultStore::SpendingAccount(account));
    }
    assert(stores_view(stores@) =~= head + spending_stores(
        limit,
        match account {
            Some(a) => Some(a@),
            None => None,
        },
    ));

    Ok(stores)
}

} // verus!

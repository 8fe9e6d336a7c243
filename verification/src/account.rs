//! The records that the store keeps: an account, and the code, storage and
//! vault that its roots name.

use crate::digest::{canonical, is_canonical, Digest};
use vstd::prelude::*;

verus! {

/// The views of a sequence of digests, in order.
pub open spec fn digest_views(digests: Seq<Digest>) -> Seq<Seq<u64>> {
    Seq::new(digests.len(), |i: int| digests[i]@)
}

/// The views of a sequence of words, in order.
pub open spec fn word_views(words: Seq<[u64; 4]>) -> Seq<Seq<u64>> {
    Seq::new(words.len(), |i: int| words[i]@)
}

/// An account: its identifier, its nonce, the roots of its three parts, and
/// whether it is kept on chain.
#[derive(Clone, Copy, Debug, PartialEq, Eq)]
pub struct Account {
    pub id: u64,
    pub nonce: u64,
    pub vault_root: Digest,
    pub storage_root: Digest,
    pub code_root: Digest,
    pub on_chain: bool,
}

/// What is read back of an account: its identifier, its nonce and its three
/// roots.
#[derive(Clone, Copy, Debug, PartialEq, Eq)]
pub struct AccountStub {
    pub id: u64,
    pub nonce: u64,
    pub vault_root: Digest,
    pub storage_root: Digest,
    pub code_root: Digest,
}

impl Account {
    /// An account is well formed when its roots are.
    pub open spec fn wf(&self) -> bool {
        &&& self.vault_root.wf()
        &&& self.storage_root.wf()
        &&& self.code_root.wf()
    }

    /// The summary of this account.
    pub open spec fn stub_spec(&self) -> AccountStub {
        AccountStub {
            id: self.id,
            nonce: self.nonce,
            vault_root: self.vault_root,
            storage_root: self.storage_root,
            code_root: self.code_root,
        }
    }

    /// Makes an account, or `None` where a root is not well formed.
    pub fn from_parts(
        id: u64,
        nonce: u64,
        vault_root: Digest,
        storage_root: Digest,
        code_root: Digest,
        on_chain: bool,
    ) -> (account: Option<Account>)
        ensures
            account is Some <==> vault_root.wf() && storage_root.wf() && code_root.wf(),
            account matches Some(a) ==> a == (Account {
                id,
                nonce,
                vault_root,
                storage_root,
                code_root,
                on_chain,
            }),
    {
        if is_canonical(&vault_root.elements) && is_canonical(&storage_root.elements)
            && is_canonical(&code_root.elements) {
            Some(Account { id, nonce, vault_root, storage_root, code_root, on_chain })
        } else {
            None
        }
    }

    /// The summary of this account.
    pub fn stub(&self) -> (stub: AccountStub)
        ensures
            stub == self.stub_spec(),
    {
        AccountStub {
            id: self.id,
            nonce: self.nonce,
            vault_root: self.vault_root,
            storage_root: self.storage_root,
            code_root: self.code_root,
        }
    }
}

/// The code of an account: its root, the roots of its procedures in order,
/// and the module they were compiled from, which may be empty.
#[derive(Clone, Debug, PartialEq, Eq)]
pub struct AccountCode {
    pub root: Digest,
    pub procedures: Vec<Digest>,
    pub module: String,
}

impl AccountCode {
    /// Code is well formed when its root and the roots of its procedures are.
    pub open spec fn wf(&self) -> bool {
        &&& self.root.wf()
        &&& forall|i: int| 0 <= i < self.procedures@.len() ==> (#[trigger] self.procedures@[i]).wf()
    }

    /// Makes account code, or `None` where a root is not well formed.
    pub fn from_parts(root: Digest, procedures: Vec<Digest>, module: String) -> (code: Option<AccountCode>)
        ensures
            code is Some <==> root.wf() && forall|i: int|
                0 <= i < procedures@.len() ==> (#[trigger] procedures@[i]).wf(),
            code matches Some(c) ==> c.root == root && c.procedures == procedures && c.module
                == module,
    {
        if !is_canonical(&root.elements) {
            return None;
        }
        let mut at: usize = 0;
        while at < procedures.len()
            invariant
                at <= procedures@.len(),
                forall|i: int| 0 <= i < at ==> (#[trigger] procedures@[i]).wf(),
            decreases procedures@.len() - at,
        {
            if !is_canonical(&procedures[at].elements) {
                return None;
            }
            at = at + 1;
        }
        Some(AccountCode { root, procedures, module })
    }
}

/// One occupied slot of an account's storage.
#[derive(Clone, Copy, Debug, PartialEq, Eq)]
pub struct StorageSlot {
    pub index: u64,
    pub value: [u64; 4],
}

/// The indices of the slots, in order.
pub open spec fn slot_indices(slots: Seq<StorageSlot>) -> Seq<u64> {
    Seq::new(slots.len(), |i: int| slots[i].index)
}

/// The values of the slots, in order.
pub open spec fn slot_values(slots: Seq<StorageSlot>) -> Seq<Seq<u64>> {
    Seq::new(slots.len(), |i: int| slots[i].value@)
}

/// Slots stand for a map when each holds a word and their indices rise: no
/// index occurs twice.
pub open spec fn slots_wf(slots: Seq<StorageSlot>) -> bool {
    &&& forall|i: int| 0 <= i < slots.len() ==> canonical((#[trigger] slots[i]).value@)
    &&& forall|i: int, j: int|
        0 <= i < j < slots.len() ==> (#[trigger] slots[i]).index < (#[trigger] slots[j]).index
}

/// The storage of an account: its root, and its occupied slots by rising index.
#[derive(Clone, Debug, PartialEq, Eq)]
pub struct AccountStorage {
    pub root: Digest,
    pub slots: Vec<StorageSlot>,
}

impl AccountStorage {
    /// Storage is well formed when its root is and its slots stand for a map.
    pub open spec fn wf(&self) -> bool {
        &&& self.root.wf()
        &&& slots_wf(self.slots@)
    }

    /// Makes account storage, or `None` where the root or a value is not well
    /// formed, or where the indices do not rise.
    pub fn from_parts(root: Digest, slots: Vec<StorageSlot>) -> (storage: Option<AccountStorage>)
        ensures
            storage is Some <==> root.wf() && slots_wf(slots@),
            storage matches Some(s) ==> s.root == root && s.slots == slots,
    {
        if !is_canonical(&root.elements) {
            return None;
        }
        let mut at: usize = 0;
        while at < slots.len()
            invariant
                at <= slots@.len(),
                slots_wf(slots@.take(at as int)),
            decreases slots@.len() - at,
        {
            if !is_canonical(&slots[at].value) {
                return None;
            }
            if at > 0 && slots[at - 1].index >= slots[at].index {
                return None;
            }
            proof {
                let before = slots@.take(at as int);
                let after = slots@.take(at + 1);
                assert forall|i: int, j: int| 0 <= i < j < after.len() implies (
                #[trigger] after[i]).index < (#[trigger] after[j]).index by {
                    if j < at {
                        assert(after[i] == before[i] && after[j] == before[j]);
                    } else if i < at - 1 {
                        assert(after[i] == before[i]);
                        assert(before[i].index < before[at - 1].index);
                    }
                }
                assert forall|i: int| 0 <= i < after.len() implies canonical(
                    (#[trigger] after[i]).value@,
                ) by {
                    if i < at {
                        assert(after[i] == before[i]);
                    }
                }
            }
            at = at + 1;
        }
        assert(slots@.take(at as int) =~= slots@);
        Some(AccountStorage { root, slots })
    }
}

/// Asset words are well formed when each is a word.
pub open spec fn assets_wf(assets: Seq<[u64; 4]>) -> bool {
    forall|i: int| 0 <= i < assets.len() ==> canonical((#[trigger] assets[i])@)
}

/// The vault of an account: its root, and the words of its assets in order.
#[derive(Clone, Debug, PartialEq, Eq)]
pub struct AccountVault {
    pub root: Digest,
    pub assets: Vec<[u64; 4]>,
}

impl AccountVault {
    /// A vault is well formed when its root and the words of its assets are.
    pub open spec fn wf(&self) -> bool {
        &&& self.root.wf()
        &&& assets_wf(self.assets@)
    }

    /// Makes a vault, or `None` where the root or a word is not well formed.
    pub fn from_parts(root: Digest, assets: Vec<[u64; 4]>) -> (vault: Option<AccountVault>)
        ensures
            vault is Some <==> root.wf() && assets_wf(assets@),
            vault matches Some(v) ==> v.root == root && v.assets == assets,
    {
        if !is_canonical(&root.elements) {
            return None;
        }
        let mut at: usize = 0;
        while at < assets.len()
            invariant
                at <= assets@.len(),
                forall|i: int| 0 <= i < at ==> canonical((#[trigger] assets@[i])@),
            decreases assets@.len() - at,
        {
            if !is_canonical(&assets[at]) {
                return None;
            }
            at = at + 1;
        }
        Some(AccountVault { root, assets })
    }
}

} // verus!

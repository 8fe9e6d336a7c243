//! Rows: what a record looks like in its table, how a record is framed as a
//! row, and how the rows of the account table are read back.

use crate::account::{
    digest_views, slot_indices, slot_values, word_views, Account, AccountCode, AccountStorage,
    AccountStub, AccountVault,
};
use crate::digest::{
    canonical, lemma_root_list_text_injective, lemma_root_text_round_trip, root_list_text,
    root_of_text, root_text, Digest,
};
use crate::error::StoreError;
use crate::json::{assets_to_json, root_from_json, root_to_json, roots_to_json, slots_to_json};
use crate::text::{
    asset_shaped, assets_text, is_asset, lemma_asset_is_shaped, lemma_assets_text_injective,
    lemma_slots_text_injective, slots_text,
};
use crate::width::{
    id_from_stored, id_to_stored, lemma_id_round_trip, lemma_nonce_round_trip, loaded_id,
    loaded_nonce, nonce_from_stored, nonce_to_stored, stored_id, stored_nonce,
};
use vstd::prelude::*;

verus! {

/// A row of the account table.
#[derive(Clone, Debug, PartialEq, Eq)]
pub struct AccountRow {
    pub id: i64,
    pub nonce: i64,
    pub vault_root: String,
    pub storage_root: String,
    pub code_root: String,
    pub committed: bool,
}

/// A row of the account table, its texts as sequences of characters.
pub struct AccountRowView {
    pub id: i64,
    pub nonce: i64,
    pub vault_root: Seq<char>,
    pub storage_root: Seq<char>,
    pub code_root: Seq<char>,
    pub committed: bool,
}

impl View for AccountRow {
    type V = AccountRowView;

    open spec fn view(&self) -> AccountRowView {
        AccountRowView {
            id: self.id,
            nonce: self.nonce,
            vault_root: self.vault_root@,
            storage_root: self.storage_root@,
            code_root: self.code_root@,
            committed: self.committed,
        }
    }
}

/// A row of the code table.
#[derive(Clone, Debug, PartialEq, Eq)]
pub struct AccountCodeRow {
    pub root: String,
    pub procedures: String,
    pub module: String,
}

/// A row of the code table, its texts as sequences of characters.
pub struct AccountCodeRowView {
    pub root: Seq<char>,
    pub procedures: Seq<char>,
    pub module: Seq<char>,
}

impl View for AccountCodeRow {
    type V = AccountCodeRowView;

    open spec fn view(&self) -> AccountCodeRowView {
        AccountCodeRowView {
            root: self.root@,
            procedures: self.procedures@,
            module: self.module@,
        }
    }
}

/// A row of the storage table.
#[derive(Clone, Debug, PartialEq, Eq)]
pub struct AccountStorageRow {
    pub root: String,
    pub slots: String,
}

/// A row of the storage table, its texts as sequences of characters.
pub struct AccountStorageRowView {
    pub root: Seq<char>,
    pub slots: Seq<char>,
}

impl View for AccountStorageRow {
    type V = AccountStorageRowView;

    open spec fn view(&self) -> AccountStorageRowView {
        AccountStorageRowView { root: self.root@, slots: self.slots@ }
    }
}

/// A row of the vault table.
#[derive(Clone, Debug, PartialEq, Eq)]
pub struct AccountVaultRow {
    pub root: String,
    pub assets: String,
}

/// A row of the vault table, its texts as sequences of characters.
pub struct AccountVaultRowView {
    pub root: Seq<char>,
    pub assets: Seq<char>,
}

impl View for AccountVaultRow {
    type V = AccountVaultRowView;

    open spec fn view(&self) -> AccountVaultRowView {
        AccountVaultRowView { root: self.root@, assets: self.assets@ }
    }
}

/// The row that stands for an account.
pub open spec fn account_row_view(account: Account) -> AccountRowView {
    AccountRowView {
        id: stored_id(account.id),
        nonce: stored_nonce(account.nonce),
        vault_root: root_text(account.vault_root@),
        storage_root: root_text(account.storage_root@),
        code_root: root_text(account.code_root@),
        committed: account.on_chain,
    }
}

/// The row that stands for account code.
pub open spec fn account_code_row_view(code: AccountCode) -> AccountCodeRowView {
    AccountCodeRowView {
        root: root_text(code.root@),
        procedures: root_list_text(digest_views(code.procedures@)),
        module: code.module@,
    }
}

/// The row that stands for account storage.
pub open spec fn account_storage_row_view(storage: AccountStorage) -> AccountStorageRowView {
    AccountStorageRowView {
        root: root_text(storage.root@),
        slots: slots_text(slot_indices(storage.slots@), slot_values(storage.slots@)),
    }
}

/// The row that stands for a vault whose words are all assets.
pub open spec fn account_vault_row_view(vault: AccountVault) -> AccountVaultRowView {
    AccountVaultRowView {
        root: root_text(vault.root@),
        assets: assets_text(word_views(vault.assets@)),
    }
}

/// Every word of the vault is an asset.
pub open spec fn holds_assets(vault: AccountVault) -> bool {
    forall|i: int| 0 <= i < vault.assets@.len() ==> is_asset(#[trigger] vault.assets@[i]@)
}

/// Frames the row of an account from what the encoder gave for each of its
/// three roots. The first text that is missing, in the order code, storage,
/// vault, is a failure to serialise, with what the encoder said of it.
pub fn frame_account_row(
    account: &Account,
    code_root: Result<String, serde_json::Error>,
    storage_root: Result<String, serde_json::Error>,
    vault_root: Result<String, serde_json::Error>,
) -> (row: Result<AccountRow, StoreError>)
    ensures
        code_root matches Err(cause) ==> row == Err::<AccountRow, StoreError>(
            StoreError::InputSerializationError(cause),
        ),
        code_root is Ok ==> (storage_root matches Err(cause) ==> row == Err::<
            AccountRow,
            StoreError,
        >(StoreError::InputSerializationError(cause))),
        (code_root is Ok && storage_root is Ok) ==> (vault_root matches Err(cause) ==> row
            == Err::<AccountRow, StoreError>(StoreError::InputSerializationError(cause))),
        (code_root is Ok && storage_root is Ok && vault_root is Ok) ==> (row matches Ok(r) && r@
            == (AccountRowView {
            id: stored_id(account.id),
            nonce: stored_nonce(account.nonce),
            vault_root: vault_root.unwrap()@,
            storage_root: storage_root.unwrap()@,
            code_root: code_root.unwrap()@,
            committed: account.on_chain,
        })),
{
    let code_root = match code_root {
        Ok(text) => text,
        Err(cause) => {
            return Err(StoreError::InputSerializationError(cause));
        },
    };
    let storage_root = match storage_root {
        Ok(text) => text,
        Err(cause) => {
            return Err(StoreError::InputSerializationError(cause));
        },
    };
    let vault_root = match vault_root {
        Ok(text) => text,
        Err(cause) => {
            return Err(StoreError::InputSerializationError(cause));
        },
    };
    Ok(
        AccountRow {
            id: id_to_stored(account.id),
            nonce: nonce_to_stored(account.nonce),
            vault_root,
            storage_root,
            code_root,
            committed: account.on_chain,
        },
    )
}

/// Frames the row under which an account is inserted, or by which its stored
/// row is replaced: the identifier and the nonce as the signed integers with
/// the same bits, each root as its text, and the on-chain flag. Every
/// well-formed account has its row.
pub fn account_row(account: &Account) -> (row: Result<AccountRow, StoreError>)
    requires
        account.wf(),
    ensures
        row matches Ok(r) && r@ == account_row_view(*account),
{
    let code_root = root_to_json(&account.code_root);
    let storage_root = root_to_json(&account.storage_root);
    let vault_root = root_to_json(&account.vault_root);
    frame_account_row(account, code_root, storage_root, vault_root)
}

/// Frames the row of account code from what the encoder gave for its root
/// and for its procedures. The first text that is missing is a failure to
/// serialise, with what the encoder said of it.
pub fn frame_account_code_row(
    code: &AccountCode,
    root: Result<String, serde_json::Error>,
    procedures: Result<String, serde_json::Error>,
) -> (row: Result<AccountCodeRow, StoreError>)
    ensures
        root matches Err(cause) ==> row == Err::<AccountCodeRow, StoreError>(
            StoreError::InputSerializationError(cause),
        ),
        root is Ok ==> (procedures matches Err(cause) ==> row == Err::<AccountCodeRow, StoreError>(
            StoreError::InputSerializationError(cause),
        )),
        (root is Ok && procedures is Ok) ==> (row matches Ok(r) && r@ == (AccountCodeRowView {
            root: root.unwrap()@,
            procedures: procedures.unwrap()@,
            module: code.module@,
        })),
{
    let root = match root {
        Ok(text) => text,
        Err(cause) => {
            return Err(StoreError::InputSerializationError(cause));
        },
    };
    let procedures = match procedures {
        Ok(text) => text,
        Err(cause) => {
            return Err(StoreError::InputSerializationError(cause));
        },
    };
    Ok(AccountCodeRow { root, procedures, module: code.module.clone() })
}

/// Frames the row under which account code is inserted: the root as its
/// text, the roots of the procedures as the text of their list, and the
/// module as it is, empty or not. All well-formed code has its row.
pub fn account_code_row(code: &AccountCode) -> (row: Result<AccountCodeRow, StoreError>)
    requires
        code.wf(),
    ensures
        row matches Ok(r) && r@ == account_code_row_view(*code),
{
    let root = root_to_json(&code.root);
    let procedures = roots_to_json(&code.procedures);
    frame_account_code_row(code, root, procedures)
}

/// Frames a row of the storage table from what the encoder gave for the root
/// and for the slots. The first text that is missing is a failure to
/// serialise, with what the encoder said of it.
pub fn frame_account_storage_row(
    root: Result<String, serde_json::Error>,
    slots: Result<String, serde_json::Error>,
) -> (row: Result<AccountStorageRow, StoreError>)
    ensures
        root matches Err(cause) ==> row == Err::<AccountStorageRow, StoreError>(
            StoreError::InputSerializationError(cause),
        ),
        root is Ok ==> (slots matches Err(cause) ==> row == Err::<AccountStorageRow, StoreError>(
            StoreError::InputSerializationError(cause),
        )),
        (root is Ok && slots is Ok) ==> (row matches Ok(r) && r@ == (AccountStorageRowView {
            root: root.unwrap()@,
            slots: slots.unwrap()@,
        })),
{
    let root = match root {
        Ok(text) => text,
        Err(cause) => {
            return Err(StoreError::InputSerializationError(cause));
        },
    };
    let slots = match slots {
        Ok(text) => text,
        Err(cause) => {
            return Err(StoreError::InputSerializationError(cause));
        },
    };
    Ok(AccountStorageRow { root, slots })
}

/// Frames the row under which account storage is inserted: the root as its
/// text, and the occupied slots as the text of the map from index to word.
/// All well-formed storage has its row.
pub fn account_storage_row(storage: &AccountStorage) -> (row: Result<
    AccountStorageRow,
    StoreError,
>)
    requires
        storage.wf(),
    ensures
        row matches Ok(r) && r@ == account_storage_row_view(*storage),
{
    let root = root_to_json(&storage.root);
    let slots = slots_to_json(&storage.slots);
    frame_account_storage_row(root, slots)
}

/// Frames a row of the vault table from what the encoder gave for the root
/// and for the assets. The first text that is missing is a failure to
/// serialise, with what the encoder said of it.
pub fn frame_account_vault_row(
    root: Result<String, serde_json::Error>,
    assets: Result<String, serde_json::Error>,
) -> (row: Result<AccountVaultRow, StoreError>)
    ensures
        root matches Err(cause) ==> row == Err::<AccountVaultRow, StoreError>(
            StoreError::InputSerializationError(cause),
        ),
        root is Ok ==> (assets matches Err(cause) ==> row == Err::<AccountVaultRow, StoreError>(
            StoreError::InputSerializationError(cause),
        )),
        (root is Ok && assets is Ok) ==> (row matches Ok(r) && r@ == (AccountVaultRowView {
            root: root.unwrap()@,
            assets: assets.unwrap()@,
        })),
{
    let root = match root {
        Ok(text) => text,
        Err(cause) => {
            return Err(StoreError::InputSerializationError(cause));
        },
    };
    let assets = match assets {
        Ok(text) => text,
        Err(cause) => {
            return Err(StoreError::InputSerializationError(cause));
        },
    };
    Ok(AccountVaultRow { root, assets })
}

/// Frames the row under which a vault is inserted: the root as its text, and
/// the assets as the text of their list. A vault has its row exactly when
/// each of its words is an asset; a word that is none is a failure to
/// serialise.
pub fn account_vault_row(vault: &AccountVault) -> (row: Result<AccountVaultRow, StoreError>)
    requires
        vault.wf(),
    ensures
        row is Ok <==> holds_assets(*vault),
        row matches Ok(r) ==> r@ == account_vault_row_view(*vault),
        row matches Err(e) ==> e is InputSerializationError,
{
    let root = root_to_json(&vault.root);
    let assets = assets_to_json(&vault.assets);
    frame_account_vault_row(root, assets)
}

/// Says how a replacement of one stored row ended, from the number of rows
/// that it changed: it succeeded where it changed exactly one, and is a
/// failure of the write where the row was not there.
pub fn replaced_one_row(changed: usize) -> (outcome: Result<(), StoreError>)
    ensures
        changed == 1 ==> outcome == Ok::<(), StoreError>(()),
        changed != 1 ==> outcome == Err::<(), StoreError>(StoreError::QueryError),
{
    if changed == 1 {
        Ok(())
    } else {
        Err(StoreError::QueryError)
    }
}

/// Reads a root from the text of a column. A text that stands for no root
/// is a failure to deserialise, with what the encoder said of it.
pub fn root_from_text(text: &str) -> (root: Result<Digest, StoreError>)
    ensures
        match root {
            Ok(d) => d.wf() && root_of_text(text@) == Some(d@),
            Err(e) => e is DataDeserializationError && root_of_text(text@) is None,
        },
{
    match root_from_json(text) {
        Ok(digest) => Ok(digest),
        Err(cause) => Err(StoreError::DataDeserializationError(cause)),
    }
}

/// A row of the account table can be read: each of its three root texts
/// stands for a root.
pub open spec fn row_readable(row: AccountRowView) -> bool {
    &&& root_of_text(row.vault_root) is Some
    &&& root_of_text(row.storage_root) is Some
    &&& root_of_text(row.code_root) is Some
}

/// The summary holds what the row stands for, field by field.
pub open spec fn stub_of_row(stub: AccountStub, row: AccountRowView) -> bool {
    &&& stub.id == loaded_id(row.id)
    &&& stub.nonce == loaded_nonce(row.nonce)
    &&& Some(stub.vault_root@) == root_of_text(row.vault_root)
    &&& Some(stub.storage_root@) == root_of_text(row.storage_root)
    &&& Some(stub.code_root@) == root_of_text(row.code_root)
}

/// Reads the summary of an account from its row. A row with a root text
/// that stands for no root is a failure to deserialise.
pub fn stub_from_row(row: &AccountRow) -> (stub: Result<AccountStub, StoreError>)
    ensures
        match stub {
            Ok(s) => row_readable(row@) && stub_of_row(s, row@) && s.vault_root.wf()
                && s.storage_root.wf() && s.code_root.wf(),
            Err(e) => e is DataDeserializationError && !row_readable(row@),
        },
{
    let id = id_from_stored(row.id);
    let nonce = nonce_from_stored(row.nonce);
    let vault_root = match root_from_text(row.vault_root.as_str()) {
        Ok(root) => root,
        Err(e) => {
            return Err(e);
        },
    };
    let storage_root = match root_from_text(row.storage_root.as_str()) {
        Ok(root) => root,
        Err(e) => {
            return Err(e);
        },
    };
    let code_root = match root_from_text(row.code_root.as_str()) {
        Ok(root) => root,
        Err(e) => {
            return Err(e);
        },
    };
    Ok(AccountStub { id, nonce, vault_root, storage_root, code_root })
}

/// The views of a sequence of rows, in order.
pub open spec fn row_views(rows: Seq<AccountRow>) -> Seq<AccountRowView> {
    Seq::new(rows.len(), |i: int| rows[i]@)
}

/// Every one of the rows can be read.
pub open spec fn rows_readable(rows: Seq<AccountRowView>) -> bool {
    forall|i: int| 0 <= i < rows.len() ==> row_readable(#[trigger] rows[i])
}

/// Reads the summaries of all accounts from the rows of the account table,
/// in the order of the rows. One row that cannot be read fails the whole
/// read as a failure to deserialise; no rows give no summaries.
pub fn accounts_from_rows(rows: &Vec<AccountRow>) -> (stubs: Result<Vec<AccountStub>, StoreError>)
    ensures
        match stubs {
            Ok(s) => {
                &&& rows_readable(row_views(rows@))
                &&& s@.len() == rows@.len()
                &&& forall|i: int| 0 <= i < s@.len() ==> stub_of_row(#[trigger] s@[i], rows@[i]@)
            },
            Err(e) => e is DataDeserializationError && !rows_readable(row_views(rows@)),
        },
{
    let mut stubs: Vec<AccountStub> = Vec::new();
    let mut at: usize = 0;
    while at < rows.len()
        invariant
            at <= rows@.len(),
            stubs@.len() == at,
            forall|i: int| 0 <= i < at ==> row_readable(#[trigger] row_views(rows@)[i]),
            forall|i: int| 0 <= i < at ==> stub_of_row(#[trigger] stubs@[i], rows@[i]@),
        decreases rows@.len() - at,
    {
        match stub_from_row(&rows[at]) {
            Ok(stub) => {
                stubs.push(stub);
            },
            Err(e) => {
                assert(!row_readable(row_views(rows@)[at as int]));
                return Err(e);
            },
        }
        at = at + 1;
    }
    Ok(stubs)
}

/// The round trip of an account: the row under which it is inserted can be
/// read, and the one summary that the row stands for is the account's own,
/// equal in identifier, nonce and all three roots.
pub proof fn lemma_account_round_trip(account: Account, stub: AccountStub)
    requires
        account.wf(),
    ensures
        row_readable(account_row_view(account)),
        stub_of_row(account.stub_spec(), account_row_view(account)),
        stub_of_row(stub, account_row_view(account)) ==> stub == account.stub_spec(),
{
    lemma_id_round_trip(account.id);
    lemma_nonce_round_trip(account.nonce);
    lemma_root_text_round_trip(account.vault_root@);
    lemma_root_text_round_trip(account.storage_root@);
    lemma_root_text_round_trip(account.code_root@);
    if stub_of_row(stub, account_row_view(account)) {
        assert(stub.vault_root.elements =~= account.vault_root.elements);
        assert(stub.storage_root.elements =~= account.storage_root.elements);
        assert(stub.code_root.elements =~= account.code_root.elements);
    }
}

/// Reading the rows under which accounts were inserted succeeds, and each
/// row stands for the summary of its account.
pub proof fn lemma_accounts_round_trip(accounts: Seq<Account>)
    requires
        forall|i: int| 0 <= i < accounts.len() ==> (#[trigger] accounts[i]).wf(),
    ensures
        rows_readable(Seq::new(accounts.len(), |i: int| account_row_view(accounts[i]))),
        forall|i: int|
            0 <= i < accounts.len() ==> stub_of_row(
                (#[trigger] accounts[i]).stub_spec(),
                account_row_view(accounts[i]),
            ),
{
    let rows = Seq::new(accounts.len(), |i: int| account_row_view(accounts[i]));
    assert forall|i: int| 0 <= i < rows.len() implies row_readable(#[trigger] rows[i]) by {
        lemma_account_round_trip(accounts[i], accounts[i].stub_spec());
    }
    assert forall|i: int| 0 <= i < accounts.len() implies stub_of_row(
        (#[trigger] accounts[i]).stub_spec(),
        account_row_view(accounts[i]),
    ) by {
        lemma_account_round_trip(accounts[i], accounts[i].stub_spec());
    }
}

/// A corrupted root is detected: where the text of a root in some row stands
/// for no root, the rows cannot be read, so that the read of them fails as a
/// failure to deserialise and gives no summary.
pub proof fn lemma_malformed_root_detected(rows: Seq<AccountRowView>, at: int)
    requires
        0 <= at < rows.len(),
        root_of_text(rows[at].vault_root) is None || root_of_text(rows[at].storage_root) is None
            || root_of_text(rows[at].code_root) is None,
    ensures
        !rows_readable(rows),
{
    assert(!row_readable(rows[at]));
}

/// Nothing is lost in the row of account code: codes with the same row have
/// the same root, the same procedures in the same order, and the same module.
pub proof fn lemma_code_row_injective(a: AccountCode, b: AccountCode)
    requires
        a.wf(),
        b.wf(),
        account_code_row_view(a) == account_code_row_view(b),
    ensures
        a.root == b.root,
        a.procedures@ == b.procedures@,
        a.module@ == b.module@,
{
    lemma_root_text_round_trip(a.root@);
    lemma_root_text_round_trip(b.root@);
    assert(a.root.elements =~= b.root.elements);
    let roots_a = digest_views(a.procedures@);
    let roots_b = digest_views(b.procedures@);
    assert forall|i: int| 0 <= i < roots_a.len() implies canonical(#[trigger] roots_a[i]) by {
        assert(a.procedures@[i].wf());
    }
    assert forall|i: int| 0 <= i < roots_b.len() implies canonical(#[trigger] roots_b[i]) by {
        assert(b.procedures@[i].wf());
    }
    lemma_root_list_text_injective(roots_a, roots_b);
    assert forall|i: int| 0 <= i < a.procedures@.len() implies a.procedures@[i]
        == b.procedures@[i] by {
        assert(roots_a[i] == roots_b[i]);
        assert(a.procedures@[i].elements =~= b.procedures@[i].elements);
    }
    assert(a.procedures@ =~= b.procedures@);
}

/// Nothing is lost in the row of account storage: storages with the same row
/// have the same root and the same slots.
pub proof fn lemma_storage_row_injective(a: AccountStorage, b: AccountStorage)
    requires
        a.wf(),
        b.wf(),
        account_storage_row_view(a) == account_storage_row_view(b),
    ensures
        a.root == b.root,
        a.slots@ == b.slots@,
{
    lemma_root_text_round_trip(a.root@);
    lemma_root_text_round_trip(b.root@);
    assert(a.root.elements =~= b.root.elements);
    let ks_a = slot_indices(a.slots@);
    let ks_b = slot_indices(b.slots@);
    let vs_a = slot_values(a.slots@);
    let vs_b = slot_values(b.slots@);
    assert forall|i: int| 0 <= i < vs_a.len() implies (#[trigger] vs_a[i]).len() == 4 by {
        assert(canonical(a.slots@[i].value@));
    }
    assert forall|i: int| 0 <= i < vs_b.len() implies (#[trigger] vs_b[i]).len() == 4 by {
        assert(canonical(b.slots@[i].value@));
    }
    lemma_slots_text_injective(ks_a, vs_a, ks_b, vs_b);
    assert forall|i: int| 0 <= i < a.slots@.len() implies a.slots@[i] == b.slots@[i] by {
        assert(ks_a[i] == ks_b[i]);
        assert(vs_a[i] == vs_b[i]);
        assert(a.slots@[i].value =~= b.slots@[i].value);
    }
    assert(a.slots@ =~= b.slots@);
}

/// Nothing is lost in the row of a vault: vaults of assets with the same row
/// have the same root and the same assets in the same order.
pub proof fn lemma_vault_row_injective(a: AccountVault, b: AccountVault)
    requires
        a.wf(),
        b.wf(),
        holds_assets(a),
        holds_assets(b),
        account_vault_row_view(a) == account_vault_row_view(b),
    ensures
        a.root == b.root,
        a.assets@ == b.assets@,
{
    lemma_root_text_round_trip(a.root@);
    lemma_root_text_round_trip(b.root@);
    assert(a.root.elements =~= b.root.elements);
    let ws_a = word_views(a.assets@);
    let ws_b = word_views(b.assets@);
    assert forall|i: int| 0 <= i < ws_a.len() implies asset_shaped(#[trigger] ws_a[i]) by {
        assert(canonical(a.assets@[i]@));
        lemma_asset_is_shaped(a.assets@[i]@);
    }
    assert forall|i: int| 0 <= i < ws_b.len() implies asset_shaped(#[trigger] ws_b[i]) by {
        assert(canonical(b.assets@[i]@));
        lemma_asset_is_shaped(b.assets@[i]@);
    }
    lemma_assets_text_injective(ws_a, ws_b);
    assert forall|i: int| 0 <= i < a.assets@.len() implies a.assets@[i] == b.assets@[i] by {
        assert(ws_a[i] == ws_b[i]);
        assert(a.assets@[i] =~= b.assets@[i]);
    }
    assert(a.assets@ =~= b.assets@);
}

} // verus!

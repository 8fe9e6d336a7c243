use account_store::account::{Account, AccountCode, AccountStorage, AccountVault, StorageSlot};
use account_store::config::{ClientConfig, StoreConfig};
use account_store::digest::{is_canonical, Digest, MODULUS};
use account_store::error::StoreError;

#[test]
fn modulus_is_the_field_order() {
    assert_eq!(MODULUS, 18_446_744_069_414_584_321);
}

#[test]
fn digest_takes_field_elements() {
    let digest = Digest::from_elements([0, 1, MODULUS - 1, 42]).unwrap();
    assert_eq!(digest.elements(), [0, 1, MODULUS - 1, 42]);
}

#[test]
fn digest_refuses_a_number_at_or_above_the_order() {
    assert_eq!(Digest::from_elements([MODULUS, 0, 0, 0]), None);
    assert_eq!(Digest::from_elements([0, u64::MAX, 0, 0]), None);
    assert_eq!(Digest::from_elements([0, 0, MODULUS, 0]), None);
    assert_eq!(Digest::from_elements([0, 0, 0, MODULUS + 1]), None);
}

#[test]
fn canonical_word_check() {
    assert!(is_canonical(&[0, 0, 0, 0]));
    assert!(is_canonical(&[MODULUS - 1, MODULUS - 1, MODULUS - 1, MODULUS - 1]));
    assert!(!is_canonical(&[1, 2, 3, MODULUS]));
}

#[test]
fn account_keeps_its_fields() {
    let vault = Digest::from_elements([1, 2, 3, 4]).unwrap();
    let storage = Digest::from_elements([5, 6, 7, 8]).unwrap();
    let code = Digest::from_elements([9, 10, 11, 12]).unwrap();
    let account = Account::from_parts(7, 3, vault, storage, code, true).unwrap();
    assert_eq!(account.id, 7);
    assert_eq!(account.nonce, 3);
    assert_eq!(account.vault_root, vault);
    assert_eq!(account.storage_root, storage);
    assert_eq!(account.code_root, code);
    assert!(account.on_chain);
    let stub = account.stub();
    assert_eq!(stub.id, 7);
    assert_eq!(stub.nonce, 3);
    assert_eq!(stub.vault_root, vault);
    assert_eq!(stub.storage_root, storage);
    assert_eq!(stub.code_root, code);
}

#[test]
fn account_refuses_an_ill_formed_root() {
    let good = Digest::from_elements([1, 2, 3, 4]).unwrap();
    let bad = Digest { elements: [MODULUS, 0, 0, 0] };
    assert_eq!(Account::from_parts(7, 3, bad, good, good, true), None);
    assert_eq!(Account::from_parts(7, 3, good, bad, good, true), None);
    assert_eq!(Account::from_parts(7, 3, good, good, bad, true), None);
}

#[test]
fn code_refuses_an_ill_formed_procedure() {
    let good = Digest::from_elements([1, 2, 3, 4]).unwrap();
    let bad = Digest { elements: [0, 0, 0, u64::MAX] };
    assert!(AccountCode::from_parts(good, vec![good, good], String::new()).is_some());
    assert!(AccountCode::from_parts(good, vec![], String::new()).is_some());
    assert_eq!(AccountCode::from_parts(good, vec![good, bad], String::new()), None);
    assert_eq!(AccountCode::from_parts(bad, vec![good], String::new()), None);
}

#[test]
fn storage_takes_rising_indices_only() {
    let root = Digest::from_elements([1, 2, 3, 4]).unwrap();
    let a = StorageSlot { index: 0, value: [1, 0, 0, 0] };
    let b = StorageSlot { index: 5, value: [2, 0, 0, 0] };
    let c = StorageSlot { index: 255, value: [3, 0, 0, 0] };
    assert!(AccountStorage::from_parts(root, vec![]).is_some());
    assert!(AccountStorage::from_parts(root, vec![a, b, c]).is_some());
    assert_eq!(AccountStorage::from_parts(root, vec![a, c, b]), None);
    assert_eq!(AccountStorage::from_parts(root, vec![a, b, b]), None);
    assert_eq!(AccountStorage::from_parts(root, vec![b, a]), None);
}

#[test]
fn storage_refuses_an_ill_formed_value() {
    let root = Digest::from_elements([1, 2, 3, 4]).unwrap();
    let bad = StorageSlot { index: 1, value: [0, MODULUS, 0, 0] };
    assert_eq!(AccountStorage::from_parts(root, vec![bad]), None);
    let bad_root = Digest { elements: [MODULUS, 0, 0, 0] };
    assert_eq!(AccountStorage::from_parts(bad_root, vec![]), None);
}

#[test]
fn vault_refuses_an_ill_formed_word() {
    let root = Digest::from_elements([1, 2, 3, 4]).unwrap();
    assert!(AccountVault::from_parts(root, vec![[1, 2, 3, 4]]).is_some());
    assert_eq!(AccountVault::from_parts(root, vec![[1, 2, 3, 4], [0, 0, 0, MODULUS]]), None);
}

#[test]
fn store_config_takes_the_path_of_the_client() {
    let client = ClientConfig { store_path: String::from("/var/lib/client/store.sqlite3") };
    let config = StoreConfig::from(&client);
    assert_eq!(config.path(), "/var/lib/client/store.sqlite3");
    assert_eq!(config.path, client.store_path);
}

#[test]
fn each_error_has_its_message() {
    let cause = || serde_json::from_str::<u8>("x").unwrap_err();
    assert_eq!(StoreError::ConnectionError.message(), "failed to connect to the database");
    assert_eq!(StoreError::QueryError.message(), "failed to run a query against the database");
    assert_eq!(
        StoreError::InputSerializationError(cause()).message(),
        "failed to put a value into its stored form"
    );
    assert_eq!(
        StoreError::DataDeserializationError(cause()).message(),
        "failed to read a value from its stored form"
    );
}

use squirrel::dynamo::DynamoOps;
use squirrel::keyservice::MemKeyService;
use squirrel::kms::KmsOps;
use squirrel::record::{Item, RawRecord};
use squirrel::table::TableBackend;
use squirrel::squirrel::{DeletionResult, PutResult, Squirrel};
use squirrel::store::SecretStore;
use squirrel::table::MemTableBackend;

type MemStore = SecretStore<MemTableBackend, MemKeyService>;

fn fresh_store() -> MemStore {
    SecretStore::new(
        DynamoOps::new("squirrel".to_string(), MemTableBackend::new()),
        KmsOps::new("squirrel".to_string(), MemKeyService::new()),
    )
}

fn ready_store() -> MemStore {
    let mut store = fresh_store();
    store.setup().unwrap();
    store
}

#[test]
fn setup_reports_created_then_existed() {
    let mut store = fresh_store();
    let first = store.setup().unwrap();
    assert_eq!(first, "Created Dynamo table. Created customer master key.");
    let second = store.setup().unwrap();
    assert_eq!(
        second,
        "Dynamo table already existed. Customer master key already existed."
    );
}

#[test]
fn put_before_setup_fails() {
    let mut store = fresh_store();
    assert!(store.put("x".to_string(), b"v".to_vec(), true).is_err());
}

#[test]
fn get_missing_id_is_not_found() {
    let store = ready_store();
    let err = store.get("nope".to_string()).unwrap_err();
    assert_eq!(err.message, "No secret found with that ID.");
}

#[test]
fn store_round_trip_various_lengths() {
    let mut store = ready_store();
    for n in [0usize, 1, 15, 16, 17, 32, 33, 1000] {
        let v: Vec<u8> = (0..n).map(|i| (i * 7 % 256) as u8).collect();
        let id = format!("secret-{}", n);
        assert!(matches!(
            store.put(id.clone(), v.clone(), true).unwrap(),
            PutResult::Stored
        ));
        assert_eq!(store.get(id).unwrap(), v);
    }
}

#[test]
fn non_overwrite_guard() {
    let mut store = ready_store();
    assert!(matches!(
        store.put("x".to_string(), b"v1".to_vec(), false).unwrap(),
        PutResult::Stored
    ));
    assert!(matches!(
        store.put("x".to_string(), b"v2".to_vec(), false).unwrap(),
        PutResult::DidNotOverwrite
    ));
    assert_eq!(store.get("x".to_string()).unwrap(), b"v1".to_vec());
}

#[test]
fn overwrite_replaces_value() {
    let mut store = ready_store();
    assert!(matches!(
        store.put("x".to_string(), b"v1".to_vec(), true).unwrap(),
        PutResult::Stored
    ));
    assert!(matches!(
        store.put("x".to_string(), b"v2".to_vec(), true).unwrap(),
        PutResult::Stored
    ));
    assert_eq!(store.get("x".to_string()).unwrap(), b"v2".to_vec());
}

#[test]
fn delete_semantics() {
    let mut store = ready_store();
    store.put("x".to_string(), b"v".to_vec(), false).unwrap();
    assert!(matches!(
        store.delete("x".to_string()).unwrap(),
        DeletionResult::Deleted
    ));
    let err = store.get("x".to_string()).unwrap_err();
    assert_eq!(err.message, "No secret found with that ID.");
    assert!(matches!(
        store.delete("x".to_string()).unwrap(),
        DeletionResult::NotFound
    ));
}

#[test]
fn list_returns_exactly_the_stored_ids() {
    let mut store = ready_store();
    for id in ["a", "b", "c"] {
        store.put(id.to_string(), b"v".to_vec(), false).unwrap();
    }
    let mut ids = store.list().unwrap();
    ids.sort();
    assert_eq!(ids, vec!["a".to_string(), "b".to_string(), "c".to_string()]);
}

#[test]
fn list_of_fresh_table_is_empty() {
    let store = ready_store();
    assert!(store.list().unwrap().is_empty());
}

#[test]
fn concrete_scenario() {
    let mut store = ready_store();
    assert!(matches!(
        store
            .put("db.password".to_string(), b"s3cr3t".to_vec(), false)
            .unwrap(),
        PutResult::Stored
    ));
    assert_eq!(store.get("db.password".to_string()).unwrap(), b"s3cr3t".to_vec());
    assert!(matches!(
        store
            .put("db.password".to_string(), b"new".to_vec(), false)
            .unwrap(),
        PutResult::DidNotOverwrite
    ));
    assert!(matches!(
        store
            .put("db.password".to_string(), b"new".to_vec(), true)
            .unwrap(),
        PutResult::Stored
    ));
    assert_eq!(store.get("db.password".to_string()).unwrap(), b"new".to_vec());
}

#[test]
fn tampered_data_key_blob_is_rejected() {
    let mut kms = KmsOps::new("squirrel".to_string(), MemKeyService::new());
    kms.create_master_key_if_does_not_exist().unwrap();
    let dk = kms.generate_data_key().unwrap();
    let mut corrupted = dk.encrypted.clone();
    corrupted[0] ^= 0x55;
    assert!(kms.decrypt_data_key(corrupted).is_err());
    // the untampered blob still unwraps to the issued key
    assert_eq!(kms.decrypt_data_key(dk.encrypted).unwrap(), dk.plaintext);
}

#[test]
fn stored_item_with_foreign_key_blob_is_rejected() {
    // A record whose wrapped data key was never issued by the key service
    // cannot be unwrapped, so `get` fails instead of inventing a value.
    let mut store = ready_store();
    let item = Item {
        encrypted_data_key: vec![9, 9, 9, 9, 9, 9, 9, 9],
        encrypted_data: vec![0u8; 32],
        iv: vec![0u8; 16],
    };
    store.dynamo_ops.put_item("evil".to_string(), item, true).unwrap();
    assert!(store.get("evil".to_string()).is_err());
}

#[test]
fn record_missing_a_field_is_malformed_not_missing() {
    let mut store = ready_store();
    let rec = RawRecord {
        encrypted_data_key: Some("TWFu".to_string()),
        encrypted_data: None,
        iv: Some("YWI=".to_string()),
    };
    store
        .dynamo_ops
        .backend
        .put_item(&"broken".to_string(), rec, false)
        .unwrap();
    let err = store.get("broken".to_string()).unwrap_err();
    assert_eq!(err.message, "Item did not contain the expected fields");
}

#[test]
fn fresh_data_keys_differ() {
    let mut kms = KmsOps::new("squirrel".to_string(), MemKeyService::new());
    kms.create_master_key_if_does_not_exist().unwrap();
    let a = kms.generate_data_key().unwrap();
    let b = kms.generate_data_key().unwrap();
    assert_ne!(a.encrypted, b.encrypted);
    assert_eq!(a.plaintext.len(), 32);
    assert_eq!(b.plaintext.len(), 32);
}

#[test]
fn generate_iv_is_sixteen_bytes() {
    let kms = KmsOps::new("squirrel".to_string(), MemKeyService::new());
    assert_eq!(kms.generate_iv().unwrap().len(), 16);
}

#[test]
fn master_key_exists_only_after_setup() {
    let mut kms = KmsOps::new("squirrel".to_string(), MemKeyService::new());
    assert!(!kms.does_master_key_exist().unwrap());
    kms.create_master_key_if_does_not_exist().unwrap();
    assert!(kms.does_master_key_exist().unwrap());
}

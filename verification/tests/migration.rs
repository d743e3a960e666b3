use cid_contract::legacy::OldContract;
use cid_contract::state::Contract;

fn legacy_record(greeting: &str, counter: u64, key: &str) -> OldContract {
    let mut old = OldContract::default();
    old.set_greeting(greeting.to_string());
    let mut n: u64 = 0;
    while n < counter {
        old.increment_counter();
        n += 1;
    }
    old.set_encryption_pub_key(key.to_string());
    old
}

#[test]
fn legacy_encoding_is_byte_exact() {
    let old = legacy_record("hi", 5, "k");
    let bytes = old.encode().unwrap();
    assert_eq!(
        bytes,
        vec![2, 0, 0, 0, 104, 105, 5, 0, 0, 0, 0, 0, 0, 0, 1, 0, 0, 0, 107]
    );
}

#[test]
fn current_encoding_is_byte_exact() {
    let mut contract = Contract::default();
    contract.set_ipfs_cid("a".to_string());
    contract.set_encryption_pub_key("bc".to_string());
    let bytes = contract.encode().unwrap();
    assert_eq!(bytes, vec![1, 0, 0, 0, 97, 2, 0, 0, 0, 98, 99]);
}

#[test]
fn legacy_decode_reads_fields_back() {
    let bytes = vec![2, 0, 0, 0, 104, 105, 5, 0, 0, 0, 0, 0, 0, 0, 1, 0, 0, 0, 107];
    let old = OldContract::decode(&bytes).unwrap();
    assert_eq!(old.get_greeting(), "hi".to_string());
    assert_eq!(old.get_counter(), 5);
    assert_eq!(old.get_encryption_pub_key(), "k".to_string());
}

#[test]
fn current_record_round_trips_through_bytes() {
    let mut contract = Contract::default();
    contract.set_ipfs_cid("bafybeigdyrzt5example".to_string());
    contract.set_encryption_pub_key("ed25519:3xbase58".to_string());
    let bytes = contract.encode().unwrap();
    let back = Contract::decode(&bytes).unwrap();
    assert_eq!(back.get_ipfs_cid(), "bafybeigdyrzt5example".to_string());
    assert_eq!(back.get_encryption_pub_key(), "ed25519:3xbase58".to_string());
}

#[test]
fn migration_keeps_key_and_defaults_cid() {
    let old = legacy_record("hello", 7, "pubkey42");
    let bytes = old.encode().unwrap();
    let contract = Contract::migrate(&bytes).unwrap();
    assert_eq!(contract.get_encryption_pub_key(), "pubkey42".to_string());
    assert_eq!(contract.get_ipfs_cid(), "".to_string());
}

#[test]
fn second_migration_fails_with_decode_error() {
    let old = legacy_record("hello", 7, "pk1");
    let migrated = Contract::migrate(&old.encode().unwrap()).unwrap();
    let bytes = migrated.encode().unwrap();
    assert!(Contract::migrate(&bytes).is_err());
}

#[test]
fn migrating_empty_storage_fails() {
    let bytes: Vec<u8> = Vec::new();
    assert!(Contract::migrate(&bytes).is_err());
}

#[test]
fn truncated_bytes_fail_to_decode() {
    // The length prefix promises two bytes but only one follows.
    let bytes = vec![2, 0, 0, 0, 104];
    assert!(OldContract::decode(&bytes).is_err());
    assert!(Contract::decode(&bytes).is_err());
}

#[test]
fn trailing_bytes_fail_to_decode() {
    let old = legacy_record("hi", 1, "k");
    let mut bytes = old.encode().unwrap();
    bytes.push(0);
    assert!(OldContract::decode(&bytes).is_err());
}

#[test]
fn invalid_utf8_fails_to_decode() {
    // A one-byte string whose byte is not valid UTF-8, then an empty string.
    let bytes = vec![1, 0, 0, 0, 255, 0, 0, 0, 0];
    assert!(Contract::decode(&bytes).is_err());
}

#[test]
fn multibyte_text_decodes_exactly() {
    // "é" is the two UTF-8 bytes 0xC3 0xA9; the empty key follows.
    let bytes = vec![2, 0, 0, 0, 0xC3, 0xA9, 0, 0, 0, 0];
    let contract = Contract::decode(&bytes).unwrap();
    assert_eq!(contract.get_ipfs_cid(), "\u{e9}".to_string());
    let encoded = contract.encode().unwrap();
    assert_eq!(encoded, bytes);
}

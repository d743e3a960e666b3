use cid_contract::legacy::OldContract;
use cid_contract::state::Contract;

#[test]
fn get_default_ipfs_cid() {
    let contract = Contract::default();
    assert_eq!(contract.get_ipfs_cid(), "".to_string());
}

#[test]
fn set_then_get_default_ipfs_cid() {
    let mut contract = Contract::default();
    contract.set_ipfs_cid("howdy".to_string());
    assert_eq!(contract.get_ipfs_cid(), "howdy".to_string());
}

#[test]
fn get_default_encryption_pub_key() {
    let contract = Contract::default();
    assert_eq!(contract.get_encryption_pub_key(), "".to_string());
}

#[test]
fn set_then_get_encryption_pub_key() {
    let mut contract = Contract::default();
    contract.set_encryption_pub_key("1239041zasdwaz".to_string());
    assert_eq!(
        contract.get_encryption_pub_key(),
        "1239041zasdwaz".to_string()
    );
}

#[test]
fn legacy_defaults_are_empty_and_zero() {
    let old = OldContract::default();
    assert_eq!(old.get_greeting(), "".to_string());
    assert_eq!(old.get_counter(), 0);
    assert_eq!(old.get_encryption_pub_key(), "".to_string());
}

#[test]
fn set_then_get_greeting() {
    let mut old = OldContract::default();
    old.set_greeting("hello there".to_string());
    assert_eq!(old.get_greeting(), "hello there".to_string());
}

#[test]
fn set_then_get_legacy_encryption_pub_key() {
    let mut old = OldContract::default();
    old.set_encryption_pub_key("zz9021".to_string());
    assert_eq!(old.get_encryption_pub_key(), "zz9021".to_string());
}

#[test]
fn three_increments_yield_three() {
    let mut old = OldContract::default();
    old.increment_counter();
    old.increment_counter();
    old.increment_counter();
    assert_eq!(old.get_counter(), 3);
}

#[test]
fn multiply_three_by_three_yields_nine() {
    let mut old = OldContract::default();
    old.increment_counter();
    old.increment_counter();
    old.increment_counter();
    old.multiply_counter(3);
    assert_eq!(old.get_counter(), 9);
}

#[test]
fn multiply_by_zero_yields_zero() {
    let mut old = OldContract::default();
    old.increment_counter();
    old.increment_counter();
    old.multiply_counter(0);
    assert_eq!(old.get_counter(), 0);
}

#[test]
fn counter_wraps_at_the_top_of_its_range() {
    let mut old = OldContract::default();
    old.increment_counter();
    old.multiply_counter(u64::MAX);
    assert_eq!(old.get_counter(), u64::MAX);
    old.increment_counter();
    assert_eq!(old.get_counter(), 0);
    old.increment_counter();
    old.increment_counter();
    old.multiply_counter(1 << 63);
    assert_eq!(old.get_counter(), 0);
}

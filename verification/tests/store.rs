use nft_ledger::{AccountId, Store};

#[test]
fn empty_store_holds_nothing() {
    let store: Store<u32, u32> = Store::new();
    assert_eq!(store.get(&1), None);
    assert!(!store.contains_key(&1));
}

#[test]
fn insert_then_get() {
    let mut store: Store<u32, String> = Store::new();
    store.insert(1, String::from("one"));
    store.insert(2, String::from("two"));
    assert_eq!(store.get(&1), Some(&String::from("one")));
    assert_eq!(store.get(&2), Some(&String::from("two")));
    assert_eq!(store.get(&3), None);
    assert!(store.contains_key(&2));
}

#[test]
fn insert_replaces_the_value() {
    let mut store: Store<u32, u32> = Store::new();
    store.insert(5, 10);
    store.insert(6, 20);
    store.insert(5, 11);
    assert_eq!(store.get(&5), Some(&11));
    assert_eq!(store.get(&6), Some(&20));
}

#[test]
fn stored_zero_differs_from_absent() {
    let mut store: Store<AccountId, u32> = Store::new();
    let a = AccountId::new([1; 32]);
    let b = AccountId::new([2; 32]);
    store.insert(a, 0);
    assert_eq!(store.get(&a), Some(&0));
    assert_eq!(store.get(&b), None);
}

#[test]
fn remove_takes_one_entry_out() {
    let mut store: Store<u32, u32> = Store::new();
    store.insert(1, 10);
    store.insert(2, 20);
    store.insert(3, 30);
    store.remove(&2);
    assert_eq!(store.get(&1), Some(&10));
    assert_eq!(store.get(&2), None);
    assert_eq!(store.get(&3), Some(&30));
    store.remove(&2);
    store.remove(&9);
    assert_eq!(store.get(&1), Some(&10));
    assert_eq!(store.get(&3), Some(&30));
    store.insert(2, 21);
    assert_eq!(store.get(&2), Some(&21));
}

#[test]
fn pairs_of_accounts_are_keys() {
    let a = AccountId::new([1; 32]);
    let b = AccountId::new([2; 32]);
    let mut store: Store<(AccountId, AccountId), bool> = Store::new();
    store.insert((a, b), true);
    assert_eq!(store.get(&(a, b)), Some(&true));
    assert_eq!(store.get(&(b, a)), None);
    store.insert((a, b), false);
    assert_eq!(store.get(&(a, b)), Some(&false));
}

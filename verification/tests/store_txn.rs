use account_ledger::store::AccountStore;
use account_ledger::txn::TxnScope;

#[test]
fn scope_mutations_are_invisible_until_commit() {
    let mut store = AccountStore::new();
    store.create("alice".to_string(), 100).unwrap();
    let mut scope = TxnScope::begin(&store);
    scope.update_balance(1, 10).unwrap();
    scope.create("bob".to_string(), 5).unwrap();
    // The base store still shows the state the scope started from.
    assert_eq!(store.find(1).unwrap().balance, 100);
    assert_eq!(store.list().len(), 1);
    scope.commit(&mut store);
    assert_eq!(store.find(1).unwrap().balance, 10);
    assert_eq!(store.find(2).unwrap().username, "bob");
}

#[test]
fn rollback_discards_all_scope_work() {
    let mut store = AccountStore::new();
    store.create("alice".to_string(), 100).unwrap();
    let mut scope = TxnScope::begin(&store);
    scope.update_balance(1, 0).unwrap();
    scope.delete(1);
    scope.rollback();
    assert_eq!(store.find(1).unwrap().balance, 100);
    assert_eq!(store.list().len(), 1);
}

#[test]
fn store_delete_reports_rows_removed() {
    let mut store = AccountStore::new();
    store.create("alice".to_string(), 1).unwrap();
    assert_eq!(store.delete(1), 1);
    assert_eq!(store.delete(1), 0);
}

#[test]
fn store_total_balance_sums_all_accounts() {
    let mut store = AccountStore::new();
    assert_eq!(store.total_balance(), 0);
    store.create("alice".to_string(), 10).unwrap();
    store.create("bob".to_string(), 32).unwrap();
    assert_eq!(store.total_balance(), 42);
}

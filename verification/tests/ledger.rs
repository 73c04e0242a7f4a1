use account_ledger::account::TransferRequest;
use account_ledger::errors::LedgerError;
use account_ledger::ledger::Ledger;

#[test]
fn create_assigns_ascending_ids() {
    let mut ledger = Ledger::new();
    let a = ledger.create("alice".to_string(), 100).unwrap();
    let b = ledger.create("bob".to_string(), 50).unwrap();
    assert_eq!(a.id, 1);
    assert_eq!(a.username, "alice");
    assert_eq!(a.balance, 100);
    assert_eq!(b.id, 2);
    assert_eq!(b.balance, 50);
}

#[test]
fn create_rejects_duplicate_username() {
    let mut ledger = Ledger::new();
    ledger.create("alice".to_string(), 100).unwrap();
    let r = ledger.create("alice".to_string(), 10);
    assert_eq!(r.unwrap_err(), LedgerError::DuplicateUsername);
    assert_eq!(ledger.list().len(), 1);
    assert_eq!(ledger.total_balance(), 100);
}

#[test]
fn create_rejects_unrepresentable_total() {
    let mut ledger = Ledger::new();
    ledger.create("rich".to_string(), i32::MAX).unwrap();
    let r = ledger.create("poor".to_string(), 1);
    assert_eq!(r.unwrap_err(), LedgerError::StorageUnavailable);
    assert_eq!(ledger.list().len(), 1);
    let zero = ledger.create("penniless".to_string(), 0).unwrap();
    assert_eq!(zero.balance, 0);
}

#[test]
fn list_is_ordered_by_descending_id() {
    let mut ledger = Ledger::new();
    ledger.create("alice".to_string(), 1).unwrap();
    ledger.create("bob".to_string(), 2).unwrap();
    ledger.create("carol".to_string(), 3).unwrap();
    let all = ledger.list();
    let ids: Vec<i32> = all.iter().map(|a| a.id).collect();
    assert_eq!(ids, vec![3, 2, 1]);
    assert_eq!(all[0].username, "carol");
    assert_eq!(all[2].username, "alice");
}

#[test]
fn list_of_empty_ledger_is_empty() {
    let ledger = Ledger::new();
    assert!(ledger.list().is_empty());
    assert_eq!(ledger.total_balance(), 0);
}

#[test]
fn find_returns_the_account_or_not_found() {
    let mut ledger = Ledger::new();
    let a = ledger.create("alice".to_string(), 77).unwrap();
    let found = ledger.find(a.id).unwrap();
    assert_eq!(found.id, a.id);
    assert_eq!(found.username, "alice");
    assert_eq!(found.balance, 77);
    assert_eq!(ledger.find(99).unwrap_err(), LedgerError::NotFound);
}

#[test]
fn update_balance_replaces_the_old_value() {
    let mut ledger = Ledger::new();
    let a = ledger.create("alice".to_string(), 10).unwrap();
    let updated = ledger.update_balance(a.id, 250).unwrap();
    assert_eq!(updated.balance, 250);
    assert_eq!(ledger.find(a.id).unwrap().balance, 250);
    assert_eq!(ledger.total_balance(), 250);
}

#[test]
fn update_balance_of_missing_account_fails() {
    let mut ledger = Ledger::new();
    assert_eq!(ledger.update_balance(5, 10).unwrap_err(), LedgerError::NotFound);
}

#[test]
fn delete_removes_exactly_the_account() {
    let mut ledger = Ledger::new();
    let a = ledger.create("alice".to_string(), 10).unwrap();
    let b = ledger.create("bob".to_string(), 20).unwrap();
    ledger.delete(a.id).unwrap();
    assert_eq!(ledger.find(a.id).unwrap_err(), LedgerError::NotFound);
    assert_eq!(ledger.find(b.id).unwrap().balance, 20);
    assert_eq!(ledger.delete(a.id).unwrap_err(), LedgerError::NotFound);
    assert_eq!(ledger.list().len(), 1);
}

#[test]
fn deleted_username_can_be_reused() {
    let mut ledger = Ledger::new();
    let a = ledger.create("alice".to_string(), 10).unwrap();
    ledger.delete(a.id).unwrap();
    let again = ledger.create("alice".to_string(), 5).unwrap();
    assert_eq!(again.id, 2);
}

#[test]
fn transfer_moves_funds_and_reports_snapshots() {
    let mut ledger = Ledger::new();
    let a = ledger.create("alice".to_string(), 100).unwrap();
    let b = ledger.create("bob".to_string(), 50).unwrap();
    let receipt = ledger.transfer(a.id, b.id, 30).unwrap();
    assert_eq!(receipt.from.id, a.id);
    assert_eq!(receipt.from.balance, 70);
    assert_eq!(receipt.from.username, "alice");
    assert_eq!(receipt.to.id, b.id);
    assert_eq!(receipt.to.balance, 80);
    assert_eq!(ledger.find(a.id).unwrap().balance, 70);
    assert_eq!(ledger.find(b.id).unwrap().balance, 80);
}

#[test]
fn transfer_scenario_then_insufficient_funds() {
    // Create A(100) and B(50); transfer 30 from A to B, then fail to
    // transfer 1000 back: balances stay exactly 70 and 80.
    let mut ledger = Ledger::new();
    let a = ledger.create("alice".to_string(), 100).unwrap();
    let b = ledger.create("bob".to_string(), 50).unwrap();
    ledger.transfer(a.id, b.id, 30).unwrap();
    let r = ledger.transfer(b.id, a.id, 1000);
    assert_eq!(r.unwrap_err(), LedgerError::InsufficientFunds);
    assert_eq!(ledger.find(a.id).unwrap().balance, 70);
    assert_eq!(ledger.find(b.id).unwrap().balance, 80);
    assert_eq!(ledger.total_balance(), 150);
}

#[test]
fn transfer_to_same_account_fails() {
    let mut ledger = Ledger::new();
    let a = ledger.create("alice".to_string(), 100).unwrap();
    let r = ledger.transfer(a.id, a.id, 10);
    assert_eq!(r.unwrap_err(), LedgerError::SameAccountTransfer);
    assert_eq!(ledger.find(a.id).unwrap().balance, 100);
}

#[test]
fn transfer_of_nonpositive_amount_fails() {
    let mut ledger = Ledger::new();
    let a = ledger.create("alice".to_string(), 100).unwrap();
    let b = ledger.create("bob".to_string(), 50).unwrap();
    assert_eq!(ledger.transfer(a.id, b.id, 0).unwrap_err(), LedgerError::InvalidAmount);
    assert_eq!(ledger.transfer(a.id, b.id, -7).unwrap_err(), LedgerError::InvalidAmount);
    // A non-positive amount is rejected even before the same-account check.
    assert_eq!(ledger.transfer(a.id, a.id, -7).unwrap_err(), LedgerError::InvalidAmount);
    assert_eq!(ledger.find(a.id).unwrap().balance, 100);
    assert_eq!(ledger.find(b.id).unwrap().balance, 50);
}

#[test]
fn transfer_to_missing_account_leaves_source_untouched() {
    let mut ledger = Ledger::new();
    let a = ledger.create("alice".to_string(), 100).unwrap();
    let r = ledger.transfer(a.id, 42, 10);
    assert_eq!(r.unwrap_err(), LedgerError::NotFound);
    assert_eq!(ledger.find(a.id).unwrap().balance, 100);
    let r2 = ledger.transfer(42, a.id, 10);
    assert_eq!(r2.unwrap_err(), LedgerError::NotFound);
    assert_eq!(ledger.find(a.id).unwrap().balance, 100);
}

#[test]
fn competing_transfers_admit_exactly_one() {
    // A holds 100; two transfers of 60 drawn on A resolve into one success
    // and one InsufficientFunds, and A ends at 40.
    let mut ledger = Ledger::new();
    let a = ledger.create("alice".to_string(), 100).unwrap();
    let b = ledger.create("bob".to_string(), 0).unwrap();
    let c = ledger.create("carol".to_string(), 0).unwrap();
    let first = ledger.transfer(a.id, b.id, 60);
    let second = ledger.transfer(a.id, c.id, 60);
    assert!(first.is_ok());
    assert_eq!(second.unwrap_err(), LedgerError::InsufficientFunds);
    assert_eq!(ledger.find(a.id).unwrap().balance, 40);
    assert_eq!(ledger.find(b.id).unwrap().balance, 60);
    assert_eq!(ledger.find(c.id).unwrap().balance, 0);
}

#[test]
fn opposite_transfers_both_complete() {
    // Transfers of 10 and 5 in opposite directions both complete; the net
    // effect is A -= 5, B += 5.
    let mut ledger = Ledger::new();
    let a = ledger.create("alice".to_string(), 100).unwrap();
    let b = ledger.create("bob".to_string(), 100).unwrap();
    assert!(ledger.transfer(a.id, b.id, 10).is_ok());
    assert!(ledger.transfer(b.id, a.id, 5).is_ok());
    assert_eq!(ledger.find(a.id).unwrap().balance, 95);
    assert_eq!(ledger.find(b.id).unwrap().balance, 105);
}

#[test]
fn batch_of_transfers_conserves_the_total() {
    let mut ledger = Ledger::new();
    let a = ledger.create("alice".to_string(), 100).unwrap();
    let b = ledger.create("bob".to_string(), 50).unwrap();
    let c = ledger.create("carol".to_string(), 25).unwrap();
    let before = ledger.total_balance();
    let reqs = vec![
        TransferRequest { from_id: a.id, to_id: b.id, amount: 40 },
        TransferRequest { from_id: b.id, to_id: c.id, amount: 90 },
        TransferRequest { from_id: c.id, to_id: a.id, amount: 115 },
        TransferRequest { from_id: a.id, to_id: c.id, amount: -1 },
        TransferRequest { from_id: c.id, to_id: 99, amount: 1 },
    ];
    let results = ledger.run_transfers(&reqs);
    assert_eq!(results.len(), 5);
    assert!(results[0].is_ok());
    assert!(results[1].is_ok());
    assert!(results[2].is_ok());
    assert!(results[3].is_err());
    assert!(results[4].is_err());
    assert_eq!(ledger.total_balance(), before);
    assert_eq!(ledger.find(a.id).unwrap().balance, 175);
    assert_eq!(ledger.find(b.id).unwrap().balance, 0);
    assert_eq!(ledger.find(c.id).unwrap().balance, 0);
}

#[test]
fn every_balance_stays_nonnegative() {
    let mut ledger = Ledger::new();
    let a = ledger.create("alice".to_string(), 3).unwrap();
    let b = ledger.create("bob".to_string(), 0).unwrap();
    for _ in 0..5 {
        let _ = ledger.transfer(a.id, b.id, 2);
        let _ = ledger.transfer(b.id, a.id, 3);
    }
    for account in ledger.list() {
        assert!(account.balance >= 0);
    }
    assert_eq!(ledger.total_balance(), 3);
}

//! The ledger service: account CRUD and the transfer operation, built on
//! the account store and the transaction coordinator.
//!
//! Every mutation runs inside a transaction scope and becomes visible only
//! on commit; every failure path abandons the scope, so a failed operation
//! leaves the stored state exactly as it was. The transfer reads the two
//! accounts in ascending identifier order — a fixed total order, whatever
//! the direction of the transfer — and checks funds against the balance it
//! will debit within the same atomic unit of work.

use vstd::prelude::*;
use crate::account::{Account, AccountModel, TransferReceipt, TransferRequest};
use crate::errors::LedgerError;
use crate::model::{
    balances_nonneg, has_id, has_username, ids_distinct, usernames_distinct, account_of,
    balance_of, idx_of, set_balance, sum_balances, apply_transfer, apply_transfers,
    transfer_outcome, transfer_admissible, lemma_account_at,
    lemma_apply_transfers_snoc, lemma_sum_pair_bound, lemma_sum_update,
};
use crate::store::AccountStore;
use crate::txn::TxnScope;

verus! {

/// The ledger service over one account store.
pub struct Ledger {
    store: AccountStore,
}

impl View for Ledger {
    type V = Seq<AccountModel>;

    closed spec fn view(&self) -> Seq<AccountModel> {
        self.store@
    }
}

impl Ledger {
    /// The ledger's store satisfies its invariant.
    pub closed spec fn wf(&self) -> bool {
        self.store.inv()
    }

    /// The identifier the next created account will receive.
    pub closed spec fn spec_next_id(&self) -> int {
        self.store.spec_next_id()
    }

    /// The facts well-formedness guarantees about the visible state; in
    /// particular every account's balance is at least zero in every
    /// reachable state.
    pub proof fn lemma_wf_facts(&self)
        requires
            self.wf(),
        ensures
            balances_nonneg(self@),
            ids_distinct(self@),
            usernames_distinct(self@),
            sum_balances(self@) <= i32::MAX,
    {
        self.store.lemma_inv_facts();
    }

    /// A ledger over an empty store.
    pub fn new() -> (l: Ledger)
        ensures
            l.wf(),
            l@ == Seq::<AccountModel>::empty(),
            l.spec_next_id() == 1,
    {
        Ledger { store: AccountStore::new() }
    }

    /// All accounts, newest first: ordered by descending identifier.
    pub fn list(&self) -> (r: Vec<Account>)
        requires
            self.wf(),
        ensures
            r@.len() == self@.len(),
            forall|i: int|
                0 <= i < r@.len() ==> #[trigger] r@[i]@ == self@[self@.len() - 1 - i],
            forall|i: int, j: int| 0 <= i < j < r@.len() ==> r@[i]@.id > r@[j]@.id,
    {
        self.store.list()
    }

    /// Look an account up by identifier; fails with `NotFound` exactly when
    /// no account carries it.
    pub fn find(&self, id: i32) -> (r: Result<Account, LedgerError>)
        requires
            self.wf(),
        ensures
            match r {
                Ok(a) => has_id(self@, id as int) && a@ == account_of(self@, id as int),
                Err(e) => e == LedgerError::NotFound && !has_id(self@, id as int),
            },
    {
        self.store.find(id)
    }

    /// The sum of all balances.
    pub fn total_balance(&self) -> (t: i32)
        requires
            self.wf(),
        ensures
            t as int == sum_balances(self@),
    {
        self.store.total_balance()
    }

    /// Create an account, atomically. Fails with `DuplicateUsername` when
    /// the username is taken and with `StorageUnavailable` when identifier
    /// space or representable total balance is exhausted; on failure the
    /// stored state is unchanged.
    pub fn create(&mut self, username: String, initial_balance: i32) -> (r: Result<
        Account,
        LedgerError,
    >)
        requires
            old(self).wf(),
            initial_balance >= 0,
        ensures
            final(self).wf(),
            match r {
                Ok(a) => {
                    &&& !has_username(old(self)@, username@)
                    &&& old(self).spec_next_id() < i32::MAX
                    &&& sum_balances(old(self)@) + initial_balance <= i32::MAX
                    &&& a@ == (AccountModel {
                        id: old(self).spec_next_id(),
                        username: username@,
                        balance: initial_balance as int,
                    })
                    &&& final(self)@ == old(self)@.push(a@)
                    &&& final(self).spec_next_id() == old(self).spec_next_id() + 1
                },
                Err(e) => {
                    &&& final(self)@ == old(self)@
                    &&& final(self).spec_next_id() == old(self).spec_next_id()
                    &&& if has_username(old(self)@, username@) {
                        e == LedgerError::DuplicateUsername
                    } else {
                        e == LedgerError::StorageUnavailable && (old(self).spec_next_id()
                            == i32::MAX || sum_balances(old(self)@) + initial_balance > i32::MAX)
                    }
                },
            },
    {
        let mut scope = TxnScope::begin(&self.store);
        match scope.create(username, initial_balance) {
            Ok(a) => {
                scope.commit(&mut self.store);
                Ok(a)
            },
            Err(e) => {
                scope.rollback();
                Err(e)
            },
        }
    }

    /// Replace an account's balance, atomically. Fails with `NotFound` when
    /// no account carries the identifier and with `StorageUnavailable` when
    /// the new total balance would not be representable; on failure the
    /// stored state is unchanged.
    pub fn update_balance(&mut self, id: i32, new_balance: i32) -> (r: Result<
        Account,
        LedgerError,
    >)
        requires
            old(self).wf(),
            new_balance >= 0,
        ensures
            final(self).wf(),
            final(self).spec_next_id() == old(self).spec_next_id(),
            match r {
                Ok(a) => {
                    &&& has_id(old(self)@, id as int)
                    &&& sum_balances(old(self)@) - balance_of(old(self)@, id as int) + new_balance
                        <= i32::MAX
                    &&& a@ == (AccountModel {
                        id: id as int,
                        username: account_of(old(self)@, id as int).username,
                        balance: new_balance as int,
                    })
                    &&& final(self)@ == set_balance(old(self)@, id as int, new_balance as int)
                },
                Err(e) => {
                    &&& final(self)@ == old(self)@
                    &&& if !has_id(old(self)@, id as int) {
                        e == LedgerError::NotFound
                    } else {
                        e == LedgerError::StorageUnavailable && sum_balances(old(self)@)
                            - balance_of(old(self)@, id as int) + new_balance > i32::MAX
                    }
                },
            },
    {
        let mut scope = TxnScope::begin(&self.store);
        match scope.update_balance(id, new_balance) {
            Ok(a) => {
                scope.commit(&mut self.store);
                Ok(a)
            },
            Err(e) => {
                scope.rollback();
                Err(e)
            },
        }
    }

    /// Delete an account, atomically. Fails with `NotFound` exactly when no
    /// account carries the identifier, leaving the state unchanged.
    pub fn delete(&mut self, id: i32) -> (r: Result<(), LedgerError>)
        requires
            old(self).wf(),
        ensures
            final(self).wf(),
            final(self).spec_next_id() == old(self).spec_next_id(),
            match r {
                Ok(()) => has_id(old(self)@, id as int) && final(self)@ == old(self)@.remove(
                    idx_of(old(self)@, id as int),
                ),
                Err(e) => e == LedgerError::NotFound && !has_id(old(self)@, id as int)
                    && final(self)@ == old(self)@,
            },
    {
        let mut scope = TxnScope::begin(&self.store);
        let count = scope.delete(id);
        if count == 0 {
            scope.rollback();
            Err(LedgerError::NotFound)
        } else {
            scope.commit(&mut self.store);
            Ok(())
        }
    }

    /// Move `amount` from the account `from_id` to the account `to_id`, as
    /// one atomic unit of work, and return post-commit snapshots of both
    /// accounts.
    ///
    /// The result and the successor state are exactly
    /// `transfer_outcome(old(self)@, from_id, to_id, amount)`: the amount
    /// must be positive (`InvalidAmount`), the accounts distinct
    /// (`SameAccountTransfer`) and present (`NotFound`), and the debited
    /// account must hold at least `amount` (`InsufficientFunds`). On any
    /// failure the stored state is exactly what it was, and in every case
    /// the sum of all balances is conserved.
    pub fn transfer(&mut self, from_id: i32, to_id: i32, amount: i32) -> (r: Result<
        TransferReceipt,
        LedgerError,
    >)
        requires
            old(self).wf(),
        ensures
            final(self).wf(),
            final(self).spec_next_id() == old(self).spec_next_id(),
            sum_balances(final(self)@) == sum_balances(old(self)@),
            match r {
                Ok(rec) => {
                    &&& transfer_outcome(old(self)@, from_id as int, to_id as int, amount as int)
                        == Ok::<Seq<AccountModel>, LedgerError>(final(self)@)
                    &&& rec.from@ == account_of(final(self)@, from_id as int)
                    &&& rec.to@ == account_of(final(self)@, to_id as int)
                },
                Err(e) => {
                    &&& transfer_outcome(old(self)@, from_id as int, to_id as int, amount as int)
                        == Err::<Seq<AccountModel>, LedgerError>(e)
                    &&& final(self)@ == old(self)@
                },
            },
            amount <= 0 ==> r == Err::<TransferReceipt, LedgerError>(LedgerError::InvalidAmount),
            amount > 0 && from_id == to_id ==> r == Err::<TransferReceipt, LedgerError>(
                LedgerError::SameAccountTransfer,
            ),
    {
        if amount <= 0 {
            return Err(LedgerError::InvalidAmount);
        }
        if from_id == to_id {
            return Err(LedgerError::SameAccountTransfer);
        }
        let ghost s0 = self@;
        let mut scope = TxnScope::begin(&self.store);

        // Lock/read both accounts in ascending identifier order, whatever
        // the direction of the transfer.
        let first_id = if from_id < to_id {
            from_id
        } else {
            to_id
        };
        let second_id = if from_id < to_id {
            to_id
        } else {
            from_id
        };
        let first = match scope.find(first_id) {
            Ok(a) => a,
            Err(_) => {
                scope.rollback();
                return Err(LedgerError::NotFound);
            },
        };
        let second = match scope.find(second_id) {
            Ok(a) => a,
            Err(_) => {
                scope.rollback();
                return Err(LedgerError::NotFound);
            },
        };
        let (from_acct, to_acct) = if from_id < to_id {
            (first, second)
        } else {
            (second, first)
        };

        // The funds check runs against the balance that will be debited, in
        // the same atomic unit of work as the debit itself.
        if from_acct.balance < amount {
            scope.rollback();
            return Err(LedgerError::InsufficientFunds);
        }

        let ghost f = from_id as int;
        let ghost t = to_id as int;
        let ghost a = amount as int;
        let ghost i_f = idx_of(s0, f);
        let ghost i_t = idx_of(s0, t);
        proof {
            scope.lemma_inv_facts();
            lemma_account_at(s0, idx_of(s0, f), f);
            lemma_account_at(s0, idx_of(s0, t), t);
            lemma_sum_pair_bound(s0, i_f, i_t);
        }

        // The debit cannot fail: the account is present and the debit only
        // lowers the total, so the branch below is provably unreachable.
        let debited = match scope.update_balance(from_id, from_acct.balance - amount) {
            Ok(acct) => acct,
            Err(_) => {
                proof {
                    assert(false);
                }
                scope.rollback();
                return Err(LedgerError::StorageUnavailable);
            },
        };
        let ghost s1 = scope@;
        proof {
            assert(s1 =~= s0.update(
                i_f,
                AccountModel { id: f, username: s0[i_f].username, balance: s0[i_f].balance - a },
            ));
            lemma_sum_update(
                s0,
                i_f,
                AccountModel { id: f, username: s0[i_f].username, balance: s0[i_f].balance - a },
            );
            lemma_account_at(s1, i_t, t);
        }

        // Nor can the credit: it restores the total the debit lowered, and
        // two distinct balances never exceed the representable total.
        let credited = match scope.update_balance(to_id, to_acct.balance + amount) {
            Ok(acct) => acct,
            Err(_) => {
                proof {
                    assert(false);
                }
                scope.rollback();
                return Err(LedgerError::StorageUnavailable);
            },
        };
        let ghost s2 = scope@;
        proof {
            assert(s2 =~= s1.update(
                i_t,
                AccountModel { id: t, username: s1[i_t].username, balance: s1[i_t].balance + a },
            ));
            lemma_sum_update(
                s1,
                i_t,
                AccountModel { id: t, username: s1[i_t].username, balance: s1[i_t].balance + a },
            );
            assert forall|k: int| 0 <= k < s0.len() implies s2[k] == apply_transfer(s0, f, t, a)[k] by {
                if s0[k].id == f {
                    lemma_account_at(s0, k, f);
                } else if s0[k].id == t {
                    lemma_account_at(s0, k, t);
                }
            }
            assert(s2 =~= apply_transfer(s0, f, t, a));
            lemma_account_at(s2, i_f, f);
            lemma_account_at(s2, i_t, t);
        }

        // Only the commit makes both mutations visible.
        scope.commit(&mut self.store);
        Ok(TransferReceipt { from: debited, to: credited })
    }

    /// Attempt a whole batch of transfers in order. Whatever mix of
    /// successes and failures results, the sum of all balances is exactly
    /// what it was before the batch: transfers conserve funds.
    pub fn run_transfers(&mut self, reqs: &Vec<TransferRequest>) -> (results: Vec<
        Result<TransferReceipt, LedgerError>,
    >)
        requires
            old(self).wf(),
        ensures
            final(self).wf(),
            results@.len() == reqs@.len(),
            final(self)@ == apply_transfers(old(self)@, reqs@),
            sum_balances(final(self)@) == sum_balances(old(self)@),
            forall|j: int|
                0 <= j < reqs@.len() ==> ((#[trigger] results@[j]) is Ok <==> transfer_admissible(
                    apply_transfers(old(self)@, reqs@.subrange(0, j)),
                    reqs@[j],
                )),
    {
        let ghost s0 = self@;
        let n = reqs.len();
        let mut results: Vec<Result<TransferReceipt, LedgerError>> = Vec::new();
        let mut i: usize = 0;
        proof {
            assert(reqs@.subrange(0, 0) =~= Seq::<TransferRequest>::empty());
        }
        while i < n
            invariant
                i <= n,
                n == reqs@.len(),
                self.wf(),
                results@.len() == i,
                self@ == apply_transfers(s0, reqs@.subrange(0, i as int)),
                sum_balances(self@) == sum_balances(s0),
                forall|j: int|
                    0 <= j < i ==> ((#[trigger] results@[j]) is Ok <==> transfer_admissible(
                        apply_transfers(s0, reqs@.subrange(0, j)),
                        reqs@[j],
                    )),
            decreases n - i,
        {
            proof {
                assert(reqs@.subrange(0, i + 1) =~= reqs@.subrange(0, i as int).push(reqs@[i as int]));
                lemma_apply_transfers_snoc(s0, reqs@.subrange(0, i as int), reqs@[i as int]);
            }
            let req = reqs[i];
            let r = self.transfer(req.from_id, req.to_id, req.amount);
            results.push(r);
            i += 1;
        }
        proof {
            assert(reqs@.subrange(0, n as int) =~= reqs@);
        }
        results
    }
}

} // verus!

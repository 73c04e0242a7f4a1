//! The account store: the one durable table of accounts, keyed by an
//! identifier the store assigns, with a uniqueness constraint on usernames.
//!
//! The store is held in memory as a vector sorted by ascending identifier.
//! Its invariant carries everything the rest of the engine relies on:
//! balances are never negative, identifiers and usernames are unique, and
//! the total of all balances stays representable, which is what lets a
//! transfer credit an account without overflowing.

use vstd::prelude::*;
use crate::account::{Account, AccountModel};
use crate::errors::LedgerError;
use crate::model::{
    balances_nonneg, has_id, has_username, ids_distinct, usernames_distinct, account_of,
    balance_of, idx_of, set_balance, sum_balances, lemma_account_at, lemma_sum_push,
    lemma_sum_update, lemma_sum_remove, lemma_sum_single_bound, lemma_sum_nonneg,
    lemma_sum_prefix_bound,
};

verus! {

/// The durable table of accounts.
pub struct AccountStore {
    accounts: Vec<Account>,
    next_id: i32,
}

impl View for AccountStore {
    type V = Seq<AccountModel>;

    closed spec fn view(&self) -> Seq<AccountModel> {
        self.accounts@.map_values(|a: Account| a@)
    }
}

impl AccountStore {
    /// The identifier the next created account will receive.
    pub closed spec fn spec_next_id(&self) -> int {
        self.next_id as int
    }

    /// The store's invariant: rows sorted by ascending identifier (so
    /// identifiers are unique), usernames unique, balances non-negative and
    /// their total representable, and every identifier drawn from below the
    /// assignment counter.
    pub closed spec fn inv(&self) -> bool {
        &&& balances_nonneg(self@)
        &&& usernames_distinct(self@)
        &&& forall|i: int, j: int|
            0 <= i < j < self@.len() ==> #[trigger] self@[i].id < #[trigger] self@[j].id
        &&& forall|i: int| 0 <= i < self@.len() ==> 1 <= #[trigger] self@[i].id < self.spec_next_id()
        &&& 1 <= self.spec_next_id() <= i32::MAX
        &&& sum_balances(self@) <= i32::MAX
    }

    /// The facts the invariant guarantees about the visible state. In
    /// particular, every account's balance is at least zero in every
    /// reachable state.
    pub proof fn lemma_inv_facts(&self)
        requires
            self.inv(),
        ensures
            balances_nonneg(self@),
            ids_distinct(self@),
            usernames_distinct(self@),
            sum_balances(self@) <= i32::MAX,
    {
    }

    /// An empty store; the first account created will get identifier 1.
    pub fn new() -> (s: AccountStore)
        ensures
            s.inv(),
            s@ == Seq::<AccountModel>::empty(),
            s.spec_next_id() == 1,
    {
        let s = AccountStore { accounts: Vec::new(), next_id: 1 };
        proof {
            assert(s@ =~= Seq::<AccountModel>::empty());
        }
        s
    }

    /// The position of the row carrying `id`, if any.
    fn index_of(&self, id: i32) -> (r: Option<usize>)
        ensures
            match r {
                Some(i) => i < self@.len() && self@[i as int].id == id as int,
                None => !has_id(self@, id as int),
            },
    {
        let n = self.accounts.len();
        let mut i: usize = 0;
        while i < n
            invariant
                i <= n,
                n == self@.len(),
                self@.len() == self.accounts@.len(),
                forall|j: int| 0 <= j < i ==> #[trigger] self@[j].id != id as int,
            decreases n - i,
        {
            if self.accounts[i].id == id {
                return Some(i);
            }
            i += 1;
        }
        None
    }

    /// Whether some row carries the username.
    fn contains_username(&self, username: &String) -> (r: bool)
        ensures
            r == has_username(self@, username@),
    {
        let n = self.accounts.len();
        let mut i: usize = 0;
        while i < n
            invariant
                i <= n,
                n == self@.len(),
                self@.len() == self.accounts@.len(),
                forall|j: int| 0 <= j < i ==> #[trigger] self@[j].username != username@,
            decreases n - i,
        {
            if self.accounts[i].username == *username {
                proof {
                    assert(self@[i as int].username == username@);
                }
                return true;
            }
            i += 1;
        }
        false
    }

    /// The sum of all balances currently stored.
    pub fn total_balance(&self) -> (t: i32)
        requires
            self.inv(),
        ensures
            t as int == sum_balances(self@),
    {
        let n = self.accounts.len();
        let mut t: i32 = 0;
        let mut i: usize = 0;
        proof {
            assert(self@.subrange(0, 0) =~= Seq::<AccountModel>::empty());
        }
        while i < n
            invariant
                i <= n,
                n == self@.len(),
                self@.len() == self.accounts@.len(),
                self.inv(),
                t as int == sum_balances(self@.subrange(0, i as int)),
                0 <= t,
            decreases n - i,
        {
            proof {
                assert(self@.subrange(0, i + 1).drop_last() =~= self@.subrange(0, i as int));
                assert(self@.subrange(0, i + 1).last() == self@[i as int]);
                assert(balances_nonneg(self@));
                lemma_sum_prefix_bound(self@, i + 1);
                lemma_sum_nonneg(self@.subrange(0, i + 1));
            }
            t = t + self.accounts[i].balance;
            i += 1;
        }
        proof {
            assert(self@.subrange(0, n as int) =~= self@);
        }
        t
    }

    /// An independent copy of the store, equal to it in the model. The
    /// transaction coordinator uses this to give a scope a private working
    /// state.
    pub fn snapshot(&self) -> (s: AccountStore)
        requires
            self.inv(),
        ensures
            s.inv(),
            s@ == self@,
            s.spec_next_id() == self.spec_next_id(),
    {
        let n = self.accounts.len();
        let mut rows: Vec<Account> = Vec::new();
        let mut i: usize = 0;
        while i < n
            invariant
                i <= n,
                n == self@.len(),
                self@.len() == self.accounts@.len(),
                rows@.len() == i,
                forall|j: int| 0 <= j < i ==> #[trigger] rows@[j]@ == self@[j],
            decreases n - i,
        {
            rows.push(self.accounts[i].duplicate());
            i += 1;
        }
        let s = AccountStore { accounts: rows, next_id: self.next_id };
        proof {
            assert(s@ =~= self@);
        }
        s
    }

    /// Create an account with a fresh identifier. Fails with
    /// `DuplicateUsername` when the username is taken, and with
    /// `StorageUnavailable` when the identifier space or the representable
    /// total balance is exhausted; on failure nothing changes.
    pub fn create(&mut self, username: String, initial_balance: i32) -> (r: Result<
        Account,
        LedgerError,
    >)
        requires
            old(self).inv(),
            initial_balance >= 0,
        ensures
            final(self).inv(),
            match r {
                Ok(a) => {
                    &&& !has_username(old(self)@, username@)
                    &&& old(self).spec_next_id() < i32::MAX
                    &&& sum_balances(old(self)@) + initial_balance <= i32::MAX
                    &&& a@ == (AccountModel {
                        id: old(self).spec_next_id(),
                        username: username@,
                        balance: initial_balance as int,
                    })
                    &&& final(self)@ == old(self)@.push(a@)
                    &&& final(self).spec_next_id() == old(self).spec_next_id() + 1
                },
                Err(e) => {
                    &&& final(self)@ == old(self)@
                    &&& final(self).spec_next_id() == old(self).spec_next_id()
                    &&& if has_username(old(self)@, username@) {
                        e == LedgerError::DuplicateUsername
                    } else {
                        e == LedgerError::StorageUnavailable && (old(self).spec_next_id()
                            == i32::MAX || sum_balances(old(self)@) + initial_balance > i32::MAX)
                    }
                },
            },
    {
        if self.contains_username(&username) {
            return Err(LedgerError::DuplicateUsername);
        }
        if self.next_id == i32::MAX {
            return Err(LedgerError::StorageUnavailable);
        }
        let total = self.total_balance();
        proof {
            lemma_sum_nonneg(self@);
        }
        if initial_balance > i32::MAX - total {
            return Err(LedgerError::StorageUnavailable);
        }
        let account = Account { id: self.next_id, username, balance: initial_balance };
        let receipt = account.duplicate();
        let ghost before = self@;
        self.accounts.push(account);
        self.next_id = self.next_id + 1;
        proof {
            assert(self@ =~= before.push(receipt@));
            lemma_sum_push(before, receipt@);
        }
        Ok(receipt)
    }

    /// Look an account up by identifier; fails with `NotFound` exactly when
    /// no account carries it.
    pub fn find(&self, id: i32) -> (r: Result<Account, LedgerError>)
        requires
            self.inv(),
        ensures
            match r {
                Ok(a) => has_id(self@, id as int) && a@ == account_of(self@, id as int),
                Err(e) => e == LedgerError::NotFound && !has_id(self@, id as int),
            },
    {
        match self.index_of(id) {
            Some(i) => {
                proof {
                    lemma_account_at(self@, i as int, id as int);
                }
                Ok(self.accounts[i].duplicate())
            },
            None => Err(LedgerError::NotFound),
        }
    }

    /// Replace the balance of the account carrying `id` by `new_balance`.
    /// Fails with `NotFound` when no account carries it, and with
    /// `StorageUnavailable` when the new total balance would not be
    /// representable; on failure nothing changes.
    pub fn update_balance(&mut self, id: i32, new_balance: i32) -> (r: Result<
        Account,
        LedgerError,
    >)
        requires
            old(self).inv(),
            new_balance >= 0,
        ensures
            final(self).inv(),
            final(self).spec_next_id() == old(self).spec_next_id(),
            match r {
                Ok(a) => {
                    &&& has_id(old(self)@, id as int)
                    &&& sum_balances(old(self)@) - balance_of(old(self)@, id as int) + new_balance
                        <= i32::MAX
                    &&& a@ == (AccountModel {
                        id: id as int,
                        username: account_of(old(self)@, id as int).username,
                        balance: new_balance as int,
                    })
                    &&& final(self)@ == set_balance(old(self)@, id as int, new_balance as int)
                },
                Err(e) => {
                    &&& final(self)@ == old(self)@
                    &&& if !has_id(old(self)@, id as int) {
                        e == LedgerError::NotFound
                    } else {
                        e == LedgerError::StorageUnavailable && sum_balances(old(self)@)
                            - balance_of(old(self)@, id as int) + new_balance > i32::MAX
                    }
                },
            },
    {
        let i = match self.index_of(id) {
            Some(i) => i,
            None => {
                return Err(LedgerError::NotFound);
            },
        };
        proof {
            lemma_account_at(self@, i as int, id as int);
            lemma_sum_single_bound(self@, i as int);
        }
        let total = self.total_balance();
        let old_balance = self.accounts[i].balance;
        let remaining = total - old_balance;
        proof {
            lemma_sum_nonneg(self@);
        }
        if new_balance > i32::MAX - remaining {
            return Err(LedgerError::StorageUnavailable);
        }
        let updated = Account {
            id: self.accounts[i].id,
            username: self.accounts[i].username.clone(),
            balance: new_balance,
        };
        let receipt = updated.duplicate();
        let ghost before = self@;
        self.accounts[i] = updated;
        proof {
            assert(self@ =~= before.update(i as int, receipt@));
            lemma_sum_update(before, i as int, receipt@);
            assert(self@ =~= set_balance(before, id as int, new_balance as int));
        }
        Ok(receipt)
    }

    /// Remove the account carrying `id`, returning how many rows were
    /// removed: 1 when it existed, 0 (meaning not found) otherwise.
    pub fn delete(&mut self, id: i32) -> (count: usize)
        requires
            old(self).inv(),
        ensures
            final(self).inv(),
            final(self).spec_next_id() == old(self).spec_next_id(),
            has_id(old(self)@, id as int) ==> count == 1 && final(self)@ == old(self)@.remove(
                idx_of(old(self)@, id as int),
            ),
            !has_id(old(self)@, id as int) ==> count == 0 && final(self)@ == old(self)@,
    {
        let i = match self.index_of(id) {
            Some(i) => i,
            None => {
                return 0;
            },
        };
        proof {
            lemma_account_at(self@, i as int, id as int);
            lemma_sum_remove(self@, i as int);
            lemma_sum_nonneg(self@);
            self@.remove_ensures(i as int);
        }
        let ghost before = self@;
        self.accounts.remove(i);
        proof {
            assert(self@ =~= before.remove(i as int));
        }
        1
    }

    /// All accounts, newest first: ordered by descending identifier.
    pub fn list(&self) -> (r: Vec<Account>)
        requires
            self.inv(),
        ensures
            r@.len() == self@.len(),
            forall|i: int|
                0 <= i < r@.len() ==> #[trigger] r@[i]@ == self@[self@.len() - 1 - i],
            forall|i: int, j: int| 0 <= i < j < r@.len() ==> r@[i]@.id > r@[j]@.id,
    {
        let n = self.accounts.len();
        let mut r: Vec<Account> = Vec::new();
        let mut k: usize = n;
        while k > 0
            invariant
                k <= n,
                n == self@.len(),
                self@.len() == self.accounts@.len(),
                r@.len() == n - k,
                forall|i: int| 0 <= i < r@.len() ==> #[trigger] r@[i]@ == self@[self@.len() - 1 - i],
            decreases k,
        {
            k -= 1;
            r.push(self.accounts[k].duplicate());
        }
        r
    }
}

} // verus!

//! The transaction coordinator: a scoped atomic unit of work over the
//! account store.
//!
//! `begin` gives the scope a private working state equal to the base store;
//! every store operation issued through the scope touches only that working
//! state. `commit` makes the working state the base state in one step;
//! dropping the scope — explicitly through `rollback`, or on any early exit
//! path — leaves the base state exactly as it was. The primitive is not
//! transfer-specific: any multi-step mutation can run inside a scope.

use vstd::prelude::*;
use crate::account::{Account, AccountModel};
use crate::errors::LedgerError;
use crate::model::{
    balances_nonneg, has_id, has_username, ids_distinct, usernames_distinct, account_of,
    balance_of, idx_of, set_balance, sum_balances,
};
use crate::store::AccountStore;

verus! {

/// One atomic unit of work in progress.
pub struct TxnScope {
    working: AccountStore,
}

impl View for TxnScope {
    type V = Seq<AccountModel>;

    closed spec fn view(&self) -> Seq<AccountModel> {
        self.working@
    }
}

impl TxnScope {
    /// The identifier the next account created in this scope will receive.
    pub closed spec fn spec_next_id(&self) -> int {
        self.working.spec_next_id()
    }

    /// The scope's working state satisfies the store invariant.
    pub closed spec fn inv(&self) -> bool {
        self.working.inv()
    }

    /// The facts the invariant guarantees about the scope's visible state.
    pub proof fn lemma_inv_facts(&self)
        requires
            self.inv(),
        ensures
            balances_nonneg(self@),
            ids_distinct(self@),
            usernames_distinct(self@),
            sum_balances(self@) <= i32::MAX,
    {
        self.working.lemma_inv_facts();
    }

    /// Open a scope whose working state equals the base store.
    pub fn begin(base: &AccountStore) -> (scope: TxnScope)
        requires
            base.inv(),
        ensures
            scope.inv(),
            scope@ == base@,
            scope.spec_next_id() == base.spec_next_id(),
    {
        TxnScope { working: base.snapshot() }
    }

    /// Make the scope's working state durable: after the commit the base
    /// store holds exactly what the scope computed.
    pub fn commit(self, base: &mut AccountStore)
        requires
            self.inv(),
        ensures
            final(base).inv(),
            final(base)@ == self@,
            final(base).spec_next_id() == self.spec_next_id(),
    {
        *base = self.working;
    }

    /// Abandon the scope; the base store is untouched because the scope
    /// never wrote to it.
    pub fn rollback(self) {
    }

    /// `AccountStore::create`, scoped to this unit of work.
    pub fn create(&mut self, username: String, initial_balance: i32) -> (r: Result<
        Account,
        LedgerError,
    >)
        requires
            old(self).inv(),
            initial_balance >= 0,
        ensures
            final(self).inv(),
            match r {
                Ok(a) => {
                    &&& !has_username(old(self)@, username@)
                    &&& old(self).spec_next_id() < i32::MAX
                    &&& sum_balances(old(self)@) + initial_balance <= i32::MAX
                    &&& a@ == (AccountModel {
                        id: old(self).spec_next_id(),
                        username: username@,
                        balance: initial_balance as int,
                    })
                    &&& final(self)@ == old(self)@.push(a@)
                    &&& final(self).spec_next_id() == old(self).spec_next_id() + 1
                },
                Err(e) => {
                    &&& final(self)@ == old(self)@
                    &&& final(self).spec_next_id() == old(self).spec_next_id()
                    &&& if has_username(old(self)@, username@) {
                        e == LedgerError::DuplicateUsername
                    } else {
                        e == LedgerError::StorageUnavailable && (old(self).spec_next_id()
                            == i32::MAX || sum_balances(old(self)@) + initial_balance > i32::MAX)
                    }
                },
            },
    {
        self.working.create(username, initial_balance)
    }

    /// `AccountStore::find`, against this scope's working state.
    pub fn find(&self, id: i32) -> (r: Result<Account, LedgerError>)
        requires
            self.inv(),
        ensures
            match r {
                Ok(a) => has_id(self@, id as int) && a@ == account_of(self@, id as int),
                Err(e) => e == LedgerError::NotFound && !has_id(self@, id as int),
            },
    {
        self.working.find(id)
    }

    /// `AccountStore::update_balance`, scoped to this unit of work.
    pub fn update_balance(&mut self, id: i32, new_balance: i32) -> (r: Result<
        Account,
        LedgerError,
    >)
        requires
            old(self).inv(),
            new_balance >= 0,
        ensures
            final(self).inv(),
            final(self).spec_next_id() == old(self).spec_next_id(),
            match r {
                Ok(a) => {
                    &&& has_id(old(self)@, id as int)
                    &&& sum_balances(old(self)@) - balance_of(old(self)@, id as int) + new_balance
                        <= i32::MAX
                    &&& a@ == (AccountModel {
                        id: id as int,
                        username: account_of(old(self)@, id as int).username,
                        balance: new_balance as int,
                    })
                    &&& final(self)@ == set_balance(old(self)@, id as int, new_balance as int)
                },
                Err(e) => {
                    &&& final(self)@ == old(self)@
                    &&& if !has_id(old(self)@, id as int) {
                        e == LedgerError::NotFound
                    } else {
                        e == LedgerError::StorageUnavailable && sum_balances(old(self)@)
                            - balance_of(old(self)@, id as int) + new_balance > i32::MAX
                    }
                },
            },
    {
        self.working.update_balance(id, new_balance)
    }

    /// `AccountStore::delete`, scoped to this unit of work.
    pub fn delete(&mut self, id: i32) -> (count: usize)
        requires
            old(self).inv(),
        ensures
            final(self).inv(),
            final(self).spec_next_id() == old(self).spec_next_id(),
            has_id(old(self)@, id as int) ==> count == 1 && final(self)@ == old(self)@.remove(
                idx_of(old(self)@, id as int),
            ),
            !has_id(old(self)@, id as int) ==> count == 0 && final(self)@ == old(self)@,
    {
        self.working.delete(id)
    }
}

} // verus!

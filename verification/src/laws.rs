//! The laws of the transfer algorithm, stated over the ledger model and
//! proved once and for all. `Ledger::transfer` ties its result and successor
//! state exactly to `transfer_outcome`, so each law below is a statement
//! about every execution of the engine.

use vstd::prelude::*;
use crate::account::{AccountModel, TransferRequest};
use crate::errors::LedgerError;
use crate::model::{
    balances_nonneg, has_id, ids_distinct, balance_of, sum_balances, apply_transfer,
    apply_transfers, transfer_outcome, transfer_step, lemma_account_at,
    lemma_apply_transfer_effects,
};

verus! {

/// A successful transfer never drives a balance negative: from a state with
/// non-negative balances and distinct identifiers, every state a transfer
/// can reach again has non-negative balances everywhere.
pub proof fn lemma_transfer_preserves_nonnegative(
    s: Seq<AccountModel>,
    from_id: int,
    to_id: int,
    amount: int,
)
    requires
        balances_nonneg(s),
        ids_distinct(s),
        transfer_outcome(s, from_id, to_id, amount) is Ok,
    ensures
        balances_nonneg(apply_transfer(s, from_id, to_id, amount)),
{
    let s2 = apply_transfer(s, from_id, to_id, amount);
    assert forall|k: int| 0 <= k < s2.len() implies #[trigger] s2[k].balance >= 0 by {
        if s[k].id == from_id {
            lemma_account_at(s, k, from_id);
        }
    }
}

/// Conservation: a successful transfer leaves the sum of all balances
/// exactly as it was — funds are neither created nor destroyed.
pub proof fn lemma_transfer_conserves_total(
    s: Seq<AccountModel>,
    from_id: int,
    to_id: int,
    amount: int,
)
    requires
        ids_distinct(s),
    ensures
        transfer_outcome(s, from_id, to_id, amount) matches Ok(s2) ==> sum_balances(s2)
            == sum_balances(s),
{
    if transfer_outcome(s, from_id, to_id, amount) is Ok {
        lemma_apply_transfer_effects(s, from_id, to_id, amount);
    }
}

/// Conservation over a batch: however a finite sequence of transfer
/// attempts divides into successes and failures, the sum of all balances
/// afterwards equals the sum before.
pub proof fn lemma_transfers_conserve_total(
    s: Seq<AccountModel>,
    reqs: Seq<TransferRequest>,
)
    requires
        ids_distinct(s),
    ensures
        sum_balances(apply_transfers(s, reqs)) == sum_balances(s),
        ids_distinct(apply_transfers(s, reqs)),
    decreases reqs.len(),
{
    if reqs.len() > 0 {
        let next = transfer_step(s, reqs[0]);
        if transfer_outcome(s, reqs[0].from_id as int, reqs[0].to_id as int, reqs[0].amount as int)
            is Ok {
            lemma_apply_transfer_effects(
                s,
                reqs[0].from_id as int,
                reqs[0].to_id as int,
                reqs[0].amount as int,
            );
        }
        lemma_transfers_conserve_total(next, reqs.drop_first());
    }
}

/// A transfer from an account to itself always fails with
/// `SameAccountTransfer`, for every positive amount. (A non-positive amount
/// is rejected first, as `InvalidAmount`.)
pub proof fn lemma_same_account_transfer_rejected(
    s: Seq<AccountModel>,
    id: int,
    amount: int,
)
    requires
        amount > 0,
    ensures
        transfer_outcome(s, id, id, amount) == Err::<
            Seq<AccountModel>,
            LedgerError,
        >(LedgerError::SameAccountTransfer),
{
}

/// A transfer of a non-positive amount always fails with `InvalidAmount`,
/// whatever the accounts.
pub proof fn lemma_nonpositive_amount_rejected(
    s: Seq<AccountModel>,
    from_id: int,
    to_id: int,
    amount: int,
)
    requires
        amount <= 0,
    ensures
        transfer_outcome(s, from_id, to_id, amount) == Err::<
            Seq<AccountModel>,
            LedgerError,
        >(LedgerError::InvalidAmount),
{
}

/// Partial-failure atomicity: when either account is missing, the attempt
/// fails with `NotFound` and reaches no new state — so in particular the
/// would-be debited account keeps its balance.
pub proof fn lemma_missing_account_rejected(
    s: Seq<AccountModel>,
    from_id: int,
    to_id: int,
    amount: int,
)
    requires
        amount > 0,
        from_id != to_id,
        !has_id(s, from_id) || !has_id(s, to_id),
    ensures
        transfer_outcome(s, from_id, to_id, amount) == Err::<
            Seq<AccountModel>,
            LedgerError,
        >(LedgerError::NotFound),
{
}

/// Race safety, serialized: two transfers drawing on the same account,
/// each covered by the balance alone but not together, resolve — in
/// whichever order they are serialized — into exactly one success and one
/// `InsufficientFunds`, and the debited account ends with the balance the
/// one successful transfer leaves.
pub proof fn lemma_joint_overdraft_rejected(
    s: Seq<AccountModel>,
    from_id: int,
    to_id1: int,
    to_id2: int,
    amount1: int,
    amount2: int,
)
    requires
        balances_nonneg(s),
        ids_distinct(s),
        has_id(s, from_id),
        has_id(s, to_id1),
        has_id(s, to_id2),
        from_id != to_id1,
        from_id != to_id2,
        amount1 > 0,
        amount2 > 0,
        amount1 <= balance_of(s, from_id),
        amount2 <= balance_of(s, from_id),
        amount1 + amount2 > balance_of(s, from_id),
    ensures
        transfer_outcome(s, from_id, to_id1, amount1) == Ok::<
            Seq<AccountModel>,
            LedgerError,
        >(apply_transfer(s, from_id, to_id1, amount1)),
        transfer_outcome(apply_transfer(s, from_id, to_id1, amount1), from_id, to_id2, amount2)
            == Err::<Seq<AccountModel>, LedgerError>(
            LedgerError::InsufficientFunds,
        ),
        balance_of(apply_transfer(s, from_id, to_id1, amount1), from_id) == balance_of(s, from_id)
            - amount1,
{
    lemma_apply_transfer_effects(s, from_id, to_id1, amount1);
}

/// Deadlock freedom, serialized: two opposite transfers between the same
/// pair of accounts both complete when the second is covered by the
/// balance the first leaves, and the final balances carry exactly the net
/// effect of the two.
pub proof fn lemma_opposite_transfers_complete(
    s: Seq<AccountModel>,
    x: int,
    y: int,
    amount1: int,
    amount2: int,
)
    requires
        balances_nonneg(s),
        ids_distinct(s),
        has_id(s, x),
        has_id(s, y),
        x != y,
        amount1 > 0,
        amount2 > 0,
        amount1 <= balance_of(s, x),
        amount2 <= balance_of(s, y) + amount1,
    ensures
        transfer_outcome(s, x, y, amount1) == Ok::<
            Seq<AccountModel>,
            LedgerError,
        >(apply_transfer(s, x, y, amount1)),
        transfer_outcome(apply_transfer(s, x, y, amount1), y, x, amount2) == Ok::<
            Seq<AccountModel>,
            LedgerError,
        >(apply_transfer(apply_transfer(s, x, y, amount1), y, x, amount2)),
        balance_of(apply_transfer(apply_transfer(s, x, y, amount1), y, x, amount2), x)
            == balance_of(s, x) - amount1 + amount2,
        balance_of(apply_transfer(apply_transfer(s, x, y, amount1), y, x, amount2), y)
            == balance_of(s, y) + amount1 - amount2,
{
    lemma_apply_transfer_effects(s, x, y, amount1);
    lemma_apply_transfer_effects(apply_transfer(s, x, y, amount1), y, x, amount2);
}

} // verus!

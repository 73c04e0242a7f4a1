//! The mathematical model of a ledger: predicates on sequences of account
//! models, the total-balance sum with its lemmas, and the specification of
//! what a transfer does to a ledger state.

use vstd::prelude::*;
use crate::account::{AccountModel, TransferRequest};
use crate::errors::LedgerError;

verus! {

/// Every balance in the state is non-negative.
pub open spec fn balances_nonneg(s: Seq<AccountModel>) -> bool {
    forall|i: int| 0 <= i < s.len() ==> #[trigger] s[i].balance >= 0
}

/// No two accounts in the state share an identifier.
pub open spec fn ids_distinct(s: Seq<AccountModel>) -> bool {
    forall|i: int, j: int| 0 <= i < j < s.len() ==> #[trigger] s[i].id != #[trigger] s[j].id
}

/// No two accounts in the state share a username.
pub open spec fn usernames_distinct(s: Seq<AccountModel>) -> bool {
    forall|i: int, j: int| 0 <= i < j < s.len() ==> #[trigger] s[i].username != #[trigger] s[j].username
}

/// Some account in the state carries the identifier `id`.
pub open spec fn has_id(s: Seq<AccountModel>, id: int) -> bool {
    exists|i: int| 0 <= i < s.len() && #[trigger] s[i].id == id
}

/// Some account in the state carries the username `name`.
pub open spec fn has_username(s: Seq<AccountModel>, name: Seq<char>) -> bool {
    exists|i: int| 0 <= i < s.len() && #[trigger] s[i].username == name
}

/// The position of the account carrying `id`; meaningful when `has_id` holds
/// and identifiers are distinct.
pub open spec fn idx_of(s: Seq<AccountModel>, id: int) -> int {
    choose|i: int| 0 <= i < s.len() && #[trigger] s[i].id == id
}

/// The account carrying `id`.
pub open spec fn account_of(s: Seq<AccountModel>, id: int) -> AccountModel {
    s[idx_of(s, id)]
}

/// The balance of the account carrying `id`.
pub open spec fn balance_of(s: Seq<AccountModel>, id: int) -> int {
    account_of(s, id).balance
}

/// The sum of all balances in the state: the quantity transfers conserve.
pub open spec fn sum_balances(s: Seq<AccountModel>) -> int
    decreases s.len(),
{
    if s.len() == 0 {
        0
    } else {
        sum_balances(s.drop_last()) + s.last().balance
    }
}

/// The state after moving `amount` from `from_id` to `to_id`: the two
/// touched accounts change balance, every other account and the order of the
/// rows are untouched.
pub open spec fn apply_transfer(
    s: Seq<AccountModel>,
    from_id: int,
    to_id: int,
    amount: int,
) -> Seq<AccountModel> {
    s.map(
        |i: int, a: AccountModel|
            if a.id == from_id {
                AccountModel { id: a.id, username: a.username, balance: a.balance - amount }
            } else if a.id == to_id {
                AccountModel { id: a.id, username: a.username, balance: a.balance + amount }
            } else {
                a
            },
    )
}

/// What a single transfer attempt decides and does, as a function of the
/// state: either the successor state, or the exact error, in which case the
/// state is unchanged. The checks run in a fixed order: amount, account
/// distinctness, existence, funds.
pub open spec fn transfer_outcome(
    s: Seq<AccountModel>,
    from_id: int,
    to_id: int,
    amount: int,
) -> Result<Seq<AccountModel>, LedgerError> {
    if amount <= 0 {
        Err(LedgerError::InvalidAmount)
    } else if from_id == to_id {
        Err(LedgerError::SameAccountTransfer)
    } else if !has_id(s, from_id) || !has_id(s, to_id) {
        Err(LedgerError::NotFound)
    } else if balance_of(s, from_id) < amount {
        Err(LedgerError::InsufficientFunds)
    } else {
        Ok(apply_transfer(s, from_id, to_id, amount))
    }
}

/// Whether a transfer attempt succeeds from state `s`.
pub open spec fn transfer_admissible(s: Seq<AccountModel>, r: TransferRequest) -> bool {
    transfer_outcome(s, r.from_id as int, r.to_id as int, r.amount as int) is Ok
}

/// The state after one transfer attempt: the successor state on success,
/// the state unchanged on failure.
pub open spec fn transfer_step(s: Seq<AccountModel>, r: TransferRequest) -> Seq<AccountModel> {
    match transfer_outcome(s, r.from_id as int, r.to_id as int, r.amount as int) {
        Ok(s2) => s2,
        Err(_) => s,
    }
}

/// The state after attempting a whole sequence of transfers in order, each
/// failed attempt leaving the state as it was.
pub open spec fn apply_transfers(s: Seq<AccountModel>, reqs: Seq<TransferRequest>) -> Seq<
    AccountModel,
>
    decreases reqs.len(),
{
    if reqs.len() == 0 {
        s
    } else {
        apply_transfers(transfer_step(s, reqs[0]), reqs.drop_first())
    }
}

/// Attempting one more transfer after a batch is the batch followed by the
/// one step.
pub proof fn lemma_apply_transfers_snoc(
    s: Seq<AccountModel>,
    reqs: Seq<TransferRequest>,
    r: TransferRequest,
)
    ensures
        apply_transfers(s, reqs.push(r)) == transfer_step(apply_transfers(s, reqs), r),
    decreases reqs.len(),
{
    if reqs.len() == 0 {
        assert(reqs.push(r)[0] == r);
        assert(reqs.push(r).drop_first() =~= Seq::<TransferRequest>::empty());
        assert(apply_transfers(s, reqs.push(r)) == apply_transfers(
            transfer_step(s, r),
            Seq::<TransferRequest>::empty(),
        ));
        assert(apply_transfers(transfer_step(s, r), Seq::<TransferRequest>::empty())
            == transfer_step(s, r));
        assert(apply_transfers(s, reqs) == s);
    } else {
        assert(reqs.push(r)[0] == reqs[0]);
        assert(reqs.push(r).drop_first() =~= reqs.drop_first().push(r));
        lemma_apply_transfers_snoc(transfer_step(s, reqs[0]), reqs.drop_first(), r);
        assert(apply_transfers(s, reqs.push(r)) == apply_transfers(
            transfer_step(s, reqs[0]),
            reqs.drop_first().push(r),
        ));
        assert(apply_transfers(s, reqs) == apply_transfers(
            transfer_step(s, reqs[0]),
            reqs.drop_first(),
        ));
    }
}

/// The state after replacing the balance of the account carrying `id` by
/// `b`: every other account and the order of the rows are untouched.
pub open spec fn set_balance(s: Seq<AccountModel>, id: int, b: int) -> Seq<AccountModel> {
    s.map(
        |i: int, a: AccountModel|
            if a.id == id {
                AccountModel { id: a.id, username: a.username, balance: b }
            } else {
                a
            },
    )
}

/// With distinct identifiers, any row carrying `id` is the row `idx_of`
/// picks.
pub proof fn lemma_account_at(s: Seq<AccountModel>, i: int, id: int)
    requires
        ids_distinct(s),
        0 <= i < s.len(),
        s[i].id == id,
    ensures
        has_id(s, id),
        idx_of(s, id) == i,
        account_of(s, id) == s[i],
{
    assert(has_id(s, id));
    let j = idx_of(s, id);
    assert(0 <= j < s.len() && s[j].id == id);
    if i < j {
        assert(s[i].id != s[j].id);
    } else if j < i {
        assert(s[j].id != s[i].id);
    }
}

/// What `apply_transfer` does to a state with distinct identifiers holding
/// both accounts: the two touched balances move by `amount`, and every
/// identifier, username and untouched balance stays as it was; the total is
/// conserved.
pub proof fn lemma_apply_transfer_effects(s: Seq<AccountModel>, from_id: int, to_id: int, amount: int)
    requires
        ids_distinct(s),
        from_id != to_id,
        has_id(s, from_id),
        has_id(s, to_id),
    ensures
        apply_transfer(s, from_id, to_id, amount).len() == s.len(),
        forall|k: int|
            0 <= k < s.len() ==> #[trigger] apply_transfer(s, from_id, to_id, amount)[k].id
                == s[k].id && apply_transfer(s, from_id, to_id, amount)[k].username
                == s[k].username,
        ids_distinct(apply_transfer(s, from_id, to_id, amount)),
        forall|id: int|
            has_id(apply_transfer(s, from_id, to_id, amount), id) == #[trigger] has_id(s, id),
        balance_of(apply_transfer(s, from_id, to_id, amount), from_id) == balance_of(s, from_id)
            - amount,
        balance_of(apply_transfer(s, from_id, to_id, amount), to_id) == balance_of(s, to_id)
            + amount,
        account_of(apply_transfer(s, from_id, to_id, amount), from_id).username == account_of(
            s,
            from_id,
        ).username,
        account_of(apply_transfer(s, from_id, to_id, amount), to_id).username == account_of(
            s,
            to_id,
        ).username,
        forall|id: int|
            #[trigger] has_id(s, id) && id != from_id && id != to_id ==> account_of(
                apply_transfer(s, from_id, to_id, amount),
                id,
            ) == account_of(s, id),
        sum_balances(apply_transfer(s, from_id, to_id, amount)) == sum_balances(s),
{
    let s2 = apply_transfer(s, from_id, to_id, amount);
    assert forall|id: int| has_id(s2, id) == #[trigger] has_id(s, id) by {
        if has_id(s, id) {
            let i = choose|i: int| 0 <= i < s.len() && #[trigger] s[i].id == id;
            assert(s2[i].id == id);
        }
        if has_id(s2, id) {
            let i = choose|i: int| 0 <= i < s2.len() && #[trigger] s2[i].id == id;
            assert(s[i].id == id);
        }
    }
    let i_from = idx_of(s, from_id);
    let i_to = idx_of(s, to_id);
    lemma_account_at(s, i_from, from_id);
    lemma_account_at(s, i_to, to_id);
    lemma_account_at(s2, i_from, from_id);
    lemma_account_at(s2, i_to, to_id);
    assert forall|id: int|
        #[trigger] has_id(s, id) && id != from_id && id != to_id implies account_of(s2, id)
        == account_of(s, id) by {
        let i = idx_of(s, id);
        lemma_account_at(s, i, id);
        lemma_account_at(s2, i, id);
    }
    let mid = s.update(
        i_from,
        AccountModel {
            id: from_id,
            username: s[i_from].username,
            balance: s[i_from].balance - amount,
        },
    );
    lemma_sum_update(
        s,
        i_from,
        AccountModel {
            id: from_id,
            username: s[i_from].username,
            balance: s[i_from].balance - amount,
        },
    );
    lemma_sum_update(
        mid,
        i_to,
        AccountModel { id: to_id, username: s[i_to].username, balance: s[i_to].balance + amount },
    );
    assert(s2 =~= mid.update(
        i_to,
        AccountModel { id: to_id, username: s[i_to].username, balance: s[i_to].balance + amount },
    ));
}

/// The sum over a pushed sequence grows by the pushed balance.
pub proof fn lemma_sum_push(s: Seq<AccountModel>, a: AccountModel)
    ensures
        sum_balances(s.push(a)) == sum_balances(s) + a.balance,
{
    assert(s.push(a).drop_last() =~= s);
}

/// With all balances non-negative the sum is non-negative.
pub proof fn lemma_sum_nonneg(s: Seq<AccountModel>)
    requires
        balances_nonneg(s),
    ensures
        sum_balances(s) >= 0,
    decreases s.len(),
{
    if s.len() > 0 {
        assert(balances_nonneg(s.drop_last()));
        lemma_sum_nonneg(s.drop_last());
    }
}

/// Replacing one account changes the sum by the difference of the balances.
pub proof fn lemma_sum_update(s: Seq<AccountModel>, i: int, a: AccountModel)
    requires
        0 <= i < s.len(),
    ensures
        sum_balances(s.update(i, a)) == sum_balances(s) - s[i].balance + a.balance,
    decreases s.len(),
{
    if i == s.len() - 1 {
        assert(s.update(i, a).drop_last() =~= s.drop_last());
    } else {
        lemma_sum_update(s.drop_last(), i, a);
        assert(s.update(i, a).drop_last() =~= s.drop_last().update(i, a));
    }
}

/// With all balances non-negative, one balance never exceeds the sum.
pub proof fn lemma_sum_single_bound(s: Seq<AccountModel>, i: int)
    requires
        balances_nonneg(s),
        0 <= i < s.len(),
    ensures
        s[i].balance <= sum_balances(s),
    decreases s.len(),
{
    if i == s.len() - 1 {
        assert(balances_nonneg(s.drop_last()));
        lemma_sum_nonneg(s.drop_last());
    } else {
        assert(balances_nonneg(s.drop_last()));
        lemma_sum_single_bound(s.drop_last(), i);
    }
}

/// With all balances non-negative, two distinct accounts together never
/// exceed the sum.
pub proof fn lemma_sum_pair_bound(s: Seq<AccountModel>, i: int, j: int)
    requires
        balances_nonneg(s),
        0 <= i < s.len(),
        0 <= j < s.len(),
        i != j,
    ensures
        s[i].balance + s[j].balance <= sum_balances(s),
{
    let zeroed = s.update(i, AccountModel { id: s[i].id, username: s[i].username, balance: 0 });
    lemma_sum_update(s, i, AccountModel { id: s[i].id, username: s[i].username, balance: 0 });
    assert(balances_nonneg(zeroed));
    lemma_sum_single_bound(zeroed, j);
}

/// Removing one account lowers the sum by its balance.
pub proof fn lemma_sum_remove(s: Seq<AccountModel>, i: int)
    requires
        0 <= i < s.len(),
    ensures
        sum_balances(s.remove(i)) == sum_balances(s) - s[i].balance,
    decreases s.len(),
{
    if i == s.len() - 1 {
        assert(s.remove(i) =~= s.drop_last());
    } else {
        lemma_sum_remove(s.drop_last(), i);
        assert(s.remove(i).drop_last() =~= s.drop_last().remove(i));
        assert(s.remove(i).last() == s.last());
    }
}

/// The sum over a concatenation splits into the two sums.
pub proof fn lemma_sum_concat(a: Seq<AccountModel>, b: Seq<AccountModel>)
    ensures
        sum_balances(a + b) == sum_balances(a) + sum_balances(b),
    decreases b.len(),
{
    if b.len() == 0 {
        assert(a + b =~= a);
    } else {
        lemma_sum_concat(a, b.drop_last());
        assert((a + b).drop_last() =~= a + b.drop_last());
        assert((a + b).last() == b.last());
    }
}

/// With all balances non-negative, the sum over a prefix never exceeds the
/// whole sum.
pub proof fn lemma_sum_prefix_bound(s: Seq<AccountModel>, k: int)
    requires
        balances_nonneg(s),
        0 <= k <= s.len(),
    ensures
        sum_balances(s.subrange(0, k)) <= sum_balances(s),
{
    assert(s =~= s.subrange(0, k) + s.subrange(k, s.len() as int));
    lemma_sum_concat(s.subrange(0, k), s.subrange(k, s.len() as int));
    assert(balances_nonneg(s.subrange(k, s.len() as int)));
    lemma_sum_nonneg(s.subrange(k, s.len() as int));
}

} // verus!

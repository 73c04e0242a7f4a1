use vstd::prelude::*;

verus! {

/// The mathematical image of one account row: its identifier, username and
/// balance as unbounded values. All contracts of the engine speak in terms of
/// sequences of these.
pub struct AccountModel {
    pub id: int,
    pub username: Seq<char>,
    pub balance: int,
}

/// A persisted account. The identifier is assigned by the store and never
/// changes; the username is unique across the store; the balance is a count
/// of minor currency units and is never negative.
#[derive(Debug)]
pub struct Account {
    pub id: i32,
    pub username: String,
    pub balance: i32,
}

impl View for Account {
    type V = AccountModel;

    open spec fn view(&self) -> AccountModel {
        AccountModel { id: self.id as int, username: self.username@, balance: self.balance as int }
    }
}

impl Account {
    /// An owned copy of this account, equal to it in the model.
    pub fn duplicate(&self) -> (r: Account)
        ensures
            r@ == self@,
    {
        Account { id: self.id, username: self.username.clone(), balance: self.balance }
    }
}

/// The payload a caller supplies to create an account: the store itself
/// assigns the identifier.
#[derive(Debug)]
pub struct CreateAccount {
    pub username: String,
    pub balance: i32,
}

/// A request to move `amount` minor units from the account `from_id` to the
/// account `to_id`. It is not persisted: it is consumed and resolved into two
/// account mutations or an error.
#[derive(Clone, Copy, Debug)]
pub struct TransferRequest {
    pub from_id: i32,
    pub to_id: i32,
    pub amount: i32,
}

/// Snapshots of the two accounts touched by a successful transfer, taken
/// after the commit.
#[derive(Debug)]
pub struct TransferReceipt {
    pub from: Account,
    pub to: Account,
}

} // verus!

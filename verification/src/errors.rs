use vstd::prelude::*;

verus! {

/// The closed set of failures the ledger engine surfaces to callers.
///
/// All variants but `ConcurrencyConflict` and `StorageUnavailable` are domain
/// errors: they are detected before any mutation and are not retryable.
/// `ConcurrencyConflict` is retryable; it stands for a bounded lock wait that
/// timed out in the adapter driving the engine. `StorageUnavailable` is an
/// opaque infrastructure failure, also raised when the store runs out of
/// capacity (identifier space or representable total balance).
#[derive(Clone, Copy, Debug, PartialEq, Eq, Structural)]
pub enum LedgerError {
    NotFound,
    DuplicateUsername,
    InvalidAmount,
    SameAccountTransfer,
    InsufficientFunds,
    ConcurrencyConflict,
    StorageUnavailable,
}

impl LedgerError {
    /// Whether a caller may re-attempt the failed operation with backoff.
    pub fn is_retryable(&self) -> (r: bool)
        ensures
            r == (*self == LedgerError::ConcurrencyConflict),
    {
        match self {
            LedgerError::ConcurrencyConflict => true,
            _ => false,
        }
    }

    /// A descriptive reason for the failure, fit to surface to a caller.
    pub fn message(&self) -> (r: String)
        ensures
            *self == LedgerError::NotFound ==> r@ == "account not found"@,
            *self == LedgerError::DuplicateUsername ==> r@ == "an account with that username already exists"@,
            *self == LedgerError::InvalidAmount ==> r@ == "transfer amount must be positive"@,
            *self == LedgerError::SameAccountTransfer ==> r@ == "cannot transfer an amount to the same account"@,
            *self == LedgerError::InsufficientFunds ==> r@ == "insufficient funds"@,
            *self == LedgerError::ConcurrencyConflict ==> r@ == "conflicting concurrent operation, retry later"@,
            *self == LedgerError::StorageUnavailable ==> r@ == "storage unavailable"@,
    {
        match self {
            LedgerError::NotFound => "account not found".to_string(),
            LedgerError::DuplicateUsername => "an account with that username already exists".to_string(),
            LedgerError::InvalidAmount => "transfer amount must be positive".to_string(),
            LedgerError::SameAccountTransfer => "cannot transfer an amount to the same account".to_string(),
            LedgerError::InsufficientFunds => "insufficient funds".to_string(),
            LedgerError::ConcurrencyConflict => "conflicting concurrent operation, retry later".to_string(),
            LedgerError::StorageUnavailable => "storage unavailable".to_string(),
        }
    }
}

} // verus!

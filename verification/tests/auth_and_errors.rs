use account_ledger::auth::{authorize_decision, header_authorizes, AuthBody, AuthOutcome};
use account_ledger::errors::LedgerError;
use account_ledger::upload::{accept_chunk, MAX_UPLOAD_SIZE};

#[test]
fn auth_body_wraps_a_bearer_token() {
    let body = AuthBody::new("tok-123".to_string());
    assert_eq!(body.access_token, "tok-123");
    assert_eq!(body.token_type, "Bearer");
}

#[test]
fn authorize_decision_requires_credentials() {
    let empty = "".to_string();
    let id = "axum.rs".to_string();
    let secret = "team@axum.rs".to_string();
    assert_eq!(authorize_decision(&empty, &secret), AuthOutcome::MissingCredentials);
    assert_eq!(authorize_decision(&id, &empty), AuthOutcome::MissingCredentials);
    assert_eq!(
        authorize_decision(&"other".to_string(), &secret),
        AuthOutcome::WrongCredentials
    );
    assert_eq!(
        authorize_decision(&id, &"guess".to_string()),
        AuthOutcome::WrongCredentials
    );
    assert_eq!(authorize_decision(&id, &secret), AuthOutcome::Authorized);
}

#[test]
fn header_authorizes_only_the_shared_secret() {
    assert!(header_authorizes(&"secret".to_string()));
    assert!(!header_authorizes(&"Secret".to_string()));
    assert!(!header_authorizes(&"".to_string()));
}

#[test]
fn accept_chunk_enforces_the_upload_limit() {
    assert_eq!(accept_chunk(0, 1024), Some(1024));
    assert_eq!(accept_chunk(MAX_UPLOAD_SIZE - 1, 1), Some(MAX_UPLOAD_SIZE));
    assert_eq!(accept_chunk(MAX_UPLOAD_SIZE, 1), None);
    assert_eq!(accept_chunk(0, MAX_UPLOAD_SIZE + 1), None);
    assert_eq!(accept_chunk(0, u64::MAX), None);
}

#[test]
fn only_concurrency_conflicts_are_retryable() {
    assert!(LedgerError::ConcurrencyConflict.is_retryable());
    assert!(!LedgerError::NotFound.is_retryable());
    assert!(!LedgerError::DuplicateUsername.is_retryable());
    assert!(!LedgerError::InvalidAmount.is_retryable());
    assert!(!LedgerError::SameAccountTransfer.is_retryable());
    assert!(!LedgerError::InsufficientFunds.is_retryable());
    assert!(!LedgerError::StorageUnavailable.is_retryable());
}

#[test]
fn every_error_carries_a_reason() {
    assert_eq!(LedgerError::NotFound.message(), "account not found");
    assert_eq!(LedgerError::InsufficientFunds.message(), "insufficient funds");
    assert!(!LedgerError::DuplicateUsername.message().is_empty());
    assert!(!LedgerError::InvalidAmount.message().is_empty());
    assert!(!LedgerError::SameAccountTransfer.message().is_empty());
    assert!(!LedgerError::ConcurrencyConflict.message().is_empty());
    assert!(!LedgerError::StorageUnavailable.message().is_empty());
}

//! An account ledger engine: a store of accounts with non-negative integer
//! balances, a transaction coordinator that makes multi-step mutations
//! atomic, and a transfer operation that moves funds between two accounts
//! without ever creating, destroying, or losing money.
//!
//! The surrounding web application (routing, request parsing, cookies,
//! sessions, persistence connections) is expected to authenticate callers and
//! parse raw input into the typed values defined here before invoking the
//! engine.

pub mod account;
pub mod auth;
pub mod config;
pub mod errors;
pub mod laws;
pub mod ledger;
pub mod model;
pub mod requests;
pub mod session;
pub mod state;
pub mod store;
pub mod templates;
pub mod txn;
pub mod upload;
pub mod users;

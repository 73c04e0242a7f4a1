//! Typed values the application keeps in its shared state and hands to
//! request handlers.

use vstd::prelude::*;

verus! {

/// The signed-in user a handler reads from the request context.
#[derive(Debug)]
pub struct UserInfo {
    pub username: String,
}

/// A handle-shaped description of the database the application talks to.
#[derive(Debug)]
pub struct DatabaseClient {
    pub dsn: String,
}

/// A handle-shaped description of the cache the application talks to.
#[derive(Debug)]
pub struct RedisClient {
    pub host: String,
}

/// The application state shared across handlers: one database client and
/// one cache client.
#[derive(Debug)]
pub struct ArcState {
    pub db: DatabaseClient,
    pub rdb: RedisClient,
}

} // verus!

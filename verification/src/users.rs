//! Typed values of the user-editing pages and the cached user profile.

use vstd::prelude::*;

verus! {

/// The form a user-editing page submits.
#[derive(Debug)]
pub struct EditUser {
    pub id: i32,
    pub username: String,
    pub email: String,
}

/// The stored model a user-editing page displays.
#[derive(Debug)]
pub struct UserModel {
    pub id: i32,
    pub username: String,
    pub email: String,
}

/// A user profile as cached in the key-value store.
#[derive(Debug)]
pub struct UserInfo {
    pub id: i32,
    pub username: String,
    pub email: String,
}

} // verus!

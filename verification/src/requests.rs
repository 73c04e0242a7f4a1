//! Typed values parsed out of request paths, query strings and form or
//! JSON bodies before they reach any handler logic.

use vstd::prelude::*;

verus! {

/// Path parameters naming a repository: the owner and the repository name.
#[derive(Debug)]
pub struct RepoInfo {
    pub user_name: String,
    pub repo_name: String,
}

/// Query parameters of a subject listing: both are required.
#[derive(Debug)]
pub struct SubjectArgs {
    pub page: i32,
    pub keyword: String,
}

/// Query parameters of a subject listing with both left optional.
#[derive(Debug)]
pub struct SubjectArgsOpt {
    pub page: Option<i32>,
    pub keyword: Option<String>,
}

/// A user-creation form or JSON body.
#[derive(Debug)]
pub struct CreateUser {
    pub username: String,
    pub email: String,
    pub level: u8,
}

} // verus!

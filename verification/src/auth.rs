//! Authorization decisions. The engine assumes its caller authenticates
//! requests; these are the pure decisions that authentication layer makes
//! once the credentials stand in typed values.

use vstd::prelude::*;

verus! {

/// The token response handed to a caller whose credentials were accepted.
#[derive(Debug)]
pub struct AuthBody {
    pub access_token: String,
    pub token_type: String,
}

impl AuthBody {
    /// Wrap an access token; the token type is always `Bearer`.
    pub fn new(access_token: String) -> (r: AuthBody)
        ensures
            r.access_token@ == access_token@,
            r.token_type@ == "Bearer"@,
    {
        AuthBody { access_token, token_type: "Bearer".to_string() }
    }
}

/// What the token endpoint decides about a pair of client credentials.
#[derive(Clone, Copy, Debug, PartialEq, Eq, Structural)]
pub enum AuthOutcome {
    Authorized,
    MissingCredentials,
    WrongCredentials,
}

/// Decide a token request: empty credentials are rejected as missing,
/// credentials other than the one accepted client as wrong.
pub fn authorize_decision(client_id: &String, client_secret: &String) -> (r: AuthOutcome)
    ensures
        client_id@.len() == 0 || client_secret@.len() == 0 ==> r
            == AuthOutcome::MissingCredentials,
        client_id@.len() > 0 && client_secret@.len() > 0 && !(client_id@ == "axum.rs"@
            && client_secret@ == "team@axum.rs"@) ==> r == AuthOutcome::WrongCredentials,
        client_id@ == "axum.rs"@ && client_secret@ == "team@axum.rs"@ && client_id@.len() > 0
            && client_secret@.len() > 0 ==> r == AuthOutcome::Authorized,
{
    if client_id.as_str().is_empty() || client_secret.as_str().is_empty() {
        return AuthOutcome::MissingCredentials;
    }
    let expected_id = "axum.rs".to_string();
    let expected_secret = "team@axum.rs".to_string();
    if !(*client_id == expected_id && *client_secret == expected_secret) {
        return AuthOutcome::WrongCredentials;
    }
    AuthOutcome::Authorized
}

/// Decide whether an authorization header value grants access to the
/// guarded routes.
pub fn header_authorizes(value: &String) -> (r: bool)
    ensures
        r == (value@ == "secret"@),
{
    let expected = "secret".to_string();
    *value == expected
}

} // verus!

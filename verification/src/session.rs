//! Signing in: the login form's prefilled values and when the access token
//! must be refreshed.
use vstd::prelude::*;

verus! {

/// The login name and server address remembered from an earlier sign-in.
#[derive(Debug, Clone, PartialEq, Eq)]
pub struct SavedSession {
    pub login: String,
    pub base_url: String,
}

/// The login form's initial login name and server address: the remembered
/// ones, or empty.
pub fn prefill(saved: Option<SavedSession>) -> (r: (String, String))
    ensures
        saved matches Some(s) ==> r.0@ == s.login@ && r.1@ == s.base_url@,
        saved is None ==> r.0@.len() == 0 && r.1@.len() == 0,
{
    match saved {
        Some(s) => (s.login, s.base_url),
        None => (String::new(), String::new()),
    }
}

/// Seconds after which the session stops being valid: the grant's lifetime,
/// when it has one and came with a refresh token.
pub fn refresh_after(expires_in: u64, refresh_token: &str) -> (r: Option<u64>)
    ensures
        r == (if expires_in > 0 && refresh_token@.len() > 0 { Some(expires_in) } else { None }),
{
    if expires_in > 0 && refresh_token.unicode_len() > 0 {
        Some(expires_in)
    } else {
        None
    }
}

/// The signed-in session: the access and refresh tokens, the server's
/// address, and whether the session is still valid.
#[derive(Debug, Clone, PartialEq, Eq)]
pub struct AuthToken {
    pub access_token: String,
    pub refresh_token: String,
    pub base_url: String,
    pub is_valid: bool,
}

/// The session a granted sign-in sets: the granted access token, the
/// granted refresh token (empty when none came), the server address signed
/// in to, and valid.
pub fn session_from_grant(access_token: String, refresh_token: Option<String>, base_url: String) -> (t: AuthToken)
    ensures
        t.access_token@ == access_token@,
        t.refresh_token@ == match refresh_token {
            Some(r) => r@,
            None => Seq::<char>::empty(),
        },
        t.base_url@ == base_url@,
        t.is_valid,
{
    let refresh_token = match refresh_token {
        Some(r) => r,
        None => String::new(),
    };
    AuthToken { access_token, refresh_token, base_url, is_valid: true }
}

/// Ends a session's validity once its lifetime is over; the tokens and the
/// address are kept.
pub fn expire(token: &mut AuthToken)
    ensures
        final(token).access_token == old(token).access_token,
        final(token).refresh_token == old(token).refresh_token,
        final(token).base_url == old(token).base_url,
        !final(token).is_valid,
{
    token.is_valid = false;
}

} // verus!

//! The user record that holds the bearer token between runs.

use vstd::prelude::*;

verus! {

/// A user as stored: the bearer token, and the times, in seconds since the
/// epoch, at which it was issued and at which it expires.
#[derive(Debug)]
pub struct User {
    pub id: String,
    pub username: Option<String>,
    pub netlify_token: String,
    pub token_issued_at: i64,
    pub token_expires_at: i64,
    pub last_login: i64,
    pub created_at: i64,
    /// The user's settings, as JSON text.
    pub settings: Option<String>,
}

impl User {
    /// Whether the stored token is still good at the time `now`.
    pub fn token_is_valid(&self, now: i64) -> (r: bool)
        ensures
            r == (self.token_expires_at > now),
    {
        self.token_expires_at > now
    }
}

/// The token to go on with at the time `now`, given the stored user, if
/// there is one: the user's token while it has not expired. `None` calls
/// for a new login.
pub fn stored_token(user: Option<&User>, now: i64) -> (r: Option<String>)
    ensures
        match user {
            Some(u) => if u.token_expires_at > now {
                r is Some && r->0@ == u.netlify_token@
            } else {
                r is None
            },
            None => r is None,
        },
{
    match user {
        Some(u) => if u.token_is_valid(now) {
            Some(u.netlify_token.clone())
        } else {
            None
        },
        None => None,
    }
}

} // verus!

//! The pure pieces of the GitHub OAuth exchange: the token-request
//! payload built from the configuration, the user data the exchange
//! returns, and the choice of a verified primary email. The HTTP
//! calls themselves live outside the crate.

use vstd::prelude::*;

use crate::users::UserError;

verus! {

/// What the token exchange posts to GitHub.
#[derive(Clone)]
pub struct GithubUserTokenPayload {
    pub client_id: String,
    pub client_secret: String,
    pub code: String,
}

impl GithubUserTokenPayload {
    /// The exchange payload for an access code, under the configured
    /// application credentials.
    pub fn from_code(code: String, github: &crate::config::GithubConfig) -> (r: Self)
        ensures
            r.client_id == github.client_id,
            r.client_secret == github.client_secret,
            r.code == code,
    {
        GithubUserTokenPayload {
            client_id: github.client_id.clone(),
            client_secret: github.client_secret.clone(),
            code,
        }
    }
}

/// The user record the exchange returns.
#[derive(Clone)]
pub struct GithubUserData {
    pub id: u32,
    pub avatar_url: String,
}

/// One address of the account's email list.
#[derive(Clone)]
pub struct GithubEmailData {
    pub email: String,
    pub primary: bool,
    pub verified: bool,
}

/// The first address that is both primary and verified.
pub open spec fn spec_first_usable_email(emails: Seq<GithubEmailData>, i: int) -> Option<
    Seq<char>,
>
    decreases emails.len() - i,
{
    if i < 0 || i >= emails.len() {
        None
    } else if emails[i].primary && emails[i].verified {
        Some(emails[i].email@)
    } else {
        spec_first_usable_email(emails, i + 1)
    }
}

/// Pick the account's usable email: its first primary verified
/// address; an account without one is refused.
#[verifier::loop_isolation(false)]
pub fn pick_verified_email(emails: &Vec<GithubEmailData>) -> (r: Result<String, UserError>)
    ensures
        match spec_first_usable_email(emails@, 0) {
            Some(e) => r is Ok && r.unwrap()@ == e,
            None => r == Err::<String, UserError>(UserError::NoVerifiedEmail),
        },
{
    let n = emails.len();
    let mut i: usize = 0;
    while i < n
        invariant
            i <= n,
            spec_first_usable_email(emails@, 0) == spec_first_usable_email(emails@, i as int),
        decreases n - i,
    {
        let e = &emails[i];
        if e.primary && e.verified {
            return Ok(e.email.clone());
        }
        i = i + 1;
    }
    Err(UserError::NoVerifiedEmail)
}

} // verus!

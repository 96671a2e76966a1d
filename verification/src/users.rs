//! User data shapes and the pure rules of the user routes: username
//! and password validation, email-reachability verdicts, credential
//! selection for login, response shaping, and the star toggle's
//! arithmetic. The durable store, the password hasher and the mail
//! checker live outside the crate and hand their answers in.

use vstd::prelude::*;
use vstd::string::StrSliceExecFns;
use vstd::string::StringExecFns;

use crate::auth::Authorization;
use crate::pastes::PastePreview;
use crate::pastes::PasteVisibility;
use crate::text::chars_vec;
use crate::text::str_eq;

verus! {

/// A user as reads return it; the email only for the user themself.
#[derive(Clone)]
pub struct User {
    pub id: String,
    pub username: String,
    pub email: Option<String>,
    pub created_at: i64,
    pub avatar_url: Option<String>,
    pub github_id: Option<i32>,
}

#[derive(Clone)]
pub struct UserPayload {
    pub username: String,
    pub email: String,
    pub password: String,
}

#[derive(Clone)]
pub struct GithubUserPayload {
    pub username: String,
    pub access_code: String,
}

#[derive(Clone)]
pub struct UserCreateResponse {
    pub id: String,
}

#[derive(Clone)]
pub struct LoginPayload {
    pub username: Option<String>,
    pub email: Option<String>,
    pub password: String,
}

#[derive(Clone)]
pub struct GithubLoginPayload {
    pub access_code: String,
}

#[derive(Clone)]
pub struct LoginResponse {
    pub id: String,
    pub token: String,
}

#[derive(Clone)]
pub struct PutStarResponse {
    pub stars: u32,
    pub deleted: bool,
}

#[derive(Clone)]
pub struct PasteStarEntry {
    pub user_id: String,
    pub username: String,
    pub starred_at: i64,
}

#[derive(Clone)]
pub struct ValidationPayload {
    pub email: Option<String>,
    pub username: Option<String>,
}

/// Why a user request is refused.
#[derive(Clone, Copy, PartialEq, Eq, Structural, Debug)]
pub enum UserError {
    /// Usernames run from 3 to 32 characters (400).
    UsernameLength,
    /// Usernames hold only alphanumerics, `_` and `-` (400).
    UsernameCharset,
    /// Usernames neither start nor end with `-` (400).
    UsernameHyphen,
    /// Passwords run from 6 to 128 characters (400).
    PasswordLength,
    /// The email already belongs to an account (409).
    EmailTaken,
    /// The username already belongs to an account (409).
    UsernameTaken,
    /// The availability check found the email taken (409).
    EmailInUse,
    /// The availability check found the username taken (409).
    UsernameInUse,
    /// The email's reachability could not be established (400).
    EmailUnverifiable,
    /// The email is invalid (400).
    EmailInvalid,
    /// The email looks like a throwaway or overflowing inbox (400).
    EmailRisky,
    /// A login needs a username or an email (400).
    MissingCredentials,
    /// No account matches the credentials (404).
    InvalidCredentials,
    /// The account was registered through another method (400).
    WrongLoginMethod,
    /// The password does not match (401).
    InvalidPassword,
    /// The GitHub account is already bound to an account (409).
    GithubAccountTaken,
    /// The GitHub account has no primary verified email (400).
    NoVerifiedEmail,
}

pub open spec fn spec_user_error_status(e: UserError) -> u16 {
    match e {
        UserError::UsernameLength => 400,
        UserError::UsernameCharset => 400,
        UserError::UsernameHyphen => 400,
        UserError::PasswordLength => 400,
        UserError::EmailTaken => 409,
        UserError::UsernameTaken => 409,
        UserError::EmailInUse => 409,
        UserError::UsernameInUse => 409,
        UserError::EmailUnverifiable => 400,
        UserError::EmailInvalid => 400,
        UserError::EmailRisky => 400,
        UserError::MissingCredentials => 400,
        UserError::InvalidCredentials => 404,
        UserError::WrongLoginMethod => 400,
        UserError::InvalidPassword => 401,
        UserError::GithubAccountTaken => 409,
        UserError::NoVerifiedEmail => 400,
    }
}

impl UserError {
    /// The HTTP-style status this refusal is surfaced with.
    pub fn status(&self) -> (s: u16)
        ensures
            s == spec_user_error_status(*self),
    {
        match self {
            UserError::UsernameLength => 400,
            UserError::UsernameCharset => 400,
            UserError::UsernameHyphen => 400,
            UserError::PasswordLength => 400,
            UserError::EmailTaken => 409,
            UserError::UsernameTaken => 409,
            UserError::EmailInUse => 409,
            UserError::UsernameInUse => 409,
            UserError::EmailUnverifiable => 400,
            UserError::EmailInvalid => 400,
            UserError::EmailRisky => 400,
            UserError::MissingCredentials => 400,
            UserError::InvalidCredentials => 404,
            UserError::WrongLoginMethod => 400,
            UserError::InvalidPassword => 401,
            UserError::GithubAccountTaken => 409,
            UserError::NoVerifiedEmail => 400,
        }
    }

    /// The message body this refusal is surfaced with; exactly
    /// `spec_user_error_message`.
    pub fn message(&self) -> (m: String)
        ensures
            m@ == spec_user_error_message(*self),
    {
        match self {
            UserError::UsernameLength => String::from_str(
                "Username must be between 3 and 32 characters long",
            ),
            UserError::UsernameCharset => String::from_str(
                "Username must only contain alphanumeric characters, _ and -",
            ),
            UserError::UsernameHyphen => String::from_str("Username must not start or end with -"),
            UserError::PasswordLength => String::from_str(
                "Password must be between 6 and 128 characters long",
            ),
            UserError::EmailTaken => String::from_str("Email is already taken"),
            UserError::UsernameTaken => String::from_str("Username already taken"),
            UserError::EmailInUse => String::from_str("Email already in use"),
            UserError::UsernameInUse => String::from_str("Username already in use"),
            UserError::EmailUnverifiable => String::from_str(
                "Unable to verify if the provided email address is valid, please try using a different one.",
            ),
            UserError::EmailInvalid => String::from_str("Invalid email address"),
            UserError::EmailRisky => String::from_str(
                "Unsupported email address. This likely happens because you're using a temp-email service or your email has a full inbox.",
            ),
            UserError::MissingCredentials => String::from_str(
                "Must provide either email or username",
            ),
            UserError::InvalidCredentials => String::from_str("Invalid credentials"),
            UserError::WrongLoginMethod => String::from_str(
                "You registered using a different method such as GitHub or Google. Please try using the method you registered with to login instead.",
            ),
            UserError::InvalidPassword => String::from_str("Invalid password"),
            UserError::GithubAccountTaken => String::from_str(
                "An account already exists that is associated with that GitHub account already",
            ),
            UserError::NoVerifiedEmail => String::from_str(
                "GitHub account does not have a primary or verified email",
            ),
        }
    }
}

pub open spec fn spec_user_error_message(e: UserError) -> Seq<char> {
    match e {
        UserError::UsernameLength => "Username must be between 3 and 32 characters long"@,
        UserError::UsernameCharset => "Username must only contain alphanumeric characters, _ and -"@,
        UserError::UsernameHyphen => "Username must not start or end with -"@,
        UserError::PasswordLength => "Password must be between 6 and 128 characters long"@,
        UserError::EmailTaken => "Email is already taken"@,
        UserError::UsernameTaken => "Username already taken"@,
        UserError::EmailInUse => "Email already in use"@,
        UserError::UsernameInUse => "Username already in use"@,
        UserError::EmailUnverifiable => "Unable to verify if the provided email address is valid, please try using a different one."@,
        UserError::EmailInvalid => "Invalid email address"@,
        UserError::EmailRisky => "Unsupported email address. This likely happens because you're using a temp-email service or your email has a full inbox."@,
        UserError::MissingCredentials => "Must provide either email or username"@,
        UserError::InvalidCredentials => "Invalid credentials"@,
        UserError::WrongLoginMethod => "You registered using a different method such as GitHub or Google. Please try using the method you registered with to login instead."@,
        UserError::InvalidPassword => "Invalid password"@,
        UserError::GithubAccountTaken => "An account already exists that is associated with that GitHub account already"@,
        UserError::NoVerifiedEmail => "GitHub account does not have a primary or verified email"@,
    }
}

// --- username and password validation ---

/// The characters a username may hold.
pub open spec fn is_username_char(c: char) -> bool {
    ||| 97 <= c as u32 <= 122
    ||| 65 <= c as u32 <= 90
    ||| 48 <= c as u32 <= 57
    ||| c as u32 == 95
    ||| c as u32 == 45
}

/// The username rules, in order: length, charset, hyphen placement.
pub open spec fn spec_username_issue(s: Seq<char>) -> Option<UserError> {
    if s.len() < 3 || s.len() > 32 {
        Some(UserError::UsernameLength)
    } else if !(forall|j: int| 0 <= j < s.len() ==> is_username_char(s[j])) {
        Some(UserError::UsernameCharset)
    } else if s[0] == '-' || s[s.len() - 1] == '-' {
        Some(UserError::UsernameHyphen)
    } else {
        None
    }
}

/// Validate a username; exactly `spec_username_issue`.
#[verifier::loop_isolation(false)]
pub fn validate_username(username: &str) -> (r: Result<(), UserError>)
    ensures
        match spec_username_issue(username@) {
            Some(e) => r == Err::<(), UserError>(e),
            None => r == Ok::<(), UserError>(()),
        },
{
    let v = chars_vec(username);
    let n = v.len();
    if n < 3 || n > 32 {
        return Err(UserError::UsernameLength);
    }
    let mut i: usize = 0;
    while i < n
        invariant
            i <= n,
            forall|j: int| 0 <= j < i ==> is_username_char(v@[j]),
        decreases n - i,
    {
        let cv = v[i] as u32;
        let ok = (97 <= cv && cv <= 122) || (65 <= cv && cv <= 90) || (48 <= cv && cv <= 57)
            || cv == 95 || cv == 45;
        if !ok {
            proof {
                assert(!is_username_char(username@[i as int]));
            }
            return Err(UserError::UsernameCharset);
        }
        i = i + 1;
    }
    if v[0] == '-' || v[n - 1] == '-' {
        return Err(UserError::UsernameHyphen);
    }
    Ok(())
}

/// Passwords run from 6 to 128 characters.
pub open spec fn spec_password_len_ok(s: Seq<char>) -> bool {
    6 <= s.len() <= 128
}

/// The pure checks of account creation, before any durable lookup:
/// the username rules, then the password length.
pub fn create_user_precheck(payload: &UserPayload) -> (r: Result<(), UserError>)
    ensures
        match spec_username_issue(payload.username@) {
            Some(e) => r == Err::<(), UserError>(e),
            None => if spec_password_len_ok(payload.password@) {
                r == Ok::<(), UserError>(())
            } else {
                r == Err::<(), UserError>(UserError::PasswordLength)
            },
        },
{
    match validate_username(payload.username.as_str()) {
        Err(e) => Err(e),
        Ok(_) => {
            let len = payload.password.as_str().unicode_len();
            if len < 6 || len > 128 {
                Err(UserError::PasswordLength)
            } else {
                Ok(())
            }
        },
    }
}

// --- email reachability ---

/// What the mail checker reports of an address, as a plain value.
#[derive(Clone, Copy, PartialEq, Eq, Structural, Debug)]
pub enum Reachability {
    Unknown,
    Invalid,
    Risky,
    Safe,
}

/// The verdict on a reachability report: safe addresses pass, and an
/// unknown verdict passes only for the one large provider that always
/// reports unknown.
pub fn email_verdict(reachability: Reachability, domain: &str) -> (r: Result<(), UserError>)
    ensures
        match reachability {
            Reachability::Safe => r == Ok::<(), UserError>(()),
            Reachability::Unknown => if domain@ == "outlook.com"@ {
                r == Ok::<(), UserError>(())
            } else {
                r == Err::<(), UserError>(UserError::EmailUnverifiable)
            },
            Reachability::Invalid => r == Err::<(), UserError>(UserError::EmailInvalid),
            Reachability::Risky => r == Err::<(), UserError>(UserError::EmailRisky),
        },
{
    match reachability {
        Reachability::Safe => Ok(()),
        Reachability::Unknown => {
            if str_eq(domain, "outlook.com") {
                Ok(())
            } else {
                Err(UserError::EmailUnverifiable)
            }
        },
        Reachability::Invalid => Err(UserError::EmailInvalid),
        Reachability::Risky => Err(UserError::EmailRisky),
    }
}

// --- login ---

/// Which credential a login looks an account up by.
pub enum LoginKey {
    ByUsername(String),
    ByEmail(String),
}

/// The credential choice: a username wins over an email; with neither
/// the login is refused.
pub fn login_plan(payload: &LoginPayload) -> (r: Result<LoginKey, UserError>)
    ensures
        match payload.username {
            Some(ref u) => match r {
                Ok(LoginKey::ByUsername(s)) => s@ == u@,
                _ => false,
            },
            None => match payload.email {
                Some(ref e) => match r {
                    Ok(LoginKey::ByEmail(s)) => s@ == e@,
                    _ => false,
                },
                None => r == Err::<LoginKey, UserError>(UserError::MissingCredentials),
            },
        },
{
    match &payload.username {
        Some(u) => Ok(LoginKey::ByUsername(u.clone())),
        None => match &payload.email {
            Some(e) => Ok(LoginKey::ByEmail(e.clone())),
            None => Err(UserError::MissingCredentials),
        },
    }
}

/// The account-record check before hashing: no record means invalid
/// credentials; a record without a stored password belongs to an
/// OAuth-registered account; otherwise the id and hash go to the
/// hasher.
pub fn login_precheck(record: Option<(String, Option<String>)>) -> (r: Result<
    (String, String),
    UserError,
>)
    ensures
        match record {
            None => r == Err::<(String, String), UserError>(UserError::InvalidCredentials),
            Some((ref id, ref hashed)) => match *hashed {
                None => r == Err::<(String, String), UserError>(UserError::WrongLoginMethod),
                Some(ref h) => r is Ok && r.unwrap().0@ == id@ && r.unwrap().1@ == h@,
            },
        },
{
    match record {
        None => Err(UserError::InvalidCredentials),
        Some((id, hashed)) => match hashed {
            None => Err(UserError::WrongLoginMethod),
            Some(h) => Ok((id, h)),
        },
    }
}

/// The tail of a login once the hash check has run.
pub fn login_verdict(id: String, password_ok: bool) -> (r: Result<String, UserError>)
    ensures
        password_ok ==> r is Ok && r.unwrap()@ == id@,
        !password_ok ==> r == Err::<String, UserError>(UserError::InvalidPassword),
{
    if password_ok {
        Ok(id)
    } else {
        Err(UserError::InvalidPassword)
    }
}

// --- response shaping ---

/// The email field of a user read: only the user themself sees it.
pub fn sanitize_user_email(auth: &Option<Authorization>, id: &str, email: Option<String>) -> (r:
    Option<String>)
    ensures
        ({
            let is_self = match *auth {
                Some(ref a) => a.0@ == id@,
                None => false,
            };
            if is_self {
                r == email
            } else {
                r is None
            }
        }),
{
    match auth {
        Some(a) => {
            if str_eq(a.0.as_str(), id) {
                email
            } else {
                None
            }
        },
        None => None,
    }
}

/// Whether a listing shows a preview in full: discoverable pastes to
/// any verified viewer, everything to its author, the rest blanked.
pub open spec fn spec_preview_visible(
    auth: Option<Seq<char>>,
    author_id: Option<Seq<char>>,
    vis: PasteVisibility,
) -> bool {
    match auth {
        Some(u) => vis == PasteVisibility::Discoverable || (match author_id {
            Some(a) => u == a,
            None => false,
        }),
        None => false,
    }
}

/// Blank everything but the public counters of a preview.
pub fn into_sanitized_paste(preview: PastePreview) -> (r: PastePreview)
    ensures
        r.id == preview.id,
        r.author_id == preview.author_id,
        r.author_name == preview.author_name,
        r.created_at == preview.created_at,
        r.visibility == preview.visibility,
        r.stars == preview.stars,
        r.views == preview.views,
        r.available == false,
        r.name is None,
        r.description is None,
        r.first_file is None,
        r.starred_at is None,
{
    PastePreview {
        id: preview.id,
        author_id: preview.author_id,
        author_name: preview.author_name,
        created_at: preview.created_at,
        visibility: preview.visibility,
        stars: preview.stars,
        views: preview.views,
        available: false,
        name: None,
        description: None,
        first_file: None,
        starred_at: None,
    }
}

/// A preview as the viewer may see it: kept whole when
/// `spec_preview_visible`, blanked otherwise.
pub fn sanitize_paste(auth: &Option<Authorization>, preview: PastePreview) -> (r: PastePreview)
    ensures
        ({
            let visible = spec_preview_visible(
                match *auth {
                    Some(ref a) => Some(a.0@),
                    None => None,
                },
                match preview.author_id {
                    Some(ref a) => Some(a@),
                    None => None,
                },
                preview.visibility,
            );
            if visible {
                r == preview
            } else {
                r.id == preview.id && r.author_id == preview.author_id && r.author_name
                    == preview.author_name && r.created_at == preview.created_at && r.visibility
                    == preview.visibility && r.stars == preview.stars && r.views == preview.views
                    && r.available == false && r.name is None && r.description is None
                    && r.first_file is None && r.starred_at is None
            }
        }),
{
    if let Some(a) = auth {
        if matches!(preview.visibility, PasteVisibility::Discoverable) {
            return preview;
        }
        if let Some(owner) = &preview.author_id {
            if str_eq(a.0.as_str(), owner.as_str()) {
                return preview;
            }
        }
    }
    into_sanitized_paste(preview)
}

// --- stars ---

/// The star toggle's arithmetic: an insert raises the count by one, a
/// removal (the star already existed) lowers it by one and reports the
/// deletion.
pub fn star_toggle(initial_stars: i64, inserted: bool) -> (r: PutStarResponse)
    requires
        0 <= initial_stars,
        initial_stars + 1 <= u32::MAX,
        !inserted ==> initial_stars >= 1,
    ensures
        inserted ==> r.stars == initial_stars + 1,
        !inserted ==> r.stars == initial_stars - 1,
        r.deleted == !inserted,
{
    if inserted {
        PutStarResponse { stars: (initial_stars + 1) as u32, deleted: false }
    } else {
        PutStarResponse { stars: (initial_stars - 1) as u32, deleted: true }
    }
}

// --- availability validation ---

/// The availability check's verdict, given which of the asked-for
/// fields are taken: a taken email wins over a taken username.
pub fn validation_verdict(email_taken: Option<bool>, username_taken: Option<bool>) -> (r: Result<
    (),
    UserError,
>)
    ensures
        email_taken == Some(true) ==> r == Err::<(), UserError>(UserError::EmailInUse),
        email_taken != Some(true) && username_taken == Some(true) ==> r == Err::<(), UserError>(
            UserError::UsernameInUse,
        ),
        email_taken != Some(true) && username_taken != Some(true) ==> r == Ok::<(), UserError>(()),
{
    if matches!(email_taken, Some(true)) {
        Err(UserError::EmailInUse)
    } else if matches!(username_taken, Some(true)) {
        Err(UserError::UsernameInUse)
    } else {
        Ok(())
    }
}

} // verus!

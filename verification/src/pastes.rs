//! Paste data shapes and the pure rules of the paste routes: payload
//! validation and the visibility gate. The durable reads and writes
//! around them live outside the crate and hand values in.

use vstd::prelude::*;
use vstd::string::StrSliceExecFns;
use vstd::string::StringExecFns;
use vstd::utf8::encode_utf8;

use crate::auth::Authorization;
use crate::text::dec_string;
use crate::text::spec_dec_digits;

verus! {

/// Who may see a paste.
#[derive(Copy, Clone, Debug, PartialEq, Eq, Structural, Hash)]
pub enum PasteVisibility {
    Private,
    Protected,
    Unlisted,
    Discoverable,
}

impl Default for PasteVisibility {
    /// New pastes are unlisted unless the payload says otherwise.
    fn default() -> (r: Self)
        ensures
            r == PasteVisibility::Unlisted,
    {
        PasteVisibility::Unlisted
    }
}

/// The wire representation of a visibility.
pub open spec fn spec_visibility_repr(v: PasteVisibility) -> u8 {
    match v {
        PasteVisibility::Private => 0,
        PasteVisibility::Protected => 1,
        PasteVisibility::Unlisted => 2,
        PasteVisibility::Discoverable => 3,
    }
}

impl PasteVisibility {
    /// The wire representation; exactly `spec_visibility_repr`.
    pub fn as_u8(&self) -> (r: u8)
        ensures
            r == spec_visibility_repr(*self),
    {
        match self {
            PasteVisibility::Private => 0,
            PasteVisibility::Protected => 1,
            PasteVisibility::Unlisted => 2,
            PasteVisibility::Discoverable => 3,
        }
    }

    /// The visibility a stored representation denotes. Only the four
    /// stored values are meaningful; anything else is a corrupt row.
    pub fn from_u8(n: u8) -> (r: Self)
        requires
            n <= 3,
        ensures
            spec_visibility_repr(r) == n,
    {
        match n {
            0 => PasteVisibility::Private,
            1 => PasteVisibility::Protected,
            2 => PasteVisibility::Unlisted,
            _ => PasteVisibility::Discoverable,
        }
    }
}

/// One file of a paste.
#[derive(Debug)]
pub struct File {
    pub filename: Option<String>,
    pub content: String,
    pub language: Option<String>,
}

/// A full paste as a read returns it.
#[derive(Debug)]
pub struct Paste {
    pub id: String,
    pub author_id: Option<String>,
    pub author_name: Option<String>,
    pub name: String,
    pub description: Option<String>,
    pub visibility: PasteVisibility,
    pub files: Vec<File>,
    pub created_at: i64,
    pub views: u32,
    pub stars: u32,
    pub starred: Option<bool>,
}

/// A paste as listings return it: at most its first file, and only
/// what the viewer may see.
#[derive(Debug)]
pub struct PastePreview {
    pub id: Option<String>,
    pub author_id: Option<String>,
    pub author_name: Option<String>,
    pub name: Option<String>,
    pub description: Option<String>,
    pub visibility: PasteVisibility,
    pub first_file: Option<File>,
    pub created_at: i64,
    pub views: u32,
    pub stars: u32,
    pub available: bool,
    pub starred_at: Option<i64>,
}

/// What a paste creation request carries.
#[derive(Debug)]
pub struct PastePayload {
    pub name: Option<String>,
    pub description: Option<String>,
    pub visibility: PasteVisibility,
    pub password: Option<String>,
    pub files: Vec<File>,
}

/// What a paste creation returns.
#[derive(Debug)]
pub struct PasteResponse {
    pub id: String,
}

/// The query parameters of a paste read.
pub struct GetPasteQuery {
    pub password: Option<String>,
}

/// Why a paste request is refused before any durable write.
#[derive(Clone, Copy, PartialEq, Eq, Structural, Debug)]
pub enum PasteError {
    /// A private paste needs a verified identity (400).
    AuthRequiredForPrivate,
    /// A protected paste needs a password field (400).
    MissingProtectedPassword,
    /// The protected paste's password may not be empty (400).
    EmptyProtectedPassword,
    /// A paste needs at least one file (400).
    NoFiles,
    /// At most 16 files (400).
    TooManyFiles { count: usize },
    /// A filename is limited to 64 characters (400).
    FilenameTooLong { index: usize, length: usize },
    /// A language tag is limited to 32 characters (400).
    LanguageTooLong { index: usize, length: usize },
    /// A file is limited to 2 MiB (413).
    FileTooLarge { index: usize, size: usize },
    /// Reading a private paste needs a verified identity (401).
    AuthRequiredForPaste,
    /// Reading a protected paste needs a password query parameter (401).
    PasswordRequired,
    /// The supplied password does not match (401).
    IncorrectPassword,
    /// A protected paste without a stored password is a corrupt row (500).
    MalformedPaste,
    /// Only the author may delete a paste (403).
    NotYourPaste,
}

pub open spec fn spec_paste_error_status(e: PasteError) -> u16 {
    match e {
        PasteError::AuthRequiredForPrivate => 400,
        PasteError::MissingProtectedPassword => 400,
        PasteError::EmptyProtectedPassword => 400,
        PasteError::NoFiles => 400,
        PasteError::TooManyFiles { .. } => 400,
        PasteError::FilenameTooLong { .. } => 400,
        PasteError::LanguageTooLong { .. } => 400,
        PasteError::FileTooLarge { .. } => 413,
        PasteError::AuthRequiredForPaste => 401,
        PasteError::PasswordRequired => 401,
        PasteError::IncorrectPassword => 401,
        PasteError::MalformedPaste => 500,
        PasteError::NotYourPaste => 403,
    }
}

impl PasteError {
    /// The HTTP-style status this refusal is surfaced with.
    pub fn status(&self) -> (s: u16)
        ensures
            s == spec_paste_error_status(*self),
    {
        match self {
            PasteError::AuthRequiredForPrivate => 400,
            PasteError::MissingProtectedPassword => 400,
            PasteError::EmptyProtectedPassword => 400,
            PasteError::NoFiles => 400,
            PasteError::TooManyFiles { .. } => 400,
            PasteError::FilenameTooLong { .. } => 400,
            PasteError::LanguageTooLong { .. } => 400,
            PasteError::FileTooLarge { .. } => 413,
            PasteError::AuthRequiredForPaste => 401,
            PasteError::PasswordRequired => 401,
            PasteError::IncorrectPassword => 401,
            PasteError::MalformedPaste => 500,
            PasteError::NotYourPaste => 403,
        }
    }

    /// The message body this refusal is surfaced with; exactly
    /// `spec_paste_error_message`, with counts and sizes rendered in
    /// decimal.
    pub fn message(&self) -> (m: String)
        ensures
            m@ == spec_paste_error_message(*self),
    {
        match self {
            PasteError::AuthRequiredForPrivate => String::from_str(
                "Authorization header required for private pastes",
            ),
            PasteError::MissingProtectedPassword => String::from_str(
                "Missing password field in a paste with protected visibility",
            ),
            PasteError::EmptyProtectedPassword => String::from_str(
                "Password field must be at least 1 character long",
            ),
            PasteError::NoFiles => String::from_str("No files provided"),
            PasteError::TooManyFiles { count } => {
                let mut m = String::from_str("Received ");
                let n = dec_string(*count as u128);
                m.append(n.as_str());
                m.append(" files, which is greater than the maximum of 16");
                proof {
                    assert(m@ =~= spec_paste_error_message(*self));
                }
                m
            },
            PasteError::FilenameTooLong { index, length } => {
                let mut m = String::from_str("The filename of the file at index ");
                let i = dec_string(*index as u128);
                m.append(i.as_str());
                m.append(" (0-indexed) has a length of ");
                let l = dec_string(*length as u128);
                m.append(l.as_str());
                m.append(", which surpasses the maximum of 64");
                proof {
                    assert(m@ =~= spec_paste_error_message(*self));
                }
                m
            },
            PasteError::LanguageTooLong { index, length } => {
                let mut m = String::from_str("The language of the file at index ");
                let i = dec_string(*index as u128);
                m.append(i.as_str());
                m.append(" (0-indexed) has a length of ");
                let l = dec_string(*length as u128);
                m.append(l.as_str());
                m.append(", which surpasses the maximum of 32");
                proof {
                    assert(m@ =~= spec_paste_error_message(*self));
                }
                m
            },
            PasteError::FileTooLarge { index, size } => {
                let mut m = String::from_str("The file at index ");
                let i = dec_string(*index as u128);
                m.append(i.as_str());
                m.append(" (0-indexed) has a size of ");
                let s = dec_string(*size as u128);
                m.append(s.as_str());
                m.append(" bytes, which surpasses the maximum of 2 MiB");
                proof {
                    assert(m@ =~= spec_paste_error_message(*self));
                }
                m
            },
            PasteError::AuthRequiredForPaste => String::from_str("Authorization header required"),
            PasteError::PasswordRequired => String::from_str(
                "Please provide a \"password\" query parameter containing this paste's password.",
            ),
            PasteError::IncorrectPassword => String::from_str("Incorrect password"),
            PasteError::MalformedPaste => String::from_str(
                "Accessed a malformed paste! This shouldn't happen.",
            ),
            PasteError::NotYourPaste => String::from_str(
                "You do not have permission to delete this paste",
            ),
        }
    }
}

pub open spec fn spec_paste_error_message(e: PasteError) -> Seq<char> {
    match e {
        PasteError::AuthRequiredForPrivate => "Authorization header required for private pastes"@,
        PasteError::MissingProtectedPassword => "Missing password field in a paste with protected visibility"@,
        PasteError::EmptyProtectedPassword => "Password field must be at least 1 character long"@,
        PasteError::NoFiles => "No files provided"@,
        PasteError::TooManyFiles { count } => "Received "@ + spec_dec_digits(count as int)
            + " files, which is greater than the maximum of 16"@,
        PasteError::FilenameTooLong { index, length } => "The filename of the file at index "@
            + spec_dec_digits(index as int) + " (0-indexed) has a length of "@ + spec_dec_digits(
            length as int,
        ) + ", which surpasses the maximum of 64"@,
        PasteError::LanguageTooLong { index, length } => "The language of the file at index "@
            + spec_dec_digits(index as int) + " (0-indexed) has a length of "@ + spec_dec_digits(
            length as int,
        ) + ", which surpasses the maximum of 32"@,
        PasteError::FileTooLarge { index, size } => "The file at index "@ + spec_dec_digits(
            index as int,
        ) + " (0-indexed) has a size of "@ + spec_dec_digits(size as int)
            + " bytes, which surpasses the maximum of 2 MiB"@,
        PasteError::AuthRequiredForPaste => "Authorization header required"@,
        PasteError::PasswordRequired => "Please provide a \"password\" query parameter containing this paste's password."@,
        PasteError::IncorrectPassword => "Incorrect password"@,
        PasteError::MalformedPaste => "Accessed a malformed paste! This shouldn't happen."@,
        PasteError::NotYourPaste => "You do not have permission to delete this paste"@,
    }
}

/// The first fault of one file, checked in the order filename,
/// language, content size. Name and tag lengths are in characters,
/// content size in bytes.
pub open spec fn spec_file_issue(f: File, idx: int) -> Option<PasteError> {
    if f.filename is Some && f.filename.unwrap()@.len() > 64 {
        Some(
            PasteError::FilenameTooLong {
                index: idx as usize,
                length: f.filename.unwrap()@.len() as usize,
            },
        )
    } else if f.language is Some && f.language.unwrap()@.len() > 32 {
        Some(
            PasteError::LanguageTooLong {
                index: idx as usize,
                length: f.language.unwrap()@.len() as usize,
            },
        )
    } else if encode_utf8(f.content@).len() as usize > 2097152 {
        Some(
            PasteError::FileTooLarge {
                index: idx as usize,
                size: encode_utf8(f.content@).len() as usize,
            },
        )
    } else {
        None
    }
}

/// The first fault among the files at or after `i`, in order.
pub open spec fn spec_first_file_issue(files: Seq<File>, i: int) -> Option<PasteError>
    decreases files.len() - i,
{
    if i < 0 || i >= files.len() {
        None
    } else {
        match spec_file_issue(files[i], i) {
            Some(e) => Some(e),
            None => spec_first_file_issue(files, i + 1),
        }
    }
}

/// The whole payload check, in order: visibility and password shape,
/// then file count, then each file.
pub open spec fn spec_validate_paste(has_auth: bool, p: &PastePayload) -> Option<PasteError> {
    if p.visibility == PasteVisibility::Private && !has_auth {
        Some(PasteError::AuthRequiredForPrivate)
    } else if p.visibility == PasteVisibility::Protected && p.password is None {
        Some(PasteError::MissingProtectedPassword)
    } else if p.visibility == PasteVisibility::Protected && p.password.unwrap()@.len() == 0 {
        Some(PasteError::EmptyProtectedPassword)
    } else if p.files@.len() == 0 {
        Some(PasteError::NoFiles)
    } else if p.files@.len() > 16 {
        Some(PasteError::TooManyFiles { count: p.files@.len() as usize })
    } else {
        spec_first_file_issue(p.files@, 0)
    }
}

/// Validate a creation payload; exactly `spec_validate_paste`. Only a
/// payload passing this reaches the store.
#[verifier::rlimit(50)]
#[verifier::loop_isolation(false)]
pub fn validate_paste_payload(auth: &Option<Authorization>, payload: &PastePayload) -> (r: Result<
    (),
    PasteError,
>)
    ensures
        match spec_validate_paste(auth is Some, payload) {
            Some(e) => r == Err::<(), PasteError>(e),
            None => r == Ok::<(), PasteError>(()),
        },
{
    if matches!(payload.visibility, PasteVisibility::Private) && auth.is_none() {
        return Err(PasteError::AuthRequiredForPrivate);
    }
    if matches!(payload.visibility, PasteVisibility::Protected) {
        match &payload.password {
            None => {
                return Err(PasteError::MissingProtectedPassword);
            },
            Some(p) => {
                if p.as_str().unicode_len() == 0 {
                    return Err(PasteError::EmptyProtectedPassword);
                }
            },
        }
    }
    let count = payload.files.len();
    if count == 0 {
        return Err(PasteError::NoFiles);
    }
    if count > 16 {
        return Err(PasteError::TooManyFiles { count });
    }
    let mut i: usize = 0;
    while i < count
        invariant
            i <= count,
            count == payload.files@.len(),
            spec_first_file_issue(payload.files@, 0) == spec_first_file_issue(
                payload.files@,
                i as int,
            ),
        decreases count - i,
    {
        let f = &payload.files[i];
        match &f.filename {
            Some(name) => {
                let len = name.as_str().unicode_len();
                if len > 64 {
                    return Err(PasteError::FilenameTooLong { index: i, length: len });
                }
            },
            None => {},
        }
        match &f.language {
            Some(tag) => {
                let len = tag.as_str().unicode_len();
                if len > 32 {
                    return Err(PasteError::LanguageTooLong { index: i, length: len });
                }
            },
            None => {},
        }
        let size = f.content.as_str().len();
        if size > 2097152 {
            return Err(PasteError::FileTooLarge { index: i, size });
        }
        proof {
            assert(spec_file_issue(payload.files@[i as int], i as int) is None);
        }
        i = i + 1;
    }
    Ok(())
}

/// Whether the viewer is the paste's author, or the paste is at least
/// unlisted.
pub open spec fn spec_paste_authorized(
    auth: Option<Seq<char>>,
    author_id: Option<Seq<char>>,
    vis: PasteVisibility,
) -> bool {
    match (auth, author_id) {
        (Some(u), Some(a)) => u == a,
        _ => spec_visibility_repr(vis) >= 2,
    }
}

/// What the visibility gate decides before any password hashing.
pub enum PasteGate {
    /// The viewer may read the paste.
    Allowed,
    /// The supplied password must be checked against the stored hash;
    /// `password_verdict` turns the check's outcome into a decision.
    CheckPassword { supplied: String, hashed: String },
    /// The read is refused outright.
    Denied(PasteError),
}

/// The visibility gate of a paste read, as far as it can be decided
/// without hashing: a private paste needs an identity; a protected
/// paste read by a non-author needs the stored hash checked against
/// the query password, which must be present, and the stored hash must
/// exist.
pub fn paste_access(
    auth: &Option<Authorization>,
    author_id: &Option<String>,
    visibility: PasteVisibility,
    stored_password: &Option<String>,
    query_password: &Option<String>,
) -> (r: PasteGate)
    ensures
        ({
            let authorized = spec_paste_authorized(
                match *auth {
                    Some(ref a) => Some(a.0@),
                    None => None,
                },
                match *author_id {
                    Some(ref a) => Some(a@),
                    None => None,
                },
                visibility,
            );
            if visibility == PasteVisibility::Private && auth is None {
                r is Denied && (match r {
                    PasteGate::Denied(e) => e == PasteError::AuthRequiredForPaste,
                    _ => false,
                })
            } else if visibility == PasteVisibility::Protected && !authorized {
                match *query_password {
                    Some(ref q) => match *stored_password {
                        Some(ref h) => match r {
                            PasteGate::CheckPassword { ref supplied, ref hashed } => supplied@
                                == q@ && hashed@ == h@,
                            _ => false,
                        },
                        None => r is Denied && (match r {
                            PasteGate::Denied(e) => e == PasteError::MalformedPaste,
                            _ => false,
                        }),
                    },
                    None => r is Denied && (match r {
                        PasteGate::Denied(e) => e == PasteError::PasswordRequired,
                        _ => false,
                    }),
                }
            } else {
                r is Allowed
            }
        }),
{
    if matches!(visibility, PasteVisibility::Private) && auth.is_none() {
        return PasteGate::Denied(PasteError::AuthRequiredForPaste);
    }
    let authorized = match (auth, author_id) {
        (Some(a), Some(owner)) => crate::text::str_eq(a.0.as_str(), owner.as_str()),
        _ => visibility.as_u8() >= 2,
    };
    if matches!(visibility, PasteVisibility::Protected) && !authorized {
        match query_password {
            Some(q) => match stored_password {
                Some(h) => PasteGate::CheckPassword { supplied: q.clone(), hashed: h.clone() },
                None => PasteGate::Denied(PasteError::MalformedPaste),
            },
            None => PasteGate::Denied(PasteError::PasswordRequired),
        }
    } else {
        PasteGate::Allowed
    }
}

/// The stored name of a new paste: the payload's, or the unnamed
/// default.
pub fn paste_name_or_default(name: Option<String>) -> (r: String)
    ensures
        match name {
            Some(ref n) => r == *n,
            None => r@ == "Untitled Paste"@,
        },
{
    match name {
        Some(n) => n,
        None => String::from_str("Untitled Paste"),
    }
}

/// The deletion gate: only the stored author, and only a stored
/// author, may delete.
pub fn delete_permission(author_id: &Option<String>, user_id: &str) -> (r: Result<(), PasteError>)
    ensures
        ({
            let allowed = match *author_id {
                Some(ref a) => a@ == user_id@,
                None => false,
            };
            if allowed {
                r == Ok::<(), PasteError>(())
            } else {
                r == Err::<(), PasteError>(PasteError::NotYourPaste)
            }
        }),
{
    match author_id {
        Some(a) => {
            if crate::text::str_eq(a.as_str(), user_id) {
                Ok(())
            } else {
                Err(PasteError::NotYourPaste)
            }
        },
        None => Err(PasteError::NotYourPaste),
    }
}

/// The tail of a protected read once the hash check has run.
pub fn password_verdict(password_ok: bool) -> (r: Result<(), PasteError>)
    ensures
        password_ok ==> r == Ok::<(), PasteError>(()),
        !password_ok ==> r == Err::<(), PasteError>(PasteError::IncorrectPassword),
{
    if password_ok {
        Ok(())
    } else {
        Err(PasteError::IncorrectPassword)
    }
}

} // verus!

use turbine::auth::Authorization;
use turbine::config::{default_db, default_host, default_port, default_username, GithubConfig};
use turbine::languages::{default_color, resolve_language, RawLanguage};
use turbine::oauth::{pick_verified_email, GithubEmailData, GithubUserTokenPayload};
use turbine::pastes::{
    delete_permission, paste_access, paste_name_or_default, password_verdict,
    validate_paste_payload, File, PasteError, PasteGate, PastePayload, PasteVisibility,
};
use turbine::users::{
    create_user_precheck, email_verdict, login_plan, login_precheck, login_verdict,
    sanitize_paste, sanitize_user_email, star_toggle, validate_username, validation_verdict,
    LoginKey, LoginPayload, Reachability, UserError, UserPayload,
};

// --- usernames and passwords ---

#[test]
fn username_rules() {
    assert_eq!(validate_username("ab"), Err(UserError::UsernameLength));
    assert_eq!(
        validate_username("a-very-long-username-over-32-chars"),
        Err(UserError::UsernameLength)
    );
    assert_eq!(validate_username("user!name"), Err(UserError::UsernameCharset));
    assert_eq!(validate_username("user name"), Err(UserError::UsernameCharset));
    assert_eq!(validate_username("-user"), Err(UserError::UsernameHyphen));
    assert_eq!(validate_username("user-"), Err(UserError::UsernameHyphen));
    assert_eq!(validate_username("some_User-1"), Ok(()));
    assert_eq!(UserError::UsernameLength.status(), 400);
}

#[test]
fn create_user_prechecks() {
    let ok = UserPayload {
        username: "alice".to_string(),
        email: "a@example.com".to_string(),
        password: "hunter2!".to_string(),
    };
    assert_eq!(create_user_precheck(&ok), Ok(()));
    let short = UserPayload { password: "abc".to_string(), ..ok.clone() };
    assert_eq!(create_user_precheck(&short), Err(UserError::PasswordLength));
    let long = UserPayload { password: "x".repeat(129), ..ok.clone() };
    assert_eq!(create_user_precheck(&long), Err(UserError::PasswordLength));
    let bad_name = UserPayload { username: "-x-".to_string(), ..ok };
    assert_eq!(create_user_precheck(&bad_name), Err(UserError::UsernameHyphen));
}

#[test]
fn email_verdicts() {
    assert_eq!(email_verdict(Reachability::Safe, "example.com"), Ok(()));
    assert_eq!(email_verdict(Reachability::Unknown, "outlook.com"), Ok(()));
    assert_eq!(
        email_verdict(Reachability::Unknown, "example.com"),
        Err(UserError::EmailUnverifiable)
    );
    assert_eq!(
        email_verdict(Reachability::Invalid, "outlook.com"),
        Err(UserError::EmailInvalid)
    );
    assert_eq!(email_verdict(Reachability::Risky, "example.com"), Err(UserError::EmailRisky));
    assert_eq!(UserError::EmailRisky.status(), 400);
}

// --- login ---

#[test]
fn login_credential_choice() {
    let both = LoginPayload {
        username: Some("alice".to_string()),
        email: Some("a@example.com".to_string()),
        password: "pw".to_string(),
    };
    match login_plan(&both) {
        Ok(LoginKey::ByUsername(u)) => assert_eq!(u, "alice"),
        other => panic!("username must win, got {:?}", other.is_ok()),
    }
    let email_only = LoginPayload { username: None, ..both.clone() };
    match login_plan(&email_only) {
        Ok(LoginKey::ByEmail(e)) => assert_eq!(e, "a@example.com"),
        other => panic!("email must be used, got {:?}", other.is_ok()),
    }
    let neither = LoginPayload { username: None, email: None, password: "pw".to_string() };
    assert!(matches!(login_plan(&neither), Err(UserError::MissingCredentials)));
}

#[test]
fn login_record_checks() {
    assert_eq!(login_precheck(None), Err(UserError::InvalidCredentials));
    assert_eq!(
        login_precheck(Some(("id-1".to_string(), None))),
        Err(UserError::WrongLoginMethod)
    );
    let (id, hash) = login_precheck(Some(("id-1".to_string(), Some("$argon$x".to_string()))))
        .unwrap();
    assert_eq!(id, "id-1");
    assert_eq!(hash, "$argon$x");
    assert_eq!(login_verdict("id-1".to_string(), true), Ok("id-1".to_string()));
    assert_eq!(
        login_verdict("id-1".to_string(), false),
        Err(UserError::InvalidPassword)
    );
    assert_eq!(UserError::InvalidCredentials.status(), 404);
    assert_eq!(UserError::InvalidPassword.status(), 401);
}

// --- response shaping ---

#[test]
fn email_is_shown_only_to_its_owner() {
    let email = Some("a@example.com".to_string());
    let me = Some(Authorization("id-1".to_string()));
    let someone = Some(Authorization("id-2".to_string()));
    assert_eq!(sanitize_user_email(&me, "id-1", email.clone()), email);
    assert_eq!(sanitize_user_email(&someone, "id-1", email.clone()), None);
    assert_eq!(sanitize_user_email(&None, "id-1", email), None);
}

fn preview(visibility: PasteVisibility, author: Option<&str>) -> turbine::pastes::PastePreview {
    turbine::pastes::PastePreview {
        id: Some("p-1".to_string()),
        author_id: author.map(|a| a.to_string()),
        author_name: author.map(|a| a.to_string()),
        name: Some("a paste".to_string()),
        description: Some("words".to_string()),
        visibility,
        first_file: Some(File {
            filename: Some("main.rs".to_string()),
            content: "fn main() {}".to_string(),
            language: Some("rust".to_string()),
        }),
        created_at: 11,
        views: 4,
        stars: 2,
        available: true,
        starred_at: None,
    }
}

#[test]
fn previews_are_blanked_for_strangers() {
    let me = Some(Authorization("id-1".to_string()));
    // own unlisted paste: kept whole
    let kept = sanitize_paste(&me, preview(PasteVisibility::Unlisted, Some("id-1")));
    assert_eq!(kept.name.as_deref(), Some("a paste"));
    assert!(kept.available);
    // someone else's unlisted paste: blanked, counters kept
    let blanked = sanitize_paste(&me, preview(PasteVisibility::Unlisted, Some("id-2")));
    assert_eq!(blanked.name, None);
    assert_eq!(blanked.description, None);
    assert!(blanked.first_file.is_none());
    assert!(!blanked.available);
    assert_eq!(blanked.stars, 2);
    assert_eq!(blanked.views, 4);
    assert_eq!(blanked.author_id.as_deref(), Some("id-2"));
    // anyone verified sees a discoverable paste
    let disco = sanitize_paste(&me, preview(PasteVisibility::Discoverable, Some("id-2")));
    assert!(disco.available);
    // nobody anonymous sees anything whole
    let anon = sanitize_paste(&None, preview(PasteVisibility::Discoverable, Some("id-2")));
    assert!(!anon.available);
}

// --- paste validation and access ---

fn file(content: &str) -> File {
    File { filename: None, content: content.to_string(), language: None }
}

fn payload(files: Vec<File>) -> PastePayload {
    PastePayload {
        name: None,
        description: None,
        visibility: PasteVisibility::Unlisted,
        password: None,
        files,
    }
}

#[test]
fn paste_payload_rules() {
    let auth = Some(Authorization("id-1".to_string()));
    let mut p = payload(vec![file("hello")]);
    assert_eq!(validate_paste_payload(&auth, &p), Ok(()));

    p.visibility = PasteVisibility::Private;
    assert_eq!(
        validate_paste_payload(&None, &p),
        Err(PasteError::AuthRequiredForPrivate)
    );
    assert_eq!(validate_paste_payload(&auth, &p), Ok(()));

    p.visibility = PasteVisibility::Protected;
    assert_eq!(
        validate_paste_payload(&auth, &p),
        Err(PasteError::MissingProtectedPassword)
    );
    p.password = Some(String::new());
    assert_eq!(
        validate_paste_payload(&auth, &p),
        Err(PasteError::EmptyProtectedPassword)
    );
    p.password = Some("pw".to_string());
    assert_eq!(validate_paste_payload(&auth, &p), Ok(()));

    p.files = vec![];
    assert_eq!(validate_paste_payload(&auth, &p), Err(PasteError::NoFiles));
    p.files = (0..17).map(|_| file("x")).collect();
    assert_eq!(
        validate_paste_payload(&auth, &p),
        Err(PasteError::TooManyFiles { count: 17 })
    );
}

#[test]
fn paste_file_limits() {
    let auth = Some(Authorization("id-1".to_string()));
    let long_name = File {
        filename: Some("n".repeat(65)),
        content: "x".to_string(),
        language: None,
    };
    let p = payload(vec![file("fine"), long_name]);
    assert_eq!(
        validate_paste_payload(&auth, &p),
        Err(PasteError::FilenameTooLong { index: 1, length: 65 })
    );
    let long_lang = File {
        filename: None,
        content: "x".to_string(),
        language: Some("l".repeat(33)),
    };
    let p = payload(vec![long_lang]);
    assert_eq!(
        validate_paste_payload(&auth, &p),
        Err(PasteError::LanguageTooLong { index: 0, length: 33 })
    );
    let big = file(&"y".repeat(2 * 1024 * 1024 + 1));
    let p = payload(vec![big]);
    assert_eq!(
        validate_paste_payload(&auth, &p),
        Err(PasteError::FileTooLarge { index: 0, size: 2 * 1024 * 1024 + 1 })
    );
    assert_eq!(PasteError::FileTooLarge { index: 0, size: 0 }.status(), 413);
}

#[test]
fn visibility_representation_round_trips() {
    for n in 0..=3u8 {
        assert_eq!(PasteVisibility::from_u8(n).as_u8(), n);
    }
    assert_eq!(PasteVisibility::default(), PasteVisibility::Unlisted);
}

#[test]
fn paste_read_gate() {
    let me = Some(Authorization("id-1".to_string()));
    let owner = Some("id-1".to_string());
    let stranger_owner = Some("id-2".to_string());
    let stored = Some("$argon$h".to_string());

    // private without identity: refused
    match paste_access(&None, &owner, PasteVisibility::Private, &stored, &None) {
        PasteGate::Denied(e) => assert_eq!(e, PasteError::AuthRequiredForPaste),
        _ => panic!("a private paste needs an identity"),
    }
    // the author reads their protected paste without a password
    assert!(matches!(
        paste_access(&me, &owner, PasteVisibility::Protected, &stored, &None),
        PasteGate::Allowed
    ));
    // a stranger needs the password checked
    match paste_access(&me, &stranger_owner, PasteVisibility::Protected, &stored, &Some("pw".to_string())) {
        PasteGate::CheckPassword { supplied, hashed } => {
            assert_eq!(supplied, "pw");
            assert_eq!(hashed, "$argon$h");
        },
        _ => panic!("a stranger's protected read goes to the hasher"),
    }
    // ... and without a supplied password is refused
    match paste_access(&me, &stranger_owner, PasteVisibility::Protected, &stored, &None) {
        PasteGate::Denied(e) => assert_eq!(e, PasteError::PasswordRequired),
        _ => panic!("a password is required"),
    }
    // a protected paste without a stored hash is a corrupt row
    match paste_access(&me, &stranger_owner, PasteVisibility::Protected, &None, &Some("pw".to_string())) {
        PasteGate::Denied(e) => assert_eq!(e, PasteError::MalformedPaste),
        _ => panic!("a stored hash is required"),
    }
    // unlisted pastes read freely
    assert!(matches!(
        paste_access(&None, &stranger_owner, PasteVisibility::Unlisted, &None, &None),
        PasteGate::Allowed
    ));
    assert_eq!(password_verdict(true), Ok(()));
    assert_eq!(password_verdict(false), Err(PasteError::IncorrectPassword));
}

#[test]
fn only_the_author_deletes() {
    assert_eq!(delete_permission(&Some("id-1".to_string()), "id-1"), Ok(()));
    assert_eq!(
        delete_permission(&Some("id-1".to_string()), "id-2"),
        Err(PasteError::NotYourPaste)
    );
    assert_eq!(delete_permission(&None, "id-1"), Err(PasteError::NotYourPaste));
    assert_eq!(PasteError::NotYourPaste.status(), 403);
}

// --- stars and availability ---

#[test]
fn star_toggle_arithmetic() {
    let up = star_toggle(2, true);
    assert_eq!(up.stars, 3);
    assert!(!up.deleted);
    let down = star_toggle(3, false);
    assert_eq!(down.stars, 2);
    assert!(down.deleted);
}

#[test]
fn availability_verdicts() {
    assert_eq!(validation_verdict(None, None), Ok(()));
    assert_eq!(validation_verdict(Some(false), Some(false)), Ok(()));
    assert_eq!(validation_verdict(Some(true), Some(true)), Err(UserError::EmailInUse));
    assert_eq!(validation_verdict(Some(false), Some(true)), Err(UserError::UsernameInUse));
    assert_eq!(UserError::EmailTaken.status(), 409);
    assert_eq!(UserError::EmailInUse.status(), 409);
    assert_eq!(UserError::UsernameInUse.status(), 409);
    assert_eq!(UserError::GithubAccountTaken.status(), 409);
}

#[test]
fn user_error_messages_match_the_served_bodies() {
    assert_eq!(
        UserError::UsernameLength.message(),
        "Username must be between 3 and 32 characters long"
    );
    assert_eq!(
        UserError::UsernameCharset.message(),
        "Username must only contain alphanumeric characters, _ and -"
    );
    assert_eq!(UserError::UsernameHyphen.message(), "Username must not start or end with -");
    assert_eq!(
        UserError::PasswordLength.message(),
        "Password must be between 6 and 128 characters long"
    );
    assert_eq!(UserError::EmailTaken.message(), "Email is already taken");
    assert_eq!(UserError::UsernameTaken.message(), "Username already taken");
    assert_eq!(UserError::EmailInUse.message(), "Email already in use");
    assert_eq!(UserError::UsernameInUse.message(), "Username already in use");
    assert_eq!(UserError::EmailInvalid.message(), "Invalid email address");
    assert_eq!(UserError::MissingCredentials.message(), "Must provide either email or username");
    assert_eq!(UserError::InvalidCredentials.message(), "Invalid credentials");
    assert_eq!(UserError::InvalidPassword.message(), "Invalid password");
    assert_eq!(
        UserError::NoVerifiedEmail.message(),
        "GitHub account does not have a primary or verified email"
    );
    assert_eq!(
        UserError::EmailRisky.message(),
        "Unsupported email address. This likely happens because you're using a temp-email service or your email has a full inbox."
    );
}

#[test]
fn paste_error_messages_match_the_served_bodies() {
    assert_eq!(
        PasteError::AuthRequiredForPrivate.message(),
        "Authorization header required for private pastes"
    );
    assert_eq!(PasteError::NoFiles.message(), "No files provided");
    assert_eq!(
        PasteError::TooManyFiles { count: 17 }.message(),
        "Received 17 files, which is greater than the maximum of 16"
    );
    assert_eq!(
        PasteError::FilenameTooLong { index: 1, length: 65 }.message(),
        "The filename of the file at index 1 (0-indexed) has a length of 65, which surpasses the maximum of 64"
    );
    assert_eq!(
        PasteError::LanguageTooLong { index: 0, length: 33 }.message(),
        "The language of the file at index 0 (0-indexed) has a length of 33, which surpasses the maximum of 32"
    );
    assert_eq!(
        PasteError::FileTooLarge { index: 2, size: 2097153 }.message(),
        "The file at index 2 (0-indexed) has a size of 2097153 bytes, which surpasses the maximum of 2 MiB"
    );
    assert_eq!(PasteError::AuthRequiredForPaste.message(), "Authorization header required");
    assert_eq!(
        PasteError::PasswordRequired.message(),
        "Please provide a \"password\" query parameter containing this paste's password."
    );
    assert_eq!(PasteError::IncorrectPassword.message(), "Incorrect password");
    assert_eq!(
        PasteError::MalformedPaste.message(),
        "Accessed a malformed paste! This shouldn't happen."
    );
    assert_eq!(
        PasteError::NotYourPaste.message(),
        "You do not have permission to delete this paste"
    );
}

#[test]
fn a_nameless_paste_gets_the_default_name() {
    assert_eq!(paste_name_or_default(Some("notes".to_string())), "notes");
    assert_eq!(paste_name_or_default(None), "Untitled Paste");
}

// --- oauth ---

#[test]
fn token_payload_carries_the_configured_credentials() {
    let github = GithubConfig {
        client_id: "cid".to_string(),
        client_secret: "SECRET-REDACTED".to_string(),
    };
    let p = GithubUserTokenPayload::from_code("code-1".to_string(), &github);
    assert_eq!(p.client_id, "cid");
    assert_eq!(p.client_secret, "SECRET-REDACTED");
    assert_eq!(p.code, "code-1");
}

fn gh_email(email: &str, primary: bool, verified: bool) -> GithubEmailData {
    GithubEmailData { email: email.to_string(), primary, verified }
}

#[test]
fn the_first_primary_verified_email_wins() {
    let emails = vec![
        gh_email("a@example.com", false, true),
        gh_email("b@example.com", true, false),
        gh_email("c@example.com", true, true),
        gh_email("d@example.com", true, true),
    ];
    assert_eq!(pick_verified_email(&emails).unwrap(), "c@example.com");
    let none = vec![gh_email("a@example.com", false, false)];
    assert_eq!(pick_verified_email(&none), Err(UserError::NoVerifiedEmail));
    assert_eq!(UserError::NoVerifiedEmail.status(), 400);
}

// --- configuration defaults ---

#[test]
fn configuration_defaults() {
    assert_eq!(default_port(), 8081);
    assert_eq!(default_host(), "localhost");
    assert_eq!(default_username(), "postgres");
    assert_eq!(default_db(), "turbine");
}

// --- the language catalog ---

fn raw(ace: &str) -> RawLanguage {
    RawLanguage {
        kind: "programming".to_string(),
        color: default_color(),
        aliases: vec![],
        filenames: vec![],
        extensions: vec![".a".to_string()],
        wrap: false,
        ace_mode: ace.to_string(),
    }
}

#[test]
fn language_special_cases() {
    assert_eq!(default_color(), "#FFFFFF");

    assert!(resolve_language("GCC Machine Description".to_string(), raw("md")).is_none());

    let tsx = resolve_language("TSX".to_string(), raw("javascript")).unwrap();
    assert_eq!(tsx.ace_mode, "tsx");

    let kotlin = resolve_language("Kotlin".to_string(), raw("text")).unwrap();
    assert_eq!(kotlin.ace_mode, "kotlin");

    // plain-text entries are dropped, except the text entry itself
    assert!(resolve_language("Roff".to_string(), raw("text")).is_none());
    let text = resolve_language("Text".to_string(), raw("text")).unwrap();
    assert_eq!(text.ace_mode, "text");

    let mut xml_raw = raw("xml");
    xml_raw.extensions = vec![
        ".xml".to_string(),
        ".ts".to_string(),
        ".tsx".to_string(),
        ".rs".to_string(),
        ".svg".to_string(),
    ];
    let xml = resolve_language("XML".to_string(), xml_raw).unwrap();
    assert_eq!(xml.extensions, vec![".xml".to_string(), ".svg".to_string()]);

    let plain = resolve_language("Rust".to_string(), raw("rust")).unwrap();
    assert_eq!(plain.name, "Rust");
    assert_eq!(plain.extensions, vec![".a".to_string()]);
}

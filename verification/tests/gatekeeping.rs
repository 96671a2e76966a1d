use turbine::auth::{auth_token, finish_auth, generate_id, generate_token, AuthHeaderValue};
use turbine::cache::IdentityCache;
use turbine::errors::GateError;
use turbine::ip::ClientIp;
use turbine::ratelimit::{Decision, Ratelimit, RatelimitLayer};

fn rejected_ms(d: Decision) -> u64 {
    match d {
        Decision::Rejected { retry_after_ms } => retry_after_ms,
        Decision::Admitted => panic!("expected a rejection"),
    }
}

const KEY_A: ClientIp = ClientIp::V4(192, 0, 2, 1);
const KEY_B: ClientIp = ClientIp::V4(203, 0, 113, 5);

#[test]
fn burst_within_quota_then_rejected() {
    // With no elapsed time, the first `rate` requests pass and the
    // next is rejected with the whole window as its retry time.
    let mut store = Ratelimit::new(3, 7);
    let now = 1_000;
    for _ in 0..3 {
        assert_eq!(store.admit_key(KEY_A, now), Decision::Admitted);
    }
    let d = store.admit_key(KEY_A, now);
    assert_eq!(rejected_ms(d), 7_000);
}

#[test]
fn waiting_out_the_retry_time_admits() {
    let mut store = Ratelimit::new(1, 5);
    let now = 42;
    assert_eq!(store.admit_key(KEY_A, now), Decision::Admitted);
    let retry = rejected_ms(store.admit_key(KEY_A, now));
    assert_eq!(retry, 5_000);
    // one millisecond early is still rejected; exactly on time passes
    assert_eq!(rejected_ms(store.admit_key(KEY_A, now + retry - 1)), 1);
    assert_eq!(store.admit_key(KEY_A, now + retry), Decision::Admitted);
}

#[test]
fn end_to_end_two_per_five_seconds() {
    // rate=2, per=5s; three calls back to back, then one after 5s
    let mut store = RatelimitLayer(2, 5).make_store();
    let t0 = 10_000;
    assert_eq!(store.admit_key(KEY_A, t0), Decision::Admitted);
    assert_eq!(store.admit_key(KEY_A, t0), Decision::Admitted);
    assert_eq!(rejected_ms(store.admit_key(KEY_A, t0)), 5_000);
    assert_eq!(store.admit_key(KEY_A, t0 + 5_000), Decision::Admitted);
}

#[test]
fn distinct_keys_do_not_share_quota() {
    let mut store = Ratelimit::new(1, 5);
    let now = 0;
    assert_eq!(store.admit_key(KEY_A, now), Decision::Admitted);
    assert_eq!(store.admit_key(KEY_B, now), Decision::Admitted);
    assert!(matches!(store.admit_key(KEY_A, now), Decision::Rejected { .. }));
    assert!(matches!(store.admit_key(KEY_B, now), Decision::Rejected { .. }));
}

#[test]
fn rejection_does_not_spend_quota() {
    let mut store = Ratelimit::new(2, 5);
    assert_eq!(store.admit_key(KEY_A, 0), Decision::Admitted);
    assert_eq!(store.admit_key(KEY_A, 0), Decision::Admitted);
    // rejections while cooling down change nothing
    for _ in 0..10 {
        assert!(matches!(store.admit_key(KEY_A, 100), Decision::Rejected { .. }));
    }
    // after the window the full quota is back
    assert_eq!(store.admit_key(KEY_A, 5_000), Decision::Admitted);
    assert_eq!(store.admit_key(KEY_A, 5_000), Decision::Admitted);
    assert!(matches!(store.admit_key(KEY_A, 5_000), Decision::Rejected { .. }));
}

#[test]
fn a_window_never_admits_more_than_the_quota() {
    // many requests scattered inside one window, whatever their
    // pattern: exactly `rate` of them pass
    let mut store = Ratelimit::new(5, 10);
    let t0 = 1_000;
    let mut admitted = 0;
    for k in 0..200u64 {
        // a deterministic scatter of instants within [t0, t0 + 10_000)
        let now = t0 + (k * 997) % 10_000;
        if store.admit_key(KEY_A, now) == Decision::Admitted {
            admitted += 1;
        }
    }
    assert_eq!(admitted, 5);
}

#[test]
fn gate_refuses_unresolved_clients() {
    let mut store = Ratelimit::new(2, 5);
    let r = store.gate_request(None, 0);
    assert_eq!(r, Err(GateError::IpUnresolved));
    assert_eq!(GateError::IpUnresolved.status(), 500);
    // a resolved client passes through the admission check
    assert_eq!(store.gate_request(Some(KEY_A), 0), Ok(()));
    assert_eq!(store.gate_request(Some(KEY_A), 0), Ok(()));
    match store.gate_request(Some(KEY_A), 0) {
        Err(GateError::RateLimited { retry_after_ms }) => assert_eq!(retry_after_ms, 5_000),
        other => panic!("expected a rate-limit rejection, got {:?}", other),
    }
}

#[test]
fn sweep_drops_only_stale_buckets() {
    let mut store = Ratelimit::new(1, 5);
    assert_eq!(store.admit_key(KEY_A, 0), Decision::Admitted);
    // KEY_A's cooldown runs to 5_000
    assert_eq!(store.admit_key(KEY_B, 60_000), Decision::Admitted);
    // a sweep at 70_000 with a 60s horizon drops KEY_A (cooldown and
    // touch both long past) but keeps KEY_B (touched recently)
    store.sweep(70_000, 60_000);
    assert_eq!(store.admit_key(KEY_A, 70_000), Decision::Admitted); // fresh again
    assert!(matches!(store.admit_key(KEY_B, 60_000), Decision::Rejected { .. }));
}

#[test]
fn sweep_never_drops_a_cooling_bucket() {
    let mut store = Ratelimit::new(1, 600);
    assert_eq!(store.admit_key(KEY_A, 0), Decision::Admitted);
    // cooldown runs to 600_000, far beyond the sweep instant
    store.sweep(300_000, 0);
    assert!(matches!(store.admit_key(KEY_A, 300_000), Decision::Rejected { .. }));
}

#[test]
fn ratelimit_message_carries_the_retry_time() {
    let e = GateError::RateLimited { retry_after_ms: 5_250 };
    assert_eq!(e.status(), 429);
    assert_eq!(
        e.message(),
        "You are being ratelimited. Try again in 5.250 seconds"
    );
    let e = GateError::RateLimited { retry_after_ms: 60 };
    assert_eq!(
        e.message(),
        "You are being ratelimited. Try again in 0.060 seconds"
    );
}

#[test]
fn gate_error_statuses_and_messages() {
    assert_eq!(GateError::IpUnresolved.status(), 500);
    assert_eq!(
        GateError::IpUnresolved.message(),
        "Could not resolve your IP address, which is needed for security and DoS protection purposes."
    );
    assert_eq!(GateError::MissingAuthHeader.status(), 400);
    assert_eq!(GateError::MissingAuthHeader.message(), "Missing 'Authorization' header");
    assert_eq!(GateError::MalformedAuthHeader.status(), 400);
    assert_eq!(
        GateError::MalformedAuthHeader.message(),
        "Authorization header is not valid UTF-8"
    );
    assert_eq!(GateError::InvalidToken.status(), 404);
    assert_eq!(GateError::InvalidToken.message(), "Invalid authorization token");
    assert_eq!(GateError::StoreFailure.status(), 500);
}

// --- the identity cache ---

/// The cache-aside protocol as the resolver runs it, with a counter
/// standing in for the durable store.
fn resolve_counting(
    cache: &mut IdentityCache,
    durable: &[(&str, &str)],
    hits: &mut u32,
    token: &str,
) -> Option<String> {
    if let Some(id) = cache.lookup(token) {
        return Some(id);
    }
    *hits += 1;
    let answer = durable
        .iter()
        .find(|(t, _)| *t == token)
        .map(|(_, id)| id.to_string());
    cache.resolve_miss(token, answer)
}

#[test]
fn unknown_token_resolves_to_nothing_and_is_never_cached() {
    let mut cache = IdentityCache::new();
    let mut hits = 0;
    let durable = [("tok-good", "user-1")];
    assert_eq!(resolve_counting(&mut cache, &durable, &mut hits, "tok-bad"), None);
    assert_eq!(hits, 1);
    // the miss was not cached: the durable store is asked again
    assert_eq!(resolve_counting(&mut cache, &durable, &mut hits, "tok-bad"), None);
    assert_eq!(hits, 2);
}

#[test]
fn durable_hit_is_cached_and_served_from_cache() {
    let mut cache = IdentityCache::new();
    let mut hits = 0;
    let durable = [("tok-good", "user-1")];
    assert_eq!(
        resolve_counting(&mut cache, &durable, &mut hits, "tok-good").as_deref(),
        Some("user-1")
    );
    assert_eq!(hits, 1);
    for _ in 0..3 {
        assert_eq!(
            resolve_counting(&mut cache, &durable, &mut hits, "tok-good").as_deref(),
            Some("user-1")
        );
    }
    // no further durable hit
    assert_eq!(hits, 1);
}

#[test]
fn racing_population_is_idempotent() {
    // two first-time lookups both reached the durable store and both
    // write the same record; the second write changes nothing
    let mut cache = IdentityCache::new();
    let first = cache.resolve_miss("tok", Some("user-9".to_string()));
    let second = cache.resolve_miss("tok", Some("user-9".to_string()));
    assert_eq!(first.as_deref(), Some("user-9"));
    assert_eq!(second.as_deref(), Some("user-9"));
    assert_eq!(cache.lookup("tok").as_deref(), Some("user-9"));
    // an unrelated entry is untouched by the race
    cache.resolve_miss("other", Some("user-2".to_string()));
    assert_eq!(cache.lookup("other").as_deref(), Some("user-2"));
    assert_eq!(cache.lookup("tok").as_deref(), Some("user-9"));
}

// --- the auth resolver ---

#[test]
fn auth_header_outcomes() {
    assert_eq!(auth_token(&AuthHeaderValue::Missing), Err(GateError::MissingAuthHeader));
    assert_eq!(auth_token(&AuthHeaderValue::NotText), Err(GateError::MalformedAuthHeader));
    let t = auth_token(&AuthHeaderValue::Text("tok-1".to_string())).unwrap();
    assert_eq!(t, "tok-1");
}

#[test]
fn finish_auth_resolves_or_rejects() {
    let mut cache = IdentityCache::new();
    match finish_auth(&mut cache, "tok-bad", None) {
        Err(e) => assert_eq!(e, GateError::InvalidToken),
        Ok(_) => panic!("an absent durable record must be rejected"),
    }
    assert_eq!(cache.lookup("tok-bad"), None);
    let auth = finish_auth(&mut cache, "tok-good", Some("user-7".to_string())).unwrap();
    assert_eq!(auth.0, "user-7");
    assert_eq!(cache.lookup("tok-good").as_deref(), Some("user-7"));
}

// --- token issuance ---

#[test]
fn generated_ids_and_tokens_have_the_issued_shape() {
    let id = generate_id::<12>();
    // twelve random bytes encode to sixteen characters, unpadded,
    // URL-safe only: never '=', '.', '+' or '/'
    assert_eq!(id.len(), 16);
    assert!(id.chars().all(|c| c.is_ascii_alphanumeric() || c == '-' || c == '_'));

    let token = generate_token("user-3".to_string());
    assert!(token.starts_with("user-3."));
    let parts: Vec<&str> = token.split('.').collect();
    // a dot-free user id makes exactly three segments
    assert_eq!(parts.len(), 3);
    assert_eq!(parts[0], "user-3");
    // thirty-two random bytes encode to forty-three characters
    assert_eq!(parts[2].len(), 43);
    for part in &parts[1..] {
        assert!(part.chars().all(|c| c.is_ascii_alphanumeric() || c == '-' || c == '_'));
    }
    // two tokens differ in their random part
    let token2 = generate_token("user-3".to_string());
    assert_ne!(token, token2);
}

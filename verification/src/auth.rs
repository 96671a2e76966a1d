//! Reading the Authorization header, resolving it through the
//! identity cache, and issuing fresh credentials.
//!
//! A bearer credential is opaque to this layer: it is only a cache
//! key and a durable-store lookup key, never parsed back into its
//! parts.

use vstd::prelude::*;
use vstd::string::StringExecFns;

use crate::cache::IdentityCache;
use crate::errors::GateError;

verus! {

/// A verified identity: the user id a bearer token resolved to.
#[derive(Clone, PartialEq, Eq)]
pub struct Authorization(pub String);

/// How the Authorization header arrived, as plain values: absent, not
/// valid text, or its text.
pub enum AuthHeaderValue {
    Missing,
    NotText,
    Text(String),
}

/// The header step of the auth resolver: a missing header and a
/// non-text header are rejected with their own errors; otherwise the
/// whole header value is the bearer token.
pub fn auth_token(h: &AuthHeaderValue) -> (r: Result<String, GateError>)
    ensures
        match *h {
            AuthHeaderValue::Missing => r == Err::<String, GateError>(
                GateError::MissingAuthHeader,
            ),
            AuthHeaderValue::NotText => r == Err::<String, GateError>(
                GateError::MalformedAuthHeader,
            ),
            AuthHeaderValue::Text(ref s) => r is Ok && r.unwrap()@ == s@,
        },
{
    match h {
        AuthHeaderValue::Missing => Err(GateError::MissingAuthHeader),
        AuthHeaderValue::NotText => Err(GateError::MalformedAuthHeader),
        AuthHeaderValue::Text(s) => Ok(s.clone()),
    }
}

/// The tail of a cache-missed authorization, given what the durable
/// store answered: an absent record is the invalid-token rejection and
/// is never cached; a found identity is cached and returned verified.
pub fn finish_auth(cache: &mut IdentityCache, token: &str, durable: Option<String>) -> (r: Result<
    Authorization,
    GateError,
>)
    requires
        old(cache).wf(),
    ensures
        final(cache).wf(),
        durable is None ==> r == Err::<Authorization, GateError>(GateError::InvalidToken)
            && final(cache).tokens() == old(cache).tokens(),
        durable is Some ==> r is Ok && r.unwrap().0@ == durable.unwrap()@
            && final(cache).tokens() == old(cache).tokens().insert(token@, durable.unwrap()@),
{
    match cache.resolve_miss(token, durable) {
        Some(id) => Ok(Authorization(id)),
        None => Err(GateError::InvalidToken),
    }
}

// --- token issuance ---

/// Milliseconds between the Unix epoch and the token clock's custom
/// epoch.
pub const TOKEN_EPOCH: u128 = 1_577_836_800_000;

/// Milliseconds of wall clock since the Unix epoch; 0 for a clock that
/// reads earlier than the epoch.
///
/// Relies on std::time's SystemTime::now and duration_since(UNIX_EPOCH);
/// the result depends on the clock, so nothing is promised of it.
#[verifier::external_body]
fn unix_millis_now() -> u128 {
    match std::time::SystemTime::now().duration_since(std::time::UNIX_EPOCH) {
        Ok(d) => d.as_millis(),
        Err(_) => 0,
    }
}

/// The token clock's reading for a wall-clock value: milliseconds past
/// the custom epoch, saturating at zero.
pub open spec fn spec_epoch_adjust(raw_ms: u128) -> u128 {
    if raw_ms >= TOKEN_EPOCH {
        (raw_ms - TOKEN_EPOCH) as u128
    } else {
        0
    }
}

/// Exactly `spec_epoch_adjust`.
pub fn epoch_time_from_unix(raw_ms: u128) -> (r: u128)
    ensures
        r == spec_epoch_adjust(raw_ms),
{
    if raw_ms >= TOKEN_EPOCH {
        raw_ms - TOKEN_EPOCH
    } else {
        0
    }
}

/// The token clock now: `spec_epoch_adjust` of the wall clock, of
/// which nothing can be promised.
pub fn get_epoch_time() -> u128 {
    epoch_time_from_unix(unix_millis_now())
}

/// What base64's URL-safe no-padding encoding yields for a byte
/// sequence.
pub uninterp spec fn b64_url_nopad(bytes: Seq<u8>) -> Seq<char>;

/// The URL-safe base64 alphabet: letters, digits, `-` and `_` — never
/// a dot, so an encoded segment cannot blur a token's `.` separators.
pub open spec fn is_b64_url_char(c: char) -> bool {
    ||| 65 <= c as u32 <= 90
    ||| 97 <= c as u32 <= 122
    ||| 48 <= c as u32 <= 57
    ||| c as u32 == 45
    ||| c as u32 == 95
}

/// Relies on base64's `Engine::encode` with the `URL_SAFE_NO_PAD`
/// engine: the encoding is a function of the bytes alone, four
/// characters per three bytes with the last partial triple shortened,
/// no padding, every character drawn from the URL-safe alphabet
/// (base64's `alphabet::URL_SAFE`).
#[verifier::external_body]
fn encode_b64(bytes: &Vec<u8>) -> (r: String)
    requires
        bytes@.len() * 4 + 2 <= usize::MAX,
    ensures
        r@ == b64_url_nopad(bytes@),
        r@.len() == (bytes@.len() * 4 + 2) / 3,
        forall|j: int| 0 <= j < r@.len() ==> is_b64_url_char(#[trigger] r@[j]),
{
    base64::Engine::encode(&base64::engine::general_purpose::URL_SAFE_NO_PAD, bytes.as_slice())
}

/// Relies on ring's `SystemRandom::fill`: `n` bytes of system
/// randomness; the values depend on the system's entropy, so nothing
/// is promised of them.
#[verifier::external_body]
fn random_bytes(n: usize) -> (r: Vec<u8>)
    ensures
        r@.len() == n,
{
    let mut buf = vec![0u8; n];
    let rng = ring::rand::SystemRandom::new();
    ring::rand::SecureRandom::fill(&rng, &mut buf).expect("could not fill bytes");
    buf
}

/// The decimal rendering of `n` as ASCII bytes, most significant digit
/// first, no leading zeros.
pub open spec fn spec_dec_bytes(n: int) -> Seq<u8>
    decreases n,
{
    if n < 10 {
        seq![(n + 48) as u8]
    } else {
        spec_dec_bytes(n / 10) + seq![(n % 10 + 48) as u8]
    }
}

/// Exactly `spec_dec_bytes`.
fn dec_bytes(n: u128) -> (r: Vec<u8>)
    ensures
        r@ == spec_dec_bytes(n as int),
    decreases n,
{
    if n < 10 {
        let mut r: Vec<u8> = Vec::new();
        r.push((n as u8) + 48);
        proof {
            assert(r@ =~= spec_dec_bytes(n as int));
        }
        r
    } else {
        let mut r = dec_bytes(n / 10);
        r.push(((n % 10) as u8) + 48);
        proof {
            assert(r@ =~= spec_dec_bytes(n as int));
        }
        r
    }
}

/// The shape of an issued token:
/// `<user id> "." <base64 of the decimal token-clock reading> "." <base64 of the random bytes>`.
pub open spec fn spec_token(user_id: Seq<char>, epoch_ms: u128, noise: Seq<u8>) -> Seq<char> {
    user_id + "."@ + b64_url_nopad(spec_dec_bytes(epoch_ms as int)) + "."@ + b64_url_nopad(noise)
}

/// Assemble a token from its parts; exactly `spec_token`. Since the
/// user id is the only part that could hold a dot, a dot-free user id
/// makes the token split on `.` into exactly its three parts.
pub fn build_token(user_id: String, epoch_ms: u128, noise: &Vec<u8>) -> (r: String)
    requires
        noise@.len() * 4 + 2 <= usize::MAX,
    ensures
        r@ == spec_token(user_id@, epoch_ms, noise@),
        b64_url_nopad(noise@).len() == (noise@.len() * 4 + 2) / 3,
        (forall|j: int| 0 <= j < user_id@.len() ==> user_id@[j] != '.') ==> crate::text::spec_split(
            r@,
            '.',
        ) == seq![
            user_id@,
            b64_url_nopad(spec_dec_bytes(epoch_ms as int)),
            b64_url_nopad(noise@),
        ],
{
    let ghost uid = user_id@;
    let mut r = user_id;
    r.append(".");
    let digits = dec_bytes(epoch_ms);
    proof {
        lemma_dec_bytes_len(epoch_ms as int);
    }
    let mid = encode_b64(&digits);
    r.append(mid.as_str());
    r.append(".");
    let end = encode_b64(noise);
    r.append(end.as_str());
    proof {
        reveal_strlit(".");
        let b = b64_url_nopad(spec_dec_bytes(epoch_ms as int));
        let c = b64_url_nopad(noise@);
        assert("."@ =~= seq!['.']);
        if forall|j: int| 0 <= j < uid.len() ==> uid[j] != '.' {
            assert forall|j: int| 0 <= j < b.len() implies b[j] != '.' by {
                assert(is_b64_url_char(mid@[j]));
            }
            assert forall|j: int| 0 <= j < c.len() implies c[j] != '.' by {
                assert(is_b64_url_char(end@[j]));
            }
            assert(r@ =~= uid + seq!['.'] + (b + seq!['.'] + c));
            crate::text::lemma_split_concat(uid, '.', b + seq!['.'] + c);
            crate::text::lemma_split_concat(b, '.', c);
            crate::text::lemma_split_single(c, '.');
            assert(crate::text::spec_split(r@, '.') =~= seq![uid, b, c]);
        }
    }
    r
}

pub open spec fn pow10(k: nat) -> int
    decreases k,
{
    if k == 0 {
        1
    } else {
        10 * pow10((k - 1) as nat)
    }
}

/// A value below `10^k` renders in at most `k` digits.
proof fn lemma_dec_bytes_len_bound(n: int, k: nat)
    requires
        1 <= k,
        0 <= n < pow10(k),
    ensures
        spec_dec_bytes(n).len() <= k,
    decreases k,
{
    if n >= 10 {
        assert(k >= 2) by {
            reveal_with_fuel(pow10, 3);
            if k == 1 {
                assert(pow10(1) == 10);
            }
        }
        assert(pow10(k) == 10 * pow10((k - 1) as nat));
        lemma_dec_bytes_len_bound(n / 10, (k - 1) as nat);
    }
}

/// A decimal rendering of a 128-bit value is at most 39 bytes.
proof fn lemma_dec_bytes_len(n: int)
    requires
        0 <= n < 0x1_0000_0000_0000_0000_0000_0000_0000_0000,
    ensures
        1 <= spec_dec_bytes(n).len() <= 39,
{
    assert(n < pow10(39)) by {
        reveal_with_fuel(pow10, 40);
    }
    lemma_dec_bytes_len_bound(n, 39);
}

/// A fresh opaque identifier: the URL-safe base64 of `LEN` random
/// bytes, so only URL-safe characters and never a dot.
pub fn generate_id<const LEN: usize>() -> (r: String)
    requires
        LEN * 4 + 2 <= usize::MAX,
    ensures
        exists|bytes: Seq<u8>| bytes.len() == LEN && r@ == b64_url_nopad(bytes),
        r@.len() == (LEN * 4 + 2) / 3,
        forall|j: int| 0 <= j < r@.len() ==> is_b64_url_char(#[trigger] r@[j]),
{
    let bytes = random_bytes(LEN);
    encode_b64(&bytes)
}

/// A fresh bearer token for `user_id`: its id, the token clock, and 32
/// random bytes, in the shape of `spec_token`. The clock and the
/// randomness are the system's; everything else is pinned: for a
/// dot-free user id the token splits on `.` into exactly the three
/// parts, the last one 43 characters of URL-safe base64.
pub fn generate_token(user_id: String) -> (r: String)
    ensures
        exists|epoch_ms: u128, noise: Seq<u8>|
            {
                &&& noise.len() == 32
                &&& r@ == spec_token(user_id@, epoch_ms, noise)
                &&& b64_url_nopad(noise).len() == 43
                &&& (forall|j: int| 0 <= j < user_id@.len() ==> user_id@[j] != '.')
                    ==> crate::text::spec_split(r@, '.') == seq![
                    user_id@,
                    b64_url_nopad(spec_dec_bytes(epoch_ms as int)),
                    b64_url_nopad(noise),
                ]
            },
{
    let ghost uid = user_id@;
    let epoch_ms = get_epoch_time();
    let noise = random_bytes(32);
    let r = build_token(user_id, epoch_ms, &noise);
    proof {
        assert(noise@.len() == 32 && r@ == spec_token(uid, epoch_ms, noise@));
        assert(b64_url_nopad(noise@).len() == 43);
    }
    r
}

} // verus!

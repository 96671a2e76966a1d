//! The gatekeeping layer's rejection taxonomy, with the HTTP-style
//! status and the message body each rejection is surfaced with.

use vstd::prelude::*;
use vstd::string::StringExecFns;

use crate::text::spec_dec3_digits;
use crate::text::spec_dec_digits;
use crate::text::dec3_string;
use crate::text::dec_string;

verus! {

/// Why the gatekeeping layer refuses a request. Every variant is
/// recovered into a response at the middleware boundary; none panics.
#[derive(Clone, Copy, PartialEq, Eq, Structural, Debug)]
pub enum GateError {
    /// No usable client IP could be derived; fatal for the request,
    /// since admission control cannot be applied safely without a key.
    IpUnresolved,
    /// The client is inside a cooldown window; recoverable after
    /// `retry_after_ms`.
    RateLimited { retry_after_ms: u64 },
    /// No Authorization header was sent.
    MissingAuthHeader,
    /// The Authorization header is not valid text.
    MalformedAuthHeader,
    /// The bearer token is in neither the cache nor the durable store.
    InvalidToken,
    /// The durable store failed to answer a lookup.
    StoreFailure,
}

pub open spec fn spec_status(e: GateError) -> u16 {
    match e {
        GateError::IpUnresolved => 500,
        GateError::RateLimited { .. } => 429,
        GateError::MissingAuthHeader => 400,
        GateError::MalformedAuthHeader => 400,
        GateError::InvalidToken => 404,
        GateError::StoreFailure => 500,
    }
}

/// The rate-limit message, carrying the retry time in seconds with its
/// millisecond fraction.
pub open spec fn spec_retry_message(ms: u64) -> Seq<char> {
    "You are being ratelimited. Try again in "@ + spec_dec_digits((ms / 1000) as int) + "."@
        + spec_dec3_digits((ms % 1000) as int) + " seconds"@
}

pub open spec fn spec_message(e: GateError) -> Seq<char> {
    match e {
        GateError::IpUnresolved => "Could not resolve your IP address, which is needed for security and DoS protection purposes."@,
        GateError::RateLimited { retry_after_ms } => spec_retry_message(retry_after_ms),
        GateError::MissingAuthHeader => "Missing 'Authorization' header"@,
        GateError::MalformedAuthHeader => "Authorization header is not valid UTF-8"@,
        GateError::InvalidToken => "Invalid authorization token"@,
        GateError::StoreFailure => "Durable store lookup failed"@,
    }
}

impl GateError {
    /// The HTTP-style status this rejection is surfaced with.
    pub fn status(&self) -> (s: u16)
        ensures
            s == spec_status(*self),
    {
        match self {
            GateError::IpUnresolved => 500,
            GateError::RateLimited { .. } => 429,
            GateError::MissingAuthHeader => 400,
            GateError::MalformedAuthHeader => 400,
            GateError::InvalidToken => 404,
            GateError::StoreFailure => 500,
        }
    }

    /// The message body this rejection is surfaced with; exactly
    /// `spec_message`.
    pub fn message(&self) -> (m: String)
        ensures
            m@ == spec_message(*self),
    {
        match self {
            GateError::IpUnresolved => String::from_str(
                "Could not resolve your IP address, which is needed for security and DoS protection purposes.",
            ),
            GateError::RateLimited { retry_after_ms } => retry_message(*retry_after_ms),
            GateError::MissingAuthHeader => String::from_str("Missing 'Authorization' header"),
            GateError::MalformedAuthHeader => String::from_str(
                "Authorization header is not valid UTF-8",
            ),
            GateError::InvalidToken => String::from_str("Invalid authorization token"),
            GateError::StoreFailure => String::from_str("Durable store lookup failed"),
        }
    }
}

/// Builds the rate-limit message; exactly `spec_retry_message`.
pub fn retry_message(ms: u64) -> (m: String)
    ensures
        m@ == spec_retry_message(ms),
{
    let mut m = String::from_str("You are being ratelimited. Try again in ");
    let secs = dec_string((ms / 1000) as u128);
    m.append(secs.as_str());
    m.append(".");
    let frac = dec3_string(ms % 1000);
    m.append(frac.as_str());
    m.append(" seconds");
    proof {
        assert((ms / 1000) as u128 as int == (ms / 1000) as int);
        assert(m@ =~= spec_retry_message(ms));
    }
    m
}

} // verus!

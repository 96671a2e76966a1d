//! The client-address resolver: one trusted-enough client IP out of a
//! request's headers and transport information, used as the
//! admission-control key.
//!
//! The precedence is a plain ordered chain, first match wins, each step
//! falling through on absence or parse failure: `X-Forwarded-For`
//! entries, then `X-Real-IP`, then the `Forwarded` header's
//! forwarded-for identifiers, then the transport peer address. A
//! request for which all four fail has no key, and admission control
//! refuses it upstream rather than running unrestricted.

use vstd::prelude::*;

use crate::ip::ClientIp;
use crate::ip::parse_ip;
use crate::ip::parse_ip_chars;
use crate::ip::spec_parse_ip;
use crate::text::chars_vec;
use crate::text::spec_split;
use crate::text::spec_trim;
use crate::text::split_vec;
use crate::text::trim_vec;

verus! {

/// The plain values the transport hands the resolver for one request.
/// A header instance that is not valid text cannot hold an address and
/// is left out, exactly as a failed text read falls through the chain.
pub struct RequestHeaders {
    /// The `X-Forwarded-For` header's text, when present and textual.
    pub x_forwarded_for: Option<String>,
    /// The `X-Real-IP` header's text, when present and textual.
    pub x_real_ip: Option<String>,
    /// Each `Forwarded` header instance's text, in order.
    pub forwarded: Vec<String>,
    /// The transport-level peer address, when the serving layer
    /// exposes one.
    pub peer: Option<ClientIp>,
}

/// The first comma-separated entry that, trimmed, parses as an address.
pub open spec fn spec_first_entry_ip(parts: Seq<Seq<char>>) -> Option<ClientIp>
    decreases parts.len(),
{
    if parts.len() == 0 {
        None
    } else {
        match spec_parse_ip(spec_trim(parts[0])) {
            Some(ip) => Some(ip),
            None => spec_first_entry_ip(parts.skip(1)),
        }
    }
}

/// What an `X-Forwarded-For` value yields: its first entry that parses.
pub open spec fn spec_xff_ip(s: Seq<char>) -> Option<ClientIp> {
    spec_first_entry_ip(spec_split(s, ','))
}

/// What one `Forwarded` header value yields before re-parsing: the
/// first forwarded-for identifier carrying an IP, in the standard
/// textual rendering; nothing when the header does not parse or no
/// element carries one. A function of the header text alone.
pub uninterp spec fn forwarded_for_ip_text(s: Seq<char>) -> Option<Seq<char>>;

/// Anything the outside parser's trimming might swallow: a superset of
/// the whitespace `str::trim` removes.
pub open spec fn possibly_ws(c: char) -> bool {
    c as u32 <= 32 || c as u32 >= 128
}

/// Whether everything from `k` on is such whitespace up to the next
/// parameter or element boundary (or the end).
pub open spec fn ws_until_break(s: Seq<char>, k: int) -> bool
    decreases s.len() - k,
{
    if k < 0 || k >= s.len() {
        true
    } else if s[k] == ';' || s[k] == ',' {
        true
    } else if possibly_ws(s[k]) {
        ws_until_break(s, k + 1)
    } else {
        false
    }
}

/// A parameter value that is one lone double-quote: the one header
/// shape on which the outside Forwarded parser slices out of range and
/// aborts. Such a header yields no address here instead.
pub open spec fn has_lone_quote_value(s: Seq<char>) -> bool {
    exists|i: int|
        0 <= i && i + 1 < s.len() && (#[trigger] s[i]) == '=' && s[i + 1] == '"' && ws_until_break(
            s,
            i + 2,
        )
}

/// Whether everything from `start` on is possible whitespace up to a
/// boundary; exactly `ws_until_break`.
fn ws_break_check(v: &Vec<char>, start: usize) -> (r: bool)
    ensures
        r == ws_until_break(v@, start as int),
    decreases v@.len() - start,
{
    if start >= v.len() {
        true
    } else if v[start] == ';' || v[start] == ',' {
        true
    } else {
        let cv = v[start] as u32;
        if cv <= 32 || cv >= 128 {
            ws_break_check(v, start + 1)
        } else {
            false
        }
    }
}

/// Whether a header holds a lone-double-quote parameter value; exactly
/// `has_lone_quote_value`.
fn has_lone_quote(v: &Vec<char>) -> (r: bool)
    ensures
        r == has_lone_quote_value(v@),
{
    let n = v.len();
    if n < 2 {
        return false;
    }
    let mut i: usize = 0;
    while i + 1 < n
        invariant
            i + 1 <= n,
            n == v@.len(),
            forall|k: int|
                0 <= k < i ==> !((#[trigger] v@[k]) == '=' && v@[k + 1] == '"' && ws_until_break(
                    v@,
                    k + 2,
                )),
        decreases n - i,
    {
        if v[i] == '=' && v[i + 1] == '"' {
            if ws_break_check(v, i + 2) {
                return true;
            }
        }
        i = i + 1;
    }
    false
}

/// The first `Forwarded` instance whose forwarded-for identifier text
/// parses back as an address. An instance yielding none, one whose
/// rendering does not parse, or one carrying a lone-double-quote
/// parameter value (which the outside parser cannot survive) is
/// passed over.
pub open spec fn spec_forwarded_ip(hs: Seq<Seq<char>>) -> Option<ClientIp>
    decreases hs.len(),
{
    if hs.len() == 0 {
        None
    } else if has_lone_quote_value(hs[0]) {
        spec_forwarded_ip(hs.skip(1))
    } else {
        match forwarded_for_ip_text(hs[0]) {
            Some(t) => match spec_parse_ip(t) {
                Some(ip) => Some(ip),
                None => spec_forwarded_ip(hs.skip(1)),
            },
            None => spec_forwarded_ip(hs.skip(1)),
        }
    }
}

/// Relies on forwarded_header_value's `ForwardedHeaderValue::from_forwarded`
/// and `remotest_forwarded_for_ip`: parsing the Forwarded grammar and taking
/// the first element whose `for=` identifier is a socket address or IP, as
/// that IP's standard rendering. The result depends on the header text alone.
/// On a `host` parameter whose value is a lone double-quote the parser
/// slices out of range, so such headers are excluded by `requires` (the
/// caller screens with `has_lone_quote`, over-approximating: any parameter
/// key counts).
#[verifier::external_body]
fn forwarded_for_ip(value: &str) -> (r: Option<String>)
    requires
        !has_lone_quote_value(value@),
    ensures
        r is Some <==> forwarded_for_ip_text(value@) is Some,
        r is Some ==> r.unwrap()@ == forwarded_for_ip_text(value@).unwrap(),
{
    match forwarded_header_value::ForwardedHeaderValue::from_forwarded(value) {
        Ok(parsed) => parsed.remotest_forwarded_for_ip().map(|ip| ip.to_string()),
        Err(_) => None,
    }
}

pub open spec fn opt_view(o: Option<String>) -> Option<Seq<char>> {
    match o {
        Some(s) => Some(s@),
        None => None,
    }
}

/// The whole precedence chain over the request's plain values.
pub open spec fn spec_get_ip(
    xff: Option<Seq<char>>,
    xreal: Option<Seq<char>>,
    forwarded: Seq<Seq<char>>,
    peer: Option<ClientIp>,
) -> Option<ClientIp> {
    let from_xff = match xff {
        Some(s) => spec_xff_ip(s),
        None => None,
    };
    if from_xff is Some {
        from_xff
    } else {
        let from_real = match xreal {
            Some(s) => spec_parse_ip(s),
            None => None,
        };
        if from_real is Some {
            from_real
        } else {
            let from_fwd = spec_forwarded_ip(forwarded);
            if from_fwd is Some {
                from_fwd
            } else {
                peer
            }
        }
    }
}

/// The first `X-Forwarded-For` entry that parses; exactly
/// `spec_xff_ip`.
#[verifier::rlimit(50)]
fn first_xff_ip(s: &str) -> (r: Option<ClientIp>)
    ensures
        r == spec_xff_ip(s@),
{
    let v = chars_vec(s);
    let parts = split_vec(&v, ',');
    let ghost ps = spec_split(s@, ',');
    proof {
        assert(ps.skip(0) =~= ps);
    }
    let n = parts.len();
    let mut i: usize = 0;
    while i < n
        invariant
            i <= n,
            n == parts@.len(),
            parts@.map_values(|p: Vec<char>| p@) == ps,
            spec_first_entry_ip(ps.skip(i as int)) == spec_xff_ip(s@),
        decreases n - i,
    {
        proof {
            assert(parts@.map_values(|p: Vec<char>| p@)[i as int] == parts@[i as int]@);
            assert(ps.skip(i as int)[0] == ps[i as int]);
        }
        let t = trim_vec(&parts[i]);
        match parse_ip_chars(&t) {
            Some(ip) => {
                return Some(ip);
            },
            None => {
                proof {
                    assert(ps.skip(i as int).skip(1) =~= ps.skip(i + 1));
                }
            },
        }
        i = i + 1;
    }
    proof {
        assert(ps.skip(n as int) =~= Seq::<Seq<char>>::empty());
    }
    None
}

/// The first `Forwarded` instance yielding an address; exactly
/// `spec_forwarded_ip`.
#[verifier::rlimit(50)]
fn first_forwarded_ip(headers: &Vec<String>) -> (r: Option<ClientIp>)
    ensures
        r == spec_forwarded_ip(headers@.map_values(|s: String| s@)),
{
    let ghost hs = headers@.map_values(|s: String| s@);
    proof {
        assert(hs.skip(0) =~= hs);
    }
    let n = headers.len();
    let mut i: usize = 0;
    while i < n
        invariant
            i <= n,
            n == headers@.len(),
            hs == headers@.map_values(|s: String| s@),
            spec_forwarded_ip(hs.skip(i as int)) == spec_forwarded_ip(hs),
        decreases n - i,
    {
        proof {
            assert(hs[i as int] == headers@[i as int]@);
            assert(hs.skip(i as int)[0] == hs[i as int]);
            assert(hs.skip(i as int).skip(1) =~= hs.skip(i + 1));
        }
        let hv = chars_vec(headers[i].as_str());
        if !has_lone_quote(&hv) {
            match forwarded_for_ip(headers[i].as_str()) {
                Some(text) => {
                    match parse_ip(text.as_str()) {
                        Some(ip) => {
                            return Some(ip);
                        },
                        None => {},
                    }
                },
                None => {},
            }
        }
        i = i + 1;
    }
    proof {
        assert(hs.skip(n as int) =~= Seq::<Seq<char>>::empty());
    }
    None
}

/// Derive the one client IP for a request; exactly `spec_get_ip` over
/// the request's plain values.
pub fn get_ip(h: &RequestHeaders) -> (r: Option<ClientIp>)
    ensures
        r == spec_get_ip(
            opt_view(h.x_forwarded_for),
            opt_view(h.x_real_ip),
            h.forwarded@.map_values(|s: String| s@),
            h.peer,
        ),
{
    if let Some(s) = &h.x_forwarded_for {
        if let Some(ip) = first_xff_ip(s.as_str()) {
            return Some(ip);
        }
    }
    if let Some(s) = &h.x_real_ip {
        if let Some(ip) = parse_ip(s.as_str()) {
            return Some(ip);
        }
    }
    if let Some(ip) = first_forwarded_ip(&h.forwarded) {
        return Some(ip);
    }
    h.peer
}

} // verus!

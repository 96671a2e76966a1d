//! Client keys: IP addresses as plain values, and the textual grammar
//! under which header entries are accepted as addresses.
//!
//! The accepted texts are the standard dotted-quad form for v4 (one to
//! three decimal digits per octet, no leading zeros, each at most 255)
//! and the standard colon-grouped form for v6 (one to four hex digits
//! per group, at most one `::` standing for one or more zero groups,
//! and optionally the last 32 bits written as an embedded dotted quad).

use vstd::prelude::*;

use crate::text::all_dec_digits;
use crate::text::chars_vec;
use crate::text::dec_digit_val;
use crate::text::dec_value;
use crate::text::is_dec_digit;
use crate::text::spec_split;
use crate::text::split_vec;
use crate::text::subvec;

verus! {

/// A client IP address, the unit of admission-control isolation.
/// Held as plain integers so that contracts can speak of it directly.
#[derive(Clone, Copy, PartialEq, Eq, Structural, Debug, Hash)]
pub enum ClientIp {
    V4(u8, u8, u8, u8),
    V6(u16, u16, u16, u16, u16, u16, u16, u16),
}

// --- the v4 grammar ---

/// A dotted-quad part: one to three decimal digits, no leading zero,
/// value at most 255.
pub open spec fn valid_octet(p: Seq<char>) -> bool {
    &&& 1 <= p.len() <= 3
    &&& all_dec_digits(p)
    &&& p.len() > 1 ==> p[0] != '0'
    &&& dec_value(p) <= 255
}

/// The v4 address a text denotes, if any: exactly four octets split on
/// dots.
pub open spec fn spec_parse_ipv4(s: Seq<char>) -> Option<ClientIp> {
    let ps = spec_split(s, '.');
    if ps.len() == 4 && valid_octet(ps[0]) && valid_octet(ps[1]) && valid_octet(ps[2])
        && valid_octet(ps[3]) {
        Some(
            ClientIp::V4(
                dec_value(ps[0]) as u8,
                dec_value(ps[1]) as u8,
                dec_value(ps[2]) as u8,
                dec_value(ps[3]) as u8,
            ),
        )
    } else {
        None
    }
}

// --- the v6 grammar ---

pub open spec fn is_hex_digit(c: char) -> bool {
    is_dec_digit(c) || 97 <= c as u32 <= 102 || 65 <= c as u32 <= 70
}

pub open spec fn hex_digit_val(c: char) -> int {
    if is_dec_digit(c) {
        dec_digit_val(c)
    } else if 97 <= c as u32 <= 102 {
        c as u32 - 87
    } else {
        c as u32 - 55
    }
}

pub open spec fn all_hex_digits(s: Seq<char>) -> bool {
    forall|j: int| 0 <= j < s.len() ==> is_hex_digit(s[j])
}

/// The number a sequence of hex digits denotes.
pub open spec fn hex_value(s: Seq<char>) -> int
    decreases s.len(),
{
    if s.len() == 0 {
        0
    } else {
        hex_value(s.drop_last()) * 16 + hex_digit_val(s.last())
    }
}

/// A v6 group: one to four hex digits (leading zeros allowed).
pub open spec fn valid_h16(p: Seq<char>) -> bool {
    1 <= p.len() <= 4 && all_hex_digits(p)
}

/// Index of the first `::` in `s`; `s.len()` when there is none.
pub open spec fn first_dc(s: Seq<char>) -> int
    decreases s.len(),
{
    if s.len() < 2 {
        s.len() as int
    } else if s[0] == ':' && s[1] == ':' {
        0
    } else {
        1 + first_dc(s.skip(1))
    }
}

pub proof fn lemma_first_dc(s: Seq<char>)
    ensures
        0 <= first_dc(s) <= s.len(),
        first_dc(s) + 2 <= s.len() ==> s[first_dc(s)] == ':' && s[first_dc(s) + 1] == ':',
        first_dc(s) + 2 > s.len() ==> first_dc(s) == s.len(),
        forall|j: int|
            0 <= j < first_dc(s) && j + 1 < s.len() ==> !((#[trigger] s[j]) == ':' && s[j + 1]
                == ':'),
    decreases s.len(),
{
    if s.len() < 2 {
    } else if s[0] == ':' && s[1] == ':' {
    } else {
        lemma_first_dc(s.skip(1));
        assert forall|j: int|
            0 <= j < first_dc(s) && j + 1 < s.len() implies !((#[trigger] s[j]) == ':' && s[j
                + 1] == ':') by {
            if j > 0 {
                assert(!(s.skip(1)[j - 1] == ':' && s.skip(1)[j] == ':'));
                assert(s.skip(1)[j - 1] == s[j]);
                assert(s.skip(1)[j] == s[j + 1]);
            }
        }
    }
}

/// The last 32 bits of an address as two groups, when written as an
/// embedded dotted quad.
pub open spec fn v4_groups(ip: ClientIp) -> Seq<int> {
    match ip {
        ClientIp::V4(a, b, c, d) => seq![a as int * 256 + b as int, c as int * 256 + d as int],
        _ => seq![],
    }
}

/// The address with groups `g` (which must be eight group values).
pub open spec fn v6_from_groups(g: Seq<int>) -> ClientIp {
    ClientIp::V6(
        g[0] as u16,
        g[1] as u16,
        g[2] as u16,
        g[3] as u16,
        g[4] as u16,
        g[5] as u16,
        g[6] as u16,
        g[7] as u16,
    )
}

pub open spec fn zero_groups(n: int) -> Seq<int> {
    Seq::new(n as nat, |i: int| 0)
}

pub open spec fn group_vals(ps: Seq<Seq<char>>) -> Seq<int> {
    Seq::new(ps.len(), |j: int| hex_value(ps[j]))
}

pub open spec fn all_h16(ps: Seq<Seq<char>>) -> bool {
    forall|j: int| 0 <= j < ps.len() ==> valid_h16(ps[j])
}

/// A v6 text without `::`: eight groups, or six groups and an embedded
/// dotted quad.
pub open spec fn spec_parse_v6_full(ps: Seq<Seq<char>>) -> Option<ClientIp> {
    if ps.len() == 8 && all_h16(ps) {
        Some(v6_from_groups(group_vals(ps)))
    } else if ps.len() == 7 && all_h16(ps.subrange(0, 6)) && spec_parse_ipv4(ps[6]) is Some {
        Some(
            v6_from_groups(
                group_vals(ps.subrange(0, 6)) + v4_groups(spec_parse_ipv4(ps[6]).unwrap()),
            ),
        )
    } else {
        None
    }
}

/// A v6 text with one `::`, split into the text before and after it.
/// The `::` stands for at least one zero group; the tail may end in an
/// embedded dotted quad.
pub open spec fn spec_parse_v6_compressed(head: Seq<char>, tail: Seq<char>) -> Option<ClientIp> {
    let hs = if head.len() == 0 {
        Seq::<Seq<char>>::empty()
    } else {
        spec_split(head, ':')
    };
    let ts = if tail.len() == 0 {
        Seq::<Seq<char>>::empty()
    } else {
        spec_split(tail, ':')
    };
    if !all_h16(hs) {
        None
    } else if ts.len() == 0 {
        if hs.len() <= 7 {
            Some(v6_from_groups(group_vals(hs) + zero_groups(8 - hs.len())))
        } else {
            None
        }
    } else if all_h16(ts) && hs.len() + ts.len() <= 7 {
        Some(
            v6_from_groups(group_vals(hs) + zero_groups(8 - hs.len() - ts.len()) + group_vals(ts)),
        )
    } else if all_h16(ts.drop_last()) && spec_parse_ipv4(ts.last()) is Some && hs.len() + ts.len()
        + 1 <= 7 {
        Some(
            v6_from_groups(
                group_vals(hs) + zero_groups(8 - hs.len() - ts.len() - 1) + group_vals(
                    ts.drop_last(),
                ) + v4_groups(spec_parse_ipv4(ts.last()).unwrap()),
            ),
        )
    } else {
        None
    }
}

/// The v6 address a text denotes, if any.
pub open spec fn spec_parse_ipv6(s: Seq<char>) -> Option<ClientIp> {
    let fd = first_dc(s);
    if fd + 2 <= s.len() {
        spec_parse_v6_compressed(s.subrange(0, fd), s.subrange(fd + 2, s.len() as int))
    } else {
        spec_parse_v6_full(spec_split(s, ':'))
    }
}

/// The address a text denotes, if any: the v4 reading first, else v6.
pub open spec fn spec_parse_ip(s: Seq<char>) -> Option<ClientIp> {
    if spec_parse_ipv4(s) is Some {
        spec_parse_ipv4(s)
    } else {
        spec_parse_ipv6(s)
    }
}

// --- executable parsers ---

fn dec_digit_of(c: char) -> (r: Option<u8>)
    ensures
        r is Some <==> is_dec_digit(c),
        r is Some ==> r.unwrap() as int == dec_digit_val(c) && r.unwrap() <= 9,
{
    let cv = c as u32;
    if 48 <= cv && cv <= 57 {
        Some((cv - 48) as u8)
    } else {
        None
    }
}

fn hex_digit_of(c: char) -> (r: Option<u8>)
    ensures
        r is Some <==> is_hex_digit(c),
        r is Some ==> r.unwrap() as int == hex_digit_val(c) && r.unwrap() <= 15,
{
    let cv = c as u32;
    if 48 <= cv && cv <= 57 {
        Some((cv - 48) as u8)
    } else if 97 <= cv && cv <= 102 {
        Some((cv - 87) as u8)
    } else if 65 <= cv && cv <= 70 {
        Some((cv - 55) as u8)
    } else {
        None
    }
}

/// Parse one dotted-quad part; exactly `valid_octet` / `dec_value`.
fn parse_octet(p: &Vec<char>) -> (r: Option<u8>)
    ensures
        r is Some <==> valid_octet(p@),
        r is Some ==> r.unwrap() as int == dec_value(p@),
{
    let n = p.len();
    if n < 1 || n > 3 {
        return None;
    }
    if n > 1 && p[0] == '0' {
        return None;
    }
    let mut val: u32 = 0;
    let mut i: usize = 0;
    while i < n
        invariant
            i <= n,
            n == p@.len(),
            n <= 3,
            all_dec_digits(p@.subrange(0, i as int)),
            val == dec_value(p@.subrange(0, i as int)),
            i == 0 ==> val == 0,
            i == 1 ==> val <= 9,
            i == 2 ==> val <= 99,
            i == 3 ==> val <= 999,
        ensures
            i < n ==> !is_dec_digit(p@[i as int]),
        decreases n - i,
    {
        let d = match dec_digit_of(p[i]) {
            Some(d) => d,
            None => {
                break ;
            },
        };
        proof {
            let pre = p@.subrange(0, i as int);
            let post = p@.subrange(0, i + 1);
            assert(post.drop_last() =~= pre);
            assert(post.last() == p@[i as int]);
            assert forall|j: int| 0 <= j < post.len() implies is_dec_digit(post[j]) by {
                if j < i {
                    assert(pre[j] == post[j]);
                    assert(is_dec_digit(pre[j]));
                }
            }
        }
        val = val * 10 + d as u32;
        i = i + 1;
    }
    if i < n {
        // a non-digit was found
        proof {
            assert(!all_dec_digits(p@));
        }
        return None;
    }
    proof {
        assert(p@.subrange(0, n as int) =~= p@);
    }
    if val > 255 {
        return None;
    }
    Some(val as u8)
}

/// Parse one v6 group; exactly `valid_h16` / `hex_value`.
fn parse_h16(p: &Vec<char>) -> (r: Option<u16>)
    ensures
        r is Some <==> valid_h16(p@),
        r is Some ==> r.unwrap() as int == hex_value(p@),
{
    let n = p.len();
    if n < 1 || n > 4 {
        return None;
    }
    let mut val: u32 = 0;
    let mut i: usize = 0;
    while i < n
        invariant
            i <= n,
            n == p@.len(),
            n <= 4,
            all_hex_digits(p@.subrange(0, i as int)),
            val == hex_value(p@.subrange(0, i as int)),
            i == 0 ==> val == 0,
            i == 1 ==> val <= 15,
            i == 2 ==> val <= 255,
            i == 3 ==> val <= 4095,
            i == 4 ==> val <= 65535,
        ensures
            i < n ==> !is_hex_digit(p@[i as int]),
        decreases n - i,
    {
        let d = match hex_digit_of(p[i]) {
            Some(d) => d,
            None => {
                break ;
            },
        };
        proof {
            let pre = p@.subrange(0, i as int);
            let post = p@.subrange(0, i + 1);
            assert(post.drop_last() =~= pre);
            assert(post.last() == p@[i as int]);
            assert forall|j: int| 0 <= j < post.len() implies is_hex_digit(post[j]) by {
                if j < i {
                    assert(pre[j] == post[j]);
                    assert(is_hex_digit(pre[j]));
                }
            }
        }
        val = val * 16 + d as u32;
        i = i + 1;
    }
    if i < n {
        proof {
            assert(!all_hex_digits(p@));
        }
        return None;
    }
    proof {
        assert(p@.subrange(0, n as int) =~= p@);
    }
    Some(val as u16)
}

/// Parse a dotted quad; exactly `spec_parse_ipv4`.
pub fn parse_ipv4_chars(v: &Vec<char>) -> (r: Option<ClientIp>)
    ensures
        r == spec_parse_ipv4(v@),
{
    let parts = split_vec(v, '.');
    let ghost ps = spec_split(v@, '.');
    proof {
        assert(parts@.map_values(|p: Vec<char>| p@).len() == parts@.len());
    }
    if parts.len() != 4 {
        return None;
    }
    proof {
        assert forall|j: int| 0 <= j < 4 implies parts@[j]@ == ps[j] by {
            assert(parts@.map_values(|p: Vec<char>| p@)[j] == parts@[j]@);
        }
    }
    let o0 = match parse_octet(&parts[0]) {
        Some(o) => o,
        None => {
            return None;
        },
    };
    let o1 = match parse_octet(&parts[1]) {
        Some(o) => o,
        None => {
            return None;
        },
    };
    let o2 = match parse_octet(&parts[2]) {
        Some(o) => o,
        None => {
            return None;
        },
    };
    let o3 = match parse_octet(&parts[3]) {
        Some(o) => o,
        None => {
            return None;
        },
    };
    Some(ClientIp::V4(o0, o1, o2, o3))
}

/// A copy of the first `count` parts.
fn copy_parts_prefix(parts: &Vec<Vec<char>>, count: usize) -> (r: Vec<Vec<char>>)
    requires
        count <= parts@.len(),
    ensures
        r@.len() == count,
        forall|j: int| 0 <= j < count ==> r@[j]@ == parts@[j]@,
{
    let mut r: Vec<Vec<char>> = Vec::new();
    let mut i: usize = 0;
    while i < count
        invariant
            i <= count <= parts@.len(),
            r@.len() == i,
            forall|j: int| 0 <= j < i ==> r@[j]@ == parts@[j]@,
        decreases count - i,
    {
        let one = subvec(&parts[i], 0, parts[i].len());
        proof {
            assert(one@ =~= parts@[i as int]@);
        }
        r.push(one);
        i = i + 1;
    }
    r
}

/// Collect the group values of a part list when every part is a valid
/// group.
fn collect_h16(parts: &Vec<Vec<char>>) -> (r: Option<Vec<u16>>)
    ensures
        r is Some <==> all_h16(parts@.map_values(|p: Vec<char>| p@)),
        r is Some ==> {
            let vals = r.unwrap()@;
            &&& vals.len() == parts@.len()
            &&& forall|j: int| 0 <= j < vals.len() ==> vals[j] as int == hex_value(parts@[j]@)
        },
{
    let ghost ps = parts@.map_values(|p: Vec<char>| p@);
    let mut vals: Vec<u16> = Vec::new();
    let mut i: usize = 0;
    let n = parts.len();
    while i < n
        invariant
            i <= n,
            n == parts@.len(),
            ps == parts@.map_values(|p: Vec<char>| p@),
            vals@.len() == i,
            forall|j: int| 0 <= j < i ==> valid_h16(ps[j]),
            forall|j: int| 0 <= j < i ==> vals@[j] as int == hex_value(parts@[j]@),
        ensures
            i < n ==> !valid_h16(ps[i as int]),
        decreases n - i,
    {
        proof {
            assert(ps[i as int] == parts@[i as int]@);
        }
        let g = match parse_h16(&parts[i]) {
            Some(g) => g,
            None => {
                break ;
            },
        };
        vals.push(g);
        i = i + 1;
    }
    if i < n {
        proof {
            assert(!all_h16(ps));
        }
        return None;
    }
    proof {
        assert forall|j: int| 0 <= j < ps.len() implies valid_h16(ps[j]) by {}
    }
    Some(vals)
}

/// Eight groups: `hvals`, then zeros, then `tvals` — the padded shape
/// that one `::` stands for.
fn pad_groups(hvals: &Vec<u16>, tvals: &Vec<u16>) -> (r: Vec<u16>)
    requires
        hvals@.len() + tvals@.len() <= 7,
    ensures
        r@.len() == 8,
        forall|j: int| 0 <= j < hvals@.len() ==> r@[j] == hvals@[j],
        forall|j: int| hvals@.len() <= j < 8 - tvals@.len() ==> r@[j] == 0,
        forall|j: int| 8 - tvals@.len() <= j < 8 ==> r@[j] == tvals@[j - (8 - tvals@.len())],
{
    let mut r: Vec<u16> = Vec::new();
    let mut i: usize = 0;
    while i < hvals.len()
        invariant
            i <= hvals@.len(),
            r@.len() == i,
            forall|j: int| 0 <= j < i ==> r@[j] == hvals@[j],
        decreases hvals@.len() - i,
    {
        r.push(hvals[i]);
        i = i + 1;
    }
    let zeros = 8 - hvals.len() - tvals.len();
    let mut k: usize = 0;
    while k < zeros
        invariant
            k <= zeros,
            zeros == 8 - hvals@.len() - tvals@.len(),
            r@.len() == hvals@.len() + k,
            forall|j: int| 0 <= j < hvals@.len() ==> r@[j] == hvals@[j],
            forall|j: int| hvals@.len() <= j < hvals@.len() + k ==> r@[j] == 0,
        decreases zeros - k,
    {
        r.push(0);
        k = k + 1;
    }
    let mut t: usize = 0;
    while t < tvals.len()
        invariant
            t <= tvals@.len(),
            hvals@.len() + tvals@.len() <= 7,
            r@.len() == 8 - tvals@.len() + t,
            forall|j: int| 0 <= j < hvals@.len() ==> r@[j] == hvals@[j],
            forall|j: int| hvals@.len() <= j < 8 - tvals@.len() ==> r@[j] == 0,
            forall|j: int|
                8 - tvals@.len() <= j < 8 - tvals@.len() + t ==> r@[j] == tvals@[j - (8
                    - tvals@.len())],
        decreases tvals@.len() - t,
    {
        r.push(tvals[t]);
        t = t + 1;
    }
    r
}

/// Parse the parts of a v6 text without `::`; exactly
/// `spec_parse_v6_full`.
fn parse_v6_full(parts: &Vec<Vec<char>>) -> (r: Option<ClientIp>)
    ensures
        r == spec_parse_v6_full(parts@.map_values(|p: Vec<char>| p@)),
{
    let ghost ps = parts@.map_values(|p: Vec<char>| p@);
    if parts.len() == 8 {
        match collect_h16(parts) {
            Some(vals) => {
                proof {
                    let g = group_vals(ps);
                    assert forall|j: int| 0 <= j < 8 implies g[j] == vals@[j] as int by {
                        assert(ps[j] == parts@[j]@);
                    }
                }
                Some(
                    ClientIp::V6(
                        vals[0],
                        vals[1],
                        vals[2],
                        vals[3],
                        vals[4],
                        vals[5],
                        vals[6],
                        vals[7],
                    ),
                )
            },
            None => None,
        }
    } else if parts.len() == 7 {
        let first6 = copy_parts_prefix(parts, 6);
        proof {
            assert(first6@.map_values(|p: Vec<char>| p@) =~= ps.subrange(0, 6));
            assert(ps[6] == parts@[6]@);
        }
        let g6 = match collect_h16(&first6) {
            Some(vals) => vals,
            None => {
                return None;
            },
        };
        let v4 = match parse_ipv4_chars(&parts[6]) {
            Some(ip) => ip,
            None => {
                return None;
            },
        };
        let (w0, w1) = match v4 {
            ClientIp::V4(a, b, c, d) => (
                (a as u16) * 256 + (b as u16),
                (c as u16) * 256 + (d as u16),
            ),
            _ => (0, 0),
        };
        proof {
            let g = group_vals(ps.subrange(0, 6)) + v4_groups(spec_parse_ipv4(ps[6]).unwrap());
            assert(g.len() == 8);
            assert forall|j: int| 0 <= j < 6 implies g[j] == g6@[j] as int by {
                assert(g[j] == group_vals(ps.subrange(0, 6))[j]);
                assert(first6@[j]@ == ps.subrange(0, 6)[j]);
            }
            assert(g[6] == v4_groups(spec_parse_ipv4(ps[6]).unwrap())[0]);
            assert(g[7] == v4_groups(spec_parse_ipv4(ps[6]).unwrap())[1]);
            assert(g[6] == w0 as int);
            assert(g[7] == w1 as int);
        }
        Some(ClientIp::V6(g6[0], g6[1], g6[2], g6[3], g6[4], g6[5], w0, w1))
    } else {
        None
    }
}

/// Parse the two sides of a `::`; exactly `spec_parse_v6_compressed`.
#[verifier::rlimit(100)]
fn parse_v6_compressed(head: &Vec<char>, tail: &Vec<char>) -> (r: Option<ClientIp>)
    ensures
        r == spec_parse_v6_compressed(head@, tail@),
{
    let hparts: Vec<Vec<char>> = if head.len() == 0 {
        Vec::new()
    } else {
        split_vec(head, ':')
    };
    let tparts: Vec<Vec<char>> = if tail.len() == 0 {
        Vec::new()
    } else {
        split_vec(tail, ':')
    };
    let ghost hs = if head@.len() == 0 {
        Seq::<Seq<char>>::empty()
    } else {
        spec_split(head@, ':')
    };
    let ghost ts = if tail@.len() == 0 {
        Seq::<Seq<char>>::empty()
    } else {
        spec_split(tail@, ':')
    };
    proof {
        if head@.len() == 0 {
            assert(hparts@.map_values(|p: Vec<char>| p@) =~= hs);
        }
        if tail@.len() == 0 {
            assert(tparts@.map_values(|p: Vec<char>| p@) =~= ts);
        }
        assert(hparts@.map_values(|p: Vec<char>| p@) == hs);
        assert(tparts@.map_values(|p: Vec<char>| p@) == ts);
        assert(hparts@.len() == hs.len());
        assert(tparts@.len() == ts.len());
        assert forall|j: int| 0 <= j < hs.len() implies hs[j] == hparts@[j]@ by {}
        assert forall|j: int| 0 <= j < ts.len() implies ts[j] == tparts@[j]@ by {}
    }
    let hvals = match collect_h16(&hparts) {
        Some(vals) => vals,
        None => {
            return None;
        },
    };
    if tparts.len() == 0 {
        if hvals.len() <= 7 {
            let empty: Vec<u16> = Vec::new();
            let groups = pad_groups(&hvals, &empty);
            proof {
                let g = group_vals(hs) + zero_groups(8 - hs.len());
                assert forall|j: int| 0 <= j < 8 implies g[j] == groups@[j] as int by {
                    if j < hs.len() {
                        assert(g[j] == group_vals(hs)[j]);
                        assert(hs[j] == hparts@[j]@);
                    } else {
                        assert(g[j] == zero_groups(8 - hs.len())[j - hs.len()]);
                    }
                }
            }
            Some(
                ClientIp::V6(
                    groups[0],
                    groups[1],
                    groups[2],
                    groups[3],
                    groups[4],
                    groups[5],
                    groups[6],
                    groups[7],
                ),
            )
        } else {
            None
        }
    } else {
        match collect_h16(&tparts) {
            Some(tvals) => {
                if hvals.len() <= 7 && tvals.len() <= 7 && hvals.len() + tvals.len() <= 7 {
                    let groups = pad_groups(&hvals, &tvals);
                    proof {
                        let a = group_vals(hs);
                        let z = zero_groups(8 - hs.len() - ts.len());
                        let b = group_vals(ts);
                        let g = a + z + b;
                        assert forall|j: int| 0 <= j < 8 implies g[j] == groups@[j] as int by {
                            if j < hs.len() {
                                assert(g[j] == (a + z)[j]);
                                assert((a + z)[j] == a[j]);
                            } else if j < 8 - ts.len() {
                                assert(g[j] == (a + z)[j]);
                                assert((a + z)[j] == z[j - hs.len()]);
                            } else {
                                assert(g[j] == b[j - (a + z).len()]);
                            }
                        }
                    }
                    Some(
                        ClientIp::V6(
                            groups[0],
                            groups[1],
                            groups[2],
                            groups[3],
                            groups[4],
                            groups[5],
                            groups[6],
                            groups[7],
                        ),
                    )
                } else {
                    None
                }
            },
            None => {
                // the tail is not all plain groups; its last part may be
                // an embedded dotted quad
                let last_idx = tparts.len() - 1;
                let init = copy_parts_prefix(&tparts, last_idx);
                proof {
                    assert(init@.map_values(|p: Vec<char>| p@) =~= ts.drop_last());
                }
                let tvals = match collect_h16(&init) {
                    Some(v) => v,
                    None => {
                        return None;
                    },
                };
                let v4 = match parse_ipv4_chars(&tparts[last_idx]) {
                    Some(ip) => ip,
                    None => {
                        proof {
                            assert(ts.last() == tparts@[last_idx as int]@);
                        }
                        return None;
                    },
                };
                proof {
                    assert(ts.last() == tparts@[last_idx as int]@);
                }
                if hvals.len() <= 7 && tparts.len() <= 7 && hvals.len() + tparts.len() + 1 <= 7 {
                    let (w0, w1) = match v4 {
                        ClientIp::V4(a, b, c, d) => (
                            (a as u16) * 256 + (b as u16),
                            (c as u16) * 256 + (d as u16),
                        ),
                        _ => (0, 0),
                    };
                    let mut tv2 = tvals;
                    tv2.push(w0);
                    tv2.push(w1);
                    let groups = pad_groups(&hvals, &tv2);
                    proof {
                        let a = group_vals(hs);
                        let z = zero_groups(8 - hs.len() - ts.len() - 1);
                        let b = group_vals(ts.drop_last());
                        let c = v4_groups(spec_parse_ipv4(ts.last()).unwrap());
                        let g = a + z + b + c;
                        assert(tv2@.len() == ts.len() + 1);
                        assert(b.len() == ts.len() - 1);
                        assert(c.len() == 2);
                        assert forall|j: int| 0 <= j < 8 implies g[j] == groups@[j] as int by {
                            if j < hs.len() {
                                assert(g[j] == (a + z + b)[j]);
                                assert((a + z + b)[j] == (a + z)[j]);
                                assert((a + z)[j] == a[j]);
                            } else if j < 8 - ts.len() - 1 {
                                assert(g[j] == (a + z + b)[j]);
                                assert((a + z + b)[j] == (a + z)[j]);
                                assert((a + z)[j] == z[j - hs.len()]);
                            } else if j < 6 {
                                assert(g[j] == (a + z + b)[j]);
                                assert((a + z + b)[j] == b[j - (a + z).len()]);
                                assert(ts.drop_last()[j - (a + z).len()] == init@[j - (a
                                    + z).len()]@);
                                assert(groups@[j] == tv2@[j - (8 - tv2@.len())]);
                            } else {
                                assert(g[j] == c[j - (a + z + b).len()]);
                                assert(groups@[j] == tv2@[j - (8 - tv2@.len())]);
                            }
                        }
                    }
                    Some(
                        ClientIp::V6(
                            groups[0],
                            groups[1],
                            groups[2],
                            groups[3],
                            groups[4],
                            groups[5],
                            groups[6],
                            groups[7],
                        ),
                    )
                } else {
                    None
                }
            },
        }
    }
}

/// Parse a v6 text; exactly `spec_parse_ipv6`.
pub fn parse_ipv6_chars(v: &Vec<char>) -> (r: Option<ClientIp>)
    ensures
        r == spec_parse_ipv6(v@),
{
    let len = v.len();
    let mut fd: usize = len;
    let mut i: usize = 0;
    while i < len && i + 1 < len
        invariant_except_break
            fd == len,
        invariant
            i <= len,
            len == v@.len(),
            forall|j: int|
                0 <= j < i && j + 1 < len ==> !((#[trigger] v@[j]) == ':' && v@[j + 1] == ':'),
        ensures
            fd <= len,
            fd == len ==> forall|j: int|
                0 <= j && j + 1 < len ==> !((#[trigger] v@[j]) == ':' && v@[j + 1] == ':'),
            fd < len ==> fd + 2 <= len && v@[fd as int] == ':' && v@[fd as int + 1] == ':'
                && (forall|j: int|
                0 <= j < fd ==> !((#[trigger] v@[j]) == ':' && v@[j + 1] == ':')),
        decreases len - i,
    {
        if v[i] == ':' && v[i + 1] == ':' {
            fd = i;
            break ;
        }
        i = i + 1;
    }
    proof {
        lemma_first_dc(v@);
        if fd == len {
            if first_dc(v@) + 2 <= v@.len() {
                assert(v@[first_dc(v@)] == ':' && v@[first_dc(v@) + 1] == ':');
                assert(false);
            }
        } else {
            if first_dc(v@) < fd {
                assert(!(v@[first_dc(v@)] == ':' && v@[first_dc(v@) + 1] == ':'));
                assert(false);
            }
            if first_dc(v@) > fd {
                assert(!(v@[fd as int] == ':' && v@[fd as int + 1] == ':'));
                assert(false);
            }
            assert(first_dc(v@) == fd as int);
        }
    }
    if fd < len {
        let head = subvec(v, 0, fd);
        let tail = subvec(v, fd + 2, len);
        parse_v6_compressed(&head, &tail)
    } else {
        let parts = split_vec(v, ':');
        parse_v6_full(&parts)
    }
}

/// Parse an address out of text; exactly `spec_parse_ip`.
pub fn parse_ip_chars(v: &Vec<char>) -> (r: Option<ClientIp>)
    ensures
        r == spec_parse_ip(v@),
{
    match parse_ipv4_chars(v) {
        Some(ip) => Some(ip),
        None => parse_ipv6_chars(v),
    }
}

/// Parse an address out of a string; exactly `spec_parse_ip` of its
/// characters.
pub fn parse_ip(s: &str) -> (r: Option<ClientIp>)
    ensures
        r == spec_parse_ip(s@),
{
    let v = chars_vec(s);
    parse_ip_chars(&v)
}

} // verus!

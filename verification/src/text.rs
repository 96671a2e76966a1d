//! Verified character-level text helpers: splitting on a separator,
//! trimming linear whitespace, digit arithmetic and decimal rendering.
//! Header parsing and message building are written over these.

use vstd::prelude::*;
use vstd::string::StrSliceExecFns;
use vstd::string::StringExecFns;

verus! {

/// The characters of `s`, as a vector.
pub fn chars_vec(s: &str) -> (r: Vec<char>)
    ensures
        r@ == s@,
{
    let n = s.unicode_len();
    let mut r: Vec<char> = Vec::new();
    let mut i: usize = 0;
    while i < n
        invariant
            n == s@.len(),
            i <= n,
            r@ == s@.subrange(0, i as int),
        decreases n - i,
    {
        r.push(s.get_char(i));
        i = i + 1;
        proof {
            assert(r@ =~= s@.subrange(0, i as int));
        }
    }
    proof {
        assert(r@ =~= s@);
    }
    r
}

/// A copy of `v[from..to]`.
pub fn subvec(v: &Vec<char>, from: usize, to: usize) -> (r: Vec<char>)
    requires
        from <= to <= v@.len(),
    ensures
        r@ == v@.subrange(from as int, to as int),
{
    let mut r: Vec<char> = Vec::new();
    let mut i: usize = from;
    while i < to
        invariant
            from <= i <= to <= v@.len(),
            r@ == v@.subrange(from as int, i as int),
        decreases to - i,
    {
        r.push(v[i]);
        i = i + 1;
        proof {
            assert(r@ =~= v@.subrange(from as int, i as int));
        }
    }
    r
}

/// Index of the first occurrence of `sep` in `s`; `s.len()` when absent.
pub open spec fn first_sep(s: Seq<char>, sep: char) -> int
    decreases s.len(),
{
    if s.len() == 0 {
        0
    } else if s[0] == sep {
        0
    } else {
        1 + first_sep(s.skip(1), sep)
    }
}

pub proof fn lemma_first_sep(s: Seq<char>, sep: char)
    ensures
        0 <= first_sep(s, sep) <= s.len(),
        first_sep(s, sep) < s.len() ==> s[first_sep(s, sep)] == sep,
        forall|j: int| 0 <= j < first_sep(s, sep) ==> s[j] != sep,
    decreases s.len(),
{
    if s.len() == 0 {
    } else if s[0] == sep {
    } else {
        lemma_first_sep(s.skip(1), sep);
        assert forall|j: int| 0 <= j < first_sep(s, sep) implies s[j] != sep by {
            if j > 0 {
                assert(s.skip(1)[j - 1] != sep);
                assert(s.skip(1)[j - 1] == s[j]);
            }
        }
    }
}

/// `s` split on `sep`: the parts between occurrences of `sep`, in order,
/// kept verbatim (no trimming); splitting the empty sequence gives one
/// empty part, and adjacent separators give empty parts.
pub open spec fn spec_split(s: Seq<char>, sep: char) -> Seq<Seq<char>>
    decreases s.len(),
{
    let i = first_sep(s, sep);
    if 0 <= i < s.len() {
        seq![s.subrange(0, i)] + spec_split(s.subrange(i + 1, s.len() as int), sep)
    } else {
        seq![s]
    }
}

/// Executable split; exactly `spec_split`.
pub fn split_vec(v: &Vec<char>, sep: char) -> (parts: Vec<Vec<char>>)
    ensures
        parts@.map_values(|p: Vec<char>| p@) == spec_split(v@, sep),
{
    let len = v.len();
    let mut parts: Vec<Vec<char>> = Vec::new();
    let mut start: usize = 0;
    proof {
        assert(v@.subrange(0, len as int) =~= v@);
        assert(parts@.map_values(|p: Vec<char>| p@) =~= Seq::<Seq<char>>::empty());
        assert(Seq::<Seq<char>>::empty() + spec_split(v@, sep) =~= spec_split(v@, sep));
    }
    loop
        invariant_except_break
            start <= len,
            len == v@.len(),
            spec_split(v@, sep) == parts@.map_values(|p: Vec<char>| p@) + spec_split(
                v@.subrange(start as int, len as int),
                sep,
            ),
        ensures
            parts@.map_values(|p: Vec<char>| p@) == spec_split(v@, sep),
        decreases len - start,
    {
        let ghost suffix = v@.subrange(start as int, len as int);
        let mut i: usize = start;
        while i < len && v[i] != sep
            invariant
                start <= i <= len,
                len == v@.len(),
                forall|j: int| start <= j < i ==> v@[j] != sep,
            decreases len - i,
        {
            i = i + 1;
        }
        proof {
            lemma_first_sep(suffix, sep);
            assert forall|j: int| 0 <= j < i - start implies suffix[j] != sep by {
                assert(suffix[j] == v@[start + j]);
            }
        }
        let part = subvec(v, start, i);
        let ghost done = parts@.map_values(|p: Vec<char>| p@);
        parts.push(part);
        if i == len {
            proof {
                // no separator in the suffix, so it is a single part
                assert(first_sep(suffix, sep) == suffix.len()) by {
                    if first_sep(suffix, sep) < suffix.len() {
                        assert(suffix[first_sep(suffix, sep)] == sep);
                    }
                }
                assert(spec_split(suffix, sep) == seq![suffix]);
                assert(part@ =~= suffix);
                assert(parts@.map_values(|p: Vec<char>| p@) =~= done + seq![suffix]);
            }
            break ;
        }
        proof {
            // v[i] == sep and nothing before it in the suffix is, so the
            // first separator of the suffix sits at i - start
            assert(suffix[i - start] == v@[i as int]);
            assert(first_sep(suffix, sep) == i - start) by {
                if first_sep(suffix, sep) < i - start {
                    assert(suffix[first_sep(suffix, sep)] != sep);
                }
            }
            assert(spec_split(suffix, sep) == seq![suffix.subrange(0, i - start)] + spec_split(
                suffix.subrange(i - start + 1, suffix.len() as int),
                sep,
            ));
            assert(suffix.subrange(0, i - start) =~= v@.subrange(start as int, i as int));
            assert(suffix.subrange(i - start + 1, suffix.len() as int) =~= v@.subrange(
                i + 1,
                len as int,
            ));
            assert(parts@.map_values(|p: Vec<char>| p@) =~= done + seq![
                v@.subrange(start as int, i as int),
            ]);
        }
        start = i + 1;
    }
    parts
}

/// A separator-free text splits to just itself.
pub proof fn lemma_split_single(x: Seq<char>, sep: char)
    requires
        forall|j: int| 0 <= j < x.len() ==> x[j] != sep,
    ensures
        spec_split(x, sep) == seq![x],
{
    lemma_first_sep(x, sep);
    if first_sep(x, sep) < x.len() {
        assert(x[first_sep(x, sep)] == sep);
    }
}

/// Splitting cuts exactly at a separator that follows a separator-free
/// prefix.
pub proof fn lemma_split_concat(x: Seq<char>, sep: char, rest: Seq<char>)
    requires
        forall|j: int| 0 <= j < x.len() ==> x[j] != sep,
    ensures
        spec_split(x + seq![sep] + rest, sep) == seq![x] + spec_split(rest, sep),
{
    let s = x + seq![sep] + rest;
    lemma_first_sep(s, sep);
    assert(s[x.len() as int] == sep);
    assert forall|j: int| 0 <= j < x.len() implies s[j] != sep by {
        assert(s[j] == x[j]);
    }
    let fs = first_sep(s, sep);
    assert(fs == x.len()) by {
        if fs < x.len() {
            assert(s[fs] != sep);
        }
        if fs > x.len() {
            assert(s[x.len() as int] != sep);
        }
    }
    assert(s.subrange(0, fs) =~= x);
    assert(s.subrange(fs + 1, s.len() as int) =~= rest);
}

/// Linear whitespace, as a header value may pad its entries with.
pub open spec fn is_lws(c: char) -> bool {
    c == ' ' || c == '\t'
}

/// `s` with leading linear whitespace removed.
pub open spec fn spec_trim_front(s: Seq<char>) -> Seq<char>
    decreases s.len(),
{
    if s.len() > 0 && is_lws(s[0]) {
        spec_trim_front(s.skip(1))
    } else {
        s
    }
}

/// `s` with trailing linear whitespace removed.
pub open spec fn spec_trim_back(s: Seq<char>) -> Seq<char>
    decreases s.len(),
{
    if s.len() > 0 && is_lws(s.last()) {
        spec_trim_back(s.drop_last())
    } else {
        s
    }
}

/// `s` with leading and trailing linear whitespace removed.
pub open spec fn spec_trim(s: Seq<char>) -> Seq<char> {
    spec_trim_back(spec_trim_front(s))
}

proof fn lemma_trim_front_char(s: Seq<char>, a: int)
    requires
        0 <= a <= s.len(),
        forall|k: int| 0 <= k < a ==> is_lws(s[k]),
        a < s.len() ==> !is_lws(s[a]),
    ensures
        spec_trim_front(s) == s.subrange(a, s.len() as int),
    decreases a,
{
    if a == 0 {
        assert(s.subrange(0, s.len() as int) =~= s);
    } else {
        lemma_trim_front_char(s.skip(1), a - 1);
        assert(s.skip(1).subrange(a - 1, s.skip(1).len() as int) =~= s.subrange(
            a,
            s.len() as int,
        ));
    }
}

proof fn lemma_trim_back_char(s: Seq<char>, b: int)
    requires
        0 <= b <= s.len(),
        forall|k: int| b <= k < s.len() ==> is_lws(s[k]),
        b > 0 ==> !is_lws(s[b - 1]),
    ensures
        spec_trim_back(s) == s.subrange(0, b),
    decreases s.len() - b,
{
    if b == s.len() {
        if s.len() > 0 && is_lws(s.last()) {
            assert(!is_lws(s[b - 1]));
        }
        assert(s.subrange(0, b) =~= s);
    } else {
        assert(is_lws(s.last()));
        lemma_trim_back_char(s.drop_last(), b);
        assert(s.drop_last().subrange(0, b) =~= s.subrange(0, b));
    }
}

/// Executable trim; exactly `spec_trim`.
pub fn trim_vec(v: &Vec<char>) -> (r: Vec<char>)
    ensures
        r@ == spec_trim(v@),
{
    let len = v.len();
    let mut a: usize = 0;
    while a < len && (v[a] == ' ' || v[a] == '\t')
        invariant
            a <= len,
            len == v@.len(),
            forall|k: int| 0 <= k < a ==> is_lws(v@[k]),
        decreases len - a,
    {
        a = a + 1;
    }
    let mut b: usize = len;
    while b > a && (v[b - 1] == ' ' || v[b - 1] == '\t')
        invariant
            a <= b <= len,
            len == v@.len(),
            forall|k: int| b <= k < len ==> is_lws(v@[k]),
        decreases b,
    {
        b = b - 1;
    }
    proof {
        lemma_trim_front_char(v@, a as int);
        let t = v@.subrange(a as int, len as int);
        lemma_trim_back_char(t, b - a);
        assert forall|k: int| b - a <= k < t.len() implies is_lws(t[k]) by {
            assert(t[k] == v@[a + k]);
        }
        if b > a {
            assert(t[b - a - 1] == v@[b - 1]);
        }
        assert(t.subrange(0, b - a) =~= v@.subrange(a as int, b as int));
    }
    subvec(v, a, b)
}

/// Character-wise string equality, usable where the contract needs the
/// views compared.
pub fn str_eq(a: &str, b: &str) -> (r: bool)
    ensures
        r == (a@ == b@),
{
    let na = a.unicode_len();
    let nb = b.unicode_len();
    if na != nb {
        return false;
    }
    let mut i: usize = 0;
    while i < na
        invariant
            i <= na,
            na == a@.len(),
            na == b@.len(),
            forall|j: int| 0 <= j < i ==> a@[j] == b@[j],
        decreases na - i,
    {
        if a.get_char(i) != b.get_char(i) {
            return false;
        }
        i = i + 1;
    }
    proof {
        assert(a@ =~= b@);
    }
    true
}

// --- decimal digits ---

pub open spec fn is_dec_digit(c: char) -> bool {
    48 <= c as u32 <= 57
}

pub open spec fn dec_digit_val(c: char) -> int {
    c as u32 - 48
}

pub open spec fn all_dec_digits(s: Seq<char>) -> bool {
    forall|j: int| 0 <= j < s.len() ==> is_dec_digit(s[j])
}

/// The number a sequence of decimal digits denotes.
pub open spec fn dec_value(s: Seq<char>) -> int
    decreases s.len(),
{
    if s.len() == 0 {
        0
    } else {
        dec_value(s.drop_last()) * 10 + dec_digit_val(s.last())
    }
}

/// The digit character for `d`.
pub open spec fn digit_char(d: int) -> char {
    ((d + 48) as u8) as char
}

/// The decimal rendering of `n`, most significant digit first, no sign
/// and no leading zeros (a lone `0` for zero).
pub open spec fn spec_dec_digits(n: int) -> Seq<char>
    decreases n,
{
    if n < 10 {
        seq![digit_char(n)]
    } else {
        spec_dec_digits(n / 10) + seq![digit_char(n % 10)]
    }
}

fn digit_str(d: u8) -> (r: &'static str)
    requires
        d < 10,
    ensures
        r@ == seq![digit_char(d as int)],
{
    proof {
        reveal_strlit("0");
        reveal_strlit("1");
        reveal_strlit("2");
        reveal_strlit("3");
        reveal_strlit("4");
        reveal_strlit("5");
        reveal_strlit("6");
        reveal_strlit("7");
        reveal_strlit("8");
        reveal_strlit("9");
    }
    match d {
        0 => "0",
        1 => "1",
        2 => "2",
        3 => "3",
        4 => "4",
        5 => "5",
        6 => "6",
        7 => "7",
        8 => "8",
        _ => "9",
    }
}

/// The decimal rendering of `n`; exactly `spec_dec_digits`.
pub fn dec_string(n: u128) -> (r: String)
    ensures
        r@ == spec_dec_digits(n as int),
    decreases n,
{
    if n < 10 {
        String::from_str(digit_str(n as u8))
    } else {
        let mut prefix = dec_string(n / 10);
        prefix.append(digit_str((n % 10) as u8));
        prefix
    }
}

/// `m` as exactly three digits, zero padded: the millisecond part of a
/// duration rendered in seconds.
pub open spec fn spec_dec3_digits(m: int) -> Seq<char> {
    seq![digit_char(m / 100), digit_char((m / 10) % 10), digit_char(m % 10)]
}

/// Three-digit zero-padded rendering; exactly `spec_dec3_digits`.
pub fn dec3_string(m: u64) -> (r: String)
    requires
        m < 1000,
    ensures
        r@ == spec_dec3_digits(m as int),
{
    let mut r = String::from_str(digit_str((m / 100) as u8));
    r.append(digit_str(((m / 10) % 10) as u8));
    r.append(digit_str((m % 10) as u8));
    proof {
        assert(r@ =~= spec_dec3_digits(m as int));
    }
    r
}

} // verus!

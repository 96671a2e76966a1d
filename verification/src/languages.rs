//! The language-catalog transform: one upstream catalog entry in, one
//! served entry out, with the catalog's special cases applied. The
//! fetch of the upstream catalog and the serialization of the result
//! live outside the crate.

use vstd::prelude::*;
use vstd::string::StringExecFns;

use crate::text::str_eq;

verus! {

/// The color an entry falls back to when the catalog names none.
pub fn default_color() -> (r: String)
    ensures
        r@ == "#FFFFFF"@,
{
    String::from_str("#FFFFFF")
}

/// One entry as the upstream catalog carries it.
pub struct RawLanguage {
    pub kind: String,
    pub color: String,
    pub aliases: Vec<String>,
    pub filenames: Vec<String>,
    pub extensions: Vec<String>,
    pub wrap: bool,
    pub ace_mode: String,
}

/// One entry as it is served, named.
pub struct Language {
    pub kind: String,
    pub name: String,
    pub color: String,
    pub aliases: Vec<String>,
    pub filenames: Vec<String>,
    pub extensions: Vec<String>,
    pub wrap: bool,
    pub ace_mode: String,
}

/// The extensions dropped from one upstream entry so that they resolve
/// to the better-known languages instead.
pub open spec fn spec_kept_ext(e: Seq<char>) -> bool {
    e != ".ts"@ && e != ".tsx"@ && e != ".rs"@
}

pub open spec fn spec_filter_exts(exts: Seq<Seq<char>>) -> Seq<Seq<char>>
    decreases exts.len(),
{
    if exts.len() == 0 {
        Seq::empty()
    } else if spec_kept_ext(exts.last()) {
        spec_filter_exts(exts.drop_last()) + seq![exts.last()]
    } else {
        spec_filter_exts(exts.drop_last())
    }
}

/// The editor mode an entry is served with: the upstream mode, except
/// for the two entries whose upstream mode is wrong for the editor.
pub open spec fn spec_ace_mode(name: Seq<char>, ace: Seq<char>) -> Seq<char> {
    if name == "TSX"@ {
        "tsx"@
    } else if name == "Kotlin"@ {
        "kotlin"@
    } else {
        ace
    }
}

/// Whether an entry is served at all: the machine-description entry is
/// dropped for its `.md` clash, and an entry whose (adjusted) mode is
/// plain text is dropped unless it is the text entry itself.
pub open spec fn spec_language_served(name: Seq<char>, ace: Seq<char>) -> bool {
    &&& name != "GCC Machine Description"@
    &&& !(spec_ace_mode(name, ace) == "text"@ && name != "Text"@)
}

/// Keep the extensions of one entry: all of them, except that the XML
/// entry loses the three it would steal; exactly `spec_filter_exts`
/// there.
#[verifier::loop_isolation(false)]
fn filter_extensions(exts: Vec<String>) -> (r: Vec<String>)
    ensures
        r@.map_values(|s: String| s@) == spec_filter_exts(exts@.map_values(|s: String| s@)),
{
    let ghost all = exts@.map_values(|s: String| s@);
    let mut r: Vec<String> = Vec::new();
    let n = exts.len();
    let mut i: usize = 0;
    while i < n
        invariant
            i <= n,
            r@.map_values(|s: String| s@) == spec_filter_exts(all.take(i as int)),
        decreases n - i,
    {
        let e = &exts[i];
        let keep = !str_eq(e.as_str(), ".ts") && !str_eq(e.as_str(), ".tsx") && !str_eq(
            e.as_str(),
            ".rs",
        );
        let ghost prefix = all.take(i as int);
        proof {
            assert(all.take(i + 1).drop_last() =~= prefix);
            assert(all.take(i + 1).last() == all[i as int]);
            assert(all[i as int] == exts@[i as int]@);
        }
        if keep {
            let ghost r0 = r@.map_values(|s: String| s@);
            r.push(e.clone());
            proof {
                assert(r@.map_values(|s: String| s@) =~= r0 + seq![all[i as int]]);
            }
        }
        i = i + 1;
    }
    proof {
        assert(all.take(n as int) =~= all);
    }
    r
}

/// Resolve one catalog entry: drop what `spec_language_served`
/// refuses, adjust the editor mode per `spec_ace_mode`, and trim the
/// XML entry's extensions per `spec_filter_exts`.
pub fn resolve_language(name: String, raw: RawLanguage) -> (r: Option<Language>)
    ensures
        ({
            let served = spec_language_served(name@, raw.ace_mode@);
            if !served {
                r is None
            } else {
                &&& r is Some
                &&& r.unwrap().name@ == name@
                &&& r.unwrap().kind == raw.kind
                &&& r.unwrap().color == raw.color
                &&& r.unwrap().aliases == raw.aliases
                &&& r.unwrap().filenames == raw.filenames
                &&& r.unwrap().wrap == raw.wrap
                &&& r.unwrap().ace_mode@ == spec_ace_mode(name@, raw.ace_mode@)
                &&& (if name@ == "XML"@ {
                    r.unwrap().extensions@.map_values(|s: String| s@) == spec_filter_exts(
                        raw.extensions@.map_values(|s: String| s@),
                    )
                } else {
                    r.unwrap().extensions == raw.extensions
                })
            }
        }),
{
    if str_eq(name.as_str(), "GCC Machine Description") {
        return None;
    }
    let ace_mode: String = if str_eq(name.as_str(), "TSX") {
        String::from_str("tsx")
    } else if str_eq(name.as_str(), "Kotlin") {
        String::from_str("kotlin")
    } else {
        raw.ace_mode
    };
    if str_eq(ace_mode.as_str(), "text") && !str_eq(name.as_str(), "Text") {
        return None;
    }
    let extensions: Vec<String> = if str_eq(name.as_str(), "XML") {
        filter_extensions(raw.extensions)
    } else {
        raw.extensions
    };
    Some(
        Language {
            kind: raw.kind,
            name,
            color: raw.color,
            aliases: raw.aliases,
            filenames: raw.filenames,
            extensions,
            wrap: raw.wrap,
            ace_mode,
        },
    )
}

} // verus!

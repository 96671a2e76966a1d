//! Cache-aside bearer-token identity resolution: an owned in-memory
//! mapping from opaque token to user id, consulted first; on a miss the
//! caller asks the durable store and hands the answer back in, which
//! populates the cache on a hit and never caches a miss.
//!
//! Tokens are immutable once issued, so two racing first-time lookups
//! of one token compute the same record and the second write is a
//! no-op; the race is deliberate and harmless.

use vstd::prelude::*;
use vstd::string::StringExecFns;

use crate::assoc::assoc_map;
use crate::assoc::lemma_assoc_contains;
use crate::assoc::lemma_assoc_push;
use crate::assoc::lemma_assoc_update;
use crate::assoc::lemma_assoc_value;
use crate::assoc::unique_keys;
use crate::text::str_eq;

verus! {

/// The view of one stored entry: the token's characters and the user
/// id's characters.
pub open spec fn entry_view(e: (String, String)) -> (Seq<char>, Seq<char>) {
    (e.0@, e.1@)
}

/// The in-memory token-to-identity cache.
pub struct IdentityCache {
    entries: Vec<(String, String)>,
}

impl IdentityCache {
    /// The mapping this cache holds, from token text to user id text.
    pub closed spec fn tokens(&self) -> Map<Seq<char>, Seq<char>> {
        assoc_map(self.entries@.map_values(|e: (String, String)| entry_view(e)))
    }

    /// Well-formed: no token is stored twice.
    pub closed spec fn wf(&self) -> bool {
        unique_keys(self.entries@.map_values(|e: (String, String)| entry_view(e)))
    }

    /// An empty cache.
    pub fn new() -> (r: IdentityCache)
        ensures
            r.wf(),
            r.tokens() == Map::<Seq<char>, Seq<char>>::empty(),
    {
        let r = IdentityCache { entries: Vec::new() };
        proof {
            assert(r.entries@.map_values(|e: (String, String)| entry_view(e)) =~= Seq::<(
                Seq<char>,
                Seq<char>,
            )>::empty());
        }
        r
    }

    /// Index of the entry for `token`, if one is stored.
    fn find_entry(&self, token: &str) -> (r: Option<usize>)
        requires
            self.wf(),
        ensures
            match r {
                Some(i) => {
                    &&& i < self.entries@.len()
                    &&& self.entries@[i as int].0@ == token@
                    &&& self.tokens().contains_key(token@)
                    &&& self.tokens()[token@] == self.entries@[i as int].1@
                },
                None => !self.tokens().contains_key(token@),
            },
    {
        let ghost pairs = self.entries@.map_values(|e: (String, String)| entry_view(e));
        let n = self.entries.len();
        let mut i: usize = 0;
        while i < n
            invariant
                i <= n,
                n == self.entries@.len(),
                self.wf(),
                pairs == self.entries@.map_values(|e: (String, String)| entry_view(e)),
                forall|j: int| 0 <= j < i ==> (#[trigger] pairs[j]).0 != token@,
            decreases n - i,
        {
            proof {
                assert(pairs[i as int] == entry_view(self.entries@[i as int]));
            }
            if str_eq(self.entries[i].0.as_str(), token) {
                proof {
                    lemma_assoc_value(pairs, i as int);
                }
                return Some(i);
            }
            i = i + 1;
        }
        proof {
            lemma_assoc_contains(pairs, token@);
        }
        None
    }

    /// The cache probe: the stored identity for `token`, if the cache
    /// holds one. Consulted before any durable lookup; a `None` here is
    /// a miss, not a verdict on the token.
    pub fn lookup(&self, token: &str) -> (r: Option<String>)
        requires
            self.wf(),
        ensures
            r is Some <==> self.tokens().contains_key(token@),
            r is Some ==> r.unwrap()@ == self.tokens()[token@],
    {
        match self.find_entry(token) {
            Some(i) => Some(self.entries[i].1.clone()),
            None => None,
        }
    }

    /// The completion of a cache miss, given what the durable store
    /// answered: a missing record resolves to nothing and is never
    /// cached (an invalid token stays cheap to reject wrongly only
    /// once), while a found identity is returned and written into the
    /// cache, overwriting any identical value a racing lookup wrote.
    pub fn resolve_miss(&mut self, token: &str, durable: Option<String>) -> (r: Option<String>)
        requires
            old(self).wf(),
        ensures
            final(self).wf(),
            durable is None ==> r is None && final(self).tokens() == old(self).tokens(),
            durable is Some ==> r is Some && r.unwrap()@ == durable.unwrap()@
                && final(self).tokens() == old(self).tokens().insert(
                token@,
                durable.unwrap()@,
            ),
    {
        match durable {
            None => None,
            Some(id) => {
                let out = id.clone();
                self.store(token, id);
                Some(out)
            },
        }
    }

    /// Write `token -> id` into the cache, replacing a stored entry for
    /// the same token if there is one.
    fn store(&mut self, token: &str, id: String)
        requires
            old(self).wf(),
        ensures
            final(self).wf(),
            final(self).tokens() == old(self).tokens().insert(token@, id@),
    {
        let ghost pairs0 = self.entries@.map_values(|e: (String, String)| entry_view(e));
        match self.find_entry(token) {
            Some(i) => {
                let key = self.entries[i].0.clone();
                self.entries[i] = (key, id);
                proof {
                    let pairs = self.entries@.map_values(
                        |e: (String, String)| entry_view(e),
                    );
                    assert(pairs =~= pairs0.update(i as int, (pairs0[i as int].0, id@)));
                    lemma_assoc_update(pairs0, i as int, id@);
                    assert(pairs0[i as int].0 == token@);
                    assert forall|a: int, b: int|
                        0 <= a < b < pairs.len() implies (#[trigger] pairs[a]).0
                        != (#[trigger] pairs[b]).0 by {
                        if a != i && b != i {
                            assert(pairs[a] == pairs0[a]);
                            assert(pairs[b] == pairs0[b]);
                        } else if a == i {
                            assert(pairs[b] == pairs0[b]);
                            assert(pairs0[a].0 == pairs[a].0);
                        } else {
                            assert(pairs[a] == pairs0[a]);
                            assert(pairs0[b].0 == pairs[b].0);
                        }
                    }
                }
            },
            None => {
                self.entries.push((String::from_str(token), id));
                proof {
                    let pairs = self.entries@.map_values(
                        |e: (String, String)| entry_view(e),
                    );
                    assert(pairs =~= pairs0.push((token@, id@)));
                    lemma_assoc_push(pairs0, token@, id@);
                    lemma_assoc_contains(pairs0, token@);
                    assert forall|a: int, b: int|
                        0 <= a < b < pairs.len() implies (#[trigger] pairs[a]).0
                        != (#[trigger] pairs[b]).0 by {
                        if b < pairs0.len() {
                            assert(pairs[a] == pairs0[a]);
                            assert(pairs[b] == pairs0[b]);
                        } else {
                            assert(pairs[a] == pairs0[a]);
                            assert(pairs[b].0 == token@);
                        }
                    }
                }
            },
        }
    }
}

/// Once a durable hit has populated the cache, every later probe of
/// that token is served from the cache, with the identity the durable
/// store gave — no further durable lookup is needed.
pub proof fn lemma_cached_after_population(
    m: Map<Seq<char>, Seq<char>>,
    token: Seq<char>,
    id: Seq<char>,
)
    ensures
        m.insert(token, id).contains_key(token),
        m.insert(token, id)[token] == id,
{
}

/// Two racing first-time lookups of one valid token write the same
/// identity (both computed it from the same immutable durable record):
/// the second write changes nothing, and any other token's entry is
/// untouched.
pub proof fn lemma_idempotent_population(
    m: Map<Seq<char>, Seq<char>>,
    token: Seq<char>,
    id: Seq<char>,
)
    ensures
        m.insert(token, id).insert(token, id) == m.insert(token, id),
        forall|t: Seq<char>|
            t != token && m.contains_key(t) ==> m.insert(token, id).contains_key(t)
                && m.insert(token, id)[t] == m[t],
{
    assert(m.insert(token, id).insert(token, id) =~= m.insert(token, id));
}

} // verus!

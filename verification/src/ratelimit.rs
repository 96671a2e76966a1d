//! Per-client admission control: a quota-then-cooldown bucket per
//! client key, kept in an owned store that is looked up, updated and
//! swept here.
//!
//! The policy is burst-then-lockout, not a continuously refilling token
//! bucket: a client may spend its whole quota in an arbitrarily short
//! burst; the request that spends the last unit is itself admitted and
//! starts a cooldown of one window during which every request from that
//! key is rejected; when the cooldown ends the full quota is back.

use vstd::prelude::*;

use crate::assoc::assoc_map;
use crate::assoc::lemma_assoc_contains;
use crate::assoc::lemma_assoc_push;
use crate::assoc::lemma_assoc_update;
use crate::assoc::lemma_assoc_value;
use crate::assoc::unique_keys;
use crate::errors::GateError;
use crate::ip::ClientIp;

verus! {

/// Per-client admission state: how much of the quota remains in the
/// current window, and the instant (milliseconds on the caller's clock)
/// until which requests from this client are refused.
#[derive(Clone, Copy, PartialEq, Eq, Structural, Debug)]
pub struct Bucket {
    pub remaining: u16,
    pub cooldown_until: u64,
}

/// A stored bucket together with the last instant its client was seen,
/// which the eviction sweep goes by.
#[derive(Clone, Copy, PartialEq, Eq, Structural, Debug)]
pub struct BucketEntry {
    pub bucket: Bucket,
    pub last_touch: u64,
}

/// The outcome of one admission check.
#[derive(Clone, Copy, PartialEq, Eq, Structural, Debug)]
pub enum Decision {
    Admitted,
    Rejected { retry_after_ms: u64 },
}

/// A stored bucket for quota `rate` always keeps its counter between 1
/// and `rate`: the counter is reset to `rate` at the very step that
/// would bring it to zero, so zero is never stored and the decrement in
/// `spec_admit` can never underflow.
pub open spec fn bucket_wf(b: Bucket, rate: u16) -> bool {
    1 <= b.remaining <= rate
}

/// The bucket a previously unseen client starts from: full quota, and a
/// cooldown already in the past, so its first request is admitted.
pub open spec fn fresh_bucket(rate: u16, now: u64) -> Bucket {
    Bucket { remaining: rate, cooldown_until: now }
}

/// One step of the admission algorithm (quota-then-cooldown) on a
/// single bucket, at time `now`: a request is admitted iff
/// `now >= cooldown_until` (equality admits); a rejection leaves the
/// bucket untouched and reports how long until the cooldown ends; an
/// admitted request spends one unit of quota, and the request that
/// spends the last unit resets the quota and starts the next window's
/// cooldown (that request itself is admitted).
pub open spec fn spec_admit(b: Bucket, rate: u16, per_ms: u64, now: u64) -> (Bucket, Decision) {
    if b.cooldown_until > now {
        (b, Decision::Rejected { retry_after_ms: (b.cooldown_until - now) as u64 })
    } else if b.remaining == 1 {
        (Bucket { remaining: rate, cooldown_until: (now + per_ms) as u64 }, Decision::Admitted)
    } else {
        (
            Bucket { remaining: (b.remaining - 1) as u16, cooldown_until: b.cooldown_until },
            Decision::Admitted,
        )
    }
}

/// Executable admission step on one bucket; exactly `spec_admit`.
pub fn admit_step(b: &mut Bucket, rate: u16, per_ms: u64, now: u64) -> (d: Decision)
    requires
        bucket_wf(*old(b), rate),
        now + per_ms <= u64::MAX,
    ensures
        *final(b) == spec_admit(*old(b), rate, per_ms, now).0,
        d == spec_admit(*old(b), rate, per_ms, now).1,
        bucket_wf(*final(b), rate),
{
    if b.cooldown_until > now {
        let retry = b.cooldown_until - now;
        Decision::Rejected { retry_after_ms: retry }
    } else if b.remaining == 1 {
        b.remaining = rate;
        b.cooldown_until = now + per_ms;
        Decision::Admitted
    } else {
        b.remaining = b.remaining - 1;
        Decision::Admitted
    }
}

/// An entry is stale for the sweep when both its cooldown end and its
/// last touch lie at least one maximum age in the past. A key still
/// under cooldown is never stale.
pub open spec fn stale_entry(e: BucketEntry, now: u64, max_age_ms: u64) -> bool {
    e.bucket.cooldown_until + max_age_ms <= now && e.last_touch + max_age_ms <= now
}

/// The admission-control store for one route: a quota, a window, and
/// one bucket per client key observed, created lazily and swept by age.
/// The store is owned and dependency-injected; it holds no global
/// state.
pub struct Ratelimit {
    rate: u16,
    per: u16,
    entries: Vec<(ClientIp, BucketEntry)>,
}

impl Ratelimit {
    /// The configured quota per window.
    pub closed spec fn spec_rate(&self) -> u16 {
        self.rate
    }

    /// The configured window, in seconds as handed to the layer.
    pub closed spec fn spec_per(&self) -> u16 {
        self.per
    }

    /// The configured window, in milliseconds.
    pub open spec fn spec_per_ms(&self) -> u64 {
        (self.spec_per() * 1000) as u64
    }

    /// The buckets this store holds, as a map from client key to entry.
    pub closed spec fn buckets(&self) -> Map<ClientIp, BucketEntry> {
        assoc_map(self.entries@)
    }

    /// Well-formed: a positive quota, no duplicate keys, and every
    /// stored bucket within quota.
    pub closed spec fn wf(&self) -> bool {
        &&& self.rate >= 1
        &&& unique_keys(self.entries@)
        &&& forall|i: int|
            0 <= i < self.entries@.len() ==> bucket_wf(
                (#[trigger] self.entries@[i]).1.bucket,
                self.rate,
            )
    }

    /// A fresh store with quota `rate` per `per` seconds and no
    /// buckets.
    pub fn new(rate: u16, per: u16) -> (r: Ratelimit)
        requires
            rate >= 1,
        ensures
            r.wf(),
            r.spec_rate() == rate,
            r.spec_per() == per,
            r.buckets() == Map::<ClientIp, BucketEntry>::empty(),
    {
        Ratelimit { rate, per, entries: Vec::new() }
    }

    /// The configured quota per window.
    pub fn rate(&self) -> (r: u16)
        ensures
            r == self.spec_rate(),
    {
        self.rate
    }

    /// The configured window, in seconds.
    pub fn per(&self) -> (r: u16)
        ensures
            r == self.spec_per(),
    {
        self.per
    }

    /// Index of the entry for `key`, if one is stored.
    fn find_entry(&self, key: ClientIp) -> (r: Option<usize>)
        requires
            self.wf(),
        ensures
            match r {
                Some(i) => {
                    &&& i < self.entries@.len()
                    &&& self.entries@[i as int].0 == key
                    &&& self.buckets().contains_key(key)
                    &&& self.buckets()[key] == self.entries@[i as int].1
                },
                None => !self.buckets().contains_key(key),
            },
    {
        let n = self.entries.len();
        let mut i: usize = 0;
        while i < n
            invariant
                i <= n,
                n == self.entries@.len(),
                self.wf(),
                forall|j: int| 0 <= j < i ==> (#[trigger] self.entries@[j]).0 != key,
            decreases n - i,
        {
            if self.entries[i].0 == key {
                proof {
                    lemma_assoc_value(self.entries@, i as int);
                }
                return Some(i);
            }
            i = i + 1;
        }
        proof {
            lemma_assoc_contains(self.entries@, key);
        }
        None
    }

    /// One admission decision for `key` at time `now`, exactly the
    /// algorithm of `spec_admit` applied to the stored bucket for `key`
    /// (a fresh full bucket when the key was never seen); the store
    /// afterwards holds the stepped bucket, touched at `now`, and no
    /// other key changes.
    pub fn admit_key(&mut self, key: ClientIp, now: u64) -> (d: Decision)
        requires
            old(self).wf(),
            now + old(self).spec_per_ms() <= u64::MAX,
        ensures
            final(self).wf(),
            final(self).spec_rate() == old(self).spec_rate(),
            final(self).spec_per() == old(self).spec_per(),
            ({
                let b0 = if old(self).buckets().contains_key(key) {
                    old(self).buckets()[key].bucket
                } else {
                    fresh_bucket(old(self).spec_rate(), now)
                };
                let stepped = spec_admit(b0, old(self).spec_rate(), old(self).spec_per_ms(), now);
                &&& d == stepped.1
                &&& final(self).buckets() == old(self).buckets().insert(
                    key,
                    BucketEntry { bucket: stepped.0, last_touch: now },
                )
            }),
    {
        let per_ms: u64 = (self.per as u64) * 1000;
        match self.find_entry(key) {
            Some(i) => {
                let mut b = self.entries[i].1.bucket;
                let d = admit_step(&mut b, self.rate, per_ms, now);
                let ghost entries0 = self.entries@;
                self.entries[i] = (key, BucketEntry { bucket: b, last_touch: now });
                proof {
                    lemma_assoc_update(
                        entries0,
                        i as int,
                        BucketEntry { bucket: b, last_touch: now },
                    );
                    assert(self.entries@ =~= entries0.update(
                        i as int,
                        (key, BucketEntry { bucket: b, last_touch: now }),
                    ));
                    assert forall|j: int|
                        0 <= j < self.entries@.len() implies bucket_wf(
                        (#[trigger] self.entries@[j]).1.bucket,
                        self.rate,
                    ) by {
                        if j != i {
                            assert(self.entries@[j] == entries0[j]);
                        }
                    }
                }
                d
            },
            None => {
                let mut b = Bucket { remaining: self.rate, cooldown_until: now };
                let d = admit_step(&mut b, self.rate, per_ms, now);
                let ghost entries0 = self.entries@;
                self.entries.push((key, BucketEntry { bucket: b, last_touch: now }));
                proof {
                    lemma_assoc_push(entries0, key, BucketEntry { bucket: b, last_touch: now });
                    lemma_assoc_contains(entries0, key);
                    assert forall|i: int, j: int|
                        0 <= i < j < self.entries@.len() implies (#[trigger] self.entries@[i]).0
                        != (#[trigger] self.entries@[j]).0 by {
                        if j < entries0.len() {
                            assert(entries0[i] == self.entries@[i]);
                            assert(entries0[j] == self.entries@[j]);
                        } else {
                            assert(self.entries@[j].0 == key);
                            assert(entries0[i] == self.entries@[i]);
                        }
                    }
                    assert forall|j: int|
                        0 <= j < self.entries@.len() implies bucket_wf(
                        (#[trigger] self.entries@[j]).1.bucket,
                        self.rate,
                    ) by {
                        if j < entries0.len() {
                            assert(entries0[j] == self.entries@[j]);
                        }
                    }
                }
                d
            },
        }
    }

    /// The admission check as the middleware calls it: admitted is
    /// `Ok`, a cooldown rejection is the rate-limit error carrying its
    /// retry time.
    pub fn handle_ratelimit(&mut self, ip: ClientIp, now: u64) -> (r: Result<(), GateError>)
        requires
            old(self).wf(),
            now + old(self).spec_per_ms() <= u64::MAX,
        ensures
            final(self).wf(),
            final(self).spec_rate() == old(self).spec_rate(),
            final(self).spec_per() == old(self).spec_per(),
            ({
                let b0 = if old(self).buckets().contains_key(ip) {
                    old(self).buckets()[ip].bucket
                } else {
                    fresh_bucket(old(self).spec_rate(), now)
                };
                let stepped = spec_admit(b0, old(self).spec_rate(), old(self).spec_per_ms(), now);
                &&& final(self).buckets() == old(self).buckets().insert(
                    ip,
                    BucketEntry { bucket: stepped.0, last_touch: now },
                )
                &&& (match r {
                    Ok(_) => stepped.1 == Decision::Admitted,
                    Err(e) => stepped.1 == (Decision::Rejected {
                        retry_after_ms: (b0.cooldown_until - now) as u64,
                    }) && e == (GateError::RateLimited {
                        retry_after_ms: (b0.cooldown_until - now) as u64,
                    }),
                })
            }),
    {
        match self.admit_key(ip, now) {
            Decision::Admitted => Ok(()),
            Decision::Rejected { retry_after_ms } => Err(
                GateError::RateLimited { retry_after_ms },
            ),
        }
    }

    /// The whole gate for one request: with no resolved client key the
    /// request is refused outright (never "unrestricted"), otherwise
    /// the admission check runs.
    pub fn gate_request(&mut self, ip: Option<ClientIp>, now: u64) -> (r: Result<(), GateError>)
        requires
            old(self).wf(),
            now + old(self).spec_per_ms() <= u64::MAX,
        ensures
            final(self).wf(),
            final(self).spec_rate() == old(self).spec_rate(),
            final(self).spec_per() == old(self).spec_per(),
            ip is None ==> r == Result::<(), GateError>::Err(GateError::IpUnresolved)
                && final(self).buckets() == old(self).buckets(),
            ip is Some ==> ({
                let key = ip.unwrap();
                let b0 = if old(self).buckets().contains_key(key) {
                    old(self).buckets()[key].bucket
                } else {
                    fresh_bucket(old(self).spec_rate(), now)
                };
                let stepped = spec_admit(b0, old(self).spec_rate(), old(self).spec_per_ms(), now);
                &&& final(self).buckets() == old(self).buckets().insert(
                    key,
                    BucketEntry { bucket: stepped.0, last_touch: now },
                )
                &&& (match r {
                    Ok(_) => stepped.1 == Decision::Admitted,
                    Err(e) => stepped.1 == (Decision::Rejected {
                        retry_after_ms: (b0.cooldown_until - now) as u64,
                    }) && e == (GateError::RateLimited {
                        retry_after_ms: (b0.cooldown_until - now) as u64,
                    }),
                })
            }),
    {
        match ip {
            None => Err(GateError::IpUnresolved),
            Some(key) => self.handle_ratelimit(key, now),
        }
    }

    /// Drop every stale bucket (stale per `stale_entry`): the bounded
    /// eviction that keeps the store from growing with one entry per
    /// client forever. Fresh entries keep their exact state; a key
    /// whose cooldown is still running is never dropped.
    pub fn sweep(&mut self, now: u64, max_age_ms: u64)
        requires
            old(self).wf(),
        ensures
            final(self).wf(),
            final(self).spec_rate() == old(self).spec_rate(),
            final(self).spec_per() == old(self).spec_per(),
            forall|k: ClientIp|
                #[trigger] final(self).buckets().contains_key(k) <==> (
                old(self).buckets().contains_key(k) && !stale_entry(
                    old(self).buckets()[k],
                    now,
                    max_age_ms,
                )),
            forall|k: ClientIp|
                #[trigger] final(self).buckets().contains_key(k) ==> final(self).buckets()[k]
                    == old(self).buckets()[k],
    {
        let n = self.entries.len();
        let ghost entries0 = self.entries@;
        let mut kept: Vec<(ClientIp, BucketEntry)> = Vec::new();
        let mut i: usize = 0;
        while i < n
            invariant
                i <= n,
                n == entries0.len(),
                self.entries@ == entries0,
                unique_keys(entries0),
                forall|j: int|
                    0 <= j < entries0.len() ==> bucket_wf(
                        (#[trigger] entries0[j]).1.bucket,
                        old(self).spec_rate(),
                    ),
                unique_keys(kept@),
                forall|j: int|
                    0 <= j < kept@.len() ==> exists|m: int|
                        0 <= m < i && entries0[m] == (#[trigger] kept@[j]),
                forall|m: int|
                    0 <= m < i && !stale_entry((#[trigger] entries0[m]).1, now, max_age_ms)
                        ==> exists|j: int| 0 <= j < kept@.len() && kept@[j] == entries0[m],
                forall|j: int|
                    0 <= j < kept@.len() ==> !stale_entry(
                        (#[trigger] kept@[j]).1,
                        now,
                        max_age_ms,
                    ),
            decreases n - i,
        {
            let e = self.entries[i];
            let keep = if max_age_ms <= now {
                let cutoff = now - max_age_ms;
                !(e.1.bucket.cooldown_until <= cutoff && e.1.last_touch <= cutoff)
            } else {
                true
            };
            proof {
                assert(keep == !stale_entry(entries0[i as int].1, now, max_age_ms));
            }
            let ghost kept0 = kept@;
            if keep {
                kept.push(e);
                proof {
                    assert forall|a: int, b: int|
                        0 <= a < b < kept@.len() implies (#[trigger] kept@[a]).0
                        != (#[trigger] kept@[b]).0 by {
                        if b < kept0.len() {
                            assert(kept@[a] == kept0[a]);
                            assert(kept@[b] == kept0[b]);
                        } else {
                            assert(kept@[b] == entries0[i as int]);
                            assert(kept@[a] == kept0[a]);
                            let m = choose|m: int| 0 <= m < i && entries0[m] == kept0[a];
                            assert(entries0[m].0 != entries0[i as int].0);
                        }
                    }
                    assert forall|m: int|
                        0 <= m <= i && !stale_entry((#[trigger] entries0[m]).1, now, max_age_ms)
                        implies exists|j: int|
                        0 <= j < kept@.len() && kept@[j] == entries0[m] by {
                        if m < i {
                            let j = choose|j: int|
                                0 <= j < kept0.len() && kept0[j] == entries0[m];
                            assert(kept@[j] == entries0[m]);
                        } else {
                            assert(kept@[kept0.len() as int] == entries0[m]);
                        }
                    }
                }
            } else {
                proof {
                    assert(stale_entry(entries0[i as int].1, now, max_age_ms));
                    assert forall|m: int|
                        0 <= m <= i && !stale_entry((#[trigger] entries0[m]).1, now, max_age_ms)
                        implies exists|j: int|
                        0 <= j < kept@.len() && kept@[j] == entries0[m] by {
                        let j = choose|j: int| 0 <= j < kept0.len() && kept0[j] == entries0[m];
                        assert(kept@[j] == entries0[m]);
                    }
                }
            }
            i = i + 1;
        }
        self.entries = kept;
        proof {
            assert forall|k: ClientIp|
                #[trigger] self.buckets().contains_key(k) implies (assoc_map(
                entries0,
            ).contains_key(k) && !stale_entry(assoc_map(entries0)[k], now, max_age_ms)) by {
                lemma_assoc_contains(self.entries@, k);
                let j = choose|j: int| 0 <= j < self.entries@.len() && self.entries@[j].0 == k;
                let m = choose|m: int| 0 <= m < n && entries0[m] == self.entries@[j];
                lemma_assoc_value(entries0, m);
                lemma_assoc_value(self.entries@, j);
            }
            assert forall|k: ClientIp|
                assoc_map(entries0).contains_key(k) && !stale_entry(
                    assoc_map(entries0)[k],
                    now,
                    max_age_ms,
                ) implies #[trigger] self.buckets().contains_key(k) by {
                lemma_assoc_contains(entries0, k);
                let m = choose|m: int| 0 <= m < entries0.len() && entries0[m].0 == k;
                lemma_assoc_value(entries0, m);
                let j = choose|j: int| 0 <= j < self.entries@.len() && self.entries@[j] == entries0[m];
                lemma_assoc_value(self.entries@, j);
            }
            assert forall|k: ClientIp|
                #[trigger] self.buckets().contains_key(k) implies self.buckets()[k] == assoc_map(
                entries0,
            )[k] by {
                lemma_assoc_contains(self.entries@, k);
                let j = choose|j: int| 0 <= j < self.entries@.len() && self.entries@[j].0 == k;
                let m = choose|m: int| 0 <= m < n && entries0[m] == self.entries@[j];
                lemma_assoc_value(entries0, m);
                lemma_assoc_value(self.entries@, j);
            }
        }
    }
}

/// The admission layer's per-route configuration: quota and window
/// seconds, as the route table hands them out.
#[derive(Copy, Clone, Debug)]
pub struct RatelimitLayer(pub u16, pub u16);

impl RatelimitLayer {
    /// The store this configuration stands up, one per route.
    pub fn make_store(&self) -> (r: Ratelimit)
        requires
            self.0 >= 1,
        ensures
            r.wf(),
            r.spec_rate() == self.0,
            r.spec_per() == self.1,
            r.buckets() == Map::<ClientIp, BucketEntry>::empty(),
    {
        Ratelimit::new(self.0, self.1)
    }
}

// --- laws of the admission algorithm ---

/// The bucket after `n` admission attempts, all at time `now`.
pub open spec fn iter_admit(b: Bucket, rate: u16, per_ms: u64, now: u64, n: nat) -> Bucket
    decreases n,
{
    if n == 0 {
        b
    } else {
        spec_admit(iter_admit(b, rate, per_ms, now, (n - 1) as nat), rate, per_ms, now).0
    }
}

/// With no elapsed time between requests, a fresh key's first `rate`
/// requests are admitted and the `(rate + 1)`-th is rejected, with the
/// whole window as its retry time.
pub proof fn lemma_burst_quota(rate: u16, per_ms: u64, now: u64, n: nat)
    requires
        1 <= rate,
        1 <= per_ms,
        now + per_ms <= u64::MAX,
        n <= rate,
    ensures
        n < rate ==> iter_admit(fresh_bucket(rate, now), rate, per_ms, now, n) == (Bucket {
            remaining: (rate - n) as u16,
            cooldown_until: now,
        }),
        n == rate ==> iter_admit(fresh_bucket(rate, now), rate, per_ms, now, n) == (Bucket {
            remaining: rate,
            cooldown_until: (now + per_ms) as u64,
        }),
        n < rate ==> spec_admit(
            iter_admit(fresh_bucket(rate, now), rate, per_ms, now, n),
            rate,
            per_ms,
            now,
        ).1 == Decision::Admitted,
        n == rate ==> spec_admit(
            iter_admit(fresh_bucket(rate, now), rate, per_ms, now, n),
            rate,
            per_ms,
            now,
        ).1 == (Decision::Rejected { retry_after_ms: per_ms }),
    decreases n,
{
    if n == 0 {
    } else {
        lemma_burst_quota(rate, per_ms, now, (n - 1) as nat);
    }
}

/// After a rejection with retry time `r`, one more request at exactly
/// `now + r` is admitted; the rejection itself changed nothing.
pub proof fn lemma_cooldown_expiry_admits(b: Bucket, rate: u16, per_ms: u64, now: u64)
    requires
        bucket_wf(b, rate),
        spec_admit(b, rate, per_ms, now).1 is Rejected,
    ensures
        spec_admit(b, rate, per_ms, now).0 == b,
        spec_admit(b, rate, per_ms, now).1 == (Decision::Rejected {
            retry_after_ms: (b.cooldown_until - now) as u64,
        }),
        spec_admit(b, rate, per_ms, (now + (b.cooldown_until - now)) as u64).1
            == Decision::Admitted,
{
}

/// How many of a run of requests are admitted.
pub open spec fn count_admitted(b: Bucket, rate: u16, per_ms: u64, times: Seq<u64>) -> nat
    decreases times.len(),
{
    if times.len() == 0 {
        0
    } else {
        let stepped = spec_admit(b, rate, per_ms, times[0]);
        (if stepped.1 is Admitted {
            1nat
        } else {
            0nat
        }) + count_admitted(stepped.0, rate, per_ms, times.skip(1))
    }
}

/// While a cooldown covers every request time, nothing is admitted.
proof fn lemma_cooldown_rejects_all(b: Bucket, rate: u16, per_ms: u64, times: Seq<u64>)
    requires
        forall|i: int| 0 <= i < times.len() ==> b.cooldown_until > #[trigger] times[i],
    ensures
        count_admitted(b, rate, per_ms, times) == 0,
    decreases times.len(),
{
    if times.len() == 0 {
    } else {
        assert(b.cooldown_until > times[0]);
        assert forall|i: int|
            0 <= i < times.skip(1).len() implies b.cooldown_until > #[trigger] times.skip(
            1,
        )[i] by {
            assert(times.skip(1)[i] == times[i + 1]);
        }
        lemma_cooldown_rejects_all(b, rate, per_ms, times.skip(1));
    }
}

/// However a run of requests from one key interleaves inside a single
/// window (every request time within `[t0, t0 + per_ms)`), no more
/// requests are admitted than the bucket had quota left — in
/// particular, never more than `rate` within one window.
pub proof fn lemma_window_admission_bound(
    b: Bucket,
    rate: u16,
    per_ms: u64,
    times: Seq<u64>,
    t0: u64,
)
    requires
        bucket_wf(b, rate),
        forall|i: int| 0 <= i < times.len() ==> t0 <= #[trigger] times[i] < t0 + per_ms,
        forall|i: int| 0 <= i < times.len() ==> #[trigger] times[i] + per_ms <= u64::MAX,
    ensures
        count_admitted(b, rate, per_ms, times) <= b.remaining <= rate,
    decreases times.len(),
{
    if times.len() == 0 {
    } else {
        let stepped = spec_admit(b, rate, per_ms, times[0]);
        assert(times[0] < t0 + per_ms);
        assert forall|i: int|
            0 <= i < times.skip(1).len() implies t0 <= #[trigger] times.skip(1)[i] < t0
            + per_ms by {
            assert(times.skip(1)[i] == times[i + 1]);
        }
        assert forall|i: int|
            0 <= i < times.skip(1).len() implies #[trigger] times.skip(1)[i] + per_ms
            <= u64::MAX by {
            assert(times.skip(1)[i] == times[i + 1]);
        }
        if stepped.1 is Rejected {
            lemma_window_admission_bound(b, rate, per_ms, times.skip(1), t0);
        } else if b.remaining == 1 {
            // the admitted request spent the last unit; the new cooldown
            // covers the rest of the window
            assert forall|i: int|
                0 <= i < times.skip(1).len() implies stepped.0.cooldown_until
                > #[trigger] times.skip(1)[i] by {
                assert(times.skip(1)[i] == times[i + 1]);
            }
            lemma_cooldown_rejects_all(stepped.0, rate, per_ms, times.skip(1));
        } else {
            lemma_window_admission_bound(stepped.0, rate, per_ms, times.skip(1), t0);
        }
    }
}

} // verus!

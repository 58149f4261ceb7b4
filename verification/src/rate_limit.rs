//! Fixed-window rate limiter keyed by an opaque string identity (for example
//! a client IP address).
//!
//! One window per key; the window is reset lazily at the next check once its
//! length has elapsed, so idle keys consume no work. A check under the limit
//! charges the window; a check at or above it is refused without growing the
//! count. Distinct keys are fully independent.

use vstd::prelude::*;

verus! {

/// One key's current window: when it started and how many checks it has
/// admitted since.
pub struct Bucket {
    pub key: String,
    pub window_start: u64,
    pub count: u64,
}

/// Fixed-window rate limiter. All windows share one length; the limit can be
/// chosen per check, with a default for the creation endpoint.
pub struct RateLimiter {
    pub window_secs: u64,
    pub default_limit: u64,
    pub buckets: Vec<Bucket>,
}

/// Client identity a rate-limited request is charged to.
#[derive(Debug, Clone)]
pub struct ClientIp(pub String);

/// Outcome of one rate-limit check.
#[derive(Clone)]
pub struct RateLimitResult {
    pub allowed: bool,
    pub limit: u64,
    pub remaining: u64,
    pub reset_secs: u64,
}

/// Seconds from `start` to `now`, clamped below at zero.
pub open spec fn elapsed_since(start: u64, now: u64) -> int {
    if now >= start {
        now - start
    } else {
        0
    }
}

impl RateLimiter {
    /// Keys are never recorded twice.
    pub open spec fn wf(self) -> bool {
        forall|i: int, j: int|
            0 <= i < j < self.buckets@.len() ==> self.buckets@[i].key@ != self.buckets@[j].key@
    }

    pub open spec fn has_bucket(self, key: Seq<char>) -> bool {
        exists|i: int| 0 <= i < self.buckets@.len() && self.buckets@[i].key@ == key
    }

    pub open spec fn bucket_idx(self, key: Seq<char>) -> int {
        choose|i: int| 0 <= i < self.buckets@.len() && self.buckets@[i].key@ == key
    }

    pub open spec fn bucket(self, key: Seq<char>) -> Bucket {
        self.buckets@[self.bucket_idx(key)]
    }

    /// Whether `key`'s recorded window is still running at `now`.
    pub open spec fn window_live(self, key: Seq<char>, now: u64) -> bool {
        self.has_bucket(key) && elapsed_since(self.bucket(key).window_start, now)
            < self.window_secs
    }

    /// Checks already charged to `key` in the window that is current at
    /// `now`: zero for an unknown key or an elapsed window.
    pub open spec fn live_count(self, key: Seq<char>, now: u64) -> int {
        if self.window_live(key, now) {
            self.bucket(key).count as int
        } else {
            0
        }
    }

    /// Start of the window that is current for `key` at `now`.
    pub open spec fn live_start(self, key: Seq<char>, now: u64) -> u64 {
        if self.window_live(key, now) {
            self.bucket(key).window_start
        } else {
            now
        }
    }
}

/// Full transition relation of one rate-limit check: `pre`/`post` are the
/// limiter before and after, `now` the single clock reading used for both
/// the expiry test and the grant, `r` the reported outcome.
pub open spec fn checked(
    pre: RateLimiter,
    post: RateLimiter,
    key: Seq<char>,
    limit: u64,
    now: u64,
    r: RateLimitResult,
) -> bool {
    let c = pre.live_count(key, now);
    let s = pre.live_start(key, now);
    let c2 = if c < limit {
        c + 1
    } else {
        c
    };
    let bi = if pre.has_bucket(key) {
        pre.bucket_idx(key)
    } else {
        pre.buckets@.len() as int
    };
    &&& r.allowed == (c < limit)
    &&& r.limit == limit
    &&& r.remaining == if c < limit {
        limit - c2
    } else {
        0int
    }
    &&& r.reset_secs == if pre.window_secs > elapsed_since(s, now) {
        pre.window_secs - elapsed_since(s, now)
    } else {
        0int
    }
    &&& post.window_secs == pre.window_secs
    &&& post.default_limit == pre.default_limit
    &&& post.buckets@.len() == pre.buckets@.len() + (if pre.has_bucket(key) {
        0int
    } else {
        1int
    })
    &&& forall|j: int|
        0 <= j < pre.buckets@.len() && pre.buckets@[j].key@ != key ==> post.buckets@[j]
            == pre.buckets@[j]
    &&& post.buckets@[bi].key@ == key
    &&& post.buckets@[bi].window_start == s
    &&& post.buckets@[bi].count == c2
}

impl RateLimiter {
    /// A limiter with the given window length and default limit and no
    /// recorded keys.
    pub fn new(window_secs: u64, default_limit: u64) -> (r: RateLimiter)
        ensures
            r.wf(),
            r.window_secs == window_secs,
            r.default_limit == default_limit,
            r.buckets@.len() == 0,
    {
        RateLimiter { window_secs, default_limit, buckets: Vec::new() }
    }

    /// One check of `key_id` against `limit` at the injected instant `now`,
    /// read once so the expiry test and the grant cannot disagree.
    pub fn check_at(&mut self, key_id: &str, limit: u64, now: u64) -> (r: RateLimitResult)
        requires
            old(self).wf(),
        ensures
            final(self).wf(),
            checked(*old(self), *final(self), key_id@, limit, now, r),
    {
        let ghost pre = *self;
        let mut found: Option<usize> = None;
        let mut i: usize = 0;
        while i < self.buckets.len()
            invariant
                *self == pre,
                i <= self.buckets@.len(),
                found is None ==> forall|j: int| 0 <= j < i ==> self.buckets@[j].key@ != key_id@,
                found is Some ==> 0 <= found->0 < self.buckets@.len()
                    && self.buckets@[found->0 as int].key@ == key_id@,
                found is Some ==> i == self.buckets@.len(),
            decreases self.buckets@.len() - i,
        {
            if crate::text::str_eq(self.buckets[i].key.as_str(), key_id) {
                found = Some(i);
                i = self.buckets.len();
            } else {
                i = i + 1;
            }
        }
        let j: usize = match found {
            Some(j) => j,
            None => {
                assert(!pre.has_bucket(key_id@));
                self.buckets.push(Bucket { key: key_id.to_owned(), window_start: now, count: 0 });
                self.buckets.len() - 1
            },
        };
        proof {
            if pre.has_bucket(key_id@) {
                // the unique match the scan found is the one `bucket_idx` picks
                let k = pre.bucket_idx(key_id@);
                assert(0 <= k < pre.buckets@.len() && pre.buckets@[k].key@ == key_id@);
                assert(k == j);
            }
        }
        let start = self.buckets[j].window_start;
        let elapsed: u64 = if now >= start {
            now - start
        } else {
            0
        };
        if elapsed >= self.window_secs {
            self.buckets[j].window_start = now;
            self.buckets[j].count = 0;
        }
        let start2 = self.buckets[j].window_start;
        let elapsed2: u64 = if now >= start2 {
            now - start2
        } else {
            0
        };
        let reset_secs: u64 = if self.window_secs > elapsed2 {
            self.window_secs - elapsed2
        } else {
            0
        };
        let count = self.buckets[j].count;
        if count >= limit {
            RateLimitResult { allowed: false, limit, remaining: 0, reset_secs }
        } else {
            self.buckets[j].count = count + 1;
            RateLimitResult { allowed: true, limit, remaining: limit - (count + 1), reset_secs }
        }
    }

    /// One check against `limit`, read off the live clock: some single
    /// instant `now` accounts for both the state change and the outcome.
    pub fn check(&mut self, key_id: &str, limit: u64) -> (r: RateLimitResult)
        requires
            old(self).wf(),
        ensures
            final(self).wf(),
            exists|now: u64| checked(*old(self), *final(self), key_id@, limit, now, r),
    {
        let now = now_secs();
        self.check_at(key_id, limit, now)
    }

    /// `check` against the limiter's default limit.
    pub fn check_default(&mut self, key_id: &str) -> (r: RateLimitResult)
        requires
            old(self).wf(),
        ensures
            final(self).wf(),
            exists|now: u64|
                checked(*old(self), *final(self), key_id@, old(self).default_limit, now, r),
    {
        let limit = self.default_limit;
        self.check(key_id, limit)
    }
}

/// State reached by a fresh key after `n` checks inside one window: the
/// bucket keeps the first instant as its start and counts
/// `min(n, limit)` — the count never grows past the limit.
proof fn lemma_window_state_after(
    states: Seq<RateLimiter>,
    results: Seq<RateLimitResult>,
    key: Seq<char>,
    limit: u64,
    nows: Seq<u64>,
    n: int,
)
    requires
        states.len() == results.len() + 1,
        nows.len() == results.len(),
        forall|i: int| 0 <= i < states.len() ==> (#[trigger] states[i]).wf(),
        !states[0].has_bucket(key),
        forall|i: int|
            0 <= i < nows.len() ==> elapsed_since(nows[0], #[trigger] nows[i])
                < states[0].window_secs,
        forall|i: int|
            0 <= i < results.len() ==> checked(
                states[i],
                states[i + 1],
                key,
                limit,
                nows[i],
                #[trigger] results[i],
            ),
        0 <= n <= results.len(),
    ensures
        states[n].window_secs == states[0].window_secs,
        n == 0 ==> !states[n].has_bucket(key),
        n > 0 ==> states[n].has_bucket(key) && states[n].bucket(key).window_start == nows[0]
            && states[n].bucket(key).count == if n <= limit {
            n
        } else {
            limit as int
        },
    decreases n,
{
    if n > 0 {
        lemma_window_state_after(states, results, key, limit, nows, n - 1);
        let pre = states[n - 1];
        let post = states[n];
        assert(checked(pre, post, key, limit, nows[n - 1], results[n - 1]));
        let bi = if pre.has_bucket(key) {
            pre.bucket_idx(key)
        } else {
            pre.buckets@.len() as int
        };
        assert(post.buckets@[bi].key@ == key);
        // by uniqueness of keys, `bucket_idx` on the post state picks `bi`
        let k = post.bucket_idx(key);
        assert(0 <= k < post.buckets@.len() && post.buckets@[k].key@ == key);
        assert(k == bi);
    }
}

/// Law: for a key first seen inside one fixed window, exactly `limit` of the
/// window's checks are admitted — the `i`-th check (counted from zero)
/// succeeds precisely when `i < limit`, so the `limit + 1`-th fails.
pub proof fn lemma_window_admits_exactly_limit(
    states: Seq<RateLimiter>,
    results: Seq<RateLimitResult>,
    key: Seq<char>,
    limit: u64,
    nows: Seq<u64>,
)
    requires
        states.len() == results.len() + 1,
        nows.len() == results.len(),
        forall|i: int| 0 <= i < states.len() ==> (#[trigger] states[i]).wf(),
        !states[0].has_bucket(key),
        forall|i: int|
            0 <= i < nows.len() ==> elapsed_since(nows[0], #[trigger] nows[i])
                < states[0].window_secs,
        forall|i: int|
            0 <= i < results.len() ==> checked(
                states[i],
                states[i + 1],
                key,
                limit,
                nows[i],
                #[trigger] results[i],
            ),
    ensures
        forall|i: int| 0 <= i < results.len() ==> (#[trigger] results[i]).allowed == (i < limit),
{
    assert forall|i: int| 0 <= i < results.len() implies (#[trigger] results[i]).allowed == (i
        < limit) by {
        lemma_window_state_after(states, results, key, limit, nows, i);
        assert(checked(states[i], states[i + 1], key, limit, nows[i], results[i]));
    }
}

/// Law: a check of one key leaves every other key's bucket exactly as it
/// was — distinct keys are fully independent.
pub proof fn lemma_check_leaves_other_keys(
    pre: RateLimiter,
    post: RateLimiter,
    key: Seq<char>,
    limit: u64,
    now: u64,
    r: RateLimitResult,
    other: Seq<char>,
)
    requires
        pre.wf(),
        post.wf(),
        checked(pre, post, key, limit, now, r),
        other != key,
    ensures
        post.has_bucket(other) == pre.has_bucket(other),
        pre.has_bucket(other) ==> post.bucket(other) == pre.bucket(other),
{
    let bi = if pre.has_bucket(key) {
        pre.bucket_idx(key)
    } else {
        pre.buckets@.len() as int
    };
    if pre.has_bucket(other) {
        let j = pre.bucket_idx(other);
        assert(0 <= j < pre.buckets@.len() && pre.buckets@[j].key@ == other);
        assert(post.buckets@[j] == pre.buckets@[j]);
        assert(post.has_bucket(other));
        let k = post.bucket_idx(other);
        assert(0 <= k < post.buckets@.len() && post.buckets@[k].key@ == other);
        if k != j {
            if k < pre.buckets@.len() {
                assert(pre.buckets@[k].key@ != key ==> post.buckets@[k] == pre.buckets@[k]);
                if pre.buckets@[k].key@ == key {
                    assert(pre.bucket_idx(key) == k);
                    assert(post.buckets@[k].key@ == key);
                }
            } else {
                assert(k == pre.buckets@.len());
                assert(bi == k);
                assert(post.buckets@[k].key@ == key);
            }
        }
        assert(k == j);
    }
    if post.has_bucket(other) && !pre.has_bucket(other) {
        let k = post.bucket_idx(other);
        assert(0 <= k < post.buckets@.len() && post.buckets@[k].key@ == other);
        if k < pre.buckets@.len() {
            if pre.buckets@[k].key@ == key {
                assert(pre.bucket_idx(key) == k);
                assert(post.buckets@[k].key@ == key);
            } else {
                assert(post.buckets@[k] == pre.buckets@[k]);
            }
        } else {
            assert(k == bi);
            assert(post.buckets@[k].key@ == key);
        }
    }
}

/// Relies on std::time::SystemTime::now for the current instant, reported as
/// whole seconds since the Unix epoch (zero if the system clock reads
/// earlier than the epoch). Nothing can be promised of a clock reading.
#[verifier::external_body]
fn now_secs() -> u64 {
    match std::time::SystemTime::now().duration_since(std::time::UNIX_EPOCH) {
        Ok(d) => d.as_secs(),
        Err(_) => 0,
    }
}

} // verus!

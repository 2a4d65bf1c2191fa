//! Fixed-window rate limiting for a node's request endpoints: one counter
//! per client key, reset when its window has elapsed. The caller supplies
//! the clock and identifies clients by opaque integer keys.

use vstd::prelude::*;
use vstd::pervasive::VecAdditionalExecFns;

verus! {

use crate::text::dec_digits;
use crate::text::u64_to_string;

/// Length of one rate-limit window, in seconds.
pub const WINDOW_SECS: u64 = 60;

/// Requests allowed per window for an anonymous client.
pub const IP_RATE_LIMIT: u32 = 100;

/// Requests allowed per window for an authenticated client.
pub const TOKEN_RATE_LIMIT: u32 = 1000;

/// One client's counter within its current window.
#[derive(Clone, Copy, Debug, PartialEq, Eq, Structural)]
pub struct RateLimit {
    count: u32,
    window_start: u64,
}

impl RateLimit {
    /// Requests counted in the current window.
    pub closed spec fn spec_count(self) -> u32 {
        self.count
    }

    /// When the current window started.
    pub closed spec fn spec_window_start(self) -> u64 {
        self.window_start
    }

    /// Whether the window that started at `window_start` has fully elapsed
    /// at time `now` (a window is kept for a grace second beyond its length).
    pub open spec fn spec_is_expired(self, now: u64) -> bool {
        now > self.spec_window_start() + WINDOW_SECS
    }

    /// A fresh counter whose window starts now.
    pub fn new(now: u64) -> (r: RateLimit)
        ensures
            r.spec_count() == 0,
            r.spec_window_start() == now,
    {
        RateLimit { count: 0, window_start: now }
    }

    /// Whether this entry's window has fully elapsed.
    pub fn is_expired(&self, now: u64) -> (r: bool)
        ensures
            r == self.spec_is_expired(now),
    {
        if now <= self.window_start {
            false
        } else {
            now - self.window_start > WINDOW_SECS
        }
    }

    /// How many requests are left under `limit` in the current window.
    pub fn remaining(&self, limit: u32) -> (r: u32)
        ensures
            r == if self.spec_count() <= limit {
                limit - self.spec_count()
            } else {
                0
            },
    {
        if self.count <= limit {
            limit - self.count
        } else {
            0
        }
    }

    /// When the current window resets.
    pub fn reset_at(&self) -> (r: u64)
        requires
            self.spec_window_start() + WINDOW_SECS <= u64::MAX,
        ensures
            r == self.spec_window_start() + WINDOW_SECS,
    {
        self.window_start + WINDOW_SECS
    }
}

/// What a successful rate-limit check tells the client: its limit, how many
/// requests remain, and when the window resets.
#[derive(Clone, Copy, Debug, PartialEq, Eq, Structural)]
pub struct RateLimitInfo {
    pub limit: u32,
    pub remaining: u32,
    pub reset_at: u64,
}

impl RateLimitInfo {
    /// The absolute time at which the client's window resets, never before
    /// the present.
    pub fn reset_timestamp(&self, now: u64) -> (r: u64)
        ensures
            r == if self.reset_at >= now {
                self.reset_at
            } else {
                now
            },
    {
        if self.reset_at >= now {
            self.reset_at
        } else {
            now
        }
    }

    /// The three response headers describing this result, each value in
    /// decimal.
    pub fn to_headers(&self, now: u64) -> (r: Vec<(&'static str, String)>)
        ensures
            r@.len() == 3,
            r@[0].0@ == "X-RateLimit-Limit"@,
            r@[0].1@ == dec_digits(self.limit as nat),
            r@[1].0@ == "X-RateLimit-Remaining"@,
            r@[1].1@ == dec_digits(self.remaining as nat),
            r@[2].0@ == "X-RateLimit-Reset"@,
            r@[2].1@ == dec_digits(self.reset_timestamp_spec(now) as nat),
    {
        let mut r: Vec<(&'static str, String)> = Vec::new();
        r.push(("X-RateLimit-Limit", u64_to_string(self.limit as u64)));
        r.push(("X-RateLimit-Remaining", u64_to_string(self.remaining as u64)));
        r.push(("X-RateLimit-Reset", u64_to_string(self.reset_timestamp(now))));
        r
    }

    /// The value `reset_timestamp` returns.
    pub open spec fn reset_timestamp_spec(self, now: u64) -> u64 {
        if self.reset_at >= now {
            self.reset_at
        } else {
            now
        }
    }
}

/// Why a request was refused.
#[derive(Clone, Copy, Debug, PartialEq, Eq, Structural)]
pub enum RateLimitError {
    LimitExceeded { limit: u32, reset_at: u64 },
    InvalidToken,
}

impl RateLimitError {
    /// A human-readable description of the refusal.
    pub fn to_string(&self, now: u64) -> (r: String)
        ensures
            match self {
                RateLimitError::LimitExceeded { limit, reset_at } => r@
                    == "Rate limit exceeded: "@ + dec_digits(*limit as nat)
                    + " requests/min (resets in "@ + dec_digits(
                    (if *reset_at >= now {
                        *reset_at - now
                    } else {
                        0int
                    }) as nat,
                ) + " seconds)"@,
                RateLimitError::InvalidToken => r@ == "Invalid rate limit token"@,
            },
    {
        match self {
            RateLimitError::LimitExceeded { limit, reset_at } => {
                let secs: u64 = if *reset_at >= now {
                    *reset_at - now
                } else {
                    0
                };
                let mut r = String::from_str("Rate limit exceeded: ");
                let limit_text = u64_to_string(*limit as u64);
                r.append(limit_text.as_str());
                r.append(" requests/min (resets in ");
                let secs_text = u64_to_string(secs);
                r.append(secs_text.as_str());
                r.append(" seconds)");
                proof {
                    assert(r@ =~= "Rate limit exceeded: "@ + dec_digits(*limit as nat)
                        + " requests/min (resets in "@ + dec_digits(secs as nat)
                        + " seconds)"@);
                }
                r
            },
            RateLimitError::InvalidToken => String::from_str("Invalid rate limit token"),
        }
    }
}

/// The entry stored under `key`, if any: entries are searched newest first,
/// and a well-formed table holds each key once.
pub open spec fn spec_find(s: Seq<(u128, RateLimit)>, key: u128) -> Option<RateLimit>
    decreases s.len(),
{
    if s.len() == 0 {
        None
    } else if s.last().0 == key {
        Some(s.last().1)
    } else {
        spec_find(s.drop_last(), key)
    }
}

/// Every key appears at most once.
pub open spec fn keys_unique(s: Seq<(u128, RateLimit)>) -> bool {
    forall|i: int, j: int| 0 <= i < j < s.len() ==> (#[trigger] s[i]).0 != (#[trigger] s[j]).0
}

/// What `spec_find` returns when the table holds `key` at index `i`.
proof fn lemma_find_at(s: Seq<(u128, RateLimit)>, i: int)
    requires
        keys_unique(s),
        0 <= i < s.len(),
    ensures
        spec_find(s, s[i].0) == Some(s[i].1),
    decreases s.len(),
{
    if i < s.len() - 1 {
        assert(s.last().0 != s[i].0);
        assert(s.drop_last()[i] == s[i]);
        lemma_find_at(s.drop_last(), i);
    }
}

/// A key found nowhere in the table is not found by `spec_find`.
proof fn lemma_find_absent(s: Seq<(u128, RateLimit)>, key: u128)
    requires
        forall|i: int| 0 <= i < s.len() ==> (#[trigger] s[i]).0 != key,
    ensures
        spec_find(s, key) is None,
    decreases s.len(),
{
    if s.len() > 0 {
        lemma_find_absent(s.drop_last(), key);
    }
}

/// Updating the entry at index `i` changes what is found under its key and
/// nothing else.
proof fn lemma_find_update(s: Seq<(u128, RateLimit)>, i: int, v: RateLimit)
    requires
        keys_unique(s),
        0 <= i < s.len(),
    ensures
        keys_unique(s.update(i, (s[i].0, v))),
        spec_find(s.update(i, (s[i].0, v)), s[i].0) == Some(v),
        forall|k: u128|
            k != s[i].0 ==> spec_find(s.update(i, (s[i].0, v)), k) == spec_find(s, k),
    decreases s.len(),
{
    let t = s.update(i, (s[i].0, v));
    assert(t.len() == s.len());
    assert(forall|j: int| 0 <= j < s.len() && j != i ==> t[j] == s[j]);
    assert(t[i].0 == s[i].0);
    if i == s.len() - 1 {
        assert forall|k: u128|
            k != s[i].0 implies spec_find(t, k) == spec_find(s, k) by {
            assert(t.drop_last() =~= s.drop_last());
        }
    } else {
        assert(t.drop_last() =~= s.drop_last().update(i, (s[i].0, v)));
        lemma_find_update(s.drop_last(), i, v);
        assert(s.drop_last()[i] == s[i]);
        assert(t.last() == s.last());
        assert(s.last().0 != s[i].0);
        assert forall|k: u128| k != s[i].0 implies spec_find(t, k) == spec_find(s, k) by {
            if s.last().0 != k {
                assert(spec_find(t, k) == spec_find(t.drop_last(), k));
                assert(spec_find(s, k) == spec_find(s.drop_last(), k));
            }
        }
    }
}

/// Appending an entry under a fresh key makes it found and leaves the rest.
proof fn lemma_find_push(s: Seq<(u128, RateLimit)>, key: u128, v: RateLimit)
    requires
        keys_unique(s),
        forall|i: int| 0 <= i < s.len() ==> (#[trigger] s[i]).0 != key,
    ensures
        keys_unique(s.push((key, v))),
        spec_find(s.push((key, v)), key) == Some(v),
        forall|k: u128| k != key ==> spec_find(s.push((key, v)), k) == spec_find(s, k),
{
    let t = s.push((key, v));
    assert(forall|j: int| 0 <= j < s.len() ==> t[j] == s[j]);
    assert(t.last() == (key, v));
    assert forall|k: u128| k != key implies spec_find(t, k) == spec_find(s, k) by {
        assert(t.drop_last() =~= s);
    }
}

/// A fixed-window rate limiter: one table of counters per client class,
/// keyed by opaque client keys the caller derives (an address, a token).
pub struct RateLimiter {
    ip_limits: Vec<(u128, RateLimit)>,
    token_limits: Vec<(u128, RateLimit)>,
}

impl RateLimiter {
    /// The anonymous-client table.
    pub closed spec fn spec_ip_limits(self) -> Seq<(u128, RateLimit)> {
        self.ip_limits@
    }

    /// The authenticated-client table.
    pub closed spec fn spec_token_limits(self) -> Seq<(u128, RateLimit)> {
        self.token_limits@
    }

    /// Well-formedness: each table holds each key once, and every window
    /// start leaves room for a window to be added to it.
    pub closed spec fn wf(self) -> bool {
        &&& keys_unique(self.ip_limits@)
        &&& keys_unique(self.token_limits@)
        &&& forall|i: int|
            0 <= i < self.ip_limits@.len() ==> (#[trigger] self.ip_limits@[i]).1.spec_window_start()
                + WINDOW_SECS <= u64::MAX
        &&& forall|i: int|
            0 <= i < self.token_limits@.len() ==> (#[trigger] self.token_limits@[i]).1.spec_window_start()
                + WINDOW_SECS <= u64::MAX
    }

    /// A fresh limiter with no counters.
    pub fn new() -> (r: RateLimiter)
        ensures
            r.wf(),
            forall|k: u128| spec_find(r.spec_ip_limits(), k) is None,
            forall|k: u128| spec_find(r.spec_token_limits(), k) is None,
    {
        let r = RateLimiter { ip_limits: Vec::new(), token_limits: Vec::new() };
        proof {
            assert forall|k: u128| spec_find(r.ip_limits@, k) is None by {
                lemma_find_absent(r.ip_limits@, k);
            }
            assert forall|k: u128| spec_find(r.token_limits@, k) is None by {
                lemma_find_absent(r.token_limits@, k);
            }
        }
        r
    }

    /// Check one request against the appropriate limit: the token limit when
    /// a token key is given, the per-address limit otherwise.
    pub fn check_rate_limit(&mut self, ip: u128, token: Option<u128>, now: u64) -> (r: Result<
        RateLimitInfo,
        RateLimitError,
    >)
        requires
            old(self).wf(),
            now + WINDOW_SECS <= u64::MAX,
        ensures
            final(self).wf(),
            match token {
                Some(t) => Self::check_post(
                    old(self).spec_token_limits(),
                    final(self).spec_token_limits(),
                    t,
                    now,
                    TOKEN_RATE_LIMIT,
                    r,
                ) && final(self).spec_ip_limits() == old(self).spec_ip_limits(),
                None => Self::check_post(
                    old(self).spec_ip_limits(),
                    final(self).spec_ip_limits(),
                    ip,
                    now,
                    IP_RATE_LIMIT,
                    r,
                ) && final(self).spec_token_limits() == old(self).spec_token_limits(),
            },
    {
        match token {
            Some(t) => self.check_token_limit(t, now),
            None => self.check_ip_limit(ip, now),
        }
    }

    /// What one check does to its table: the entry under `key` (fresh, or
    /// reset if its window elapsed) either refuses the request at the limit,
    /// with nothing counted, or counts it and reports what remains. Other
    /// entries are untouched.
    pub open spec fn check_post(
        before: Seq<(u128, RateLimit)>,
        after: Seq<(u128, RateLimit)>,
        key: u128,
        now: u64,
        limit: u32,
        r: Result<RateLimitInfo, RateLimitError>,
    ) -> bool {
        let base = Self::window_base(spec_find(before, key), now);
        &&& (forall|k: u128| k != key ==> spec_find(after, k) == spec_find(before, k))
        &&& if base.spec_count() >= limit {
            &&& r == Err::<RateLimitInfo, RateLimitError>(
                (RateLimitError::LimitExceeded {
                    limit,
                    reset_at: (base.spec_window_start() + WINDOW_SECS) as u64,
                }),
            )
            &&& spec_find(after, key) == Some(base)
        } else {
            &&& (r matches Ok(info) && info == (RateLimitInfo {
                limit,
                remaining: (limit - (base.spec_count() + 1)) as u32,
                reset_at: (base.spec_window_start() + WINDOW_SECS) as u64,
            }))
            &&& (spec_find(after, key) matches Some(e) && e.spec_count() == base.spec_count()
                + 1 && e.spec_window_start() == base.spec_window_start())
        }
    }

    /// The counter a check starts from: the stored entry while its window
    /// lasts, otherwise a fresh one whose window starts now.
    pub closed spec fn window_base(prev: Option<RateLimit>, now: u64) -> RateLimit {
        match prev {
            Some(e) => if now >= e.spec_window_start() && now - e.spec_window_start()
                >= WINDOW_SECS {
                RateLimit { count: 0, window_start: now }
            } else {
                e
            },
            None => RateLimit { count: 0, window_start: now },
        }
    }

    /// Check one anonymous request against the per-address limit.
    pub fn check_ip_limit(&mut self, ip: u128, now: u64) -> (r: Result<
        RateLimitInfo,
        RateLimitError,
    >)
        requires
            old(self).wf(),
            now + WINDOW_SECS <= u64::MAX,
        ensures
            final(self).wf(),
            Self::check_post(
                old(self).spec_ip_limits(),
                final(self).spec_ip_limits(),
                ip,
                now,
                IP_RATE_LIMIT,
                r,
            ),
            final(self).spec_token_limits() == old(self).spec_token_limits(),
    {
        let r = Self::check_table(&mut self.ip_limits, ip, now, IP_RATE_LIMIT);
        r
    }

    /// Check one authenticated request against the per-token limit.
    pub fn check_token_limit(&mut self, token: u128, now: u64) -> (r: Result<
        RateLimitInfo,
        RateLimitError,
    >)
        requires
            old(self).wf(),
            now + WINDOW_SECS <= u64::MAX,
        ensures
            final(self).wf(),
            Self::check_post(
                old(self).spec_token_limits(),
                final(self).spec_token_limits(),
                token,
                now,
                TOKEN_RATE_LIMIT,
                r,
            ),
            final(self).spec_ip_limits() == old(self).spec_ip_limits(),
    {
        let r = Self::check_table(&mut self.token_limits, token, now, TOKEN_RATE_LIMIT);
        r
    }

    /// The shared window logic over one table.
    fn check_table(table: &mut Vec<(u128, RateLimit)>, key: u128, now: u64, limit: u32) -> (r:
        Result<RateLimitInfo, RateLimitError>)
        requires
            keys_unique(old(table)@),
            forall|i: int|
                0 <= i < old(table)@.len()
                    ==> (#[trigger] old(table)@[i]).1.spec_window_start() + WINDOW_SECS
                        <= u64::MAX,
            now + WINDOW_SECS <= u64::MAX,
        ensures
            keys_unique(final(table)@),
            forall|i: int|
                0 <= i < final(table)@.len()
                    ==> (#[trigger] final(table)@[i]).1.spec_window_start() + WINDOW_SECS
                        <= u64::MAX,
            RateLimiter::check_post(old(table)@, final(table)@, key, now, limit, r),
    {
        let n = table.len();
        let mut k: usize = 0;
        let mut found: Option<usize> = None;
        while k < n
            invariant
                k <= n,
                n == table@.len(),
                match found {
                    Some(i) => i < n && table@[i as int].0 == key,
                    None => forall|j: int| 0 <= j < k ==> (#[trigger] table@[j]).0 != key,
                },
                found is Some ==> k == n,
            decreases n - k,
        {
            if table[k].0 == key {
                found = Some(k);
                k = n;
            } else {
                k = k + 1;
            }
        }

        match found {
            Some(i) => {
                proof {
                    lemma_find_at(table@, i as int);
                }
                let mut entry = table[i].1;
                if now >= entry.window_start && now - entry.window_start >= WINDOW_SECS {
                    entry.count = 0;
                    entry.window_start = now;
                }
                if entry.count >= limit {
                    table.set(i, (key, entry));
                    proof {
                        lemma_find_update(old(table)@, i as int, entry);
                    }
                    return Err(RateLimitError::LimitExceeded {
                        limit,
                        reset_at: entry.reset_at(),
                    });
                }
                entry.count = entry.count + 1;
                table.set(i, (key, entry));
                proof {
                    lemma_find_update(old(table)@, i as int, entry);
                }
                Ok(RateLimitInfo {
                    limit,
                    remaining: entry.remaining(limit),
                    reset_at: entry.reset_at(),
                })
            },
            None => {
                proof {
                    lemma_find_absent(table@, key);
                }
                let mut entry = RateLimit::new(now);
                if entry.count >= limit {
                    table.push((key, entry));
                    proof {
                        lemma_find_push(old(table)@, key, entry);
                    }
                    return Err(RateLimitError::LimitExceeded {
                        limit,
                        reset_at: entry.reset_at(),
                    });
                }
                entry.count = 1;
                table.push((key, entry));
                proof {
                    lemma_find_push(old(table)@, key, entry);
                }
                Ok(RateLimitInfo {
                    limit,
                    remaining: entry.remaining(limit),
                    reset_at: entry.reset_at(),
                })
            },
        }
    }

    /// Drop every entry whose window has fully elapsed.
    pub fn cleanup_expired(&mut self, now: u64)
        requires
            old(self).wf(),
        ensures
            final(self).wf(),
            forall|k: u128|
                spec_find(final(self).spec_ip_limits(), k) == (match spec_find(
                    old(self).spec_ip_limits(),
                    k,
                ) {
                    Some(e) => if e.spec_is_expired(now) {
                        None
                    } else {
                        Some(e)
                    },
                    None => None,
                }),
            forall|k: u128|
                spec_find(final(self).spec_token_limits(), k) == (match spec_find(
                    old(self).spec_token_limits(),
                    k,
                ) {
                    Some(e) => if e.spec_is_expired(now) {
                        None
                    } else {
                        Some(e)
                    },
                    None => None,
                }),
    {
        let kept_ips = Self::retain_live(&self.ip_limits, now);
        let kept_tokens = Self::retain_live(&self.token_limits, now);
        self.ip_limits = kept_ips;
        self.token_limits = kept_tokens;
    }

    /// A copy of the table without its expired entries.
    fn retain_live(table: &Vec<(u128, RateLimit)>, now: u64) -> (r: Vec<(u128, RateLimit)>)
        requires
            keys_unique(table@),
            forall|i: int|
                0 <= i < table@.len() ==> (#[trigger] table@[i]).1.spec_window_start()
                    + WINDOW_SECS <= u64::MAX,
        ensures
            keys_unique(r@),
            forall|i: int|
                0 <= i < r@.len() ==> (#[trigger] r@[i]).1.spec_window_start() + WINDOW_SECS
                    <= u64::MAX,
            forall|k: u128|
                spec_find(r@, k) == (match spec_find(table@, k) {
                    Some(e) => if e.spec_is_expired(now) {
                        None
                    } else {
                        Some(e)
                    },
                    None => None,
                }),
    {
        let n = table.len();
        let mut r: Vec<(u128, RateLimit)> = Vec::new();
        let mut k: usize = 0;
        while k < n
            invariant
                k <= n,
                n == table@.len(),
                keys_unique(table@),
                keys_unique(r@),
                forall|i: int|
                    0 <= i < table@.len() ==> (#[trigger] table@[i]).1.spec_window_start()
                        + WINDOW_SECS <= u64::MAX,
                forall|i: int|
                    0 <= i < r@.len() ==> (#[trigger] r@[i]).1.spec_window_start() + WINDOW_SECS
                        <= u64::MAX,
                forall|i: int|
                    0 <= i < r@.len() ==> exists|j: int|
                        0 <= j < k && table@[j] == #[trigger] r@[i],
                forall|key: u128|
                    spec_find(r@, key) == (match Self::find_up_to(table@, k as int, key) {
                        Some(e) => if e.spec_is_expired(now) {
                            None
                        } else {
                            Some(e)
                        },
                        None => None,
                    }),
            decreases n - k,
        {
            let (key, entry) = table[k];
            let ghost prefix = r@;
            let expired = entry.is_expired(now);
            if !expired {
                r.push((key, entry));
                proof {
                    assert forall|i: int|
                        0 <= i < prefix.len() implies (#[trigger] prefix[i]).0 != key by {
                        let j = choose|j: int| 0 <= j < k && table@[j] == prefix[i];
                        assert(table@[j].0 != table@[k as int].0);
                    }
                    lemma_find_push(prefix, key, entry);
                }
            }
            proof {
                assert forall|key2: u128|
                    spec_find(r@, key2) == (match Self::find_up_to(table@, k + 1, key2) {
                        Some(e) => if e.spec_is_expired(now) {
                            None
                        } else {
                            Some(e)
                        },
                        None => None,
                    }) by {
                    assert(Self::find_up_to(table@, k + 1, key2) == (
                    if table@[k as int].0 == key2 {
                        Some(table@[k as int].1)
                    } else {
                        Self::find_up_to(table@, k as int, key2)
                    })) by {
                        assert(table@.take(k + 1).drop_last() =~= table@.take(k as int));
                        assert(table@.take(k + 1).last() == table@[k as int]);
                    }
                    if table@[k as int].0 == key2 {
                        assert forall|i2: int|
                            0 <= i2 < k implies (#[trigger] table@.take(k as int)[i2]).0
                            != key2 by {
                            assert(table@.take(k as int)[i2] == table@[i2]);
                            assert(table@[i2].0 != table@[k as int].0);
                        }
                        lemma_find_absent(table@.take(k as int), key2);
                        assert(spec_find(prefix, key2) is None);
                        if expired {
                            assert(r@ == prefix);
                        } else {
                            assert(spec_find(r@, key2) == Some(entry));
                        }
                    } else {
                        if !expired {
                            assert(spec_find(r@, key2) == spec_find(prefix, key2));
                        }
                    }
                }
            }
            k = k + 1;
        }
        proof {
            assert(table@.take(n as int) =~= table@);
        }
        r
    }

    /// The entry found among the first `k` elements of the table.
    pub open spec fn find_up_to(s: Seq<(u128, RateLimit)>, k: int, key: u128) -> Option<
        RateLimit,
    > {
        spec_find(s.take(k), key)
    }
}

impl Default for RateLimiter {
    /// The same fresh limiter `new` builds.
    fn default() -> (r: RateLimiter)
        ensures
            r.wf(),
            forall|k: u128| spec_find(r.spec_ip_limits(), k) is None,
            forall|k: u128| spec_find(r.spec_token_limits(), k) is None,
    {
        RateLimiter::new()
    }
}

} // verus!

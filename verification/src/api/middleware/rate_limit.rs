//! Token-bucket rate limiting per key. Tokens are counted in billionths so
//! that a refill over any number of nanoseconds is exact: a bucket gains
//! `requests_per_second` billionths of a token per nanosecond, up to
//! `burst_size` tokens, and a request takes one whole token.
use vstd::prelude::*;
use vstd::hash_map::StringHashMap;
use vstd::string::*;

verus! {

/// Billionths of a token in one token.
pub const TOKEN: u64 = 1_000_000_000;

/// A key's bucket: its tokens in billionths, and the time of its last update
/// in nanoseconds.
#[derive(Clone, Copy, Debug, PartialEq, Eq, Structural)]
pub struct TokenBucket {
    pub tokens: u64,
    pub last_update: u64,
}

/// The level of a bucket at `now`: its tokens plus what accrued since its
/// last update (nothing if `now` is not later), capped at the burst size.
pub open spec fn refilled(bucket: TokenBucket, now: u64, requests_per_second: u32, burst_size: u32) -> int {
    let elapsed: int = if now > bucket.last_update { now - bucket.last_update } else { 0 };
    let level = bucket.tokens + elapsed * requests_per_second;
    let cap = burst_size * TOKEN;
    if level < cap { level } else { cap }
}

/// A request at `now` finds at least one token.
pub open spec fn admits(bucket: TokenBucket, now: u64, requests_per_second: u32, burst_size: u32) -> bool {
    refilled(bucket, now, requests_per_second, burst_size) >= TOKEN
}

/// The bucket after a request at `now`: refilled, less one token if the
/// request was admitted, updated at `now`.
pub open spec fn after_request(bucket: TokenBucket, now: u64, requests_per_second: u32, burst_size: u32) -> TokenBucket {
    let level = refilled(bucket, now, requests_per_second, burst_size);
    TokenBucket {
        tokens: (if level >= TOKEN { level - TOKEN } else { level }) as u64,
        last_update: now,
    }
}

/// The bucket after `n` requests, all at `now`.
pub open spec fn after_requests(
    bucket: TokenBucket,
    now: u64,
    requests_per_second: u32,
    burst_size: u32,
    n: nat,
) -> TokenBucket
    decreases n,
{
    if n == 0 {
        bucket
    } else {
        after_request(
            after_requests(bucket, now, requests_per_second, burst_size, (n - 1) as nat),
            now,
            requests_per_second,
            burst_size,
        )
    }
}

/// The burst capacity: a key seen for the first time at `now` has its first
/// `burst_size` requests at that instant admitted, and the next one refused.
pub proof fn law_burst_capacity(now: u64, requests_per_second: u32, burst_size: u32, n: nat)
    requires
        n <= burst_size,
    ensures
        after_requests(full_bucket(now, burst_size), now, requests_per_second, burst_size, n).tokens == (
        burst_size - n) * TOKEN,
        after_requests(full_bucket(now, burst_size), now, requests_per_second, burst_size, n).last_update == now,
        n < burst_size ==> admits(
            after_requests(full_bucket(now, burst_size), now, requests_per_second, burst_size, n),
            now,
            requests_per_second,
            burst_size,
        ),
        n == burst_size ==> !admits(
            after_requests(full_bucket(now, burst_size), now, requests_per_second, burst_size, n),
            now,
            requests_per_second,
            burst_size,
        ),
    decreases n,
{
    assert((burst_size - n) * TOKEN <= burst_size * TOKEN) by (nonlinear_arith)
        requires n <= burst_size;
    assert(burst_size * TOKEN <= 0xffff_ffff * 1_000_000_000) by (nonlinear_arith)
        requires burst_size <= 0xffff_ffffu32;
    if n > 0 {
        law_burst_capacity(now, requests_per_second, burst_size, (n - 1) as nat);
        assert((burst_size - (n - 1)) * TOKEN == (burst_size - n) * TOKEN + TOKEN) by (nonlinear_arith);
    }
    assert((burst_size - n) * TOKEN >= TOKEN <==> n < burst_size) by (nonlinear_arith)
        requires n <= burst_size;
}

/// The bucket after requests at each of `times` in turn, from `bucket`.
pub open spec fn after_series(bucket: TokenBucket, times: Seq<u64>, requests_per_second: u32, burst_size: u32) -> TokenBucket
    decreases times.len(),
{
    if times.len() == 0 {
        bucket
    } else {
        after_request(
            after_series(bucket, times.drop_last(), requests_per_second, burst_size),
            times.last(),
            requests_per_second,
            burst_size,
        )
    }
}

/// How many of the requests at each of `times` in turn, from `bucket`, are
/// admitted.
pub open spec fn admitted_count(bucket: TokenBucket, times: Seq<u64>, requests_per_second: u32, burst_size: u32) -> nat
    decreases times.len(),
{
    if times.len() == 0 {
        0
    } else {
        admitted_count(bucket, times.drop_last(), requests_per_second, burst_size) + if admits(
            after_series(bucket, times.drop_last(), requests_per_second, burst_size),
            times.last(),
            requests_per_second,
            burst_size,
        ) {
            1nat
        } else {
            0nat
        }
    }
}

/// What a key's bucket holds, plus what was taken from it, never exceeds
/// the burst plus what accrued since the bucket was made full at `start`.
proof fn lemma_series_budget(start: u64, times: Seq<u64>, requests_per_second: u32, burst_size: u32)
    requires
        forall|i: int, j: int| 0 <= i <= j < times.len() ==> times[i] <= times[j],
        forall|i: int| 0 <= i < times.len() ==> start <= #[trigger] times[i],
    ensures
        ({
            let bucket = after_series(full_bucket(start, burst_size), times, requests_per_second, burst_size);
            let count = admitted_count(full_bucket(start, burst_size), times, requests_per_second, burst_size);
            let latest: int = if times.len() == 0 { start as int } else { times.last() as int };
            &&& bucket.last_update == latest
            &&& bucket.tokens <= burst_size * TOKEN
            &&& bucket.tokens + count * TOKEN <= burst_size * TOKEN + requests_per_second * (latest - start)
        }),
    decreases times.len(),
{
    assert(burst_size * TOKEN <= 0xffff_ffff * 1_000_000_000) by (nonlinear_arith)
        requires burst_size <= 0xffff_ffffu32;
    if times.len() > 0 {
        let prefix = times.drop_last();
        lemma_series_budget(start, prefix, requests_per_second, burst_size);
        let full = full_bucket(start, burst_size);
        let before = after_series(full, prefix, requests_per_second, burst_size);
        let count = admitted_count(full, prefix, requests_per_second, burst_size);
        let previous: int = if prefix.len() == 0 { start as int } else { prefix.last() as int };
        let now = times.last();
        assert(previous <= now) by {
            if prefix.len() > 0 {
                assert(prefix.last() == times[times.len() - 2]);
            }
        }
        let elapsed: int = now - previous;
        assert(requests_per_second * (now - start) == requests_per_second * (previous - start)
            + requests_per_second * elapsed) by (nonlinear_arith)
            requires elapsed == now - previous;
        assert(elapsed * requests_per_second == requests_per_second * elapsed) by (nonlinear_arith);
        assert(elapsed * requests_per_second >= 0) by (nonlinear_arith)
            requires elapsed >= 0;
    }
}

/// The sustained rate: of the requests made for a key from its first one
/// on, at times (in nanoseconds) that never go back, at most `burst_size`
/// plus `requests_per_second` for each second between the first and the
/// last are admitted. Only the key's own bucket decides, so requests for
/// other keys in between change nothing.
pub proof fn law_admissions_over_time(times: Seq<u64>, requests_per_second: u32, burst_size: u32)
    requires
        times.len() >= 1,
        forall|i: int, j: int| 0 <= i <= j < times.len() ==> times[i] <= times[j],
    ensures
        admitted_count(full_bucket(times[0], burst_size), times, requests_per_second, burst_size) * TOKEN
            <= burst_size * TOKEN + requests_per_second * (times.last() - times[0]),
{
    lemma_series_budget(times[0], times, requests_per_second, burst_size);
}

/// The bucket a request for `key` at `now` finds: the key's own, or a full
/// one for a key seen for the first time.
pub open spec fn bucket_for(buckets: Map<Seq<char>, TokenBucket>, key: Seq<char>, now: u64, burst_size: u32) -> TokenBucket {
    if buckets.contains_key(key) {
        buckets[key]
    } else {
        full_bucket(now, burst_size)
    }
}

/// The buckets after a request for `key` at `now`: only the key's bucket
/// changes.
pub open spec fn acquire_step(
    buckets: Map<Seq<char>, TokenBucket>,
    key: Seq<char>,
    now: u64,
    requests_per_second: u32,
    burst_size: u32,
) -> Map<Seq<char>, TokenBucket> {
    buckets.insert(key, after_request(bucket_for(buckets, key, now, burst_size), now, requests_per_second, burst_size))
}

/// The buckets after a series of requests, each a key and a time, in turn.
pub open spec fn acquire_all(
    buckets: Map<Seq<char>, TokenBucket>,
    calls: Seq<(Seq<char>, u64)>,
    requests_per_second: u32,
    burst_size: u32,
) -> Map<Seq<char>, TokenBucket>
    decreases calls.len(),
{
    if calls.len() == 0 {
        buckets
    } else {
        acquire_step(
            acquire_all(buckets, calls.drop_last(), requests_per_second, burst_size),
            calls.last().0,
            calls.last().1,
            requests_per_second,
            burst_size,
        )
    }
}

/// How many of the requests for `key` in a series are admitted.
pub open spec fn admitted_for(
    buckets: Map<Seq<char>, TokenBucket>,
    calls: Seq<(Seq<char>, u64)>,
    key: Seq<char>,
    requests_per_second: u32,
    burst_size: u32,
) -> nat
    decreases calls.len(),
{
    if calls.len() == 0 {
        0
    } else {
        let before = acquire_all(buckets, calls.drop_last(), requests_per_second, burst_size);
        admitted_for(buckets, calls.drop_last(), key, requests_per_second, burst_size) + if calls.last().0 == key
            && admits(
            bucket_for(before, key, calls.last().1, burst_size),
            calls.last().1,
            requests_per_second,
            burst_size,
        ) {
            1nat
        } else {
            0nat
        }
    }
}

/// The times of the requests for `key` in a series, in order.
pub open spec fn times_for(calls: Seq<(Seq<char>, u64)>, key: Seq<char>) -> Seq<u64>
    decreases calls.len(),
{
    if calls.len() == 0 {
        seq![]
    } else if calls.last().0 == key {
        times_for(calls.drop_last(), key).push(calls.last().1)
    } else {
        times_for(calls.drop_last(), key)
    }
}

/// A key's bucket after a series of requests depends only on the times of
/// that key's own requests.
proof fn lemma_key_follows_own_requests(
    buckets: Map<Seq<char>, TokenBucket>,
    calls: Seq<(Seq<char>, u64)>,
    key: Seq<char>,
    requests_per_second: u32,
    burst_size: u32,
)
    requires
        !buckets.contains_key(key),
    ensures
        ({
            let times = times_for(calls, key);
            let after = acquire_all(buckets, calls, requests_per_second, burst_size);
            &&& times.len() == 0 ==> !after.contains_key(key)
            &&& times.len() > 0 ==> after.contains_key(key) && after[key] == after_series(
                full_bucket(times[0], burst_size),
                times,
                requests_per_second,
                burst_size,
            )
            &&& times.len() > 0 ==> admitted_for(buckets, calls, key, requests_per_second, burst_size)
                == admitted_count(full_bucket(times[0], burst_size), times, requests_per_second, burst_size)
            &&& times.len() == 0 ==> admitted_for(buckets, calls, key, requests_per_second, burst_size) == 0
        }),
    decreases calls.len(),
{
    if calls.len() > 0 {
        let prefix = calls.drop_last();
        lemma_key_follows_own_requests(buckets, prefix, key, requests_per_second, burst_size);
        let earlier = times_for(prefix, key);
        if calls.last().0 == key {
            let times = times_for(calls, key);
            assert(times.drop_last() =~= earlier);
            if earlier.len() == 0 {
                assert(times[0] == calls.last().1);
                assert(after_series(full_bucket(times[0], burst_size), earlier, requests_per_second, burst_size)
                    == full_bucket(times[0], burst_size));
                assert(admitted_count(full_bucket(times[0], burst_size), earlier, requests_per_second, burst_size)
                    == 0);
            } else {
                assert(times[0] == earlier[0]);
            }
        }
    }
}

/// Requests no faster than the rate all pass: from a key's first request
/// on, when each request comes at least one token's refill time after the
/// one before (at least 10^9 / `requests_per_second` nanoseconds) and the
/// burst size is at least one, every request is admitted.
pub proof fn law_steady_requests_admitted(times: Seq<u64>, requests_per_second: u32, burst_size: u32)
    requires
        burst_size >= 1,
        times.len() >= 1,
        forall|i: int, j: int| 0 <= i <= j < times.len() ==> times[i] <= times[j],
        forall|i: int| 0 <= i < times.len() - 1 ==> (times[i + 1] - #[trigger] times[i]) * requests_per_second >= TOKEN,
    ensures
        admitted_count(full_bucket(times[0], burst_size), times, requests_per_second, burst_size) == times.len(),
    decreases times.len(),
{
    let full = full_bucket(times[0], burst_size);
    let prefix = times.drop_last();
    assert(burst_size * TOKEN >= TOKEN) by (nonlinear_arith)
        requires burst_size >= 1;
    assert(burst_size * TOKEN <= 0xffff_ffff * 1_000_000_000) by (nonlinear_arith)
        requires burst_size <= 0xffff_ffffu32;
    if times.len() == 1 {
        assert(prefix =~= Seq::<u64>::empty());
        assert(after_series(full, prefix, requests_per_second, burst_size) == full);
        assert(admitted_count(full, prefix, requests_per_second, burst_size) == 0);
    } else {
        law_steady_requests_admitted(prefix, requests_per_second, burst_size);
        assert(prefix[0] == times[0]);
        lemma_series_budget(times[0], prefix, requests_per_second, burst_size);
        let before = after_series(full, prefix, requests_per_second, burst_size);
        let previous = prefix.last();
        let now = times.last();
        assert(previous == times[times.len() - 2]);
        assert((now - previous) * requests_per_second >= TOKEN);
        assert(before.last_update == previous);
        assert(refilled(before, now, requests_per_second, burst_size) >= TOKEN) by (nonlinear_arith)
            requires
                now >= previous,
                (now - previous) * requests_per_second >= TOKEN,
                before.last_update == previous,
                before.tokens >= 0,
                burst_size * TOKEN >= TOKEN,
                refilled(before, now, requests_per_second, burst_size) == if before.tokens + (if now
                    > before.last_update { now - before.last_update } else { 0 }) * requests_per_second
                    < burst_size * TOKEN {
                    before.tokens + (if now > before.last_update { now - before.last_update } else { 0 })
                        * requests_per_second
                } else {
                    burst_size * TOKEN
                };
    }
}

/// The sustained rate, over the limiter's requests: from a key's first
/// request on, with the times of that key's requests never going back, at
/// most `burst_size` plus `requests_per_second` for each second between its
/// first and last request are admitted, whatever requests for other keys
/// come in between; and which are admitted depends only on the times of the
/// key's own requests.
pub proof fn law_calls_admitted_over_time(
    buckets: Map<Seq<char>, TokenBucket>,
    calls: Seq<(Seq<char>, u64)>,
    key: Seq<char>,
    requests_per_second: u32,
    burst_size: u32,
)
    requires
        !buckets.contains_key(key),
        times_for(calls, key).len() >= 1,
        forall|i: int, j: int|
            0 <= i <= j < times_for(calls, key).len() ==> times_for(calls, key)[i] <= times_for(calls, key)[j],
    ensures
        admitted_for(buckets, calls, key, requests_per_second, burst_size) == admitted_count(
            full_bucket(times_for(calls, key)[0], burst_size),
            times_for(calls, key),
            requests_per_second,
            burst_size,
        ),
        admitted_for(buckets, calls, key, requests_per_second, burst_size) * TOKEN <= burst_size * TOKEN
            + requests_per_second * (times_for(calls, key).last() - times_for(calls, key)[0]),
{
    lemma_key_follows_own_requests(buckets, calls, key, requests_per_second, burst_size);
    law_admissions_over_time(times_for(calls, key), requests_per_second, burst_size);
}

/// The bucket a key starts with: full, updated at `now`.
pub open spec fn full_bucket(now: u64, burst_size: u32) -> TokenBucket {
    TokenBucket { tokens: (burst_size * TOKEN) as u64, last_update: now }
}

/// The time since a bucket's last update, zero if `now` is not later.
pub open spec fn age(bucket: TokenBucket, now: u64) -> int {
    if now > bucket.last_update { now - bucket.last_update } else { 0 }
}

/// The keys whose buckets were updated less than `max_age` before `now`.
pub open spec fn recent_keys(buckets: Map<Seq<char>, TokenBucket>, now: u64, max_age: u64) -> Set<Seq<char>> {
    Set::new(|k: Seq<char>| buckets.contains_key(k) && age(buckets[k], now) < max_age)
}

/// The key is among the first `n` listed.
pub open spec fn listed_before(keys: Seq<String>, n: int, key: Seq<char>) -> bool {
    exists|i: int| 0 <= i < n && #[trigger] keys[i]@ == key
}

/// The body of the answer to a refused request.
pub struct RateLimitError {
    pub error: RateLimitErrorBody,
}

pub struct RateLimitErrorBody {
    pub code: String,
    pub message: String,
}

impl RateLimitError {
    /// The refusal: code "rate_limit_exceeded", message "Too many requests.
    /// Please slow down.".
    pub fn too_many_requests() -> (body: RateLimitError)
        ensures
            body.error.code@ == "rate_limit_exceeded"@,
            body.error.message@ == "Too many requests. Please slow down."@,
    {
        RateLimitError {
            error: RateLimitErrorBody {
                code: String::from_str("rate_limit_exceeded"),
                message: String::from_str("Too many requests. Please slow down."),
            },
        }
    }
}

/// Token bucket rate limiter
pub struct RateLimiter {
    buckets: StringHashMap<TokenBucket>,
    keys: Vec<String>,
    requests_per_second: u32,
    burst_size: u32,
}

impl View for RateLimiter {
    type V = Map<Seq<char>, TokenBucket>;

    closed spec fn view(&self) -> Map<Seq<char>, TokenBucket> {
        self.buckets@
    }
}

impl RateLimiter {
    /// Tokens added per second.
    pub closed spec fn rate(&self) -> u32 {
        self.requests_per_second
    }

    /// The most tokens a bucket holds.
    pub closed spec fn burst(&self) -> u32 {
        self.burst_size
    }

    /// The keys are listed once each, exactly the keys with a bucket, and no
    /// bucket holds more than the burst size.
    pub closed spec fn wf(&self) -> bool {
        &&& forall|i: int, j: int|
            0 <= i < j < self.keys@.len() ==> self.keys@[i]@ != self.keys@[j]@
        &&& forall|i: int| 0 <= i < self.keys@.len() ==> self.buckets@.contains_key(#[trigger] self.keys@[i]@)
        &&& forall|k: Seq<char>|
            self.buckets@.contains_key(k) ==> exists|i: int| 0 <= i < self.keys@.len() && #[trigger] self.keys@[i]@ == k
        &&& forall|k: Seq<char>|
            #[trigger] self.buckets@.contains_key(k) ==> self.buckets@[k].tokens <= self.burst_size * TOKEN
    }

    pub fn new(requests_per_second: u32, burst_size: u32) -> (limiter: Self)
        ensures
            limiter.wf(),
            limiter@ == Map::<Seq<char>, TokenBucket>::empty(),
            limiter.rate() == requests_per_second,
            limiter.burst() == burst_size,
    {
        RateLimiter { buckets: StringHashMap::new(), keys: Vec::new(), requests_per_second, burst_size }
    }

    /// Try to acquire a token for the given key at `now` (nanoseconds on a
    /// monotonic clock). A key seen for the first time starts with a full
    /// bucket. The bucket is refilled for the time elapsed; the request is
    /// admitted, and one token taken, exactly when at least one token is
    /// there. Other keys' buckets are untouched.
    pub fn try_acquire(&mut self, key: &str, now: u64) -> (admitted: bool)
        requires
            old(self).wf(),
        ensures
            final(self).wf(),
            final(self).rate() == old(self).rate(),
            final(self).burst() == old(self).burst(),
            admitted == admits(bucket_for(old(self)@, key@, now, old(self).burst()), now, old(self).rate(), old(self).burst()),
            final(self)@ == acquire_step(old(self)@, key@, now, old(self).rate(), old(self).burst()),
    {
        let cap: u64 = (self.burst_size as u64) * TOKEN;
        let known = self.buckets.get(key);
        let before = match known {
            Some(b) => *b,
            None => TokenBucket { tokens: cap, last_update: now },
        };
        let elapsed: u64 = if now > before.last_update { now - before.last_update } else { 0 };
        let rate = self.requests_per_second;
        assert((elapsed as int) * (rate as int) <= 0xffff_ffff_ffff_ffffu64 as int * 0xffff_ffffu32 as int) by (nonlinear_arith)
            requires elapsed <= 0xffff_ffff_ffff_ffffu64, rate <= 0xffff_ffffu32;
        let gained: u128 = (elapsed as u128) * (rate as u128);
        let total: u128 = (before.tokens as u128) + gained;
        let level: u64 = if total < (cap as u128) { total as u64 } else { cap };
        let admitted = level >= TOKEN;
        let after = TokenBucket { tokens: if admitted { level - TOKEN } else { level }, last_update: now };
        if known.is_none() {
            let k = String::from_str(key);
            self.keys.push(String::from_str(key));
            proof {
                assert forall|i: int| 0 <= i < self.keys@.len() - 1 implies self.keys@[i]@ != key@ by {
                    assert(old(self).buckets@.contains_key(old(self).keys@[i]@));
                }
            }
            self.buckets.insert(k, after);
        } else {
            self.buckets.insert(String::from_str(key), after);
        }
        proof {
            assert forall|k: Seq<char>| self.buckets@.contains_key(k) implies exists|i: int|
                0 <= i < self.keys@.len() && #[trigger] self.keys@[i]@ == k by {
                if k == key@ {
                    if known.is_none() {
                        assert(self.keys@[self.keys@.len() - 1]@ == k);
                    }
                } else {
                    assert(old(self).buckets@.contains_key(k));
                    let i = choose|i: int| 0 <= i < old(self).keys@.len() && #[trigger] old(self).keys@[i]@ == k;
                    assert(self.keys@[i] == old(self).keys@[i]);
                }
            }
        }
        admitted
    }

    /// The middleware's decision: a request that carries no API key id is
    /// let through without touching any bucket; one that does is admitted
    /// exactly when its key's bucket has a token.
    pub fn check_request(&mut self, api_key_id: Option<&str>, now: u64) -> (admitted: bool)
        requires
            old(self).wf(),
        ensures
            final(self).wf(),
            final(self).rate() == old(self).rate(),
            final(self).burst() == old(self).burst(),
            match api_key_id {
                None => admitted && final(self)@ == old(self)@,
                Some(key) => {
                    &&& admitted == admits(
                        bucket_for(old(self)@, key@, now, old(self).burst()),
                        now,
                        old(self).rate(),
                        old(self).burst(),
                    )
                    &&& final(self)@ == acquire_step(old(self)@, key@, now, old(self).rate(), old(self).burst())
                },
            },
    {
        match api_key_id {
            None => true,
            Some(key) => self.try_acquire(key, now),
        }
    }

    /// Cleanup old buckets to prevent memory leaks: keeps exactly the
    /// buckets updated less than `max_age` nanoseconds before `now`.
    pub fn cleanup(&mut self, max_age: u64, now: u64)
        requires
            old(self).wf(),
        ensures
            final(self).wf(),
            final(self).rate() == old(self).rate(),
            final(self).burst() == old(self).burst(),
            final(self)@ == old(self)@.restrict(recent_keys(old(self)@, now, max_age)),
    {
        let ghost all_keys = self.keys@;
        let ghost start_buckets = self.buckets@;
        let mut pending: Vec<String> = Vec::new();
        std::mem::swap(&mut pending, &mut self.keys);
        while pending.len() > 0
            invariant
                pending@ == all_keys.take(pending@.len() as int),
                pending@.len() <= all_keys.len(),
                self.requests_per_second == old(self).requests_per_second,
                self.burst_size == old(self).burst_size,
                forall|i: int, j: int| 0 <= i < j < all_keys.len() ==> all_keys[i]@ != all_keys[j]@,
                forall|i: int| 0 <= i < all_keys.len() ==> start_buckets.contains_key(#[trigger] all_keys[i]@),
                forall|k: Seq<char>|
                    start_buckets.contains_key(k) ==> exists|i: int| 0 <= i < all_keys.len() && #[trigger] all_keys[i]@ == k,
                forall|k: Seq<char>|
                    #[trigger] start_buckets.contains_key(k) ==> start_buckets[k].tokens <= self.burst_size * TOKEN,
                self.buckets@ == start_buckets.restrict(
                    Set::new(
                        |k: Seq<char>|
                            recent_keys(start_buckets, now, max_age).contains(k) || listed_before(
                                all_keys,
                                pending@.len() as int,
                                k,
                            ),
                    ),
                ),
                forall|j: int|
                    0 <= j < self.keys@.len() ==> exists|i: int|
                        pending@.len() <= i < all_keys.len() && #[trigger] all_keys[i]@ == (
                        #[trigger] self.keys@[j])@,
                forall|i: int, j: int| 0 <= i < j < self.keys@.len() ==> self.keys@[i]@ != self.keys@[j]@,
                forall|j: int|
                    0 <= j < self.keys@.len() ==> recent_keys(start_buckets, now, max_age).contains(
                        #[trigger] self.keys@[j]@,
                    ),
                forall|i: int|
                    pending@.len() <= i < all_keys.len() && recent_keys(start_buckets, now, max_age).contains(
                        #[trigger] all_keys[i]@,
                    ) ==> exists|j: int| 0 <= j < self.keys@.len() && self.keys@[j]@ == all_keys[i]@,
            decreases pending@.len(),
        {
            let ghost plen = pending@.len();
            let k = match pending.pop() {
                Some(k) => k,
                None => String::new(),
            };
            assert(k == all_keys[plen - 1]);
            let entry = self.buckets.get(k.as_str());
            let stale = match entry {
                Some(b) => {
                    let elapsed: u64 = if now > b.last_update { now - b.last_update } else { 0 };
                    elapsed >= max_age
                },
                None => true,
            };
            let ghost keys_before = self.keys@;
            proof {
                assert(listed_before(all_keys, plen as int, k@)) by {
                    assert(all_keys[plen - 1]@ == k@);
                }
                if !stale {
                    assert(recent_keys(start_buckets, now, max_age).contains(k@));
                }
            }
            if stale {
                self.buckets.remove(k.as_str());
            } else {
                self.keys.push(k);
            }
            proof {
                assert forall|i: int| 0 <= i < keys_before.len() implies keys_before[i]@ != all_keys[plen - 1]@ by {
                    let w = choose|w: int| plen <= w < all_keys.len() && #[trigger] all_keys[w]@ == keys_before[i]@;
                }
                assert forall|key: Seq<char>|
                    #[trigger] listed_before(all_keys, plen as int, key) <==> (listed_before(
                        all_keys,
                        pending@.len() as int,
                        key,
                    ) || key == all_keys[plen - 1]@) by {
                    if listed_before(all_keys, plen as int, key) {
                        let i = choose|i: int| 0 <= i < plen && #[trigger] all_keys[i]@ == key;
                        if i < plen - 1 {
                            assert(0 <= i < pending@.len() && all_keys[i]@ == key);
                        }
                    }
                    if key == all_keys[plen - 1]@ {
                        assert(0 <= plen - 1 < plen && all_keys[plen - 1]@ == key);
                    }
                    if listed_before(all_keys, pending@.len() as int, key) {
                        let i = choose|i: int| 0 <= i < pending@.len() && #[trigger] all_keys[i]@ == key;
                        assert(0 <= i < plen && all_keys[i]@ == key);
                    }
                }
                assert(self.buckets@ =~= start_buckets.restrict(
                    Set::new(
                        |key: Seq<char>|
                            recent_keys(start_buckets, now, max_age).contains(key) || listed_before(
                                all_keys,
                                pending@.len() as int,
                                key,
                            ),
                    ),
                ));
                assert forall|j: int| 0 <= j < self.keys@.len() implies exists|i: int|
                    pending@.len() <= i < all_keys.len() && #[trigger] all_keys[i]@ == (
                    #[trigger] self.keys@[j])@ by {
                    if j < keys_before.len() {
                        let w = choose|w: int| plen <= w < all_keys.len() && #[trigger] all_keys[w]@ == keys_before[j]@;
                        assert(pending@.len() <= w < all_keys.len() && all_keys[w]@ == self.keys@[j]@);
                    } else {
                        assert(pending@.len() <= plen - 1 < all_keys.len() && all_keys[plen - 1]@ == self.keys@[j]@);
                    }
                }
                assert forall|i: int|
                    pending@.len() <= i < all_keys.len() && recent_keys(start_buckets, now, max_age).contains(
                        #[trigger] all_keys[i]@,
                    ) implies exists|j: int| 0 <= j < self.keys@.len() && self.keys@[j]@ == all_keys[i]@ by {
                    if i == plen - 1 {
                        assert(self.keys@[self.keys@.len() - 1]@ == all_keys[i]@);
                    } else {
                        let j = choose|j: int| 0 <= j < keys_before.len() && keys_before[j]@ == all_keys[i]@;
                        assert(self.keys@[j] == keys_before[j]);
                    }
                }
            }
        }
        proof {
            assert(self.buckets@ =~= start_buckets.restrict(recent_keys(start_buckets, now, max_age)));
            assert forall|k: Seq<char>| self.buckets@.contains_key(k) implies exists|i: int|
                0 <= i < self.keys@.len() && #[trigger] self.keys@[i]@ == k by {
                let w = choose|w: int| 0 <= w < all_keys.len() && #[trigger] all_keys[w]@ == k;
                assert(recent_keys(start_buckets, now, max_age).contains(all_keys[w]@));
            }
            assert forall|i: int| 0 <= i < self.keys@.len() implies self.buckets@.contains_key(
                #[trigger] self.keys@[i]@,
            ) by {
                let w = choose|w: int| 0 <= w < all_keys.len() && #[trigger] all_keys[w]@ == self.keys@[i]@;
            }
        }
    }
}

} // verus!

//! Request guarding: optional token authentication and an optional
//! per-client request limit over one-second windows.
//!
//! Time enters as nanoseconds read from a monotonic clock by the caller.
use vstd::prelude::*;
use crate::text::{
    chars_equal, chars_of, owned, parse_u32, parse_u32_spec, strip_prefix_chars, strip_prefix_seq,
    trim_chars, trim_seq, trim_str,
};

verus! {

/// Length of one counting window.
pub const RATE_WINDOW_NS: u64 = 1_000_000_000;

/// Buckets older than this are dropped when the table is pruned.
pub const BUCKET_EXPIRY_NS: u64 = 10_000_000_000;

/// The table is pruned once it holds more than this many clients.
pub const MAX_BUCKETS: usize = 4096;

/// A request header as the guard sees it.
pub enum HeaderText {
    /// The header is not present.
    Absent,
    /// The header is present but its value is not visible ASCII text.
    Unreadable,
    /// The header's text.
    Text(String),
}

/// The configured guard.
pub struct ApiSecurity {
    /// The token clients must present; `None` disables authentication.
    pub required_token: Option<String>,
    /// Requests allowed per client within one window, at least 1; `None`
    /// (the default, when no limit is configured) imposes no limit.
    pub rate_limit_per_sec: Option<u32>,
}

/// What the guard decides for one request.
#[derive(PartialEq, Eq, Structural, Debug, Clone, Copy)]
pub enum GuardDecision {
    /// Passed on to the handler.
    Allow,
    /// Refused: the token is missing or wrong.
    Unauthorized,
    /// Refused: the client exceeded its limit in the current window.
    RateLimited,
}

/// One client's counting window.
#[derive(Clone, Copy)]
pub struct RateBucket {
    pub window_start_ns: u64,
    pub count: u32,
}

/// The per-client counters.
pub struct RateLimiter {
    entries: Vec<(String, RateBucket)>,
    model: Ghost<Map<Seq<char>, RateBucket>>,
}

/// `a - b`, or 0 when `b > a` (`Instant::duration_since` saturates the same way).
pub open spec fn elapsed_ns(now: u64, start: u64) -> int {
    if now >= start {
        now - start
    } else {
        0
    }
}

/// The trimmed text of a header, empty when it is absent or unreadable.
pub open spec fn header_trimmed(h: HeaderText) -> Seq<char> {
    match h {
        HeaderText::Text(s) => trim_seq(s@),
        _ => Seq::empty(),
    }
}

/// The credential carried by an `Authorization` value: what follows
/// `Bearer ` or `bearer `, or the whole value without either prefix.
pub open spec fn bearer_credential(auth: Seq<char>) -> Seq<char> {
    match strip_prefix_seq(auth, "Bearer "@) {
        Some(rest) => rest,
        None => match strip_prefix_seq(auth, "bearer "@) {
            Some(rest) => rest,
            None => auth,
        },
    }
}

/// A request passes authentication when the bearer credential or the
/// `X-API-Key` value, each trimmed, equals the expected token.
pub open spec fn token_accepted_spec(expected: Seq<char>, authorization: HeaderText, api_key: HeaderText) -> bool {
    bearer_credential(header_trimmed(authorization)) == expected || header_trimmed(api_key)
        == expected
}

/// The client a request is counted against: `X-Forwarded-For` when present,
/// else `X-Real-IP`; `local` when the chosen header is absent or unreadable.
pub open spec fn client_key_spec(forwarded_for: HeaderText, real_ip: HeaderText) -> Seq<char> {
    match forwarded_for {
        HeaderText::Text(s) => s@,
        HeaderText::Unreadable => "local"@,
        HeaderText::Absent => match real_ip {
            HeaderText::Text(s) => s@,
            _ => "local"@,
        },
    }
}

/// The bucket of `key` after one more request at `now`: a fresh window when the
/// client is new or its window is a second old, then the count raised by one
/// (saturating).
pub open spec fn bucket_after(m: Map<Seq<char>, RateBucket>, key: Seq<char>, now: u64) -> RateBucket {
    let b = if m.contains_key(key) {
        m[key]
    } else {
        RateBucket { window_start_ns: now, count: 0 }
    };
    let w = if elapsed_ns(now, b.window_start_ns) >= RATE_WINDOW_NS {
        RateBucket { window_start_ns: now, count: 0 }
    } else {
        b
    };
    RateBucket {
        window_start_ns: w.window_start_ns,
        count: if w.count == u32::MAX {
            u32::MAX
        } else {
            (w.count + 1) as u32
        },
    }
}

/// Once more than `MAX_BUCKETS` clients are tracked, only the buckets whose
/// window started less than ten seconds ago are kept.
pub open spec fn prune_spec(m: Map<Seq<char>, RateBucket>, now: u64) -> Map<Seq<char>, RateBucket> {
    if m.len() > MAX_BUCKETS {
        m.restrict(m.dom().filter(|k: Seq<char>| elapsed_ns(now, m[k].window_start_ns) < BUCKET_EXPIRY_NS))
    } else {
        m
    }
}

/// One request from `key` at `now` against `limit`: whether it is allowed, and
/// the counters afterwards.  A refused request still counts; pruning happens
/// only after an allowed one.
pub open spec fn rate_step(m: Map<Seq<char>, RateBucket>, key: Seq<char>, now: u64, limit: u32) -> (
    bool,
    Map<Seq<char>, RateBucket>,
) {
    let b = bucket_after(m, key, now);
    let inserted = m.insert(key, b);
    if b.count <= limit {
        (true, prune_spec(inserted, now))
    } else {
        (false, inserted)
    }
}

impl View for RateLimiter {
    type V = Map<Seq<char>, RateBucket>;

    closed spec fn view(&self) -> Map<Seq<char>, RateBucket> {
        self.model@
    }
}

pub open spec fn entry_keys(e: Seq<(String, RateBucket)>) -> Seq<Seq<char>> {
    e.map_values(|p: (String, RateBucket)| p.0@)
}

impl RateLimiter {
    /// The entries hold each client once, and the model maps each of them to
    /// its bucket.
    pub closed spec fn wf(&self) -> bool {
        let keys = entry_keys(self.entries@);
        &&& keys.no_duplicates()
        &&& self.model@.dom() == keys.to_set()
        &&& forall|i: int|
            0 <= i < self.entries@.len() ==> self.model@[#[trigger] self.entries@[i].0@]
                == self.entries@[i].1
    }

    /// No client tracked yet.
    pub fn new() -> (r: RateLimiter)
        ensures
            r.wf(),
            r@ == Map::<Seq<char>, RateBucket>::empty(),
    {
        let r = RateLimiter { entries: Vec::new(), model: Ghost(Map::empty()) };
        assert(entry_keys(r.entries@).to_set() =~= Set::empty());
        r
    }

    /// Number of clients tracked.
    pub fn len(&self) -> (n: usize)
        requires
            self.wf(),
        ensures
            n == self@.len(),
    {
        proof {
            self.lemma_len();
        }
        self.entries.len()
    }

    proof fn lemma_len(&self)
        requires
            self.wf(),
        ensures
            self@.len() == self.entries@.len(),
            self@.dom().finite(),
    {
        let keys = entry_keys(self.entries@);
        keys.unique_seq_to_set();
    }

    fn find(&self, key: &Vec<char>) -> (r: Option<usize>)
        requires
            self.wf(),
        ensures
            r matches Some(i) ==> i < self.entries@.len() && self.entries@[i as int].0@ == key@,
            r is None ==> !self@.contains_key(key@),
    {
        let mut i: usize = 0;
        while i < self.entries.len()
            invariant
                i <= self.entries@.len(),
                forall|j: int| 0 <= j < i ==> self.entries@[j].0@ != key@,
            decreases self.entries.len() - i,
        {
            let kv = chars_of(self.entries[i].0.as_str());
            if chars_equal(&kv, key) {
                return Some(i);
            }
            i += 1;
        }
        proof {
            let keys = entry_keys(self.entries@);
            if self@.contains_key(key@) {
                assert(keys.to_set().contains(key@));
                let j = keys.index_of(key@);
                assert(keys[j] == self.entries@[j].0@);
            }
        }
        None
    }

    /// Counts one request from `key` at `now` (nanoseconds on a monotonic clock)
    /// and says whether it stays within `limit` for the current window.
    pub fn check(&mut self, key: &str, now: u64, limit: u32) -> (allowed: bool)
        requires
            old(self).wf(),
        ensures
            final(self).wf(),
            (allowed, final(self)@) == rate_step(old(self)@, key@, now, limit),
    {
        let kv = chars_of(key);
        let found = self.find(&kv);
        let ghost m0 = self@;
        let (start, count) = match found {
            Some(i) => (self.entries[i].1.window_start_ns, self.entries[i].1.count),
            None => (now, 0u32),
        };
        let elapsed = if now >= start {
            now - start
        } else {
            0
        };
        let (start, count) = if elapsed >= RATE_WINDOW_NS {
            (now, 0u32)
        } else {
            (start, count)
        };
        proof {
            match found {
                Some(i) => {
                    assert(m0[self.entries@[i as int].0@] == self.entries@[i as int].1);
                    assert(m0.contains_key(key@)) by {
                        assert(entry_keys(self.entries@)[i as int] == key@);
                    }
                },
                None => {},
            }
        }
        let count = if count == u32::MAX {
            u32::MAX
        } else {
            count + 1
        };
        let b = RateBucket { window_start_ns: start, count };
        assert(b == bucket_after(m0, key@, now));
        match found {
            Some(i) => {
                let ghost old_entries = self.entries@;
                let name = owned(key);
                self.entries.set(i, (name, b));
                self.model = Ghost(m0.insert(key@, b));
                proof {
                    assert(entry_keys(self.entries@) =~= entry_keys(old_entries));
                    assert forall|j: int| 0 <= j < self.entries@.len() implies self.model@[
                        #[trigger] self.entries@[j].0@] == self.entries@[j].1 by {
                        if j != i {
                            assert(entry_keys(old_entries)[j] != entry_keys(old_entries)[i as int]);
                        }
                    }
                    assert(self.model@.dom() =~= entry_keys(self.entries@).to_set());
                }
            },
            None => {
                let ghost old_entries = self.entries@;
                let name = owned(key);
                self.entries.push((name, b));
                self.model = Ghost(m0.insert(key@, b));
                proof {
                    assert(entry_keys(self.entries@) =~= entry_keys(old_entries).push(key@));
                    assert(!entry_keys(old_entries).contains(key@));
                    assert forall|j: int| 0 <= j < self.entries@.len() implies self.model@[
                        #[trigger] self.entries@[j].0@] == self.entries@[j].1 by {
                        if j < old_entries.len() {
                            assert(entry_keys(old_entries)[j] == old_entries[j].0@);
                            assert(old_entries[j].0@ != key@);
                        }
                    }
                    assert(entry_keys(self.entries@).no_duplicates()) by {
                        let ks = entry_keys(self.entries@);
                        assert forall|a: int, c: int| 0 <= a < ks.len() && 0 <= c < ks.len() && a != c implies ks[a] != ks[c] by {
                            if a < old_entries.len() && c < old_entries.len() {
                                assert(ks[a] == entry_keys(old_entries)[a]);
                                assert(ks[c] == entry_keys(old_entries)[c]);
                            } else if a < old_entries.len() {
                                assert(ks[a] == entry_keys(old_entries)[a]);
                            } else if c < old_entries.len() {
                                assert(ks[c] == entry_keys(old_entries)[c]);
                            }
                        }
                    }
                    assert forall|k: Seq<char>| #[trigger] self.model@.dom().contains(k) <==> entry_keys(self.entries@).contains(k) by {
                        vstd::seq_lib::lemma_seq_contains_after_push(entry_keys(old_entries), key@, k);
                    }
                    assert(self.model@.dom() =~= entry_keys(self.entries@).to_set());
                }
            },
        }
        if count > limit {
            return false;
        }
        if self.len() > MAX_BUCKETS {
            self.prune(now);
        } else {
            proof {
                self.lemma_len();
            }
        }
        true
    }

    /// Keeps only the buckets whose window started less than ten seconds ago.
    fn prune(&mut self, now: u64)
        requires
            old(self).wf(),
        ensures
            final(self).wf(),
            final(self)@ == old(self)@.restrict(
                old(self)@.dom().filter(
                    |k: Seq<char>| elapsed_ns(now, old(self)@[k].window_start_ns) < BUCKET_EXPIRY_NS,
                ),
            ),
    {
        let ghost m0 = self@;
        let ghost keep = m0.dom().filter(
            |k: Seq<char>| elapsed_ns(now, m0[k].window_start_ns) < BUCKET_EXPIRY_NS,
        );
        let ghost old_entries = self.entries@;
        let mut kept: Vec<(String, RateBucket)> = Vec::new();
        let mut i: usize = 0;
        while i < self.entries.len()
            invariant
                i <= old_entries.len(),
                self.entries@ == old_entries,
                self.wf(),
                self@ == m0,
                keep == m0.dom().filter(
                    |k: Seq<char>| elapsed_ns(now, m0[k].window_start_ns) < BUCKET_EXPIRY_NS,
                ),
                entry_keys(kept@).no_duplicates(),
                forall|j: int|
                    0 <= j < kept@.len() ==> exists|a: int|
                        0 <= a < i && old_entries[a] == #[trigger] kept@[j],
                forall|j: int|
                    0 <= j < kept@.len() ==> keep.contains(#[trigger] kept@[j].0@),
                forall|a: int|
                    0 <= a < i && keep.contains(#[trigger] old_entries[a].0@) ==> entry_keys(
                        kept@,
                    ).contains(old_entries[a].0@),
            decreases old_entries.len() - i,
        {
            let e = &self.entries[i];
            let start = e.1.window_start_ns;
            let elapsed = if now >= start {
                now - start
            } else {
                0
            };
            let ghost before = kept@;
            proof {
                assert(m0[old_entries[i as int].0@] == old_entries[i as int].1);
                assert(m0.dom().contains(old_entries[i as int].0@)) by {
                    assert(entry_keys(old_entries)[i as int] == old_entries[i as int].0@);
                }
            }
            if elapsed < BUCKET_EXPIRY_NS {
                assert(elapsed_ns(now, m0[old_entries[i as int].0@].window_start_ns) < BUCKET_EXPIRY_NS);
                let copy = (e.0.clone(), e.1);
                assert(keep.contains(old_entries[i as int].0@));
                kept.push(copy);
                proof {
                    assert(entry_keys(kept@) =~= entry_keys(before).push(old_entries[i as int].0@));
                    assert(!entry_keys(before).contains(old_entries[i as int].0@)) by {
                        if entry_keys(before).contains(old_entries[i as int].0@) {
                            let j = entry_keys(before).index_of(old_entries[i as int].0@);
                            assert(entry_keys(before)[j] == before[j].0@);
                            let a = choose|a: int| 0 <= a < i && old_entries[a] == before[j];
                            assert(entry_keys(old_entries)[a] == entry_keys(old_entries)[i as int]);
                        }
                    }
                    assert(entry_keys(kept@).no_duplicates()) by {
                        let ks = entry_keys(kept@);
                        assert forall|a: int, c: int| 0 <= a < ks.len() && 0 <= c < ks.len() && a != c implies ks[a] != ks[c] by {
                            if a < before.len() {
                                assert(ks[a] == entry_keys(before)[a]);
                            }
                            if c < before.len() {
                                assert(ks[c] == entry_keys(before)[c]);
                            }
                        }
                    }
                    assert forall|j: int| 0 <= j < kept@.len() implies exists|a: int|
                        0 <= a < i + 1 && old_entries[a] == #[trigger] kept@[j] by {
                        if j < before.len() {
                            let a = choose|a: int| 0 <= a < i && old_entries[a] == before[j];
                            assert(old_entries[a] == kept@[j]);
                        } else {
                            assert(old_entries[i as int] == kept@[j]);
                        }
                    }
                    assert forall|a: int|
                        0 <= a < i + 1 && keep.contains(#[trigger] old_entries[a].0@) implies entry_keys(
                        kept@,
                    ).contains(old_entries[a].0@) by {
                        if a < i {
                            let j = entry_keys(before).index_of(old_entries[a].0@);
                            assert(entry_keys(kept@)[j] == entry_keys(before)[j]);
                        } else {
                            assert(entry_keys(kept@)[kept@.len() - 1] == old_entries[a].0@);
                        }
                    }
                }
            } else {
                proof {
                    assert(!(elapsed_ns(now, m0[old_entries[i as int].0@].window_start_ns) < BUCKET_EXPIRY_NS));
                    assert(!keep.contains(old_entries[i as int].0@));
                    assert forall|j: int| 0 <= j < kept@.len() implies exists|a: int|
                        0 <= a < i + 1 && old_entries[a] == #[trigger] kept@[j] by {
                        let a = choose|a: int| 0 <= a < i && old_entries[a] == kept@[j];
                        assert(old_entries[a] == kept@[j]);
                    }
                }
            }
            i += 1;
        }
        let ghost new_model = m0.restrict(keep);
        self.entries = kept;
        self.model = Ghost(new_model);
        proof {
            let ks = entry_keys(self.entries@);
            assert forall|k: Seq<char>| new_model.dom().contains(k) <==> ks.to_set().contains(k) by {
                if new_model.dom().contains(k) {
                    assert(m0.dom().contains(k));
                    let a = entry_keys(old_entries).index_of(k);
                    assert(entry_keys(old_entries)[a] == old_entries[a].0@);
                }
                if ks.to_set().contains(k) {
                    let j = ks.index_of(k);
                    assert(ks[j] == self.entries@[j].0@);
                }
            }
            assert(new_model.dom() =~= ks.to_set());
            assert forall|j: int| 0 <= j < self.entries@.len() implies self.model@[
                #[trigger] self.entries@[j].0@] == self.entries@[j].1 by {
                let a = choose|a: int| 0 <= a < old_entries.len() && old_entries[a] == self.entries@[j];
                assert(m0[old_entries[a].0@] == old_entries[a].1);
            }
        }
    }
}

impl ApiSecurity {
    /// The guard configured from the values of the token and rate-limit
    /// settings: the token trimmed, with an empty one disabling authentication;
    /// the limit parsed as `u32` and raised to at least 1, with no limit when
    /// the setting is missing or malformed.
    pub fn from_settings(token: Option<&str>, rate_limit: Option<&str>) -> (r: ApiSecurity)
        ensures
            r.required_token matches Some(t) ==> token matches Some(v) && t@ == trim_seq(v@)
                && t@.len() > 0,
            r.required_token is None ==> (token is None || trim_seq(token->0@).len() == 0),
            r.rate_limit_per_sec == match rate_limit {
                Some(v) => match parse_u32_spec(v@) {
                    Some(n) => Some(if n < 1 { 1u32 } else { n }),
                    None => None,
                },
                None => None,
            },
    {
        let required_token = match token {
            Some(v) => {
                let t = trim_str(v);
                if t.as_str().unicode_len() == 0 {
                    None
                } else {
                    Some(t)
                }
            },
            None => None,
        };
        let rate_limit_per_sec = match rate_limit {
            Some(v) => match parse_u32(v) {
                Some(n) => Some(if n < 1 { 1u32 } else { n }),
                None => None,
            },
            None => None,
        };
        ApiSecurity { required_token, rate_limit_per_sec }
    }
}

fn header_trimmed_chars(h: &HeaderText) -> (r: Vec<char>)
    ensures
        r@ == header_trimmed(*h),
{
    match h {
        HeaderText::Text(s) => {
            let v = chars_of(s.as_str());
            trim_chars(&v)
        },
        _ => Vec::new(),
    }
}

/// Whether the request's credentials match `expected`: the `Authorization`
/// value (trimmed, without a leading `Bearer ` or `bearer `) or the
/// `X-API-Key` value (trimmed).
pub fn token_accepted(expected: &str, authorization: &HeaderText, api_key: &HeaderText) -> (r: bool)
    ensures
        r == token_accepted_spec(expected@, *authorization, *api_key),
{
    let auth = header_trimmed_chars(authorization);
    let key = header_trimmed_chars(api_key);
    let exp = chars_of(expected);
    let upper = chars_of("Bearer ");
    let lower = chars_of("bearer ");
    let bearer = match strip_prefix_chars(&auth, &upper) {
        Some(rest) => rest,
        None => match strip_prefix_chars(&auth, &lower) {
            Some(rest) => rest,
            None => auth,
        },
    };
    chars_equal(&bearer, &exp) || chars_equal(&key, &exp)
}

/// The client a request is counted against.
pub fn client_key(forwarded_for: &HeaderText, real_ip: &HeaderText) -> (r: String)
    ensures
        r@ == client_key_spec(*forwarded_for, *real_ip),
{
    match forwarded_for {
        HeaderText::Text(s) => s.clone(),
        HeaderText::Unreadable => owned("local"),
        HeaderText::Absent => match real_ip {
            HeaderText::Text(s) => s.clone(),
            _ => owned("local"),
        },
    }
}

/// The guard's decision on one request at `now`: refused as unauthorized when
/// a token is required and not presented (nothing is counted then); else,
/// when a limit is configured, counted against its client and refused once
/// the client is over its limit; with no limit, allowed without counting.
pub fn guard_request(
    security: &ApiSecurity,
    limiter: &mut RateLimiter,
    authorization: &HeaderText,
    api_key: &HeaderText,
    forwarded_for: &HeaderText,
    real_ip: &HeaderText,
    now: u64,
) -> (d: GuardDecision)
    requires
        old(limiter).wf(),
    ensures
        final(limiter).wf(),
        ({
            let unauthorized = match security.required_token {
                Some(t) => !token_accepted_spec(t@, *authorization, *api_key),
                None => false,
            };
            if unauthorized {
                d == GuardDecision::Unauthorized && final(limiter)@ == old(limiter)@
            } else {
                match security.rate_limit_per_sec {
                    None => d == GuardDecision::Allow && final(limiter)@ == old(limiter)@,
                    Some(limit) => {
                        let step = rate_step(old(limiter)@, client_key_spec(*forwarded_for, *real_ip), now, limit);
                        &&& final(limiter)@ == step.1
                        &&& d == (if step.0 {
                            GuardDecision::Allow
                        } else {
                            GuardDecision::RateLimited
                        })
                    },
                }
            }
        }),
{
    match &security.required_token {
        Some(t) => {
            if !token_accepted(t.as_str(), authorization, api_key) {
                return GuardDecision::Unauthorized;
            }
        },
        None => {},
    }
    match security.rate_limit_per_sec {
        None => GuardDecision::Allow,
        Some(limit) => {
            let key = client_key(forwarded_for, real_ip);
            if limiter.check(key.as_str(), now, limit) {
                GuardDecision::Allow
            } else {
                GuardDecision::RateLimited
            }
        },
    }
}

/// A request from a client over its limit within its current window is refused.
pub proof fn lemma_over_limit_refused(m: Map<Seq<char>, RateBucket>, key: Seq<char>, now: u64, limit: u32)
    requires
        m.contains_key(key),
        elapsed_ns(now, m[key].window_start_ns) < RATE_WINDOW_NS,
        m[key].count >= limit,
        limit < u32::MAX,
    ensures
        !rate_step(m, key, now, limit).0,
        rate_step(m, key, now, limit).1[key].window_start_ns == m[key].window_start_ns,
{
}

/// A new client, or one whose window has run out, starts a fresh window with
/// this request counted once, and is allowed (every limit is at least 1).
pub proof fn lemma_fresh_window_allowed(m: Map<Seq<char>, RateBucket>, key: Seq<char>, now: u64, limit: u32)
    requires
        limit >= 1,
        !m.contains_key(key) || elapsed_ns(now, m[key].window_start_ns) >= RATE_WINDOW_NS,
    ensures
        rate_step(m, key, now, limit).0,
        bucket_after(m, key, now) == (RateBucket { window_start_ns: now, count: 1 }),
{
}

/// The outcomes of successive requests from `key` at `times`.
pub open spec fn run_requests(m: Map<Seq<char>, RateBucket>, key: Seq<char>, times: Seq<u64>, limit: u32) -> Seq<bool>
    decreases times.len(),
{
    if times.len() == 0 {
        Seq::empty()
    } else {
        let prev = run_requests(m, key, times.drop_last(), limit);
        let state = counters_after(m, key, times.drop_last(), limit);
        prev.push(rate_step(state, key, times.last(), limit).0)
    }
}

/// The counters after successive requests from `key` at `times`.
pub open spec fn counters_after(m: Map<Seq<char>, RateBucket>, key: Seq<char>, times: Seq<u64>, limit: u32) -> Map<
    Seq<char>,
    RateBucket,
>
    decreases times.len(),
{
    if times.len() == 0 {
        m
    } else {
        rate_step(counters_after(m, key, times.drop_last(), limit), key, times.last(), limit).1
    }
}

/// A client not seen before that sends requests at non-decreasing times all
/// within one second of its first has exactly its first `limit` requests
/// allowed and the rest refused.
pub proof fn lemma_limit_per_window(
    m: Map<Seq<char>, RateBucket>,
    key: Seq<char>,
    times: Seq<u64>,
    limit: u32,
)
    requires
        !m.contains_key(key),
        1 <= limit < u32::MAX,
        times.len() > 0,
        forall|i: int, j: int| 0 <= i <= j < times.len() ==> times[i] <= times[j],
        forall|i: int| 0 <= i < times.len() ==> #[trigger] times[i] - times[0] < RATE_WINDOW_NS,
    ensures
        forall|i: int| 0 <= i < times.len() ==> run_requests(m, key, times, limit)[i] == (i < limit),
    decreases times.len(),
{
    lemma_counters_in_window(m, key, times, limit);
    if times.len() > 1 {
        let init = times.drop_last();
        assert forall|i: int, j: int| 0 <= i <= j < init.len() implies init[i] <= init[j] by {
            assert(init[i] == times[i] && init[j] == times[j]);
        }
        assert forall|i: int| 0 <= i < init.len() implies #[trigger] init[i] - init[0] < RATE_WINDOW_NS by {
            assert(init[i] == times[i]);
        }
        lemma_limit_per_window(m, key, init, limit);
        lemma_counters_in_window(m, key, init, limit);
    }
    let n = times.len() - 1;
    let r = run_requests(m, key, times, limit);
    lemma_run_len(m, key, times.drop_last(), limit);
    assert forall|i: int| 0 <= i < times.len() implies r[i] == (i < limit) by {
        if i < n {
            assert(r[i] == run_requests(m, key, times.drop_last(), limit)[i]);
        }
    }
}

proof fn lemma_run_len(m: Map<Seq<char>, RateBucket>, key: Seq<char>, times: Seq<u64>, limit: u32)
    ensures
        run_requests(m, key, times, limit).len() == times.len(),
    decreases times.len(),
{
    if times.len() > 0 {
        lemma_run_len(m, key, times.drop_last(), limit);
    }
}

/// During one window, the counters hold the client's bucket with the window
/// opened at the first request and the number of requests so far (saturated).
proof fn lemma_counters_in_window(
    m: Map<Seq<char>, RateBucket>,
    key: Seq<char>,
    times: Seq<u64>,
    limit: u32,
)
    requires
        !m.contains_key(key),
        1 <= limit < u32::MAX,
        times.len() > 0,
        forall|i: int, j: int| 0 <= i <= j < times.len() ==> times[i] <= times[j],
        forall|i: int| 0 <= i < times.len() ==> #[trigger] times[i] - times[0] < RATE_WINDOW_NS,
    ensures
        counters_after(m, key, times, limit).contains_key(key),
        counters_after(m, key, times, limit)[key] == (RateBucket {
            window_start_ns: times[0],
            count: if times.len() >= u32::MAX {
                u32::MAX
            } else {
                times.len() as u32
            },
        }),
        rate_step(
            counters_after(m, key, times.drop_last(), limit),
            key,
            times.last(),
            limit,
        ).0 == (times.len() <= limit),
    decreases times.len(),
{
    let init = times.drop_last();
    let before = counters_after(m, key, init, limit);
    if times.len() == 1 {
        assert(before == m);
    } else {
        assert forall|i: int, j: int| 0 <= i <= j < init.len() implies init[i] <= init[j] by {
            assert(init[i] == times[i] && init[j] == times[j]);
        }
        assert forall|i: int| 0 <= i < init.len() implies #[trigger] init[i] - init[0] < RATE_WINDOW_NS by {
            assert(init[i] == times[i]);
        }
        lemma_counters_in_window(m, key, init, limit);
        assert(times[0] <= times.last());
        assert(times.last() - times[0] < RATE_WINDOW_NS);
    }
    let b = bucket_after(before, key, times.last());
    let inserted = before.insert(key, b);
    assert(inserted.contains_key(key));
    if b.count <= limit && inserted.len() > MAX_BUCKETS {
        assert(elapsed_ns(times.last(), inserted[key].window_start_ns) < BUCKET_EXPIRY_NS);
        assert(inserted.dom().filter(
            |k: Seq<char>| elapsed_ns(times.last(), inserted[k].window_start_ns) < BUCKET_EXPIRY_NS,
        ).contains(key));
    }
}

/// Every request, allowed or refused, leaves its client tracked with the
/// bucket it was just counted in: pruning never drops the client being
/// served.
pub proof fn lemma_client_stays_tracked(m: Map<Seq<char>, RateBucket>, key: Seq<char>, now: u64, limit: u32)
    ensures
        rate_step(m, key, now, limit).1.contains_key(key),
        rate_step(m, key, now, limit).1[key] == bucket_after(m, key, now),
{
    let b = bucket_after(m, key, now);
    let inserted = m.insert(key, b);
    assert(inserted.contains_key(key));
    assert(elapsed_ns(now, b.window_start_ns) < RATE_WINDOW_NS);
    if b.count <= limit && inserted.len() > MAX_BUCKETS {
        assert(inserted.dom().filter(
            |k: Seq<char>| elapsed_ns(now, inserted[k].window_start_ns) < BUCKET_EXPIRY_NS,
        ).contains(key));
    }
}

} // verus!

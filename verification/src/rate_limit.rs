//! Sliding-window rate limiting of requests, counted per key.

use vstd::prelude::*;

use crate::clock::MonotonicClock;
use crate::text::{owned, same_text};

verus! {

/// The length of a duration in nanoseconds (`Duration::as_nanos`: its whole
/// seconds times 10^9 plus its sub-second nanoseconds). Nothing is stated of
/// the value: a `Duration` is opaque to the verifier, so no contract can
/// speak of its seconds.
#[verifier::external_body]
fn duration_nanos(d: std::time::Duration) -> u128 {
    d.as_nanos()
}

/// Time from `then` to `now`; zero when `then` is later (as
/// `Instant::duration_since` saturates).
pub open spec fn elapsed(then: u128, now: u128) -> int {
    if now >= then {
        now - then
    } else {
        0
    }
}

/// The grants of `history` that are still inside the window at `now`, in order.
pub open spec fn recent(history: Seq<u128>, now: u128, window: u128) -> Seq<u128>
    decreases history.len(),
{
    if history.len() == 0 {
        Seq::empty()
    } else {
        let r = recent(history.drop_last(), now, window);
        if elapsed(history.last(), now) < window {
            r.push(history.last())
        } else {
            r
        }
    }
}

/// The history kept for a key, empty when the key was never seen.
pub open spec fn history_of(m: Map<Seq<char>, Seq<u128>>, key: Seq<char>) -> Seq<u128> {
    if m.contains_key(key) {
        m[key]
    } else {
        Seq::empty()
    }
}

/// Whether a request under `key` at `now` is granted, given the grants so far.
pub open spec fn grants(m: Map<Seq<char>, Seq<u128>>, key: Seq<char>, now: u128, window: u128, max_requests: usize) -> bool {
    recent(history_of(m, key), now, window).len() < max_requests
}

/// The grant histories after a request under `key` at `now`: the key's history
/// loses what left the window, and gains `now` if the request is granted.
pub open spec fn after_request(m: Map<Seq<char>, Seq<u128>>, key: Seq<char>, now: u128, window: u128, max_requests: usize) -> Map<Seq<char>, Seq<u128>> {
    let kept = recent(history_of(m, key), now, window);
    if kept.len() < max_requests {
        m.insert(key, kept.push(now))
    } else {
        m.insert(key, kept)
    }
}

proof fn lemma_recent_len(history: Seq<u128>, now: u128, window: u128)
    ensures
        recent(history, now, window).len() <= history.len(),
    decreases history.len(),
{
    if history.len() > 0 {
        lemma_recent_len(history.drop_last(), now, window);
    }
}

/// A key's record never holds more than `max_requests` instants: a request
/// keeps that bound, whether it is granted or refused.
pub proof fn lemma_history_bounded(m: Map<Seq<char>, Seq<u128>>, key: Seq<char>, now: u128, window: u128, max_requests: usize)
    requires
        history_of(m, key).len() <= max_requests,
    ensures
        history_of(after_request(m, key, now, window, max_requests), key).len() <= max_requests,
{
    lemma_recent_len(history_of(m, key), now, window);
}

/// Each key has its own budget: a request under one key leaves the history
/// of every other key as it was, and a limit of zero refuses every request.
pub proof fn lemma_keys_independent(m: Map<Seq<char>, Seq<u128>>, key: Seq<char>, other: Seq<char>, now: u128, window: u128, max_requests: usize)
    requires
        other != key,
    ensures
        history_of(after_request(m, key, now, window, max_requests), other) == history_of(m, other),
        max_requests == 0 ==> !grants(m, key, now, window, max_requests),
{
}

proof fn lemma_recent_none(history: Seq<u128>, now: u128, window: u128)
    requires
        forall|i: int| 0 <= i < history.len() ==> history[i] + window <= now,
    ensures
        recent(history, now, window) == Seq::<u128>::empty(),
    decreases history.len(),
{
    if history.len() > 0 {
        lemma_recent_none(history.drop_last(), now, window);
        assert(history.last() == history[history.len() - 1]);
    }
}

proof fn lemma_recent_all(history: Seq<u128>, now: u128, window: u128)
    requires
        forall|i: int| 0 <= i < history.len() ==> history[i] <= now && now - history[i] < window,
    ensures
        recent(history, now, window) == history,
    decreases history.len(),
{
    if history.len() > 0 {
        lemma_recent_all(history.drop_last(), now, window);
        assert(history.last() == history[history.len() - 1]);
        assert(history.drop_last().push(history.last()) =~= history);
    }
}

/// Grants leave the window: when every grant on record for `key` is at least
/// a window older than the request, none of them counts, so the request is
/// granted whenever the limit is not zero, and the key's record then holds
/// this request alone.
pub proof fn lemma_old_grants_expire(m: Map<Seq<char>, Seq<u128>>, key: Seq<char>, now: u128, window: u128, max_requests: usize)
    requires
        forall|i: int| 0 <= i < history_of(m, key).len() ==> history_of(m, key)[i] + window <= now,
    ensures
        grants(m, key, now, window, max_requests) == (max_requests > 0),
        history_of(after_request(m, key, now, window, max_requests), key) == (if max_requests > 0 {
            seq![now]
        } else {
            Seq::<u128>::empty()
        }),
{
    lemma_recent_none(history_of(m, key), now, window);
    assert(Seq::<u128>::empty().push(now) =~= seq![now]);
}

/// Grants inside the window all count: when every grant on record for `key`
/// was made at most `now` and less than a window before it, the request is
/// granted exactly when fewer than `max_requests` grants are on record, and
/// a grant is added to them.
pub proof fn lemma_recent_grants_count(m: Map<Seq<char>, Seq<u128>>, key: Seq<char>, now: u128, window: u128, max_requests: usize)
    requires
        forall|i: int|
            0 <= i < history_of(m, key).len() ==> history_of(m, key)[i] <= now && now - history_of(m, key)[i] < window,
    ensures
        grants(m, key, now, window, max_requests) == (history_of(m, key).len() < max_requests),
        history_of(after_request(m, key, now, window, max_requests), key) == (if history_of(m, key).len() < max_requests {
            history_of(m, key).push(now)
        } else {
            history_of(m, key)
        }),
{
    lemma_recent_all(history_of(m, key), now, window);
}

/// Requests to the login routes allowed per window, per route.
pub const LOGIN_MAX_REQUESTS: usize = 20;

/// Requests to the pairing routes allowed per window, per route.
pub const PAIRING_MAX_REQUESTS: usize = 10;

/// The window both limiters count requests in, in seconds.
pub const LIMIT_WINDOW_SECS: u64 = 60;

/// Allows at most `max_requests` requests per key in any `window`.
pub struct RateLimiter {
    entries: Vec<(String, Vec<u128>)>,
    max_requests: usize,
    window: u128,
    clock: MonotonicClock,
}

impl RateLimiter {
    /// For each key, the instants (nanoseconds since the limiter was made)
    /// of the requests granted and still on record.
    pub closed spec fn histories(&self) -> Map<Seq<char>, Seq<u128>> {
        Map::new(
            |k: Seq<char>| exists|i: int| 0 <= i < self.entries@.len() && self.entries@[i].0@ == k,
            |k: Seq<char>|
                self.entries@[choose|i: int|
                    0 <= i < self.entries@.len() && self.entries@[i].0@ == k].1@,
        )
    }

    pub closed spec fn max_requests(&self) -> usize {
        self.max_requests
    }

    /// The window length in nanoseconds.
    pub closed spec fn window(&self) -> u128 {
        self.window
    }

    /// The limiter's last clock reading: nanoseconds since it was made.
    pub closed spec fn clock_reading(&self) -> u128 {
        self.clock.reading()
    }

    /// How many times the limiter read its clock.
    pub closed spec fn clock_reads(&self) -> nat {
        self.clock.reads()
    }

    /// No key is recorded twice.
    pub closed spec fn wf(&self) -> bool {
        forall|i: int, j: int|
            0 <= i < j < self.entries@.len() ==> self.entries@[i].0@ != self.entries@[j].0@
    }

    /// A limiter with no requests on record, counting in a window of
    /// `window`'s length. The window is that length in nanoseconds, as
    /// `with_window` takes it; the contract cannot name it, a `Duration` being
    /// opaque to the verifier.
    pub fn new(max_requests: usize, window: std::time::Duration) -> (r: RateLimiter)
        ensures
            r.wf(),
            r.histories() == Map::<Seq<char>, Seq<u128>>::empty(),
            r.max_requests() == max_requests,
            r.clock_reading() == 0,
            r.clock_reads() == 0,
    {
        RateLimiter::with_window(max_requests, duration_nanos(window))
    }

    /// A limiter with no requests on record that grants at most
    /// `max_requests` requests per key in any `window_nanos` nanoseconds.
    pub fn with_window(max_requests: usize, window_nanos: u128) -> (r: RateLimiter)
        ensures
            r.wf(),
            r.histories() == Map::<Seq<char>, Seq<u128>>::empty(),
            r.max_requests() == max_requests,
            r.window() == window_nanos,
            r.clock_reading() == 0,
            r.clock_reads() == 0,
    {
        let r = RateLimiter {
            entries: Vec::new(),
            max_requests,
            window: window_nanos,
            clock: MonotonicClock::start(),
        };
        assert(r.histories() =~= Map::<Seq<char>, Seq<u128>>::empty());
        r
    }

    /// Grants or refuses a request under `key` now, by the monotonic clock:
    /// the clock is read once, the reading is never earlier than the one
    /// before, and the request is judged, and recorded, at that reading, as
    /// `allow_at` does.
    pub fn allow(&mut self, key: &str) -> (r: bool)
        requires
            old(self).wf(),
        ensures
            final(self).wf(),
            final(self).max_requests() == old(self).max_requests(),
            final(self).window() == old(self).window(),
            final(self).clock_reads() == old(self).clock_reads() + 1,
            final(self).clock_reading() >= old(self).clock_reading(),
            r == grants(old(self).histories(), key@, final(self).clock_reading(), old(self).window(), old(self).max_requests()),
            final(self).histories() == after_request(
                old(self).histories(),
                key@,
                final(self).clock_reading(),
                old(self).window(),
                old(self).max_requests(),
            ),
            exists|now: u128|
                r == grants(old(self).histories(), key@, now, old(self).window(), old(self).max_requests())
                    && final(self).histories() == after_request(
                    old(self).histories(),
                    key@,
                    now,
                    old(self).window(),
                    old(self).max_requests(),
                ),
    {
        let ghost before = *self;
        let now = self.clock.tick();
        let r = self.allow_at(key, now);
        assert(r == grants(before.histories(), key@, now, before.window(), before.max_requests())
            && self.histories() == after_request(before.histories(), key@, now, before.window(), before.max_requests()));
        r
    }

    fn find(&self, key: &str) -> (r: Option<usize>)
        ensures
            r matches Some(i) ==> i < self.entries@.len() && self.entries@[i as int].0@ == key@,
            r is None ==> forall|i: int| 0 <= i < self.entries@.len() ==> self.entries@[i].0@ != key@,
    {
        let mut i: usize = 0;
        while i < self.entries.len()
            invariant
                i <= self.entries@.len(),
                forall|j: int| 0 <= j < i ==> self.entries@[j].0@ != key@,
            decreases self.entries.len() - i,
        {
            if same_text(self.entries[i].0.as_str(), key) {
                return Some(i);
            }
            i = i + 1;
        }
        None
    }

    /// Lets a request to the route `path` through, or gives the response that
    /// refuses it: status 429, "rate limit exceeded". Requests are counted per
    /// route, as `allow` counts them.
    pub fn check_route(&mut self, path: &str) -> (r: Option<(u16, String)>)
        requires
            old(self).wf(),
        ensures
            final(self).wf(),
            final(self).max_requests() == old(self).max_requests(),
            final(self).window() == old(self).window(),
            final(self).clock_reads() == old(self).clock_reads() + 1,
            final(self).clock_reading() >= old(self).clock_reading(),
            (r is None) == grants(old(self).histories(), path@, final(self).clock_reading(), old(self).window(), old(self).max_requests()),
            final(self).histories() == after_request(
                old(self).histories(),
                path@,
                final(self).clock_reading(),
                old(self).window(),
                old(self).max_requests(),
            ),
            exists|now: u128|
                (r is None) == grants(old(self).histories(), path@, now, old(self).window(), old(self).max_requests())
                    && final(self).histories() == after_request(
                    old(self).histories(),
                    path@,
                    now,
                    old(self).window(),
                    old(self).max_requests(),
                ),
            r matches Some((status, message)) ==> status == 429 && message@ == "rate limit exceeded"@,
    {
        if self.allow(path) {
            None
        } else {
            Some((429, String::from_str("rate limit exceeded")))
        }
    }

    /// Grants or refuses a request under `key` at `now` nanoseconds since the
    /// limiter was made: granted when fewer than `max_requests` earlier grants
    /// for the key are younger than the window; a grant is put on record.
    pub fn allow_at(&mut self, key: &str, now: u128) -> (r: bool)
        requires
            old(self).wf(),
        ensures
            final(self).wf(),
            final(self).max_requests() == old(self).max_requests(),
            final(self).window() == old(self).window(),
            final(self).clock_reading() == old(self).clock_reading(),
            final(self).clock_reads() == old(self).clock_reads(),
            r == grants(old(self).histories(), key@, now, old(self).window(), old(self).max_requests()),
            final(self).histories() == after_request(
                old(self).histories(),
                key@,
                now,
                old(self).window(),
                old(self).max_requests(),
            ),
    {
        let ghost m = self.histories();
        let found = self.find(key);
        let mut history: Vec<u128> = Vec::new();
        match found {
            Some(i) => {
                proof {
                    assert(m.contains_key(key@));
                    let c = choose|j: int| 0 <= j < self.entries@.len() && self.entries@[j].0@ == key@;
                    assert(c == i);
                }
                let h = &self.entries[i].1;
                let mut k: usize = 0;
                while k < h.len()
                    invariant
                        k <= h@.len(),
                        history@ == recent(h@.subrange(0, k as int), now, self.window),
                    decreases h.len() - k,
                {
                    let t = h[k];
                    let age: u128 = if now >= t {
                        now - t
                    } else {
                        0
                    };
                    proof {
                        assert(h@.subrange(0, k + 1).drop_last() =~= h@.subrange(0, k as int));
                    }
                    if age < self.window {
                        history.push(t);
                    }
                    k = k + 1;
                }
                assert(h@.subrange(0, h@.len() as int) =~= h@);
            },
            None => {
                assert(!m.contains_key(key@));
            },
        }
        let granted = history.len() < self.max_requests;
        if granted {
            history.push(now);
        }
        let ghost newh = history@;
        match found {
            Some(i) => {
                let ghost before = self.entries@;
                let entry_key = owned(self.entries[i].0.as_str());
                self.entries.set(i, (entry_key, history));
                proof {
                    assert forall|a: int, b: int|
                        0 <= a < b < self.entries@.len() implies self.entries@[a].0@
                        != self.entries@[b].0@ by {
                        assert(before[a].0@ != before[b].0@);
                    }
                    let m2 = self.histories();
                    let target = m.insert(key@, newh);
                    assert(self.entries@[i as int].0@ == key@);
                    assert forall|k: Seq<char>| m2.contains_key(k) <==> target.contains_key(k) by {
                        if target.contains_key(k) && k != key@ {
                            let j = choose|j: int| 0 <= j < before.len() && before[j].0@ == k;
                            assert(self.entries@[j].0@ == k);
                        }
                        if k == key@ {
                            assert(self.entries@[i as int].0@ == k);
                        }
                        if m2.contains_key(k) {
                            let j = choose|j: int| 0 <= j < self.entries@.len() && self.entries@[j].0@ == k;
                            assert(before[j].0@ == k);
                        }
                    }
                    assert forall|k: Seq<char>| m2.contains_key(k) implies m2[k] == target[k] by {
                        let j = choose|j: int| 0 <= j < self.entries@.len() && self.entries@[j].0@ == k;
                        if k == key@ {
                            assert(j == i);
                        } else {
                            assert(before[j].0@ == k);
                            let j0 = choose|j0: int| 0 <= j0 < before.len() && before[j0].0@ == k;
                            assert(j0 == j);
                        }
                    }
                    assert(m2 =~= target);
                }
            },
            None => {
                let ghost before = self.entries@;
                let entry_key = owned(key);
                self.entries.push((entry_key, history));
                proof {
                    assert forall|a: int, b: int|
                        0 <= a < b < self.entries@.len() implies self.entries@[a].0@
                        != self.entries@[b].0@ by {
                        if b < before.len() {
                            assert(before[a].0@ != before[b].0@);
                        }
                    }
                    let m2 = self.histories();
                    let target = m.insert(key@, newh);
                    let last = before.len() as int;
                    assert forall|k: Seq<char>| m2.contains_key(k) <==> target.contains_key(k) by {
                        if target.contains_key(k) && k != key@ {
                            let j = choose|j: int| 0 <= j < before.len() && before[j].0@ == k;
                            assert(self.entries@[j].0@ == k);
                        }
                        if k == key@ {
                            assert(self.entries@[last].0@ == k);
                        }
                        if m2.contains_key(k) && k != key@ {
                            let j = choose|j: int| 0 <= j < self.entries@.len() && self.entries@[j].0@ == k;
                            assert(j != last);
                            assert(before[j].0@ == k);
                        }
                    }
                    assert forall|k: Seq<char>| m2.contains_key(k) implies m2[k] == target[k] by {
                        let j = choose|j: int| 0 <= j < self.entries@.len() && self.entries@[j].0@ == k;
                        if k == key@ {
                            assert(j == last);
                        } else {
                            assert(j != last);
                            assert(before[j].0@ == k);
                            let j0 = choose|j0: int| 0 <= j0 < before.len() && before[j0].0@ == k;
                            assert(j0 == j);
                        }
                    }
                    assert(m2 =~= target);
                }
            },
        }
        granted
    }
}

} // verus!

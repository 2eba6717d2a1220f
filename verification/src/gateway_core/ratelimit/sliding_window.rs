//! Sliding-window rate limiting.
//!
//! Each key keeps the times of its recent admitted requests. A request is
//! admitted when fewer than `rps` admitted requests lie within the window
//! (one second divided by `rps`) before it.

use std::collections::VecDeque;

use vstd::prelude::*;

use crate::gateway_core::error::CoreError;
use crate::gateway_core::ratelimit::{Decision, LimitKey, RateLimiter};

verus! {

/// A sliding-window limiter over many keys.
pub struct SlidingWindow {
    window_ns: u64,
    max_requests: usize,
    /// One entry per key, each with the admission times still in its window.
    buckets: Vec<(String, VecDeque<u64>)>,
}

/// Whether an admission at `t` has left the window at `now`.
pub open spec fn outside_window(t: u64, now: u64, window: u64) -> bool {
    (if now >= t { now - t } else { 0 }) > window
}

/// The admission times after dropping, from the front, those that have left the window.
pub open spec fn prune(times: Seq<u64>, now: u64, window: u64) -> Seq<u64>
    decreases times.len(),
{
    if times.len() > 0 && outside_window(times[0], now, window) {
        prune(times.drop_first(), now, window)
    } else {
        times
    }
}

/// The admission times of `key` after a request at `now`, and the decision.
pub open spec fn window_step(times: Seq<u64>, now: u64, window: u64, max: usize) -> (Seq<u64>, Decision) {
    let kept = prune(times, now, window);
    if kept.len() < max {
        (kept.push(now), Decision::Allow)
    } else {
        (kept, Decision::Deny)
    }
}

/// The window of a limiter made with `rps`: one second divided by `rps`
/// (one second when `rps` is 0), in nanoseconds.
pub open spec fn window_for(rps: u32) -> u64 {
    (1_000_000_000u64 / (if rps == 0 {
        1
    } else {
        rps as u64
    })) as u64
}

/// The admission times recorded for key `k` (none when the key is unknown).
pub open spec fn times_of(buckets: Seq<(String, VecDeque<u64>)>, k: Seq<char>) -> Seq<u64> {
    if exists|i: int| 0 <= i < buckets.len() && buckets[i].0@ == k {
        let i = choose|i: int| 0 <= i < buckets.len() && buckets[i].0@ == k;
        buckets[i].1@
    } else {
        Seq::empty()
    }
}

proof fn lemma_prune_len(times: Seq<u64>, now: u64, window: u64)
    ensures
        prune(times, now, window).len() <= times.len(),
    decreases times.len(),
{
    if times.len() > 0 && outside_window(times[0], now, window) {
        lemma_prune_len(times.drop_first(), now, window);
    }
}

proof fn lemma_times_of_at(buckets: Seq<(String, VecDeque<u64>)>, i: int)
    requires
        0 <= i < buckets.len(),
        forall|a: int, b: int| 0 <= a < b < buckets.len() ==> buckets[a].0@ != buckets[b].0@,
    ensures
        times_of(buckets, buckets[i].0@) == buckets[i].1@,
{
    let k = buckets[i].0@;
    let j = choose|j: int| 0 <= j < buckets.len() && buckets[j].0@ == k;
    assert(j == i);
}

impl SlidingWindow {
    /// The window length in nanoseconds.
    pub closed spec fn window(&self) -> u64 {
        self.window_ns
    }

    /// How many requests a window admits.
    pub closed spec fn max_requests(&self) -> usize {
        self.max_requests
    }

    /// The admission times recorded for a key.
    pub closed spec fn history(&self, k: Seq<char>) -> Seq<u64> {
        times_of(self.buckets@, k)
    }

    /// Keys are distinct and no key holds more admissions than a window admits.
    #[verifier::type_invariant]
    pub closed spec fn inv(&self) -> bool {
        &&& forall|a: int, b: int|
            0 <= a < b < self.buckets@.len() ==> self.buckets@[a].0@ != self.buckets@[b].0@
        &&& forall|i: int| 0 <= i < self.buckets@.len() ==> (#[trigger] self.buckets@[i]).1@.len()
            <= self.max_requests
    }

    /// A limiter admitting `rps` requests per window of one second divided by `rps`.
    pub fn new(rps: u32, _burst: u32) -> (w: Self)
        ensures
            w.window() == window_for(rps),
            w.max_requests() == rps as usize,
            forall|k: Seq<char>| w.history(k) == Seq::<u64>::empty(),
    {
        let divisor: u64 = if rps == 0 {
            1
        } else {
            rps as u64
        };
        SlidingWindow { window_ns: 1_000_000_000u64 / divisor, max_requests: rps as usize, buckets: Vec::new() }
    }

    /// Counts a request for `key` at `now_ns`: admission times that have left
    /// the window are dropped, then the request is admitted if fewer than
    /// `max_requests` remain.
    pub fn check_at(&mut self, key: &str, now_ns: u64) -> (d: Decision)
        ensures
            final(self).window() == old(self).window(),
            final(self).max_requests() == old(self).max_requests(),
            d == window_step(old(self).history(key@), now_ns, old(self).window(), old(self).max_requests()).1,
            final(self).history(key@) == window_step(
                old(self).history(key@),
                now_ns,
                old(self).window(),
                old(self).max_requests(),
            ).0,
            forall|k: Seq<char>| k != key@ ==> final(self).history(k) == old(self).history(k),
            final(self).history(key@).len() <= final(self).max_requests(),
    {
        proof {
            use_type_invariant(&*self);
        }
        let ghost old_buckets = self.buckets@;
        // Find the key's entry.
        let wanted = key.to_owned();
        let n = self.buckets.len();
        let mut pos: Option<usize> = None;
        for i in 0..n
            invariant
                n == self.buckets@.len(),
                wanted@ == key@,
                self.buckets@ == old_buckets,
                pos matches Some(p) ==> p < n && old_buckets[p as int].0@ == key@,
                pos is None ==> forall|j: int| 0 <= j < i ==> old_buckets[j].0@ != key@,
        {
            if pos.is_none() && self.buckets[i].0 == wanted {
                pos = Some(i);
            }
        }
        let mut buckets: Vec<(String, VecDeque<u64>)> = Vec::new();
        std::mem::swap(&mut buckets, &mut self.buckets);
        let (name, mut times) = match pos {
            Some(p) => {
                proof {
                    lemma_times_of_at(old_buckets, p as int);
                }
                buckets.remove(p)
            },
            None => {
                assert(times_of(old_buckets, key@) == Seq::<u64>::empty());
                (key.to_owned(), VecDeque::new())
            },
        };
        let ghost rest = buckets@;
        assert(times@ == times_of(old_buckets, key@));
        assert(times@.len() <= self.max_requests) by {
            if let Some(p) = pos {
                assert(old_buckets[p as int].1@.len() <= self.max_requests);
            }
        }
        let ghost start = times@;
        // Drop admissions that have left the window.
        loop
            invariant
                prune(start, now_ns, self.window_ns) == prune(times@, now_ns, self.window_ns),
            ensures
                prune(start, now_ns, self.window_ns) == times@,
            decreases times@.len(),
        {
            if times.len() == 0 {
                break;
            }
            let front = times[0];
            let age = if now_ns >= front {
                now_ns - front
            } else {
                0
            };
            if age <= self.window_ns {
                break;
            }
            let ghost before = times@;
            let _ = times.pop_front();
            assert(times@ =~= before.drop_first());
        }
        proof {
            lemma_prune_len(start, now_ns, self.window_ns);
        }
        let decision = if times.len() < self.max_requests {
            times.push_back(now_ns);
            Decision::Allow
        } else {
            Decision::Deny
        };
        let ghost new_times = times@;
        let ghost kv = name@;
        buckets.push((name, times));
        proof {
            let nb = buckets@;
            assert(nb.len() == rest.len() + 1);
            assert(nb[rest.len() as int].0@ == key@);
            assert forall|a: int, b: int| 0 <= a < b < nb.len() implies nb[a].0@ != nb[b].0@ by {
                if b == rest.len() {
                    assert(nb[a] == rest[a]);
                    if let Some(p) = pos {
                        if a < p {
                            assert(rest[a] == old_buckets[a]);
                        } else {
                            assert(rest[a] == old_buckets[a + 1]);
                        }
                    } else {
                        assert(rest[a] == old_buckets[a]);
                    }
                } else {
                    assert(nb[a] == rest[a] && nb[b] == rest[b]);
                    if let Some(p) = pos {
                        if a < p {
                            assert(rest[a] == old_buckets[a]);
                        } else {
                            assert(rest[a] == old_buckets[a + 1]);
                        }
                        if b < p {
                            assert(rest[b] == old_buckets[b]);
                        } else {
                            assert(rest[b] == old_buckets[b + 1]);
                        }
                    }
                }
            }
            assert forall|i: int| 0 <= i < nb.len() implies (#[trigger] nb[i]).1@.len() <= self.max_requests by {
                if i < rest.len() {
                    assert(nb[i] == rest[i]);
                    if let Some(p) = pos {
                        if i < p {
                            assert(rest[i] == old_buckets[i]);
                        } else {
                            assert(rest[i] == old_buckets[i + 1]);
                        }
                    } else {
                        assert(rest[i] == old_buckets[i]);
                    }
                }
            }
            lemma_times_of_at(nb, rest.len() as int);
            assert forall|k: Seq<char>| k != key@ implies times_of(nb, k) == times_of(old_buckets, k) by {
                if exists|i: int| 0 <= i < old_buckets.len() && old_buckets[i].0@ == k {
                    let i = choose|i: int| 0 <= i < old_buckets.len() && old_buckets[i].0@ == k;
                    let j = if let Some(p) = pos {
                        if i < p { i } else { i - 1 }
                    } else {
                        i
                    };
                    if let Some(p) = pos {
                        assert(i != p);
                    }
                    assert(nb[j] == old_buckets[i]);
                    lemma_times_of_at(nb, j);
                    lemma_times_of_at(old_buckets, i);
                } else {
                    assert forall|j: int| 0 <= j < nb.len() implies nb[j].0@ != k by {
                        if j < rest.len() {
                            assert(nb[j] == rest[j]);
                            if let Some(p) = pos {
                                if j < p {
                                    assert(rest[j] == old_buckets[j]);
                                } else {
                                    assert(rest[j] == old_buckets[j + 1]);
                                }
                            } else {
                                assert(rest[j] == old_buckets[j]);
                            }
                        }
                    }
                }
            }
        }
        self.buckets = buckets;
        decision
    }
}

impl RateLimiter for SlidingWindow {
    fn check(&mut self, key: &LimitKey, now_ns: u64) -> (r: Result<Decision, CoreError>)
        ensures
            final(self).window() == old(self).window(),
            final(self).max_requests() == old(self).max_requests(),
            r == Ok::<Decision, CoreError>(window_step(
                old(self).history(key@),
                now_ns,
                old(self).window(),
                old(self).max_requests(),
            ).1),
            final(self).history(key@) == window_step(
                old(self).history(key@),
                now_ns,
                old(self).window(),
                old(self).max_requests(),
            ).0,
            forall|k: Seq<char>| k != key@ ==> final(self).history(k) == old(self).history(k),
    {
        Ok(self.check_at(key.as_str(), now_ns))
    }
}

/// Whether an admission at `t` still lies within the window at `now`.
pub open spec fn within_window(t: u64, now: u64, window: u64) -> bool {
    !outside_window(t, now, window)
}

/// Times that never decrease.
pub open spec fn nondecreasing(s: Seq<u64>) -> bool {
    forall|i: int, j: int| 0 <= i <= j < s.len() ==> s[i] <= s[j]
}

/// How many of the times in `h` lie within the window at `now`.
pub open spec fn count_within(h: Seq<u64>, now: u64, window: u64) -> nat
    decreases h.len(),
{
    if h.len() == 0 {
        0
    } else {
        (if within_window(h[0], now, window) {
            1nat
        } else {
            0nat
        }) + count_within(h.drop_first(), now, window)
    }
}

/// The admission times and the decisions for requests of one key at the
/// times `nows`, one after the other, starting with no admissions.
pub open spec fn window_run(nows: Seq<u64>, window: u64, max: usize) -> (Seq<u64>, Seq<Decision>)
    decreases nows.len(),
{
    if nows.len() == 0 {
        (Seq::empty(), Seq::empty())
    } else {
        let (h, ds) = window_run(nows.drop_last(), window, max);
        let (h2, d) = window_step(h, nows.last(), window, max);
        (h2, ds.push(d))
    }
}

/// How many of the requests at `nows`, decided `ds`, were admitted and lie
/// within the window at `now`.
pub open spec fn admitted_within(nows: Seq<u64>, ds: Seq<Decision>, now: u64, window: u64) -> nat
    decreases nows.len(),
{
    if nows.len() == 0 || ds.len() == 0 {
        0
    } else {
        admitted_within(nows.drop_last(), ds.drop_last(), now, window) + (if ds.last()
            == Decision::Allow && within_window(nows.last(), now, window) {
            1nat
        } else {
            0nat
        })
    }
}

proof fn lemma_count_push(h: Seq<u64>, x: u64, now: u64, window: u64)
    ensures
        count_within(h.push(x), now, window) == count_within(h, now, window) + (if within_window(
            x,
            now,
            window,
        ) {
            1nat
        } else {
            0nat
        }),
    decreases h.len(),
{
    if h.len() > 0 {
        assert(h.push(x)[0] == h[0]);
        assert(h.push(x).drop_first() =~= h.drop_first().push(x));
        lemma_count_push(h.drop_first(), x, now, window);
    } else {
        assert(h.push(x)[0] == x);
        assert(h.push(x).drop_first() =~= Seq::<u64>::empty());
        assert(count_within(Seq::<u64>::empty(), now, window) == 0);
    }
}

proof fn lemma_count_all_within(h: Seq<u64>, now: u64, window: u64)
    requires
        forall|k: int| 0 <= k < h.len() ==> within_window(#[trigger] h[k], now, window),
    ensures
        count_within(h, now, window) == h.len(),
    decreases h.len(),
{
    if h.len() > 0 {
        assert forall|k: int| 0 <= k < h.drop_first().len() implies within_window(
            #[trigger] h.drop_first()[k],
            now,
            window,
        ) by {
            assert(h.drop_first()[k] == h[k + 1]);
        }
        lemma_count_all_within(h.drop_first(), now, window);
    }
}

/// Pruning a sorted history at `x` drops exactly the admissions that have
/// left the window; they stay outside it at any later time.
proof fn lemma_prune_sorted(h: Seq<u64>, x: u64, window: u64)
    requires
        nondecreasing(h),
        forall|k: int| 0 <= k < h.len() ==> h[k] <= x,
    ensures
        nondecreasing(prune(h, x, window)),
        prune(h, x, window).len() <= h.len(),
        forall|k: int| 0 <= k < prune(h, x, window).len() ==> #[trigger] prune(h, x, window)[k] <= x,
        forall|k: int|
            0 <= k < prune(h, x, window).len() ==> within_window(
                #[trigger] prune(h, x, window)[k],
                x,
                window,
            ),
        forall|later: u64|
            later >= x ==> count_within(#[trigger] prune(h, x, window), later, window)
                == count_within(h, later, window),
    decreases h.len(),
{
    if h.len() > 0 && outside_window(h[0], x, window) {
        let t = h.drop_first();
        assert forall|i: int, j: int| 0 <= i <= j < t.len() implies t[i] <= t[j] by {
            assert(t[i] == h[i + 1] && t[j] == h[j + 1]);
        }
        assert forall|k: int| 0 <= k < t.len() implies t[k] <= x by {
            assert(t[k] == h[k + 1]);
        }
        lemma_prune_sorted(t, x, window);
        assert(prune(h, x, window) == prune(t, x, window));
        assert forall|later: u64| later >= x implies count_within(#[trigger] prune(h, x, window), later, window)
            == count_within(h, later, window) by {
            assert(!within_window(h[0], later, window));
            assert(count_within(prune(t, x, window), later, window) == count_within(t, later, window));
        }
    } else if h.len() > 0 {
        assert forall|k: int| 0 <= k < h.len() implies within_window(#[trigger] h[k], x, window) by {
            assert(h[0] <= h[k]);
        }
    }
}

/// The state after any run from a fresh limiter: the history is sorted,
/// holds at most `max` admissions, all within the window at the last
/// request's time, and counts, at that time or later, exactly the
/// admitted requests still within the window.
proof fn lemma_run_history(nows: Seq<u64>, window: u64, max: usize)
    requires
        nondecreasing(nows),
    ensures
        window_run(nows, window, max).1.len() == nows.len(),
        nondecreasing(window_run(nows, window, max).0),
        window_run(nows, window, max).0.len() <= max,
        nows.len() == 0 ==> window_run(nows, window, max).0.len() == 0,
        nows.len() > 0 ==> forall|k: int|
            0 <= k < window_run(nows, window, max).0.len() ==> #[trigger] window_run(
                nows,
                window,
                max,
            ).0[k] <= nows.last(),
        nows.len() > 0 ==> count_within(window_run(nows, window, max).0, nows.last(), window)
            == window_run(nows, window, max).0.len(),
        forall|later: u64|
            (nows.len() > 0 ==> later >= nows.last()) ==> admitted_within(
                nows,
                window_run(nows, window, max).1,
                later,
                window,
            ) == count_within(window_run(nows, window, max).0, later, window),
    decreases nows.len(),
{
    if nows.len() > 0 {
        let prev = nows.drop_last();
        let x = nows.last();
        assert forall|i: int, j: int| 0 <= i <= j < prev.len() implies prev[i] <= prev[j] by {
            assert(prev[i] == nows[i] && prev[j] == nows[j]);
        }
        lemma_run_history(prev, window, max);
        let (h, ds) = window_run(prev, window, max);
        if prev.len() > 0 {
            assert(prev.last() == nows[nows.len() - 2]);
            assert(prev.last() <= x);
        }
        assert forall|k: int| 0 <= k < h.len() implies h[k] <= x by {
            if prev.len() > 0 {
                assert(h[k] <= prev.last());
            }
        }
        lemma_prune_sorted(h, x, window);
        let kept = prune(h, x, window);
        let (h2, d) = window_step(h, x, window, max);
        let ds2 = ds.push(d);
        assert(window_run(nows, window, max) == (h2, ds2));
        assert(ds2.drop_last() =~= ds);
        assert(ds2.last() == d);
        if kept.len() < max {
            assert(h2 == kept.push(x));
            assert forall|i: int, j: int| 0 <= i <= j < h2.len() implies h2[i] <= h2[j] by {
                if j == kept.len() {
                    if i < kept.len() {
                        assert(h2[i] == kept[i]);
                    }
                } else {
                    assert(h2[i] == kept[i] && h2[j] == kept[j]);
                }
            }
            assert forall|k: int| 0 <= k < h2.len() implies #[trigger] h2[k] <= x by {
                if k < kept.len() {
                    assert(h2[k] == kept[k]);
                }
            }
            lemma_count_push(kept, x, x, window);
            lemma_count_all_within(kept, x, window);
            assert forall|later: u64| later >= x implies admitted_within(nows, ds2, later, window)
                == count_within(h2, later, window) by {
                lemma_count_push(kept, x, later, window);
                if prev.len() > 0 {
                    assert(later >= prev.last());
                }
                assert(d == Decision::Allow);
                assert(admitted_within(nows, ds2, later, window) == admitted_within(prev, ds, later, window)
                    + (if within_window(x, later, window) { 1nat } else { 0nat }));
                assert(admitted_within(prev, ds, later, window) == count_within(h, later, window));
                assert(count_within(kept, later, window) == count_within(h, later, window));
            }
        } else {
            assert(h2 == kept);
            lemma_count_all_within(kept, x, window);
            assert forall|later: u64| later >= x implies admitted_within(nows, ds2, later, window)
                == count_within(h2, later, window) by {
                if prev.len() > 0 {
                    assert(later >= prev.last());
                }
                assert(d == Decision::Deny);
                assert(admitted_within(nows, ds2, later, window) == admitted_within(prev, ds, later, window));
                assert(admitted_within(prev, ds, later, window) == count_within(h, later, window));
                assert(count_within(kept, later, window) == count_within(h, later, window));
            }
        }
    }
}

proof fn lemma_run_prefix(nows: Seq<u64>, window: u64, max: usize, k: int)
    requires
        0 <= k <= nows.len(),
    ensures
        window_run(nows.take(k), window, max).1 == window_run(nows, window, max).1.take(k),
    decreases nows.len(),
{
    lemma_run_length(nows, window, max);
    if k == nows.len() {
        assert(nows.take(k) =~= nows);
        assert(window_run(nows, window, max).1.take(k) =~= window_run(nows, window, max).1);
    } else {
        let prev = nows.drop_last();
        assert(prev.take(k) =~= nows.take(k));
        lemma_run_prefix(prev, window, max, k);
        lemma_run_length(prev, window, max);
        assert(window_run(nows, window, max).1.take(k) =~= window_run(prev, window, max).1.take(k));
    }
}

proof fn lemma_run_length(nows: Seq<u64>, window: u64, max: usize)
    ensures
        window_run(nows, window, max).1.len() == nows.len(),
    decreases nows.len(),
{
    if nows.len() > 0 {
        lemma_run_length(nows.drop_last(), window, max);
    }
}

/// The sliding window's promise: when one key's requests come at times
/// that never decrease, starting from a fresh limiter, then at the time of
/// each request at most `max` requests of the key have been admitted within
/// the window that ends there.
pub proof fn lemma_window_admits_at_most_max(nows: Seq<u64>, window: u64, max: usize, i: int)
    requires
        nondecreasing(nows),
        0 <= i < nows.len(),
    ensures
        admitted_within(
            nows.take(i + 1),
            window_run(nows, window, max).1.take(i + 1),
            nows[i],
            window,
        ) <= max,
{
    let pre = nows.take(i + 1);
    assert forall|a: int, b: int| 0 <= a <= b < pre.len() implies pre[a] <= pre[b] by {
        assert(pre[a] == nows[a] && pre[b] == nows[b]);
    }
    lemma_run_history(pre, window, max);
    lemma_run_prefix(nows, window, max, i + 1);
    assert(pre.last() == nows[i]);
}

proof fn lemma_zero_max_denies(nows: Seq<u64>, window: u64)
    ensures
        window_run(nows, window, 0).1.len() == nows.len(),
        forall|i: int| 0 <= i < nows.len() ==> #[trigger] window_run(nows, window, 0).1[i]
            == Decision::Deny,
    decreases nows.len(),
{
    if nows.len() > 0 {
        lemma_zero_max_denies(nows.drop_last(), window);
        let (h, ds) = window_run(nows.drop_last(), window, 0);
        let ds2 = window_run(nows, window, 0).1;
        assert(ds2 == ds.push(window_step(h, nows.last(), window, 0).1));
        assert forall|i: int| 0 <= i < nows.len() implies #[trigger] ds2[i] == Decision::Deny by {
            if i < nows.len() - 1 {
                assert(ds2[i] == ds[i]);
            }
        }
    }
}

/// The sliding window's promise for a fresh limiter made with `rps`, whatever
/// the burst (which `new` does not use): when one key's requests come at
/// times that never decrease, at most `rps` of them are admitted within the
/// window that ends at each request, and with `rps` 0 every request is denied.
pub proof fn lemma_sliding_window_law(rps: u32, nows: Seq<u64>, i: int)
    requires
        nondecreasing(nows),
        0 <= i < nows.len(),
    ensures
        admitted_within(
            nows.take(i + 1),
            window_run(nows, window_for(rps), rps as usize).1.take(i + 1),
            nows[i],
            window_for(rps),
        ) <= rps,
        rps == 0 ==> window_run(nows, window_for(rps), rps as usize).1[i] == Decision::Deny,
{
    lemma_window_admits_at_most_max(nows, window_for(rps), rps as usize, i);
    lemma_zero_max_denies(nows, window_for(rps));
}

} // verus!

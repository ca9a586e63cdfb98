//! The sliding-window rate limiter that guards the write path.

use vstd::prelude::*;
use vstd::string::StringExecFns;

verus! {

/// The models of the limiter's per-identity records.
pub open spec fn entry_views(s: Seq<(String, Vec<u64>)>) -> Seq<(Seq<char>, Seq<u64>)> {
    s.map_values(|p: (String, Vec<u64>)| (p.0@, p.1@))
}

/// Each identity has at most one record.
pub open spec fn no_dup_keys(entries: Seq<(Seq<char>, Seq<u64>)>) -> bool {
    forall|i: int, j: int|
        0 <= i < j < entries.len() ==> (#[trigger] entries[i]).0 != (#[trigger] entries[j]).0
}

/// The attempt timestamps on record for an identity; empty when unseen.
pub open spec fn attempts_of(entries: Seq<(Seq<char>, Seq<u64>)>, id: Seq<char>) -> Seq<u64>
    decreases entries.len(),
{
    if entries.len() == 0 {
        Seq::empty()
    } else if entries.last().0 == id {
        entries.last().1
    } else {
        attempts_of(entries.drop_last(), id)
    }
}

/// Is an attempt made at `t` still within the trailing window at `now`?
/// A timestamp in the future (the clock moved backward) stays on record.
pub open spec fn in_window(t: u64, now: u64, window: u64) -> bool {
    t > now || now - t < window
}

/// The timestamps still relevant at `now`.
pub open spec fn prune_spec(ts: Seq<u64>, now: u64, window: u64) -> Seq<u64> {
    ts.filter(|t: u64| in_window(t, now, window))
}

/// Check half of check-then-record: is the identity over budget at `now`?
pub open spec fn limited_spec(ts: Seq<u64>, now: u64, max_requests: usize, window: u64) -> bool {
    prune_spec(ts, now, window).len() >= max_requests
}

/// Record half of check-then-record: what stays on record. An admitted
/// attempt is recorded; a rejected one is not. Stale timestamps are pruned
/// either way.
pub open spec fn record_spec(ts: Seq<u64>, now: u64, max_requests: usize, window: u64) -> Seq<
    u64,
> {
    let kept = prune_spec(ts, now, window);
    if kept.len() >= max_requests {
        kept
    } else {
        kept.push(now)
    }
}

/// Filtering a sequence extended by one element keeps the filtered prefix and
/// appends the element exactly when it satisfies the predicate.
proof fn lemma_filter_push<A>(s: Seq<A>, x: A, pred: spec_fn(A) -> bool)
    ensures
        s.push(x).filter(pred) == (if pred(x) {
            s.filter(pred).push(x)
        } else {
            s.filter(pred)
        }),
{
    reveal(Seq::filter);
    assert(s.push(x).drop_last() =~= s);
    assert(s.push(x).last() == x);
}

/// A recorded identity's attempts are the timestamps at its record.
proof fn lemma_attempts_found(entries: Seq<(Seq<char>, Seq<u64>)>, i: int)
    requires
        no_dup_keys(entries),
        0 <= i < entries.len(),
    ensures
        attempts_of(entries, entries[i].0) == entries[i].1,
    decreases entries.len(),
{
    if i < entries.len() - 1 {
        assert(entries.last().0 != entries[i].0);
        lemma_attempts_found(entries.drop_last(), i);
        assert(entries.drop_last()[i] == entries[i]);
    }
}

/// An identity with no record has no attempts.
proof fn lemma_attempts_absent(entries: Seq<(Seq<char>, Seq<u64>)>, id: Seq<char>)
    requires
        forall|k: int| 0 <= k < entries.len() ==> (#[trigger] entries[k]).0 != id,
    ensures
        attempts_of(entries, id) == Seq::<u64>::empty(),
    decreases entries.len(),
{
    if entries.len() > 0 {
        lemma_attempts_absent(entries.drop_last(), id);
    }
}

/// Replacing the timestamps of one record changes that identity's attempts
/// and no other's.
proof fn lemma_attempts_update(entries: Seq<(Seq<char>, Seq<u64>)>, i: int, v: Seq<u64>)
    requires
        no_dup_keys(entries),
        0 <= i < entries.len(),
    ensures
        no_dup_keys(entries.update(i, (entries[i].0, v))),
        attempts_of(entries.update(i, (entries[i].0, v)), entries[i].0) == v,
        forall|other: Seq<char>|
            other != entries[i].0 ==> attempts_of(entries.update(i, (entries[i].0, v)), other)
                == attempts_of(entries, other),
    decreases entries.len(),
{
    let upd = entries.update(i, (entries[i].0, v));
    assert(no_dup_keys(upd)) by {
        assert forall|p: int, q: int| 0 <= p < q < upd.len() implies (#[trigger] upd[p]).0 != (
        #[trigger] upd[q]).0 by {
            assert(upd[p].0 == entries[p].0);
            assert(upd[q].0 == entries[q].0);
        }
    }
    if i == entries.len() - 1 {
        assert(upd.last() == (entries[i].0, v));
        assert forall|other: Seq<char>| other != entries[i].0 implies attempts_of(upd, other)
            == attempts_of(entries, other) by {
            assert(upd.drop_last() =~= entries.drop_last());
        }
    } else {
        assert(upd.last() == entries.last());
        assert(upd.drop_last() =~= entries.drop_last().update(i, (entries[i].0, v)));
        assert(no_dup_keys(entries.drop_last())) by {
            assert forall|p: int, q: int|
                0 <= p < q < entries.drop_last().len() implies (#[trigger] entries.drop_last()[p]).0
                != (#[trigger] entries.drop_last()[q]).0 by {
                assert(entries.drop_last()[p] == entries[p]);
                assert(entries.drop_last()[q] == entries[q]);
            }
        }
        assert(entries.drop_last()[i] == entries[i]);
        lemma_attempts_update(entries.drop_last(), i, v);
        assert(entries.last().0 != entries[i].0);
        assert forall|other: Seq<char>| other != entries[i].0 implies attempts_of(upd, other)
            == attempts_of(entries, other) by {
            if entries.last().0 != other {
                assert(attempts_of(upd, other) == attempts_of(upd.drop_last(), other));
                assert(attempts_of(entries, other) == attempts_of(entries.drop_last(), other));
            }
        }
    }
}

/// Adding a record for an unseen identity gives it exactly those attempts
/// and leaves every other identity's attempts alone.
proof fn lemma_attempts_push(entries: Seq<(Seq<char>, Seq<u64>)>, id: Seq<char>, v: Seq<u64>)
    requires
        no_dup_keys(entries),
        forall|k: int| 0 <= k < entries.len() ==> (#[trigger] entries[k]).0 != id,
    ensures
        no_dup_keys(entries.push((id, v))),
        attempts_of(entries.push((id, v)), id) == v,
        forall|other: Seq<char>|
            other != id ==> attempts_of(entries.push((id, v)), other) == attempts_of(
                entries,
                other,
            ),
    decreases entries.len(),
{
    let p = entries.push((id, v));
    assert(p.last() == (id, v));
    assert(p.drop_last() =~= entries);
    assert(no_dup_keys(p)) by {
        assert forall|x: int, y: int| 0 <= x < y < p.len() implies (#[trigger] p[x]).0 != (
        #[trigger] p[y]).0 by {
            if y < entries.len() {
                assert(p[x] == entries[x]);
                assert(p[y] == entries[y]);
            } else {
                assert(p[x] == entries[x]);
                assert(p[y] == (id, v));
            }
        }
    }
}

/// The sliding-window policy with a budget of 2 attempts per 60 seconds, for
/// one identity starting with nothing on record: the first and second
/// attempts within the window are admitted, a third within the window is
/// rejected (and not recorded), and an attempt made once the window has fully
/// elapsed since the first is admitted again.
pub proof fn lemma_sliding_window_scenario(t1: u64, t2: u64, t3: u64, t4: u64)
    requires
        t1 <= t2 <= t3 <= t4,
        t3 - t1 < 60,
        t4 - t1 >= 60,
    ensures
        ({
            let s0 = Seq::<u64>::empty();
            let s1 = record_spec(s0, t1, 2, 60);
            let s2 = record_spec(s1, t2, 2, 60);
            let s3 = record_spec(s2, t3, 2, 60);
            &&& !limited_spec(s0, t1, 2, 60)
            &&& !limited_spec(s1, t2, 2, 60)
            &&& limited_spec(s2, t3, 2, 60)
            &&& s3 == s2
            &&& !limited_spec(s3, t4, 2, 60)
        }),
{
    let s0 = Seq::<u64>::empty();
    let p1 = |u: u64| in_window(u, t1, 60);
    let p2 = |u: u64| in_window(u, t2, 60);
    let p3 = |u: u64| in_window(u, t3, 60);
    let p4 = |u: u64| in_window(u, t4, 60);
    assert(s0.filter(p1) =~= s0) by {
        reveal(Seq::filter);
    }
    let s1 = record_spec(s0, t1, 2, 60);
    assert(s1 =~= s0.push(t1));
    assert(s0.filter(p2) =~= s0) by {
        reveal(Seq::filter);
    }
    lemma_filter_push(s0, t1, p2);
    assert(prune_spec(s1, t2, 60) =~= s0.push(t1));
    let s2 = record_spec(s1, t2, 2, 60);
    assert(s2 =~= s0.push(t1).push(t2));
    assert(s0.filter(p3) =~= s0) by {
        reveal(Seq::filter);
    }
    lemma_filter_push(s0, t1, p3);
    lemma_filter_push(s0.push(t1), t2, p3);
    assert(prune_spec(s2, t3, 60) =~= s0.push(t1).push(t2));
    assert(limited_spec(s2, t3, 2, 60));
    let s3 = record_spec(s2, t3, 2, 60);
    assert(s3 == s2);
    assert(s0.filter(p4) =~= s0) by {
        reveal(Seq::filter);
    }
    lemma_filter_push(s0, t1, p4);
    lemma_filter_push(s0.push(t1), t2, p4);
    assert(!p4(t1));
    assert(prune_spec(s3, t4, 60).len() <= 1);
    assert(!limited_spec(s3, t4, 2, 60));
}

/// Tracks recent write attempts per client identity and admits at most
/// `max_requests` attempts per identity within a trailing window of
/// `window_seconds` seconds.
pub struct RateLimiter {
    requests: Vec<(String, Vec<u64>)>,
    max_requests: usize,
    window_seconds: u64,
}

impl RateLimiter {
    /// The per-identity records.
    pub closed spec fn entries(&self) -> Seq<(Seq<char>, Seq<u64>)> {
        entry_views(self.requests@)
    }

    /// Configured budget: attempts admitted per window.
    pub closed spec fn max_requests_spec(&self) -> usize {
        self.max_requests
    }

    /// Configured trailing window, in seconds.
    pub closed spec fn window_spec(&self) -> u64 {
        self.window_seconds
    }

    /// Abstraction invariant: one record per identity.
    pub closed spec fn inv(&self) -> bool {
        no_dup_keys(self.entries())
    }

    /// A limiter with the given policy and nothing on record.
    pub fn new(max_requests: usize, window_seconds: u64) -> (r: Self)
        ensures
            r.inv(),
            r.entries() == Seq::<(Seq<char>, Seq<u64>)>::empty(),
            r.max_requests_spec() == max_requests,
            r.window_spec() == window_seconds,
    {
        let r = RateLimiter { requests: Vec::new(), max_requests, window_seconds };
        proof {
            assert(r.entries() =~= Seq::<(Seq<char>, Seq<u64>)>::empty());
        }
        r
    }

    /// The atomic check-then-record step at time `now`: prunes the identity's
    /// stale attempts, rejects when the remaining count reaches the budget
    /// (true = over the limit), and records the attempt otherwise.
    #[verifier::loop_isolation(false)]
    pub fn check_at(&mut self, ip: &str, now: u64) -> (limited: bool)
        requires
            old(self).inv(),
        ensures
            final(self).inv(),
            final(self).max_requests_spec() == old(self).max_requests_spec(),
            final(self).window_spec() == old(self).window_spec(),
            limited == limited_spec(
                attempts_of(old(self).entries(), ip@),
                now,
                old(self).max_requests_spec(),
                old(self).window_spec(),
            ),
            attempts_of(final(self).entries(), ip@) == record_spec(
                attempts_of(old(self).entries(), ip@),
                now,
                old(self).max_requests_spec(),
                old(self).window_spec(),
            ),
            forall|other: Seq<char>|
                other != ip@ ==> attempts_of(final(self).entries(), other) == attempts_of(
                    old(self).entries(),
                    other,
                ),
    {
        let ghost olde = self.entries();
        let key = String::from_str(ip);
        let n = self.requests.len();
        let mut i: usize = 0;
        let mut found: bool = false;
        while i < n && !found
            invariant
                i <= n,
                !found ==> forall|k: int| 0 <= k < i ==> (#[trigger] olde[k]).0 != ip@,
                found ==> i < n && olde[i as int].0 == ip@,
            decreases n - i + (if found { 0int } else { 1int }),
        {
            proof {
                assert(olde[i as int] == (self.requests@[i as int].0@, self.requests@[i as int].1@));
            }
            if self.requests[i].0 == key {
                found = true;
            } else {
                i += 1;
            }
        }
        if found {
            let idx = i;
            proof {
                lemma_attempts_found(olde, idx as int);
            }
            let ts_len = self.requests[idx].1.len();
            let ghost ts = self.requests@[idx as int].1@;
            let mut kept: Vec<u64> = Vec::new();
            let mut w: usize = 0;
            while w < ts_len
                invariant
                    w <= ts_len,
                    kept@ == prune_spec(ts.take(w as int), now, self.window_seconds),
                decreases ts_len - w,
            {
                let t = self.requests[idx].1[w];
                proof {
                    assert(ts.take(w as int + 1) =~= ts.take(w as int).push(ts[w as int]));
                    lemma_filter_push(
                        ts.take(w as int),
                        ts[w as int],
                        |u: u64| in_window(u, now, self.window_seconds),
                    );
                }
                if t > now || now - t < self.window_seconds {
                    kept.push(t);
                }
                w += 1;
            }
            proof {
                assert(ts.take(ts_len as int) =~= ts);
            }
            let limited = kept.len() >= self.max_requests;
            if !limited {
                kept.push(now);
            }
            let stored_key = self.requests[idx].0.clone();
            let ghost key_view = olde[idx as int].0;
            self.requests[idx] = (stored_key, kept);
            proof {
                assert(self.entries() =~= olde.update(idx as int, (key_view, kept@)));
                lemma_attempts_update(olde, idx as int, kept@);
            }
            limited
        } else {
            proof {
                lemma_attempts_absent(olde, ip@);
                assert(prune_spec(Seq::<u64>::empty(), now, self.window_seconds)
                    =~= Seq::<u64>::empty()) by {
                    reveal(Seq::filter);
                }
            }
            if self.max_requests == 0 {
                // Over a zero budget every attempt is rejected and nothing is
                // recorded: the unseen identity stays unseen.
                true
            } else {
                let key = String::from_str(ip);
                let mut ts: Vec<u64> = Vec::new();
                ts.push(now);
                self.requests.push((key, ts));
                proof {
                    assert(self.entries() =~= olde.push((ip@, seq![now])));
                    lemma_attempts_push(olde, ip@, seq![now]);
                    assert(prune_spec(Seq::<u64>::empty(), now, self.window_seconds).push(now)
                        =~= seq![now]);
                }
                false
            }
        }
    }

    /// The check-then-record step at the current system time: what holds of
    /// the result holds for some reading `now` of the clock.
    pub fn check_request_limit(&mut self, ip: &str) -> (limited: bool)
        requires
            old(self).inv(),
        ensures
            final(self).inv(),
            final(self).max_requests_spec() == old(self).max_requests_spec(),
            final(self).window_spec() == old(self).window_spec(),
            exists|now: u64|
                {
                    &&& limited == limited_spec(
                        attempts_of(old(self).entries(), ip@),
                        now,
                        old(self).max_requests_spec(),
                        old(self).window_spec(),
                    )
                    &&& attempts_of(final(self).entries(), ip@) == #[trigger] record_spec(
                        attempts_of(old(self).entries(), ip@),
                        now,
                        old(self).max_requests_spec(),
                        old(self).window_spec(),
                    )
                },
            forall|other: Seq<char>|
                other != ip@ ==> attempts_of(final(self).entries(), other) == attempts_of(
                    old(self).entries(),
                    other,
                ),
    {
        let now = crate::clock::now_unix_secs();
        self.check_at(ip, now)
    }
}

} // verus!

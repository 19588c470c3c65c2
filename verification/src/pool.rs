//! The shared pool state: upstream addresses, parallel liveness flags, the
//! maintained count of live upstreams, and the per-client request counters
//! of the rate limiter. All mutating operations keep the pool invariant:
//! the alive counter always equals the number of set flags, and the counter
//! table maps each client to a count of at least one, with no duplicate keys.

use vstd::prelude::*;

verus! {

/// How many entries of a flag sequence are set.
pub open spec fn count_true(s: Seq<bool>) -> nat
    decreases s.len(),
{
    if s.len() == 0 {
        0
    } else {
        count_true(s.drop_last()) + if s.last() {
            1nat
        } else {
            0nat
        }
    }
}

pub proof fn lemma_count_true_le_len(s: Seq<bool>)
    ensures
        count_true(s) <= s.len(),
    decreases s.len(),
{
    if s.len() > 0 {
        lemma_count_true_le_len(s.drop_last());
    }
}

pub proof fn lemma_count_true_all(s: Seq<bool>)
    requires
        forall|i: int| 0 <= i < s.len() ==> s[i],
    ensures
        count_true(s) == s.len(),
    decreases s.len(),
{
    if s.len() > 0 {
        lemma_count_true_all(s.drop_last());
    }
}

pub proof fn lemma_count_true_pos(s: Seq<bool>, j: int)
    requires
        0 <= j < s.len(),
        s[j],
    ensures
        count_true(s) >= 1,
    decreases s.len(),
{
    if j < s.len() - 1 {
        lemma_count_true_pos(s.drop_last(), j);
    }
}

/// Updating one flag changes the count by the difference between the new and
/// the old entry, and by nothing else.
pub proof fn lemma_count_true_update(s: Seq<bool>, i: int, b: bool)
    requires
        0 <= i < s.len(),
    ensures
        count_true(s.update(i, b)) + (if s[i] {
            1nat
        } else {
            0nat
        }) == count_true(s) + (if b {
            1nat
        } else {
            0nat
        }),
    decreases s.len(),
{
    let t = s.update(i, b);
    if i == s.len() - 1 {
        assert(t.drop_last() =~= s.drop_last());
    } else {
        lemma_count_true_update(s.drop_last(), i, b);
        assert(t.drop_last() =~= s.drop_last().update(i, b));
        assert(t.last() == s.last());
    }
}

/// The first counter entry for the given client key, scanning from the front.
/// Under `counts_wf` keys are unique, so this is the only entry.
pub open spec fn lookup_count(s: Seq<(String, usize)>, k: Seq<char>) -> Option<usize>
    decreases s.len(),
{
    if s.len() == 0 {
        None
    } else if s[0].0@ == k {
        Some(s[0].1)
    } else {
        lookup_count(s.drop_first(), k)
    }
}

pub proof fn lemma_lookup_none_iff(s: Seq<(String, usize)>, k: Seq<char>)
    ensures
        (lookup_count(s, k) is None) <==> (forall|j: int|
            0 <= j < s.len() ==> (#[trigger] s[j]).0@ != k),
    decreases s.len(),
{
    if s.len() == 0 {
    } else if s[0].0@ == k {
        assert(s[0].0@ == k);
    } else {
        lemma_lookup_none_iff(s.drop_first(), k);
        assert(forall|j: int| 1 <= j < s.len() ==> (#[trigger] s[j]) == s.drop_first()[j - 1]);
        if lookup_count(s, k) is None {
            assert forall|j: int| 0 <= j < s.len() implies (#[trigger] s[j]).0@ != k by {
                if j >= 1 {
                    assert(s[j] == s.drop_first()[j - 1]);
                }
            }
        } else {
            let j0 = choose|j: int|
                0 <= j < s.drop_first().len() && (#[trigger] s.drop_first()[j]).0@ == k;
            assert(s[j0 + 1].0@ == k);
        }
    }
}

/// With unique keys, the entry at `idx` is what a scan from the front finds.
pub proof fn lemma_lookup_found(s: Seq<(String, usize)>, idx: int)
    requires
        forall|i: int, j: int|
            #![trigger s[i].0@, s[j].0@]
            0 <= i < s.len() && 0 <= j < s.len() && i != j ==> s[i].0@ != s[j].0@,
        0 <= idx < s.len(),
    ensures
        lookup_count(s, s[idx].0@) == Some(s[idx].1),
    decreases s.len(),
{
    if idx > 0 {
        assert(s[0].0@ != s[idx].0@);
        lemma_lookup_found(s.drop_first(), idx - 1);
        assert(forall|j: int|
            1 <= j < s.len() ==> s[j] == (#[trigger] s.drop_first()[j - 1]));
    }
}

/// Replacing an entry whose key differs from `k` leaves the lookup of `k`
/// untouched.
pub proof fn lemma_lookup_update_other(
    s: Seq<(String, usize)>,
    idx: int,
    pair: (String, usize),
    k: Seq<char>,
)
    requires
        0 <= idx < s.len(),
        pair.0@ != k,
        s[idx].0@ != k,
    ensures
        lookup_count(s.update(idx, pair), k) == lookup_count(s, k),
    decreases s.len(),
{
    let t = s.update(idx, pair);
    if idx == 0 {
        assert(t.drop_first() =~= s.drop_first());
    } else {
        assert(t[0] == s[0]);
        if s[0].0@ != k {
            lemma_lookup_update_other(s.drop_first(), idx - 1, pair, k);
            assert(t.drop_first() =~= s.drop_first().update(idx - 1, pair));
        }
    }
}

/// Appending an entry changes only the lookup of a key that was absent.
pub proof fn lemma_lookup_push(s: Seq<(String, usize)>, pair: (String, usize), k: Seq<char>)
    ensures
        lookup_count(s.push(pair), k) == (if lookup_count(s, k) is Some {
            lookup_count(s, k)
        } else if pair.0@ == k {
            Some(pair.1)
        } else {
            None::<usize>
        }),
    decreases s.len(),
{
    let t = s.push(pair);
    if s.len() == 0 {
        assert(t.len() == 1);
        assert(t[0] == pair);
        assert(t.drop_first() =~= Seq::<(String, usize)>::empty());
        if pair.0@ == k {
            assert(lookup_count(t, k) == Some(pair.1));
        } else {
            assert(lookup_count(t, k) == lookup_count(t.drop_first(), k));
        }
    } else {
        assert(t.len() == s.len() + 1);
        assert(t[0] == s[0]);
        lemma_lookup_push(s.drop_first(), pair, k);
        assert(t.drop_first() =~= s.drop_first().push(pair));
        if s[0].0@ == k {
            assert(lookup_count(t, k) == Some(s[0].1));
            assert(lookup_count(s, k) == Some(s[0].1));
        } else {
            assert(lookup_count(t, k) == lookup_count(t.drop_first(), k));
            assert(lookup_count(s, k) == lookup_count(s.drop_first(), k));
        }
    }
}

/// A counter after one more request from `ip`: a first request creates the
/// entry with count one; a later one increments, saturating at the machine
/// limit.
pub open spec fn saturating_inc(c: usize) -> usize {
    if c == usize::MAX {
        usize::MAX
    } else {
        (c + 1) as usize
    }
}

/// The count recorded for `ip` after one more request in the current window.
pub open spec fn window_count_after(counts: Seq<(String, usize)>, ip: Seq<char>) -> usize {
    match lookup_count(counts, ip) {
        None => 1,
        Some(c) => saturating_inc(c),
    }
}

/// Whether one more request from `ip` goes over the limit: counts strictly
/// greater than the limit are rejected, and a limit of zero disables the
/// check entirely.
pub open spec fn window_exceeds(counts: Seq<(String, usize)>, ip: Seq<char>, limit: usize) -> bool {
    limit != 0 && window_count_after(counts, ip) > limit
}

/// How one request from `ip` changes the counter table: untouched when the
/// limit is zero; otherwise `ip`'s count becomes `window_count_after` and
/// every other client's count is untouched.
pub open spec fn counter_updated(pre: UpstreamPool, post: UpstreamPool, ip: Seq<char>) -> bool {
    &&& (pre.max_requests_per_minute == 0 ==> post.rate_limiting_counter
        == pre.rate_limiting_counter)
    &&& (pre.max_requests_per_minute != 0 ==> lookup_count(post.rate_limiting_counter@, ip)
        == Some(window_count_after(pre.rate_limiting_counter@, ip)))
    &&& forall|k: Seq<char>|
        k != ip ==> lookup_count(post.rate_limiting_counter@, k) == lookup_count(
            pre.rate_limiting_counter@,
            k,
        )
}

/// With the limit configured as zero the limiter is disabled outright: no
/// burst, whatever its size and whatever is already recorded, is ever
/// rejected.
pub proof fn lemma_rate_limit_disabled(counts: Seq<(String, usize)>, ip: Seq<char>)
    ensures
        !window_exceeds(counts, ip, 0),
{
}

/// Counter-table invariant: no duplicate client keys, and every recorded
/// count is at least one (a client appears only once it has made a request).
pub open spec fn counts_wf(s: Seq<(String, usize)>) -> bool {
    &&& forall|i: int, j: int|
        #![trigger s[i].0@, s[j].0@]
        0 <= i < s.len() && 0 <= j < s.len() && i != j ==> s[i].0@ != s[j].0@
    &&& forall|i: int| 0 <= i < s.len() ==> (#[trigger] s[i]).1 >= 1
}

/// Idempotent marking: demoting the same upstream twice leaves exactly the
/// flags that demoting it once leaves, so the live count moves by at most
/// one in total — by one when the upstream was alive, by nothing otherwise.
pub proof fn lemma_mark_dead_idempotent(s: Seq<bool>, i: int)
    requires
        0 <= i < s.len(),
    ensures
        s.update(i, false).update(i, false) == s.update(i, false),
        count_true(s.update(i, false)) + (if s[i] {
            1nat
        } else {
            0nat
        }) == count_true(s),
{
    assert(s.update(i, false).update(i, false) =~= s.update(i, false));
    lemma_count_true_update(s, i, false);
}

/// The single piece of shared state of the balancer: upstream addresses
/// (fixed after construction), their liveness flags, the maintained live
/// count, the health-check and rate-limit configuration, and the per-client
/// request counters of the current one-minute window.
pub struct UpstreamPool {
    /// Addresses of the upstream servers; never mutated after construction.
    pub upstream_addresses: Vec<String>,
    /// `upstream_address_flags[i]` is true iff upstream `i` is considered alive.
    pub upstream_address_flags: Vec<bool>,
    /// Always equal to the number of set entries of `upstream_address_flags`.
    pub upstream_address_alive_num: usize,
    /// Seconds between two health-check rounds.
    pub active_health_check_interval: usize,
    /// Path probed by the health checker.
    pub active_health_check_path: String,
    /// Requests allowed per client per minute; zero disables rate limiting.
    pub max_requests_per_minute: usize,
    /// Requests seen per client in the current window; cleared in bulk.
    pub rate_limiting_counter: Vec<(String, usize)>,
}

impl UpstreamPool {
    /// The pool invariant.
    pub open spec fn wf(self) -> bool {
        &&& self.upstream_address_flags@.len() == self.upstream_addresses@.len()
        &&& self.upstream_address_alive_num == count_true(self.upstream_address_flags@)
        &&& counts_wf(self.rate_limiting_counter@)
    }

    /// The configuration and the address list never change; only liveness
    /// flags, the live count and the request counters do.
    pub open spec fn same_config(self, other: UpstreamPool) -> bool {
        &&& self.upstream_addresses == other.upstream_addresses
        &&& self.active_health_check_interval == other.active_health_check_interval
        &&& self.active_health_check_path == other.active_health_check_path
        &&& self.max_requests_per_minute == other.max_requests_per_minute
    }

    /// Builds the pool; every configured upstream starts out alive and no
    /// client has a request counter yet.
    pub fn new(
        upstream_addresses: Vec<String>,
        active_health_check_interval: usize,
        active_health_check_path: String,
        max_requests_per_minute: usize,
    ) -> (pool: UpstreamPool)
        ensures
            pool.wf(),
            pool.upstream_addresses == upstream_addresses,
            pool.upstream_address_flags@.len() == upstream_addresses@.len(),
            forall|i: int|
                0 <= i < upstream_addresses@.len() ==> pool.upstream_address_flags@[i],
            pool.upstream_address_alive_num == upstream_addresses@.len(),
            pool.active_health_check_interval == active_health_check_interval,
            pool.active_health_check_path == active_health_check_path,
            pool.max_requests_per_minute == max_requests_per_minute,
            pool.rate_limiting_counter@.len() == 0,
    {
        let n = upstream_addresses.len();
        let mut flags: Vec<bool> = Vec::new();
        while flags.len() < n
            invariant
                flags@.len() <= n,
                forall|i: int| 0 <= i < flags@.len() ==> flags@[i],
            decreases n - flags@.len(),
        {
            flags.push(true);
        }
        proof {
            lemma_count_true_all(flags@);
        }
        UpstreamPool {
            upstream_addresses,
            upstream_address_flags: flags,
            upstream_address_alive_num: n,
            active_health_check_interval,
            active_health_check_path,
            max_requests_per_minute,
            rate_limiting_counter: Vec::new(),
        }
    }

    /// Demotes upstream `i`. Idempotent: a second call on an already-dead
    /// upstream leaves the pool, and in particular the live count, unchanged.
    pub fn mark_dead(&mut self, i: usize)
        requires
            old(self).wf(),
            i < old(self).upstream_address_flags@.len(),
        ensures
            final(self).wf(),
            final(self).same_config(*old(self)),
            final(self).rate_limiting_counter == old(self).rate_limiting_counter,
            final(self).upstream_address_flags@ == old(self).upstream_address_flags@.update(
                i as int,
                false,
            ),
            final(self).upstream_address_alive_num + (if old(
                self,
            ).upstream_address_flags@[i as int] {
                1int
            } else {
                0int
            }) == old(self).upstream_address_alive_num,
    {
        if self.upstream_address_flags[i] {
            proof {
                lemma_count_true_pos(self.upstream_address_flags@, i as int);
                lemma_count_true_update(self.upstream_address_flags@, i as int, false);
            }
            self.upstream_address_flags.set(i, false);
            self.upstream_address_alive_num = self.upstream_address_alive_num - 1;
        } else {
            proof {
                assert(self.upstream_address_flags@.update(i as int, false)
                    =~= self.upstream_address_flags@);
            }
        }
    }

    /// Promotes upstream `i`. Idempotent in the same way as `mark_dead`.
    pub fn mark_alive(&mut self, i: usize)
        requires
            old(self).wf(),
            i < old(self).upstream_address_flags@.len(),
        ensures
            final(self).wf(),
            final(self).same_config(*old(self)),
            final(self).rate_limiting_counter == old(self).rate_limiting_counter,
            final(self).upstream_address_flags@ == old(self).upstream_address_flags@.update(
                i as int,
                true,
            ),
            final(self).upstream_address_alive_num == old(self).upstream_address_alive_num + (
            if old(self).upstream_address_flags@[i as int] {
                0int
            } else {
                1int
            }),
    {
        let n = self.upstream_address_flags.len();
        if !self.upstream_address_flags[i] {
            proof {
                lemma_count_true_update(self.upstream_address_flags@, i as int, true);
                lemma_count_true_le_len(self.upstream_address_flags@.update(i as int, true));
                assert(count_true(self.upstream_address_flags@.update(i as int, true)) <= n);
            }
            self.upstream_address_flags.set(i, true);
            self.upstream_address_alive_num = self.upstream_address_alive_num + 1;
        } else {
            proof {
                assert(self.upstream_address_flags@.update(i as int, true)
                    =~= self.upstream_address_flags@);
            }
        }
    }

    /// Records one more request from `client_ip` and reports whether that
    /// request goes over `max_requests_per_minute`. With a limit of zero the
    /// counters are not touched at all and nothing is ever rejected.
    pub fn increment_and_check(&mut self, client_ip: &String) -> (exceeded: bool)
        requires
            old(self).wf(),
        ensures
            final(self).wf(),
            final(self).same_config(*old(self)),
            final(self).upstream_address_flags == old(self).upstream_address_flags,
            final(self).upstream_address_alive_num == old(self).upstream_address_alive_num,
            exceeded == window_exceeds(
                old(self).rate_limiting_counter@,
                client_ip@,
                old(self).max_requests_per_minute,
            ),
            counter_updated(*old(self), *final(self), client_ip@),
    {
        if self.max_requests_per_minute == 0 {
            return false;
        }
        let limit = self.max_requests_per_minute;
        let n = self.rate_limiting_counter.len();
        proof {
            assert(self.rate_limiting_counter@.skip(0) =~= self.rate_limiting_counter@);
        }
        let mut idx: usize = 0;
        while idx < n
            invariant
                idx <= n,
                *self == *old(self),
                self.wf(),
                limit == old(self).max_requests_per_minute,
                limit != 0,
                n == self.rate_limiting_counter@.len(),
                forall|j: int|
                    0 <= j < idx ==> (#[trigger] self.rate_limiting_counter@[j]).0@
                        != client_ip@,
                lookup_count(self.rate_limiting_counter@.skip(idx as int), client_ip@)
                    == lookup_count(self.rate_limiting_counter@, client_ip@),
            decreases n - idx,
        {
            let s = Ghost(self.rate_limiting_counter@);
            proof {
                assert(s@.skip(idx as int).len() > 0);
                assert(s@.skip(idx as int)[0] == s@[idx as int]);
                assert(s@.skip(idx as int).drop_first() =~= s@.skip(idx as int + 1));
            }
            if self.rate_limiting_counter[idx].0 == *client_ip {
                let c = self.rate_limiting_counter[idx].1;
                let nc = if c == usize::MAX {
                    usize::MAX
                } else {
                    c + 1
                };
                let key = self.rate_limiting_counter[idx].0.clone();
                let newpair = (key, nc);
                let ghost gnew = newpair;
                self.rate_limiting_counter.set(idx, newpair);
                proof {
                    assert(lookup_count(s@, client_ip@) == Some(c));
                    assert(self.rate_limiting_counter@ =~= s@.update(idx as int, gnew));
                    assert(counts_wf(self.rate_limiting_counter@));
                    lemma_lookup_found(self.rate_limiting_counter@, idx as int);
                    assert forall|k: Seq<char>| k != client_ip@ implies lookup_count(
                        self.rate_limiting_counter@,
                        k,
                    ) == lookup_count(s@, k) by {
                        lemma_lookup_update_other(s@, idx as int, gnew, k);
                    }
                }
                return nc > limit;
            }
            idx = idx + 1;
        }
        let s = Ghost(self.rate_limiting_counter@);
        proof {
            assert(s@.skip(n as int) =~= Seq::<(String, usize)>::empty());
            assert(lookup_count(s@, client_ip@) is None);
        }
        let pair = (client_ip.clone(), 1);
        let ghost gpair = pair;
        self.rate_limiting_counter.push(pair);
        proof {
            assert(self.rate_limiting_counter@ =~= s@.push(gpair));
            assert forall|k: Seq<char>| true implies lookup_count(
                self.rate_limiting_counter@,
                k,
            ) == (if lookup_count(s@, k) is Some {
                lookup_count(s@, k)
            } else if client_ip@ == k {
                Some(1usize)
            } else {
                None::<usize>
            }) by {
                lemma_lookup_push(s@, gpair, k);
            }
            assert forall|i: int, j: int|
                #![trigger self.rate_limiting_counter@[i].0@, self.rate_limiting_counter@[j].0@]
                0 <= i < self.rate_limiting_counter@.len() && 0 <= j
                    < self.rate_limiting_counter@.len() && i != j implies self
                .rate_limiting_counter@[i].0@ != self.rate_limiting_counter@[j].0@ by {
                lemma_lookup_none_iff(s@, client_ip@);
            }
        }
        1 > limit
    }

    /// Wipes every request counter; the next request from any client starts
    /// a fresh count of one.
    pub fn clear_all_counts(&mut self)
        requires
            old(self).wf(),
        ensures
            final(self).wf(),
            final(self).same_config(*old(self)),
            final(self).upstream_address_flags == old(self).upstream_address_flags,
            final(self).upstream_address_alive_num == old(self).upstream_address_alive_num,
            final(self).rate_limiting_counter@.len() == 0,
    {
        self.rate_limiting_counter = Vec::new();
    }

    /// The indices currently marked alive, in increasing order. There are
    /// exactly `upstream_address_alive_num` of them and every alive index is
    /// among them.
    pub fn snapshot_alive_indices(&self) -> (r: Vec<usize>)
        requires
            self.wf(),
        ensures
            r@.len() == self.upstream_address_alive_num,
            forall|j: int|
                0 <= j < r@.len() ==> r@[j] < self.upstream_address_flags@.len()
                    && self.upstream_address_flags@[r@[j] as int],
            forall|i: int|
                0 <= i < self.upstream_address_flags@.len() && self.upstream_address_flags@[i]
                    ==> r@.contains(i as usize),
            forall|j1: int, j2: int| 0 <= j1 < j2 < r@.len() ==> r@[j1] < r@[j2],
    {
        let n = self.upstream_address_flags.len();
        let mut r: Vec<usize> = Vec::new();
        let mut i: usize = 0;
        while i < n
            invariant
                i <= n,
                n == self.upstream_address_flags@.len(),
                r@.len() == count_true(self.upstream_address_flags@.take(i as int)),
                forall|j: int|
                    0 <= j < r@.len() ==> r@[j] < i && self.upstream_address_flags@[r@[j] as int],
                forall|k: int|
                    0 <= k < i && self.upstream_address_flags@[k] ==> r@.contains(k as usize),
                forall|j1: int, j2: int| 0 <= j1 < j2 < r@.len() ==> r@[j1] < r@[j2],
            decreases n - i,
        {
            proof {
                assert(self.upstream_address_flags@.take(i as int + 1).drop_last()
                    =~= self.upstream_address_flags@.take(i as int));
                assert(self.upstream_address_flags@.take(i as int + 1).last()
                    == self.upstream_address_flags@[i as int]);
                lemma_count_true_le_len(self.upstream_address_flags@.take(i as int + 1));
            }
            if self.upstream_address_flags[i] {
                let ghost old_r = r@;
                r.push(i);
                proof {
                    assert(forall|j: int| 0 <= j < old_r.len() ==> r@[j] == old_r[j]);
                    assert(r@[r@.len() - 1] == i);
                    assert forall|k: int|
                        0 <= k < i + 1 && self.upstream_address_flags@[k] implies r@.contains(
                        k as usize,
                    ) by {
                        if k < i {
                            let j0 = choose|j: int| 0 <= j < old_r.len() && old_r[j] == k as usize;
                            assert(r@[j0] == k as usize);
                        } else {
                            assert(r@[r@.len() - 1] == k as usize);
                        }
                    }
                }
            }
            i = i + 1;
        }
        proof {
            assert(self.upstream_address_flags@.take(n as int)
                =~= self.upstream_address_flags@);
        }
        r
    }
}

} // verus!

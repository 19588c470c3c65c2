//! Upstream selection and failover: pick a live upstream uniformly at
//! random, fail at once when the pool is exhausted, and — after a connect
//! failure has demoted an upstream — never offer that upstream again until
//! a health check revives it.

use vstd::prelude::*;
use rand::Rng;
use rand::SeedableRng;
use crate::pool::{UpstreamPool, count_true, lemma_count_true_pos};

verus! {

/// Relies on rand: `StdRng::from_entropy` seeds a generator from the
/// operating system and `Rng::gen_range(0..n)` returns a value of that
/// range. Nothing beyond the range can be promised of a random draw.
#[verifier::external_body]
fn random_below(n: usize) -> (r: usize)
    requires
        n > 0,
    ensures
        r < n,
{
    let mut rng = rand::rngs::StdRng::from_entropy();
    rng.gen_range(0..n)
}

/// Picks one of the currently alive upstream indices at random. Returns
/// `None` exactly when no upstream is alive — immediately, without retrying
/// or waiting — and otherwise an index that is alive in this snapshot.
pub fn select_upstream(pool: &UpstreamPool) -> (r: Option<usize>)
    requires
        pool.wf(),
    ensures
        (r is None) <==> pool.upstream_address_alive_num == 0,
        r matches Some(i) ==> i < pool.upstream_address_flags@.len()
            && pool.upstream_address_flags@[i as int],
{
    let alive = pool.snapshot_alive_indices();
    if alive.len() == 0 {
        None
    } else {
        let k = random_below(alive.len());
        Some(alive[k])
    }
}

/// Failover: once a failed connect has demoted upstream `i` (its flag
/// cleared), no selection over the new flags can yield `i`; and when any
/// other upstream is still alive, the new flags still have a live entry, so
/// selection still succeeds and the request can be served elsewhere.
pub proof fn lemma_failover(s: Seq<bool>, i: int)
    requires
        0 <= i < s.len(),
    ensures
        forall|j: int| 0 <= j < s.len() && (#[trigger] s.update(i, false)[j]) ==> j != i,
        (exists|j: int| 0 <= j < s.len() && j != i && s[j]) ==> count_true(s.update(i, false))
            > 0,
{
    if exists|j: int| 0 <= j < s.len() && j != i && s[j] {
        let j0 = choose|j: int| 0 <= j < s.len() && j != i && s[j];
        assert(s.update(i, false)[j0]);
        lemma_count_true_pos(s.update(i, false), j0);
    }
}

} // verus!

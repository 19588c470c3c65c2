use balancebeam::health::{apply_probe_result, ProbeOutcome};
use balancebeam::pool::UpstreamPool;
use balancebeam::select::select_upstream;

fn pool_of(n: usize) -> UpstreamPool {
    let mut addrs = Vec::new();
    let mut i = 0;
    while i < n {
        addrs.push(format!("127.0.0.1:90{:02}", i));
        i += 1;
    }
    UpstreamPool::new(addrs, 10, String::from("/"), 0)
}

#[test]
fn exhausted_pool_selects_nothing_at_once() {
    let mut pool = pool_of(2);
    pool.mark_dead(0);
    pool.mark_dead(1);
    assert_eq!(select_upstream(&pool), None);
}

#[test]
fn empty_pool_selects_nothing() {
    let pool = pool_of(0);
    assert_eq!(select_upstream(&pool), None);
}

#[test]
fn selection_only_returns_alive_upstreams() {
    let mut pool = pool_of(3);
    pool.mark_dead(0);
    pool.mark_dead(2);
    for _ in 0..50 {
        assert_eq!(select_upstream(&pool), Some(1));
    }
}

#[test]
fn failed_upstream_excluded_until_revived() {
    let mut pool = pool_of(3);
    // A connect failure demotes upstream 0; from then on it is never
    // offered, while requests still succeed against the remaining pair.
    pool.mark_dead(0);
    for _ in 0..200 {
        let picked = select_upstream(&pool).unwrap();
        assert!(picked == 1 || picked == 2);
    }
    // One healthy probe revives it and it comes back into rotation.
    apply_probe_result(&mut pool, 0, &ProbeOutcome::Status(200));
    let mut seen0 = false;
    for _ in 0..10_000 {
        if select_upstream(&pool) == Some(0) {
            seen0 = true;
            break;
        }
    }
    assert!(seen0);
}

#[test]
fn snapshot_lists_exactly_the_alive_indices() {
    let mut pool = pool_of(4);
    pool.mark_dead(1);
    pool.mark_dead(3);
    assert_eq!(pool.snapshot_alive_indices(), vec![0, 2]);
    pool.mark_alive(3);
    assert_eq!(pool.snapshot_alive_indices(), vec![0, 2, 3]);
}

#[test]
fn selection_is_roughly_uniform() {
    let pool = pool_of(4);
    let trials = 4000;
    let mut counts = [0usize; 4];
    for _ in 0..trials {
        let picked = select_upstream(&pool).unwrap();
        counts[picked] += 1;
    }
    for &c in counts.iter() {
        assert!(c > 800 && c < 1200, "counts: {:?}", counts);
    }
}

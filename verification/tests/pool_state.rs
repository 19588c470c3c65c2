use balancebeam::health::{apply_probe_result, ProbeOutcome};
use balancebeam::pool::UpstreamPool;

fn pool_of(n: usize, max_per_minute: usize) -> UpstreamPool {
    let mut addrs = Vec::new();
    let mut i = 0;
    while i < n {
        addrs.push(format!("127.0.0.1:90{:02}", i));
        i += 1;
    }
    UpstreamPool::new(addrs, 10, String::from("/"), max_per_minute)
}

#[test]
fn new_pool_starts_all_alive() {
    let pool = pool_of(3, 0);
    assert_eq!(pool.upstream_address_alive_num, 3);
    assert_eq!(pool.upstream_address_flags, vec![true, true, true]);
    assert_eq!(pool.rate_limiting_counter.len(), 0);
}

#[test]
fn mark_dead_twice_changes_count_by_one() {
    let mut pool = pool_of(3, 0);
    pool.mark_dead(1);
    assert_eq!(pool.upstream_address_alive_num, 2);
    assert_eq!(pool.upstream_address_flags, vec![true, false, true]);
    pool.mark_dead(1);
    assert_eq!(pool.upstream_address_alive_num, 2);
    assert_eq!(pool.upstream_address_flags, vec![true, false, true]);
}

#[test]
fn mark_alive_twice_changes_count_by_one() {
    let mut pool = pool_of(2, 0);
    pool.mark_dead(0);
    assert_eq!(pool.upstream_address_alive_num, 1);
    pool.mark_alive(0);
    assert_eq!(pool.upstream_address_alive_num, 2);
    pool.mark_alive(0);
    assert_eq!(pool.upstream_address_alive_num, 2);
}

#[test]
fn probe_outcomes_drive_liveness_exactly() {
    let mut pool = pool_of(2, 0);

    apply_probe_result(&mut pool, 0, &ProbeOutcome::Status(500));
    assert_eq!(pool.upstream_address_flags, vec![false, true]);
    assert_eq!(pool.upstream_address_alive_num, 1);

    apply_probe_result(&mut pool, 0, &ProbeOutcome::ConnectFailed);
    assert_eq!(pool.upstream_address_alive_num, 1);

    apply_probe_result(&mut pool, 0, &ProbeOutcome::Status(200));
    assert_eq!(pool.upstream_address_flags, vec![true, true]);
    assert_eq!(pool.upstream_address_alive_num, 2);

    apply_probe_result(&mut pool, 1, &ProbeOutcome::IoFailed);
    assert_eq!(pool.upstream_address_flags, vec![true, false]);
    assert_eq!(pool.upstream_address_alive_num, 1);

    apply_probe_result(&mut pool, 1, &ProbeOutcome::Status(200));
    assert_eq!(pool.upstream_address_flags, vec![true, true]);
    assert_eq!(pool.upstream_address_alive_num, 2);
}

#[test]
fn health_check_round_marks_dead_then_revives() {
    let mut pool = pool_of(3, 0);
    let outcomes = [
        ProbeOutcome::Status(200),
        ProbeOutcome::Status(404),
        ProbeOutcome::ConnectFailed,
    ];
    for (i, o) in outcomes.iter().enumerate() {
        apply_probe_result(&mut pool, i, o);
    }
    assert_eq!(pool.upstream_address_flags, vec![true, false, false]);
    assert_eq!(pool.upstream_address_alive_num, 1);
    for i in 0..3 {
        apply_probe_result(&mut pool, i, &ProbeOutcome::Status(200));
    }
    assert_eq!(pool.upstream_address_flags, vec![true, true, true]);
    assert_eq!(pool.upstream_address_alive_num, 3);
}

#[test]
fn rate_limit_three_then_reject_then_reset() {
    let mut pool = pool_of(1, 3);
    let ip = String::from("10.0.0.7");
    assert!(!pool.increment_and_check(&ip));
    assert!(!pool.increment_and_check(&ip));
    assert!(!pool.increment_and_check(&ip));
    assert!(pool.increment_and_check(&ip));
    pool.clear_all_counts();
    assert!(!pool.increment_and_check(&ip));
}

#[test]
fn rate_limit_zero_never_rejects() {
    let mut pool = pool_of(1, 0);
    let ip = String::from("10.0.0.7");
    for _ in 0..1000 {
        assert!(!pool.increment_and_check(&ip));
    }
    assert_eq!(pool.rate_limiting_counter.len(), 0);
}

#[test]
fn rate_limit_counts_clients_separately() {
    let mut pool = pool_of(1, 1);
    let a = String::from("10.0.0.1");
    let b = String::from("10.0.0.2");
    assert!(!pool.increment_and_check(&a));
    assert!(!pool.increment_and_check(&b));
    assert!(pool.increment_and_check(&a));
    assert!(pool.increment_and_check(&b));
}

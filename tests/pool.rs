use preempt_k8s::configuration::ControllerConfig;
use preempt_k8s::vars::{after_spawn_attempt, event_priority, new_shared_state, SharedState};

fn config(min: usize, max: usize, threshold: usize) -> ControllerConfig {
    ControllerConfig {
        min_watchdogs: min,
        max_watchdogs: max,
        threshold,
        event_queue_path: "/eventqueue".to_string(),
    }
}

fn started(min: usize, max: usize, threshold: usize) -> SharedState {
    let mut s = new_shared_state(config(min, max, threshold)).unwrap();
    let n = s.bootstrap();
    assert_eq!(n, min);
    for k in 0..n {
        let slot = s.claim_slot().unwrap();
        assert_eq!(slot, k);
        s.record_thread(slot, 100 + k as u64);
    }
    assert!(s.claim_slot().is_none());
    s
}

fn check_bounds(s: &SharedState) {
    assert!(s.working_threads <= s.active_threads);
    assert!(s.active_threads <= s.config.max_watchdogs);
    if s.bootstrapped {
        assert!(s.active_threads >= s.config.min_watchdogs);
    }
}

#[test]
fn min_above_max_is_refused() {
    assert!(new_shared_state(config(5, 4, 1)).is_none());
}

#[test]
fn fresh_state_is_empty() {
    let s = new_shared_state(config(2, 4, 1)).unwrap();
    assert_eq!(s.active_threads, 0);
    assert_eq!(s.workers.len(), 4);
    assert!(s.workers.iter().all(|w| !w.active && !w.busy && w.id == 0));
}

#[test]
fn bootstrap_fills_first_slots() {
    let s = started(3, 6, 2);
    assert_eq!(s.active_threads, 3);
    assert_eq!(s.pending, 0);
    assert_eq!(s.active_worker_ids(), vec![100, 101, 102]);
    check_bounds(&s);
}

#[test]
fn autoscale_scenario() {
    let mut s = started(2, 8, 3);
    assert!(s.begin_work(0));
    assert!(s.begin_work(1));
    assert_eq!(s.working_threads, 2);
    let added = s.grow();
    assert_eq!(added, 3);
    assert_eq!(s.active_threads, 5);
    assert_eq!(s.pending, 3);
    for _ in 0..3 {
        s.claim_slot().unwrap();
    }
    assert_eq!(s.workers.iter().filter(|w| w.active).count(), 5);
    check_bounds(&s);
}

#[test]
fn growth_capped_at_max() {
    let mut s = started(2, 3, 5);
    s.begin_work(0);
    s.begin_work(1);
    assert_eq!(s.grow(), 1);
    assert_eq!(s.active_threads, 3);
    check_bounds(&s);
}

#[test]
fn no_growth_with_enough_idle() {
    let mut s = started(5, 8, 3);
    s.begin_work(0);
    assert_eq!(s.grow(), 0);
    assert_eq!(s.active_threads, 5);
}

#[test]
fn begin_work_twice_is_refused() {
    let mut s = started(2, 4, 1);
    assert!(s.begin_work(1));
    assert!(!s.begin_work(1));
    assert!(!s.begin_work(3));
    assert_eq!(s.working_threads, 1);
}

#[test]
fn idle_worker_leaves_when_over_provisioned() {
    let mut s = started(2, 8, 1);
    s.begin_work(0);
    s.begin_work(1);
    s.grow();
    let slot = s.claim_slot().unwrap();
    assert_eq!(slot, 2);
    s.record_thread(slot, 7);
    assert_eq!(s.active_threads, 3);
    assert!(s.finish_work(0));
    assert_eq!(s.working_threads, 1);
    assert_eq!(s.active_threads, 2);
    assert!(!s.workers[0].active);
    assert_eq!(s.workers[0].id, 0);
    assert!(!s.finish_work(1));
    assert_eq!(s.working_threads, 0);
    assert_eq!(s.active_threads, 2);
    assert_eq!(s.active_worker_ids(), vec![101, 7]);
    check_bounds(&s);
}

#[test]
fn pool_never_shrinks_below_minimum() {
    let mut s = started(2, 4, 0);
    s.begin_work(0);
    assert!(!s.finish_work(0));
    assert!(!s.finish_work(1));
    assert_eq!(s.active_threads, 2);
    check_bounds(&s);
}

#[test]
fn released_claim_is_retried() {
    let mut s = new_shared_state(config(1, 2, 1)).unwrap();
    s.bootstrap();
    let slot = s.claim_slot().unwrap();
    s.release_claim(slot);
    assert_eq!(s.pending, 1);
    assert!(!s.workers[slot].active);
    assert_eq!(s.claim_slot(), Some(slot));
    assert_eq!(s.active_threads, 1);
}

#[test]
fn worker_priority_follows_band() {
    assert_eq!(event_priority(0), 94);
    assert_eq!(event_priority(2), 92);
    assert_eq!(event_priority(200), -106);
}

#[test]
fn spawn_failures_give_up_after_five() {
    let mut f = 0usize;
    for _ in 0..5 {
        let (n, stop) = after_spawn_attempt(f, false);
        assert!(!stop);
        f = n;
    }
    assert_eq!(after_spawn_attempt(f, false), (6, true));
    assert_eq!(after_spawn_attempt(f, true), (0, false));
}

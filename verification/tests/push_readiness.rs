//! Readiness of the callback workers.

use smesh_authority::readiness::PushReadiness;

#[test]
fn a_generation_is_ready_when_all_its_workers_are() {
    let mut readiness = PushReadiness::for_workers(3).unwrap();
    for worker in 0..2 {
        readiness.mark_worker_ready(worker);
        assert!(!readiness.is_ready());
    }
    readiness.mark_worker_ready(2);
    assert!(readiness.is_ready());
    readiness.mark_worker_ready(3);
    assert!(readiness.is_ready());
    assert!(!readiness.is_fatal());
}

#[test]
fn duplicate_reports_do_not_complete_a_generation() {
    let mut readiness = PushReadiness::for_workers(2).unwrap();
    for _ in 0..5 {
        readiness.mark_worker_ready(7);
        assert!(!readiness.is_ready());
    }
    readiness.mark_worker_ready(9);
    assert!(readiness.is_ready());
}

#[test]
fn a_generation_needs_a_worker() {
    assert!(PushReadiness::for_workers(0).is_none());
    let mut single = PushReadiness::new();
    assert!(!single.is_ready());
    single.mark_worker_ready(0);
    assert!(single.is_ready());
    let mut none = PushReadiness::default();
    assert!(!none.is_ready());
    none.mark_worker_ready(0);
    assert!(none.is_ready());
}

#[test]
fn failures_last() {
    let mut readiness = PushReadiness::new();
    readiness.mark_ready();
    assert!(readiness.is_ready());
    readiness.mark_fatal();
    assert!(readiness.is_fatal());
    assert!(!readiness.is_ready());
    readiness.mark_ready();
    readiness.mark_worker_ready(0);
    assert!(!readiness.is_ready());
    assert!(!readiness.configure_workers(2));
}

#[test]
fn workers_are_configured_before_they_start() {
    let mut readiness = PushReadiness::new();
    assert!(!readiness.configure_workers(0));
    assert!(readiness.configure_workers(2));
    readiness.mark_worker_ready(1);
    assert!(!readiness.is_ready());
    assert!(!readiness.configure_workers(1));
    readiness.mark_worker_ready(0);
    assert!(readiness.is_ready());
    assert!(!readiness.configure_workers(5));
}

use stip::manager::TaskManager;
use stip::task::TaskHandle;

#[test]
fn it_works() {
    assert_eq!(2 + 2, 4);
}

#[test]
fn ten_records_two_failures() {
    let mut outcomes = vec![true; 10];
    outcomes[3] = false;
    outcomes[7] = false;
    let h = TaskHandle::from_outcomes(&outcomes);
    assert_eq!(h.completed_count(), 8);
    assert_eq!(h.skipped_count(), 2);
    assert_eq!(h.total_count(), 10);
    assert!(!h.running());
}

#[test]
fn finished_counts_add_up() {
    let outcomes = vec![false, true, true, false, true];
    let h = TaskHandle::from_outcomes(&outcomes);
    assert_eq!(h.completed_count() + h.skipped_count(), h.total_count());
}

#[test]
fn empty_job_finishes_with_zero_counts() {
    let h = TaskHandle::from_outcomes(&Vec::new());
    assert_eq!(h.total_count(), 0);
    assert_eq!(h.completed_count(), 0);
    assert_eq!(h.skipped_count(), 0);
    assert!(!h.running());
}

#[test]
fn enumeration_failure_stops_job() {
    let h = TaskHandle::enumeration_failed();
    assert!(!h.running());
    assert_eq!(h.total_count(), 0);
    assert_eq!(h.completed_count(), 0);
}

#[test]
fn handle_counts_step_by_step() {
    let mut h = TaskHandle::new();
    assert!(h.running());
    h.set_total(3);
    h.record_outcome(true);
    h.record_outcome(false);
    assert_eq!(h.completed_count(), 1);
    assert_eq!(h.skipped_count(), 1);
    assert!(h.running());
    h.record_outcome(true);
    h.finish();
    assert_eq!(h.completed_count(), 2);
    assert!(!h.running());
}

#[test]
fn clear_removes_only_finished() {
    let mut m = TaskManager::new();
    let running = TaskHandle::new();
    let mut done = TaskHandle::new();
    done.finish();
    m.register(running, Some(1));
    m.register(done, Some(2));
    m.clear();
    let entries = m.iter();
    assert_eq!(entries.len(), 1);
    assert_eq!(entries[0].0, 1);
    assert!(m.get(1).is_some());
    assert!(m.get(2).is_none());
}

#[test]
fn register_returns_given_id_and_replaces() {
    let mut m = TaskManager::new();
    assert_eq!(m.register(TaskHandle::new(), Some(42)), 42);
    let mut done = TaskHandle::new();
    done.finish();
    assert_eq!(m.register(done, Some(42)), 42);
    assert_eq!(m.iter().len(), 1);
    assert!(!m.get(42).unwrap().running());
}

#[test]
fn register_without_id_draws_one() {
    let mut m = TaskManager::new();
    let id = m.register(TaskHandle::new(), None);
    assert!(m.get(id).is_some());
    assert_eq!(m.iter()[0].0, id);
}

#[test]
fn iter_keeps_registration_order() {
    let mut m = TaskManager::new();
    m.register(TaskHandle::new(), Some(9));
    m.register(TaskHandle::new(), Some(3));
    m.register(TaskHandle::new(), Some(5));
    let ids: Vec<u64> = m.iter().iter().map(|e| e.0).collect();
    assert_eq!(ids, vec![9, 3, 5]);
}

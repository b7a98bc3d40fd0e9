use pterm::store::SpawnState;
use pterm::store::Store;

#[test]
fn new_store_is_empty() {
    let s = Store::new();
    assert_eq!(s.len(), 0);
    assert!(!s.contains(1));
    assert!(s.get(1).is_none());
}

#[test]
fn inserted_session_is_pending_without_process() {
    let mut s = Store::new();
    s.insert(5);
    assert_eq!(s.len(), 1);
    let m = s.get(5).unwrap();
    assert_eq!(m.pid, None);
    assert_eq!(m.spawn_state, SpawnState::Pending);
    assert_eq!(s.pid(5), None);
    assert_eq!(s.lookup_cwd(5), None);
}

#[test]
fn spawn_success_stores_the_process() {
    let mut s = Store::new();
    s.insert(5);
    assert!(s.record_spawn_success(5, 4242));
    let m = s.get(5).unwrap();
    assert_eq!(m.pid, Some(4242));
    assert_eq!(m.spawn_state, SpawnState::Running);
    assert_eq!(s.lookup_cwd(5), Some("/proc/4242/cwd".to_string()));
}

#[test]
fn spawn_success_of_unknown_session_changes_nothing() {
    let mut s = Store::new();
    s.insert(5);
    assert!(!s.record_spawn_success(6, 1));
    assert_eq!(s.len(), 1);
    assert!(!s.contains(6));
    assert_eq!(s.get(5).unwrap().spawn_state, SpawnState::Pending);
}

#[test]
fn spawn_failure_marks_the_session() {
    let mut s = Store::new();
    s.insert(8);
    assert!(s.record_spawn_failure(8));
    let m = s.get(8).unwrap();
    assert_eq!(m.spawn_state, SpawnState::Failed);
    assert_eq!(m.pid, None);
    assert!(!s.record_spawn_failure(9));
    assert_eq!(s.len(), 1);
}

#[test]
fn spawn_failure_keeps_a_known_process() {
    let mut s = Store::new();
    s.insert(8);
    s.record_spawn_success(8, 77);
    s.record_spawn_failure(8);
    let m = s.get(8).unwrap();
    assert_eq!(m.spawn_state, SpawnState::Failed);
    assert_eq!(m.pid, Some(77));
}

#[test]
fn removed_session_has_no_record() {
    let mut s = Store::new();
    s.insert(1);
    s.insert(2);
    assert!(s.remove(1));
    assert!(!s.remove(1));
    assert_eq!(s.len(), 1);
    assert!(!s.contains(1));
    assert!(s.contains(2));
    assert_eq!(s.lookup_cwd(1), None);
}

#[test]
fn inserting_again_resets_the_record() {
    let mut s = Store::new();
    s.insert(1);
    s.record_spawn_success(1, 10);
    s.insert(1);
    assert_eq!(s.len(), 1);
    assert_eq!(s.pid(1), None);
    assert_eq!(s.get(1).unwrap().spawn_state, SpawnState::Pending);
}

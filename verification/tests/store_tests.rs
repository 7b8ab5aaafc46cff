use std::collections::HashMap;

use labalaba::store::{owns_pid, pids_without, StoreError, TaskStore};
use labalaba::task::{TaskConfig, TaskId};

fn sample_config(id: TaskId) -> TaskConfig {
    TaskConfig {
        id,
        description: "test".to_string(),
        executable: "/bin/true".to_string(),
        arguments: vec![],
        working_directory: None,
        environment: HashMap::new(),
        run_as_admin: false,
        auto_restart: false,
        schedule: None,
        startup_delay_ms: 0,
        depends_on: vec![],
        runner_prefix: None,
        pids: vec![],
    }
}

fn store_with_one_task() -> (TaskStore, TaskId) {
    let id = TaskId::new();
    let mut store = TaskStore::new();
    store.save(sample_config(id));
    (store, id)
}

#[test]
fn test_update_pids_push_then_clear() {
    let (mut store, id) = store_with_one_task();

    store.update_pids(&id, |mut pids: Vec<u32>| { pids.push(42); pids }).unwrap();
    assert_eq!(store.find_by_id(&id).unwrap().pids, vec![42]);

    store.update_pids(&id, |_pids: Vec<u32>| Vec::new()).unwrap();
    assert!(store.find_by_id(&id).unwrap().pids.is_empty());
}

#[test]
fn test_update_pids_preserves_other_fields() {
    let (mut store, id) = store_with_one_task();
    store.update_pids(&id, |mut pids: Vec<u32>| { pids.push(7); pids }).unwrap();
    let task = store.find_by_id(&id).unwrap();
    assert_eq!(task.executable, "/bin/true");
    assert_eq!(task.pids, vec![7]);
}

#[test]
fn test_update_pids_unknown_task_errors() {
    let (mut store, _id) = store_with_one_task();
    let err = store.update_pids(&TaskId::new(), |mut pids: Vec<u32>| { pids.push(1); pids });
    assert_eq!(err, Err(StoreError::NotFound));
}

#[test]
fn pruned_pids_are_persisted_via_update_pids() {
    let id = TaskId::new();
    let mut config = sample_config(id);
    config.pids = vec![100, 200, 300];
    let mut store = TaskStore::new();
    store.save(config);

    // Recovery decided only 200 is alive and ours.
    let pruned = labalaba::liveness::prune_pids(&[100, 200, 300], |pid| pid == 200);
    store.update_pids(&id, move |_| pruned).unwrap();
    assert_eq!(store.find_by_id(&id).unwrap().pids, vec![200]);
}

#[test]
fn no_survivors_persists_empty_pids() {
    let id = TaskId::new();
    let mut config = sample_config(id);
    config.pids = vec![1, 2];
    let mut store = TaskStore::new();
    store.save(config);

    let pruned = labalaba::liveness::prune_pids(&[1, 2], |_| false);
    store.update_pids(&id, move |_| pruned).unwrap();
    assert!(store.find_by_id(&id).unwrap().pids.is_empty());
}

#[test]
fn save_replaces_in_place_and_appends_new() {
    let a = TaskId::new();
    let b = TaskId::new();
    let mut store = TaskStore::new();
    store.save(sample_config(a));
    store.save(sample_config(b));
    let mut changed = sample_config(a);
    changed.description = "changed".to_string();
    store.save(changed);
    assert_eq!(store.tasks.len(), 2);
    assert_eq!(store.tasks[0].id, a);
    assert_eq!(store.tasks[0].description, "changed");
    assert_eq!(store.find_by_id(&b).unwrap().description, "test");
}

#[test]
fn delete_removes_only_that_task() {
    let a = TaskId::new();
    let b = TaskId::new();
    let mut store = TaskStore::new();
    store.save(sample_config(a));
    store.save(sample_config(b));
    store.delete(&a);
    assert!(store.find_by_id(&a).is_none());
    assert!(store.find_by_id(&b).is_some());
    assert_eq!(store.tasks.len(), 1);
    store.delete(&TaskId::new());
    assert_eq!(store.tasks.len(), 1);
}

#[test]
fn exited_pid_is_dropped_from_the_list() {
    assert_eq!(pids_without(&vec![5, 6, 5, 7], 5), vec![6, 7]);
    assert_eq!(pids_without(&vec![], 5), Vec::<u32>::new());
    assert!(owns_pid(&vec![1, 2, 3], 2));
    assert!(!owns_pid(&vec![1, 2, 3], 4));
}

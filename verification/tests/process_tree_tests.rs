use labalaba::process_tree::subtree_pids;

#[test]
fn subtree_holds_root_and_all_descendants() {
    let procs = vec![
        (1, None),
        (10, Some(1)),
        (11, Some(10)),
        (12, Some(10)),
        (13, Some(12)),
        (20, Some(1)),
        (30, None),
    ];
    let mut sub = subtree_pids(&procs, 10);
    assert_eq!(sub[0], 10);
    sub.sort();
    assert_eq!(sub, vec![10, 11, 12, 13]);
}

#[test]
fn unknown_root_is_alone() {
    let procs = vec![(1, None), (2, Some(1))];
    assert_eq!(subtree_pids(&procs, 99), vec![99]);
}

#[test]
fn pid_reuse_cycle_terminates() {
    let procs = vec![(5, Some(6)), (6, Some(5))];
    let mut sub = subtree_pids(&procs, 5);
    sub.sort();
    assert_eq!(sub, vec![5, 6]);
}

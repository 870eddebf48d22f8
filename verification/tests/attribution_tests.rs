use gpu_stats::attribution::{device_in_use, TreeWalk};

#[test]
fn attribution_true_when_tree_intersects_device_pids() {
    let ours = vec![100, 4242];
    let compute = vec![4242];
    let graphics = Vec::new();
    assert!(device_in_use(&ours, &compute, &graphics));
}

#[test]
fn attribution_false_when_disjoint() {
    let ours = vec![100, 4242];
    let compute = vec![9999];
    let graphics = Vec::new();
    assert!(!device_in_use(&ours, &compute, &graphics));
}

#[test]
fn attribution_checks_graphics_processes_too() {
    let ours = vec![7];
    let compute = Vec::new();
    let graphics = vec![3, 7];
    assert!(device_in_use(&ours, &compute, &graphics));
}

#[test]
fn attribution_false_when_device_reports_nothing() {
    let ours = vec![1, 2, 3];
    assert!(!device_in_use(&ours, &Vec::new(), &Vec::new()));
}

#[test]
fn attribution_false_for_empty_process_set() {
    let ours = Vec::new();
    let compute = vec![1, 2, 3];
    assert!(!device_in_use(&ours, &compute, &compute));
}

/// Drives a walk against a fixed parent-to-children table.
fn resolve(root: u32, table: &[(u32, Vec<u32>)]) -> Vec<u32> {
    let mut walk = TreeWalk::new(root);
    while let Some(pid) = walk.next_query() {
        let children = table
            .iter()
            .find(|(p, _)| *p == pid)
            .map(|(_, c)| c.clone())
            .unwrap_or_default();
        walk.report_children(&children);
    }
    walk.pids().clone()
}

#[test]
fn tree_walk_finds_transitive_children() {
    let table = vec![(1, vec![2, 3]), (2, vec![4])];
    let mut pids = resolve(1, &table);
    pids.sort();
    assert_eq!(pids, vec![1, 2, 3, 4]);
}

#[test]
fn tree_walk_root_alone_when_no_children() {
    let pids = resolve(42, &[]);
    assert_eq!(pids, vec![42]);
}

#[test]
fn tree_walk_ignores_duplicate_reports() {
    // A child reported twice, and a child listing its own parent, are
    // discovered once each.
    let table = vec![(1, vec![2, 2]), (2, vec![1, 3])];
    let mut pids = resolve(1, &table);
    pids.sort();
    assert_eq!(pids, vec![1, 2, 3]);
}

use lazytmux::process::{aggregate_process_tree, parse_pid, ProcessRecord, ProcessTree};

struct Sampled {
    pid: u32,
    parent: Option<u32>,
    cpu_usage: f32,
    memory_bytes: u64,
}

fn records(sampled: &[Sampled]) -> Vec<ProcessRecord> {
    sampled
        .iter()
        .map(|s| ProcessRecord { pid: s.pid, parent: s.parent, memory_bytes: s.memory_bytes })
        .collect()
}

/// CPU usage summed over a tree's processes, in the order they were visited.
fn cpu_of(tree: &ProcessTree, sampled: &[Sampled]) -> f32 {
    tree.pids.iter().fold(0.0f32, |total, pid| {
        total + sampled.iter().find(|s| s.pid == *pid).map(|s| s.cpu_usage).unwrap_or(0.0)
    })
}

#[test]
fn aggregates_process_tree_from_root_to_descendants() {
    let sampled = vec![
        Sampled { pid: 10, parent: None, cpu_usage: 4.0, memory_bytes: 100 },
        Sampled { pid: 11, parent: Some(10), cpu_usage: 2.5, memory_bytes: 50 },
        Sampled { pid: 12, parent: Some(11), cpu_usage: 1.0, memory_bytes: 25 },
        Sampled { pid: 20, parent: None, cpu_usage: 99.0, memory_bytes: 999 },
    ];

    let metrics = aggregate_process_tree(10, &records(&sampled)).unwrap();

    assert_eq!(cpu_of(&metrics, &sampled), 7.5);
    assert_eq!(metrics.memory_bytes, 175);
    assert_eq!(metrics.process_count, 3);
}

#[test]
fn returns_none_for_missing_root_process() {
    let sampled = vec![Sampled { pid: 10, parent: None, cpu_usage: 4.0, memory_bytes: 100 }];

    assert_eq!(aggregate_process_tree(99, &records(&sampled)), None);
}

#[test]
fn avoids_cycles_while_aggregating_process_tree() {
    let sampled = vec![
        Sampled { pid: 10, parent: Some(12), cpu_usage: 1.0, memory_bytes: 10 },
        Sampled { pid: 11, parent: Some(10), cpu_usage: 1.0, memory_bytes: 10 },
        Sampled { pid: 12, parent: Some(11), cpu_usage: 1.0, memory_bytes: 10 },
    ];

    let metrics = aggregate_process_tree(10, &records(&sampled)).unwrap();

    assert_eq!(metrics.process_count, 3);
    assert_eq!(metrics.memory_bytes, 30);
}

#[test]
fn visits_depth_first_from_the_last_child() {
    let tree = aggregate_process_tree(
        1,
        &[
            ProcessRecord { pid: 1, parent: None, memory_bytes: 1 },
            ProcessRecord { pid: 2, parent: Some(1), memory_bytes: 2 },
            ProcessRecord { pid: 3, parent: Some(1), memory_bytes: 4 },
            ProcessRecord { pid: 4, parent: Some(2), memory_bytes: 8 },
        ],
    )
    .unwrap();
    assert_eq!(tree.pids, vec![1, 3, 2, 4]);
    assert_eq!(tree.memory_bytes, 15);
}

#[test]
fn saturates_memory() {
    let tree = aggregate_process_tree(
        1,
        &[
            ProcessRecord { pid: 1, parent: None, memory_bytes: u64::MAX - 1 },
            ProcessRecord { pid: 2, parent: Some(1), memory_bytes: 5 },
        ],
    )
    .unwrap();
    assert_eq!(tree.memory_bytes, u64::MAX);
    assert_eq!(tree.process_count, 2);
}

#[test]
fn parses_pane_pids() {
    assert_eq!(parse_pid("123"), Some(123));
    assert_eq!(parse_pid("+7"), Some(7));
    assert_eq!(parse_pid("4294967295"), Some(u32::MAX));
    assert_eq!(parse_pid("4294967296"), None);
    assert_eq!(parse_pid(""), None);
    assert_eq!(parse_pid("12a"), None);
}

use rdma_daq::topology::{child_indices, parent_index, round_pairs};

#[test]
fn root_has_no_parent() {
    assert_eq!(parent_index(0), None);
}

#[test]
fn left_child_parent() {
    assert_eq!(parent_index(1), Some(0));
}

#[test]
fn right_child_parent() {
    assert_eq!(parent_index(2), Some(0));
}

#[test]
fn deeper_nodes_parent() {
    assert_eq!(parent_index(3), Some(1));
    assert_eq!(parent_index(4), Some(1));
    assert_eq!(parent_index(5), Some(2));
    assert_eq!(parent_index(6), Some(2));
}

#[test]
fn single_node_has_no_children() {
    let children = child_indices(0, 1);
    assert!(children.is_empty());
}

#[test]
fn root_with_two_children() {
    let children = child_indices(0, 3);
    assert_eq!(children, vec![1, 2]);
}

#[test]
fn root_with_only_left_child() {
    let children = child_indices(0, 2);
    assert_eq!(children, vec![1]);
}

#[test]
fn leaf_has_no_children() {
    let children = child_indices(3, 7);
    assert!(children.is_empty());
}

#[test]
fn internal_node_children() {
    let children = child_indices(1, 7);
    assert_eq!(children, vec![3, 4]);
}

#[test]
fn parent_of_child_is_self() {
    for len in 2..=16 {
        for idx in 0..len {
            for child in child_indices(idx, len) {
                assert_eq!(
                    parent_index(child),
                    Some(idx),
                    "parent(child({idx})) != {idx} in tree of size {len}"
                );
            }
        }
    }
}

#[test]
fn every_non_root_has_parent_within_bounds() {
    for len in 1..=16 {
        for idx in 1..len {
            let parent = parent_index(idx).expect("non-root should have parent");
            assert!(parent < idx, "parent {parent} should be < child {idx}");
            assert!(parent < len, "parent {parent} out of bounds for len {len}");
        }
    }
}

#[test]
fn all_nodes_reachable_from_root() {
    for len in 1..=16 {
        let mut visited = vec![false; len];
        let mut stack = vec![0usize];
        while let Some(idx) = stack.pop() {
            visited[idx] = true;
            for child in child_indices(idx, len) {
                stack.push(child);
            }
        }
        assert!(
            visited.iter().all(|&v| v),
            "not all nodes reachable from root in tree of size {len}"
        );
    }
}

#[test]
fn tree_depth_is_logarithmic() {
    for len in 1..=64usize {
        let mut depth = 0;
        let mut idx = len - 1;
        while let Some(p) = parent_index(idx) {
            idx = p;
            depth += 1;
        }
        let expected_max_depth = (len as f64).log2().floor() as usize;
        assert!(
            depth <= expected_max_depth,
            "depth {depth} exceeds expected {expected_max_depth} for len {len}"
        );
    }
}

#[test]
fn single_node_no_rounds() {
    let rounds = round_pairs(0, 1);
    assert!(rounds.is_empty());
}

#[test]
fn two_nodes_one_round() {
    let rounds = round_pairs(0, 2);
    assert_eq!(rounds.len(), 1);
}

#[test]
fn round_count_is_ceil_log2() {
    let cases = [(2, 1), (3, 2), (4, 2), (5, 3), (7, 3), (8, 3), (9, 4), (16, 4)];
    for (len, expected_rounds) in cases {
        let count = round_pairs(0, len).len();
        assert_eq!(
            count, expected_rounds,
            "expected {expected_rounds} rounds for {len} nodes, got {count}"
        );
    }
}

#[test]
fn two_nodes_notify_each_other() {
    let pairs_0 = round_pairs(0, 2);
    assert_eq!(pairs_0, vec![(1, 1)]);
    let pairs_1 = round_pairs(1, 2);
    assert_eq!(pairs_1, vec![(0, 0)]);
}

#[test]
fn three_nodes_round_pairs() {
    let pairs = round_pairs(0, 3);
    assert_eq!(pairs, vec![(1, 2), (2, 1)]);
}

#[test]
fn notify_and_wait_are_symmetric() {
    for len in 2..=16 {
        for idx in 0..len {
            for (round, (notify_target, _)) in round_pairs(idx, len).into_iter().enumerate() {
                let target_pairs = round_pairs(notify_target, len);
                let (_, wait_source) = target_pairs[round];
                assert_eq!(
                    wait_source, idx,
                    "broken symmetry: node {idx} notifies {notify_target} in round {round}, \
                     but {notify_target} waits for {wait_source} (expected {idx}) in len={len}"
                );
            }
        }
    }
}

#[test]
fn all_pairs_communicate_transitively() {
    for len in 2..=16 {
        let mut connected = vec![vec![false; len]; len];
        for i in 0..len {
            connected[i][i] = true;
            for (notify_target, wait_source) in round_pairs(i, len) {
                connected[i][notify_target] = true;
                connected[i][wait_source] = true;
            }
        }
        for k in 0..len {
            for i in 0..len {
                for j in 0..len {
                    if connected[i][k] && connected[k][j] {
                        connected[i][j] = true;
                    }
                }
            }
        }
        for i in 0..len {
            for j in 0..len {
                assert!(
                    connected[i][j],
                    "nodes {i} and {j} not transitively connected in len={len}"
                );
            }
        }
    }
}

#[test]
fn indices_within_bounds() {
    for len in 1..=32 {
        for idx in 0..len {
            for (right, left) in round_pairs(idx, len) {
                assert!(right < len, "right={right} out of bounds for len={len}");
                assert!(left < len, "left={left} out of bounds for len={len}");
            }
        }
    }
}

#[test]
fn never_notifies_self() {
    for len in 2..=16 {
        for idx in 0..len {
            for (right, left) in round_pairs(idx, len) {
                assert_ne!(right, idx, "node {idx} notifies itself in len={len}");
                assert_ne!(left, idx, "node {idx} waits for itself in len={len}");
            }
        }
    }
}

use rdma_daq::config::{NetworkConfig, NetworkConfigError, NodeConfig, RawNetworkConfig};

fn node(hostname: &str, port: u16, ibdev: &str, rankid: usize) -> NodeConfig {
    NodeConfig::new(hostname.to_string(), port, ibdev.to_string(), rankid)
}

fn raw(nodes: Vec<NodeConfig>) -> RawNetworkConfig {
    let mut b = NetworkConfig::builder();
    for n in nodes {
        b = b.add_node(n);
    }
    b
}

#[test]
fn valid_network_config() {
    let config_builder = raw(vec![
        node("tdeb02", 10000, "mlx5_0", 0),
        node("tdeb02", 10001, "mlx5_0", 1),
    ]);
    let config = config_builder.build().unwrap();
    assert_eq!(config.len(), 2);
    assert_eq!(config.as_slice()[0].rankid, 0);
    assert_eq!(config.as_slice()[1].rankid, 1);
}

#[test]
fn valid_network_config_out_of_order() {
    let config_builder = raw(vec![
        node("node2", 10001, "mlx5_0", 1),
        node("node1", 10000, "mlx5_0", 0),
        node("node3", 10002, "mlx5_0", 2),
    ]);
    let config = config_builder.build().unwrap();
    let hosts = config.as_slice();
    assert_eq!(hosts[0].rankid, 0);
    assert_eq!(hosts[0].hostname, "node1");
    assert_eq!(hosts[1].rankid, 1);
    assert_eq!(hosts[1].hostname, "node2");
    assert_eq!(hosts[2].rankid, 2);
    assert_eq!(hosts[2].hostname, "node3");
}

#[test]
fn empty_node_config() {
    let config_builder = raw(vec![]);
    assert!(matches!(config_builder.build(), Err(NetworkConfigError::EmptyNetwork)));
}

#[test]
fn single_node_config() {
    let config_builder = raw(vec![node("single", 8080, "mlx5_1", 0)]);
    let config = config_builder.build().unwrap();
    assert_eq!(config.len(), 1);
    assert_eq!(config.as_slice()[0].rankid, 0);
}

#[test]
fn missing_rank_zero() {
    let config_builder = raw(vec![
        node("node1", 10000, "mlx5_0", 1),
        node("node2", 10001, "mlx5_0", 2),
    ]);
    assert!(matches!(config_builder.build(), Err(NetworkConfigError::FirstRankNotZero)));
}

#[test]
fn non_sequential_ranks() {
    let config_builder = raw(vec![
        node("node1", 10000, "mlx5_0", 0),
        node("node2", 10001, "mlx5_0", 2),
    ]);
    assert!(matches!(
        config_builder.build(),
        Err(NetworkConfigError::NonSequentialRanks { gap_rank: 1 })
    ));
}

#[test]
fn non_sequential_ranks_before_duplicate() {
    let config_builder = raw(vec![
        node("node1", 10000, "mlx5_0", 0),
        node("node2", 10001, "mlx5_0", 3),
        node("node3", 10002, "mlx5_0", 3),
    ]);
    assert!(matches!(
        config_builder.build(),
        Err(NetworkConfigError::NonSequentialRanks { gap_rank: 1 })
    ));
}

#[test]
fn duplicate_ranks_before_non_sequential() {
    let config_builder = raw(vec![
        node("node1", 10000, "mlx5_0", 0),
        node("node2", 10001, "mlx5_0", 1),
        node("node3", 10002, "mlx5_0", 1),
        node("node4", 10003, "mlx5_0", 3),
    ]);
    assert!(matches!(
        config_builder.build(),
        Err(NetworkConfigError::DuplicatedRank { dup_rank: 1 })
    ));
}

#[test]
fn deref_access() {
    let config_builder = raw(vec![
        node("test1", 9000, "mlx5_0", 0),
        node("test2", 9001, "mlx5_0", 1),
    ]);
    let config = config_builder.build().unwrap();
    let hosts = config.as_slice();
    assert_eq!(config.len(), 2);
    assert_eq!(hosts[0].hostname, "test1");
    assert_eq!(hosts[1].hostname, "test2");
    assert_eq!(hosts.first().unwrap().port, 9000);
    assert_eq!(hosts.last().unwrap().port, 9001);
    let hostnames: Vec<&String> = hosts.iter().map(|node| &node.hostname).collect();
    assert_eq!(hostnames, vec!["test1", "test2"]);
}

#[test]
fn truncate_keeps_the_first_nodes() {
    let config_builder = raw(vec![
        node("a", 1, "mlx5_0", 0),
        node("b", 2, "mlx5_0", 1),
        node("c", 3, "mlx5_0", 2),
    ])
    .truncate(2);
    assert_eq!(config_builder.hosts().len(), 2);
    let config = config_builder.build().unwrap();
    assert_eq!(config.world_size(), 2);
    assert_eq!(config.get(1).unwrap().hostname, "b");
    assert!(config.get(2).is_none());
}

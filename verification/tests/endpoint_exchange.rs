use rdma_daq::config::{NetworkConfig, NodeConfig};
use rdma_daq::endpoints::{
    gather_endpoints, EndpointGatherError, LocalEndpoint, NetworkChannelEndpoint, QueuePairEndpoint,
};
use rdma_daq::exchange::{ExchangeError, ExchangeMessage, Exchanger};
use rdma_daq::rdma::{PeerRemoteMemoryRegion, RemoteMemoryRegion};
use std::collections::HashMap;

fn qp(num: u32) -> QueuePairEndpoint {
    QueuePairEndpoint { num, lid: 1, gid: None }
}

/// The endpoint node `rank` sends in a network of `world_size`: channel `c`
/// carries queue pair number `100 * rank + c`.
fn local(rank: usize, world_size: usize) -> LocalEndpoint {
    let channels: Vec<QueuePairEndpoint> =
        (0..world_size).map(|c| qp((100 * rank + c) as u32)).collect();
    let mr = PeerRemoteMemoryRegion::new(rank, RemoteMemoryRegion::new(0x1000, 64, 9));
    LocalEndpoint::new(rank, &channels, mr)
}

fn nums(v: &[NetworkChannelEndpoint]) -> Vec<u32> {
    v.iter().map(|e| e.single_channel_endpoint.num).collect()
}

#[test]
fn local_endpoint_pairs_each_channel_with_the_barrier_region() {
    let e = local(2, 3);
    assert_eq!(e.rank, 2);
    assert_eq!(nums(&e.endpoints), vec![200, 201, 202]);
    assert!(e.endpoints.iter().all(|c| c.barrier_mr_remote.peer() == 2));
}

#[test]
fn gathered_endpoints_are_in_rank_order() {
    let got = gather_endpoints(1, 3, vec![local(2, 3), local(0, 3), local(1, 3)]).unwrap();
    assert_eq!(nums(&got.0), vec![1, 101, 201]);
}

#[test]
fn gather_rejects_out_of_bounds_rank() {
    let r = gather_endpoints(0, 2, vec![local(0, 2), local(5, 2)]);
    assert_eq!(r.err(), Some(EndpointGatherError::RankOutOfBounds { rank: 5, world_size: 2 }));
}

#[test]
fn gather_rejects_duplicate_rank() {
    let r = gather_endpoints(0, 3, vec![local(1, 3), local(1, 3), local(7, 3)]);
    assert_eq!(r.err(), Some(EndpointGatherError::DuplicateRank { rank: 1 }));
}

#[test]
fn gather_rejects_missing_local_channel() {
    let r = gather_endpoints(2, 3, vec![local(0, 3), local(1, 2)]);
    assert_eq!(r.err(), Some(EndpointGatherError::MissingLocalChannel { rank: 1, local_rank: 2 }));
}

#[test]
fn gather_reports_the_first_missing_rank() {
    let r = gather_endpoints(0, 4, vec![local(3, 4), local(0, 4)]);
    assert_eq!(r.err(), Some(EndpointGatherError::MissingRank { rank: 1 }));
}

fn network(n: usize) -> NetworkConfig {
    let mut raw = NetworkConfig::builder();
    for i in 0..n {
        raw = raw.add_node(NodeConfig::new(
            "127.0.0.1".to_string(),
            41000 + i as u16,
            "mlx5_0".to_string(),
            i,
        ));
    }
    raw.build().unwrap()
}

#[test]
fn exchange_ranks_split_around_self() {
    let net = network(4);
    let (lower, greater) = Exchanger::exchange_ranks(2, &net).unwrap();
    assert_eq!(lower, 0..2);
    assert_eq!(greater, 3..4);
    let (lower, greater) = Exchanger::exchange_ranks(0, &net).unwrap();
    assert_eq!(lower, 0..0);
    assert_eq!(greater, 1..4);
    assert!(matches!(
        Exchanger::exchange_ranks(4, &net),
        Err(ExchangeError::InvalidRank { rank: 4 })
    ));
}

#[test]
fn insert_if_valid_accepts_valid_rank() {
    let mut received = HashMap::new();
    let msg = ExchangeMessage { rank: 2, data: "hello".to_string() };
    assert!(Exchanger::insert_if_valid(msg, &mut received, 0..5));
    assert_eq!(received.get(&2).unwrap(), "hello");
}

#[test]
fn insert_if_valid_rejects_out_of_range() {
    let mut received = HashMap::new();
    let msg = ExchangeMessage { rank: 10, data: "hello".to_string() };
    assert!(!Exchanger::insert_if_valid(msg, &mut received, 0..5));
    assert!(received.is_empty());
}

#[test]
fn insert_if_valid_overwrites_duplicate() {
    let mut received = HashMap::new();
    received.insert(2, "first".to_string());
    let msg = ExchangeMessage { rank: 2, data: "second".to_string() };
    assert!(Exchanger::insert_if_valid(msg, &mut received, 0..5));
    assert_eq!(received.get(&2).unwrap(), "second");
}

#[test]
fn collected_data_is_in_rank_order() {
    let mut received = HashMap::new();
    received.insert(4, "four".to_string());
    received.insert(3, "three".to_string());
    received.insert(5, "five".to_string());
    let v = Exchanger::collect_received(&mut received, 3..6);
    assert_eq!(v, vec!["three", "four", "five"]);
    assert!(received.is_empty());
}

#[test]
fn assembled_exchange_puts_own_data_at_own_rank() {
    let v = Exchanger::assemble(vec!["from_0".to_string()], "from_1".to_string(), vec![
        "from_2".to_string(),
    ]);
    assert_eq!(v, vec!["from_0", "from_1", "from_2"]);
}

#[test]
fn frames_carry_a_big_endian_length() {
    let framed = Exchanger::frame_message(b"hello").unwrap();
    assert_eq!(framed, vec![0, 0, 0, 5, b'h', b'e', b'l', b'l', b'o']);
    assert_eq!(Exchanger::message_length([0, 0, 0, 5]), 5);
    assert_eq!(Exchanger::message_length([0x01, 0x02, 0x03, 0x04]), 0x0102_0304);
    let empty = Exchanger::frame_message(b"").unwrap();
    assert_eq!(empty, vec![0, 0, 0, 0]);
    let long = vec![7u8; 300];
    let framed = Exchanger::frame_message(&long).unwrap();
    let prefix = [framed[0], framed[1], framed[2], framed[3]];
    assert_eq!(Exchanger::message_length(prefix) as usize, long.len());
    assert_eq!(&framed[4..], &long[..]);
}

#[test]
fn gathered_endpoints_split_into_channels_and_barrier_regions() {
    let got = gather_endpoints(1, 3, vec![local(2, 3), local(0, 3), local(1, 3)]).unwrap();
    let channels = got.channel_endpoints();
    assert_eq!(channels.iter().map(|e| e.num).collect::<Vec<_>>(), vec![1, 101, 201]);
    let regions = got.barrier_regions();
    assert_eq!(regions.iter().map(|r| r.peer()).collect::<Vec<_>>(), vec![0, 1, 2]);
}

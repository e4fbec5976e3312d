use rdma_daq::multi_channel::{
    multicast_requests, EndpointCountMismatch, PeerChannels, PeerNotFound,
};
use rdma_daq::rdma::{GatherElement, SendWorkRequest};

#[test]
fn each_peer_has_its_own_channel() {
    let channels = PeerChannels::new(3);
    assert_eq!(channels.num_channels(), 3);
    assert_eq!(channels.channel(0), Ok(0));
    assert_eq!(channels.channel(2), Ok(2));
    assert_eq!(channels.channel(3), Err(PeerNotFound { peer: 3 }));
}

#[test]
fn a_batch_keeps_its_order_and_stops_at_the_first_unknown_peer() {
    let channels = PeerChannels::new(4);
    assert_eq!(channels.route(&[3, 0, 2, 0]), Ok(vec![3, 0, 2, 0]));
    assert_eq!(channels.route(&[]), Ok(vec![]));
    assert_eq!(channels.route(&[1, 7, 9]), Err(PeerNotFound { peer: 7 }));
    assert_eq!(PeerChannels::new(0).route(&[0]), Err(PeerNotFound { peer: 0 }));
}

#[test]
fn a_multicast_sends_the_same_request_to_every_peer() {
    let wr = SendWorkRequest {
        gather_elements: vec![GatherElement { addr: 0x1000, length: 64, lkey: 7 }],
        imm_data: Some(5),
    };
    let requests = multicast_requests(&[2, 0, 1], &wr);
    assert_eq!(requests.len(), 3);
    let peers: Vec<usize> = requests.iter().map(|r| r.peer()).collect();
    assert_eq!(peers, vec![2, 0, 1]);
    for r in requests {
        let sent = r.into_wr();
        assert_eq!(sent.gather_elements, wr.gather_elements);
        assert_eq!(sent.imm_data, Some(5));
    }
}

#[test]
fn a_handshake_needs_one_endpoint_per_channel() {
    let channels = PeerChannels::new(3);
    assert!(channels.check_endpoint_count(3).is_ok());
    assert_eq!(
        channels.check_endpoint_count(2),
        Err(EndpointCountMismatch { expected: 3, got: 2 })
    );
}

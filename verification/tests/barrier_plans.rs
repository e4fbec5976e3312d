use rdma_daq::barrier_epochs::{
    BarrierEpochs, SpinPoll, BARRIER_FLAGS_SIZE, IN_EPOCH_OFFSET, TIMEOUT_CHECK_ITERS,
};
use rdma_daq::barrier::{plan_barrier, Barrier, BarrierAlgorithm, BarrierError, BarrierStep};
use rdma_daq::rdma::{
    GatherElement, PeerReadWorkRequest, PeerReceiveWorkRequest, PeerRemoteMemoryRegion,
    PeerSendWorkRequest, PeerWriteWorkRequest, RemoteMemoryRegion, ScatterElement,
};

/// A compact picture of a plan: `w5` waits for 5, `n5` notifies 5, `a[..]` notifies all.
fn show(steps: &[BarrierStep]) -> Vec<String> {
    steps
        .iter()
        .map(|s| match s {
            BarrierStep::WaitFor(r) => format!("w{}", r),
            BarrierStep::Notify(r) => format!("n{}", r),
            BarrierStep::NotifyAll(v) => format!("a{:?}", v),
        })
        .collect()
}

#[test]
fn tree_plan_reduces_then_broadcasts() {
    let peers = [10, 11, 12, 13, 14];
    let root = plan_barrier(BarrierAlgorithm::BinaryTree, &peers, 10).unwrap();
    assert_eq!(show(&root), vec!["w11", "w12", "a[11, 12]"]);
    let inner = plan_barrier(BarrierAlgorithm::BinaryTree, &peers, 11).unwrap();
    assert_eq!(show(&inner), vec!["w13", "w14", "n10", "w10", "a[13, 14]"]);
    let leaf = plan_barrier(BarrierAlgorithm::BinaryTree, &peers, 14).unwrap();
    assert_eq!(show(&leaf), vec!["n11", "w11", "a[]"]);
}

#[test]
fn dissemination_plan_doubles_the_distance() {
    let peers = [0, 1, 2];
    let p = plan_barrier(BarrierAlgorithm::Dissemination, &peers, 0).unwrap();
    assert_eq!(show(&p), vec!["n1", "w2", "n2", "w1"]);
    let p = plan_barrier(BarrierAlgorithm::Dissemination, &peers, 2).unwrap();
    assert_eq!(show(&p), vec!["n0", "w1", "n1", "w0"]);
}

#[test]
fn centralized_plan_goes_through_the_leader() {
    let peers = [3, 5, 8];
    let leader = plan_barrier(BarrierAlgorithm::Centralized, &peers, 3).unwrap();
    assert_eq!(show(&leader), vec!["w5", "w8", "a[5, 8]"]);
    let other = plan_barrier(BarrierAlgorithm::Centralized, &peers, 8).unwrap();
    assert_eq!(show(&other), vec!["n3", "w3"]);
}

#[test]
fn small_groups_need_no_steps() {
    for alg in [BarrierAlgorithm::Centralized, BarrierAlgorithm::BinaryTree, BarrierAlgorithm::Dissemination] {
        assert!(plan_barrier(alg, &[7], 7).unwrap().is_empty());
    }
    assert!(plan_barrier(BarrierAlgorithm::Centralized, &[], 0).unwrap().is_empty());
    assert!(plan_barrier(BarrierAlgorithm::Centralized, &[4], 7).unwrap().is_empty());
}

#[test]
fn absent_rank_is_not_in_group() {
    assert!(matches!(
        plan_barrier(BarrierAlgorithm::BinaryTree, &[1, 2], 3),
        Err(BarrierError::SelfNotInGroup)
    ));
    // Membership is checked before a short list is let through.
    for alg in [BarrierAlgorithm::BinaryTree, BarrierAlgorithm::Dissemination] {
        assert!(matches!(plan_barrier(alg, &[5], 0), Err(BarrierError::SelfNotInGroup)));
        assert!(matches!(plan_barrier(alg, &[], 0), Err(BarrierError::SelfNotInGroup)));
    }
}

#[test]
fn every_error_poisons_the_barrier() {
    let mut b = Barrier::new(BarrierAlgorithm::Dissemination, 1);
    assert_eq!(b.rank(), 1);
    assert_eq!(b.algorithm(), BarrierAlgorithm::Dissemination);
    assert!(b.barrier(&[0, 1]).is_ok());
    assert!(!b.is_poisoned());
    assert!(matches!(b.barrier(&[2, 1]), Err(BarrierError::UnorderedPeers)));
    assert!(b.is_poisoned());
    assert!(matches!(b.barrier(&[0, 1]), Err(BarrierError::Poisoned)));
    // Once poisoned, even a bad list is answered with Poisoned.
    assert!(matches!(b.barrier(&[1, 1]), Err(BarrierError::Poisoned)));
    assert!(matches!(b.barrier(&[1, 0]), Err(BarrierError::Poisoned)));

    let mut t = Barrier::new(BarrierAlgorithm::BinaryTree, 0);
    assert!(matches!(t.barrier(&[5]), Err(BarrierError::SelfNotInGroup)));
    assert!(t.is_poisoned());
    assert!(matches!(t.barrier(&[0, 1]), Err(BarrierError::Poisoned)));
    assert!(matches!(t.barrier_unchecked(&[3, 2]), Err(BarrierError::Poisoned)));
}

#[test]
fn centralized_barrier_checks_membership() {
    let mut b = Barrier::new(BarrierAlgorithm::Centralized, 9);
    assert!(b.barrier_unchecked(&[1, 9]).is_ok());
    assert!(matches!(b.barrier(&[1, 2]), Err(BarrierError::SelfNotInGroup)));
    assert!(b.is_poisoned());
    assert!(matches!(b.barrier_unchecked(&[1, 9]), Err(BarrierError::Poisoned)));
    assert!(matches!(b.barrier(&[2, 1]), Err(BarrierError::Poisoned)));
    assert!(matches!(b.barrier(&[1, 2]), Err(BarrierError::Poisoned)));
}

#[test]
fn failed_execution_poisons() {
    let mut b = Barrier::new(BarrierAlgorithm::BinaryTree, 0);
    assert!(b.complete(Ok(())).is_ok());
    assert!(!b.is_poisoned());
    assert!(matches!(b.complete(Err(BarrierError::Timeout)), Err(BarrierError::Timeout)));
    assert!(b.is_poisoned());
    assert!(matches!(b.barrier_unchecked(&[0, 1]), Err(BarrierError::Poisoned)));
}

#[test]
fn remote_sub_regions() {
    let mr = RemoteMemoryRegion::new(0x1000, 64, 7);
    let sub = mr.sub_region(16).unwrap();
    assert_eq!((sub.addr(), sub.length(), sub.rkey()), (0x1010, 48, 7));
    assert!(mr.sub_region(64).is_some());
    assert!(mr.sub_region(65).is_none());
    let unchecked = mr.sub_region_unchecked(8);
    assert_eq!((unchecked.addr(), unchecked.length()), (0x1008, 56));
    let peer = PeerRemoteMemoryRegion::new(3, mr);
    let psub = peer.sub_region(32).unwrap();
    assert_eq!(psub.peer(), 3);
    assert_eq!(psub.remote_mr().addr(), 0x1020);
    assert!(peer.sub_region(100).is_none());
    assert_eq!(peer.sub_region_unchecked(4).remote_mr().length(), 60);
}

#[test]
fn peer_work_requests_keep_their_target() {
    let g = [GatherElement { addr: 1, length: 2, lkey: 3 }];
    let s = [ScatterElement { addr: 4, length: 5, lkey: 6 }];
    let send = PeerSendWorkRequest::new(2, &g).with_immediate(9);
    assert_eq!(send.peer(), 2);
    let wr = send.into_wr();
    assert_eq!(wr.gather_elements, g.to_vec());
    assert_eq!(wr.imm_data, Some(9));
    let only = PeerSendWorkRequest::only_immediate(4, 1).into_wr();
    assert!(only.gather_elements.is_empty());
    assert_eq!(only.imm_data, Some(1));
    let recv = PeerReceiveWorkRequest::new(1, &s);
    assert_eq!(recv.peer(), 1);
    assert_eq!(recv.into_wr().scatter_elements, s.to_vec());
    assert!(PeerReceiveWorkRequest::only_immediate(5).into_wr().scatter_elements.is_empty());
    let region = PeerRemoteMemoryRegion::new(7, RemoteMemoryRegion::new(0x2000, 16, 1));
    let write = PeerWriteWorkRequest::new(&g, region).with_immediate(3);
    assert_eq!(write.peer(), 7);
    let wwr = write.into_wr();
    assert_eq!(wwr.remote_mr.addr(), 0x2000);
    assert_eq!(wwr.imm_data, Some(3));
    let read = PeerReadWorkRequest::new(&s, region);
    assert_eq!(read.peer(), 7);
    assert_eq!(read.into_wr().scatter_elements, s.to_vec());
}

#[test]
fn epochs_count_notifications_and_waits() {
    let mut e = BarrierEpochs::new(2, 4);
    assert_eq!(BarrierEpochs::remote_in_epoch_offset(2), 2 * BARRIER_FLAGS_SIZE + IN_EPOCH_OFFSET);
    assert_eq!(e.notify_peer(1), (1, 64));
    assert_eq!(e.notify_peer(1), (2, 64));
    let writes = e.scatter_notify_peers(&[0, 3, 3]);
    assert_eq!(writes, vec![(0, 1, 64), (3, 2, 64), (3, 2, 64)]);
    assert_eq!(e.notify_peer(0), (2, 64));
    // Waiting: the first notification from peer 1 is awaited.
    assert!(e.is_peer_epoch_expected(1, 0));
    e.increase_peer_expected_epoch(1);
    assert!(!e.is_peer_epoch_expected(1, 0));
    assert!(e.is_peer_epoch_expected(1, 1));
    assert!(e.is_peer_epoch_expected(1, 5));
}

#[test]
fn a_busy_wait_reads_the_clock_once_per_period() {
    let mut poll = SpinPoll::new();
    let mut reads = 0;
    for _ in 0..(3 * TIMEOUT_CHECK_ITERS) {
        if poll.missed() {
            reads += 1;
        }
    }
    assert_eq!(reads, 3);
    for _ in 0..(TIMEOUT_CHECK_ITERS - 1) {
        assert!(!poll.missed());
    }
    assert!(poll.missed());
}

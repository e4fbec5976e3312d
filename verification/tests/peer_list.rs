use rdma_daq::barrier::{validate_peer_list, BarrierError};

#[test]
fn valid_sorted_unique_peers() {
    assert!(validate_peer_list(&[0, 1, 2, 3]).is_ok());
}

#[test]
fn empty_peer_list_is_valid() {
    assert!(validate_peer_list(&[]).is_ok());
}

#[test]
fn single_peer_is_valid() {
    assert!(validate_peer_list(&[5]).is_ok());
}

#[test]
fn non_contiguous_ranks_are_valid() {
    assert!(validate_peer_list(&[0, 3, 7, 100]).is_ok());
}

#[test]
fn unsorted_peers_rejected() {
    let err = validate_peer_list(&[2, 1, 3]).unwrap_err();
    assert!(matches!(err, BarrierError::UnorderedPeers));
}

#[test]
fn duplicate_peers_rejected() {
    let err = validate_peer_list(&[0, 1, 1, 2]).unwrap_err();
    assert!(matches!(err, BarrierError::DuplicatePeers));
}

#[test]
fn unsorted_takes_precedence_over_duplicate() {
    let err = validate_peer_list(&[2, 1, 1]).unwrap_err();
    assert!(matches!(err, BarrierError::UnorderedPeers));
}

#[test]
fn all_same_ranks_detected_as_unsorted_or_duplicate() {
    let err = validate_peer_list(&[3, 3, 3]).unwrap_err();
    assert!(matches!(err, BarrierError::DuplicatePeers));
}

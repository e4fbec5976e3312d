//! Routing of peer-addressed work to the channels of a multi-peer endpoint.
//! Each peer has one channel, found by its index; a batch of requests is
//! posted in order and stops at the first request whose peer has no channel.
use crate::rdma::{copy_gather, PeerSendWorkRequest, SendWorkRequest};
use vstd::prelude::*;

verus! {

/// A peer index that names no channel.
#[derive(Debug, Clone, Copy, PartialEq, Eq, Structural)]
pub struct PeerNotFound {
    pub peer: usize,
}

/// A handshake got a different number of remote endpoints than there are
/// channels to connect.
#[derive(Debug, Clone, Copy, PartialEq, Eq, Structural)]
pub struct EndpointCountMismatch {
    pub expected: usize,
    pub got: usize,
}

/// The channels of an endpoint connected to several peers, one per peer.
#[derive(Debug)]
pub struct PeerChannels {
    num_channels: usize,
}

/// Whether every peer in `peers` has a channel among `n`.
pub open spec fn all_routable(peers: Seq<usize>, n: usize) -> bool {
    forall|i: int| 0 <= i < peers.len() ==> peers[i] < n
}

/// Whether `k` is the first position in `peers` whose peer has no channel among `n`.
pub open spec fn first_unroutable(peers: Seq<usize>, n: usize, k: int) -> bool {
    &&& 0 <= k < peers.len()
    &&& peers[k] >= n
    &&& forall|j: int| 0 <= j < k ==> peers[j] < n
}

impl PeerChannels {
    pub closed spec fn spec_num_channels(&self) -> usize {
        self.num_channels
    }

    /// An endpoint with `num_channels` peer channels.
    pub fn new(num_channels: usize) -> (r: PeerChannels)
        ensures
            r.spec_num_channels() == num_channels,
    {
        PeerChannels { num_channels }
    }

    /// The number of peer channels.
    pub fn num_channels(&self) -> (r: usize)
        ensures
            r == self.spec_num_channels(),
    {
        self.num_channels
    }

    /// Whether `num_endpoints` remote endpoints can be paired with the
    /// channels, one to each, as a handshake needs.
    pub fn check_endpoint_count(&self, num_endpoints: usize) -> (r: Result<(), EndpointCountMismatch>)
        ensures
            num_endpoints == self.spec_num_channels() ==> r is Ok,
            num_endpoints != self.spec_num_channels() ==> r == Err::<(), EndpointCountMismatch>(
                EndpointCountMismatch { expected: self.spec_num_channels(), got: num_endpoints },
            ),
    {
        if num_endpoints != self.num_channels {
            return Err(EndpointCountMismatch { expected: self.num_channels, got: num_endpoints });
        }
        Ok(())
    }

    /// The channel that serves `peer`: its own index, when there is one.
    pub fn channel(&self, peer: usize) -> (r: Result<usize, PeerNotFound>)
        ensures
            peer < self.spec_num_channels() ==> r == Ok::<usize, PeerNotFound>(peer),
            peer >= self.spec_num_channels() ==> r == Err::<usize, PeerNotFound>(
                PeerNotFound { peer },
            ),
    {
        if peer < self.num_channels {
            Ok(peer)
        } else {
            Err(PeerNotFound { peer })
        }
    }

    /// The channels a batch of requests to `peers` is posted on, in order;
    /// the batch stops at the first peer without a channel, which is reported.
    pub fn route(&self, peers: &[usize]) -> (r: Result<Vec<usize>, PeerNotFound>)
        ensures
            all_routable(peers@, self.spec_num_channels()) <==> r is Ok,
            r matches Ok(channels) ==> channels@ == peers@,
            r matches Err(e) ==> exists|k: int|
                first_unroutable(peers@, self.spec_num_channels(), k) && e.peer == peers@[k],
    {
        let mut channels: Vec<usize> = Vec::new();
        let mut i: usize = 0;
        while i < peers.len()
            invariant
                i <= peers@.len(),
                channels@ == peers@.take(i as int),
                all_routable(peers@.take(i as int), self.spec_num_channels()),
            decreases peers@.len() - i,
        {
            match self.channel(peers[i]) {
                Ok(c) => {
                    channels.push(c);
                    proof {
                        assert(peers@.take(i + 1) =~= peers@.take(i as int).push(peers@[i as int]));
                    }
                },
                Err(e) => {
                    proof {
                        assert(first_unroutable(peers@, self.spec_num_channels(), i as int)) by {
                            assert forall|j: int| 0 <= j < i implies peers@[j]
                                < self.spec_num_channels() by {
                                assert(peers@.take(i as int)[j] == peers@[j]);
                            }
                        }
                    }
                    return Err(e);
                },
            }
            i = i + 1;
        }
        proof {
            assert(peers@.take(i as int) =~= peers@);
        }
        Ok(channels)
    }
}

/// The same send addressed to each of `peers`, in order: what a multicast
/// posts, one request per peer.
pub fn multicast_requests(peers: &[usize], wr: &SendWorkRequest) -> (r: Vec<PeerSendWorkRequest>)
    ensures
        r@.len() == peers@.len(),
        forall|i: int|
            0 <= i < peers@.len() ==> (#[trigger] r@[i]).spec_peer() == peers@[i]
                && r@[i].spec_wr().gather_elements@ == wr.gather_elements@
                && r@[i].spec_wr().imm_data == wr.imm_data,
{
    let mut out: Vec<PeerSendWorkRequest> = Vec::new();
    let mut i: usize = 0;
    while i < peers.len()
        invariant
            i <= peers@.len(),
            out@.len() == i,
            forall|j: int|
                0 <= j < i ==> (#[trigger] out@[j]).spec_peer() == peers@[j]
                    && out@[j].spec_wr().gather_elements@ == wr.gather_elements@
                    && out@[j].spec_wr().imm_data == wr.imm_data,
        decreases peers@.len() - i,
    {
        let copy = SendWorkRequest {
            gather_elements: copy_gather(wr.gather_elements.as_slice()),
            imm_data: wr.imm_data,
        };
        out.push(PeerSendWorkRequest::from_wr(peers[i], copy));
        i = i + 1;
    }
    out
}

} // verus!

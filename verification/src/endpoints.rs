//! The endpoint information nodes exchange before their RDMA channels are
//! connected, and its validation: every peer's endpoint exactly once.
use crate::rdma::PeerRemoteMemoryRegion;
use vstd::prelude::*;

verus! {

/// What a queue pair needs to know of its remote counterpart.
#[derive(Debug, Clone, Copy, PartialEq, Eq)]
pub struct QueuePairEndpoint {
    pub num: u32,
    pub lid: u16,
    pub gid: Option<[u8; 16]>,
}

/// The per-peer endpoint information exchanged during setup: the queue pair
/// endpoint and the handle of the barrier's memory region.
#[derive(Debug, Clone, Copy)]
pub struct NetworkChannelEndpoint {
    pub single_channel_endpoint: QueuePairEndpoint,
    pub barrier_mr_remote: PeerRemoteMemoryRegion,
}

/// A node's endpoint information, one entry per channel (that is, per rank),
/// ready to be sent to all peers.
pub struct LocalEndpoint {
    pub rank: usize,
    pub endpoints: Vec<NetworkChannelEndpoint>,
}

/// The endpoints received from all peers, one per rank, in rank order.
pub struct RemoteEndpoints(pub Vec<NetworkChannelEndpoint>);

/// Why the received endpoints were refused.
#[derive(Debug, Clone, Copy, PartialEq, Eq, Structural)]
pub enum EndpointGatherError {
    /// An endpoint came from a rank outside the network.
    RankOutOfBounds { rank: usize, world_size: usize },
    /// Two endpoints came from the same rank.
    DuplicateRank { rank: usize },
    /// An endpoint has no channel for the local rank.
    MissingLocalChannel { rank: usize, local_rank: usize },
    /// No endpoint came from this rank.
    MissingRank { rank: usize },
}

impl LocalEndpoint {
    /// The endpoint of node `rank`: each channel's queue pair endpoint, each
    /// paired with the same barrier memory region.
    pub fn new(
        rank: usize,
        channel_endpoints: &Vec<QueuePairEndpoint>,
        barrier_mr: PeerRemoteMemoryRegion,
    ) -> (r: Self)
        ensures
            r.rank == rank,
            r.endpoints@.len() == channel_endpoints@.len(),
            forall|i: int|
                0 <= i < channel_endpoints@.len() ==> (#[trigger] r.endpoints@[i]).single_channel_endpoint
                    == channel_endpoints@[i] && r.endpoints@[i].barrier_mr_remote == barrier_mr,
    {
        let mut endpoints: Vec<NetworkChannelEndpoint> = Vec::new();
        let n = channel_endpoints.len();
        let mut i: usize = 0;
        while i < n
            invariant
                n == channel_endpoints@.len(),
                i <= n,
                endpoints@.len() == i,
                forall|j: int|
                    0 <= j < i ==> (#[trigger] endpoints@[j]).single_channel_endpoint
                        == channel_endpoints@[j] && endpoints@[j].barrier_mr_remote == barrier_mr,
            decreases n - i,
        {
            endpoints.push(
                NetworkChannelEndpoint {
                    single_channel_endpoint: channel_endpoints[i],
                    barrier_mr_remote: barrier_mr,
                },
            );
            i = i + 1;
        }
        LocalEndpoint { rank, endpoints }
    }
}

/// Whether one of the first `n` endpoints came from `rank`.
pub open spec fn rank_seen(eps: Seq<LocalEndpoint>, n: int, rank: usize) -> bool {
    exists|j: int| 0 <= j < n && eps[j].rank == rank
}

/// The first error among the first `n` endpoints, in the order they are
/// checked: each endpoint's rank bounds, then duplicates, then its channel
/// for the local rank.
pub open spec fn gather_error_in(
    eps: Seq<LocalEndpoint>,
    n: nat,
    world_size: usize,
    local_rank: usize,
) -> Option<EndpointGatherError>
    decreases n,
{
    if n == 0 {
        None
    } else {
        match gather_error_in(eps, (n - 1) as nat, world_size, local_rank) {
            Some(e) => Some(e),
            None => {
                let e = eps[n - 1];
                if e.rank >= world_size {
                    Some(EndpointGatherError::RankOutOfBounds { rank: e.rank, world_size })
                } else if rank_seen(eps, n - 1, e.rank) {
                    Some(EndpointGatherError::DuplicateRank { rank: e.rank })
                } else if e.endpoints@.len() <= local_rank {
                    Some(EndpointGatherError::MissingLocalChannel { rank: e.rank, local_rank })
                } else {
                    None
                }
            },
        }
    }
}

/// The smallest rank of the network that sent no endpoint, if any.
pub open spec fn first_missing_rank(eps: Seq<LocalEndpoint>, world_size: usize) -> Option<usize> {
    if exists|r: usize| r < world_size && !rank_seen(eps, eps.len() as int, r) {
        Some(
            choose|r: usize|
                r < world_size && !rank_seen(eps, eps.len() as int, r) && forall|q: usize|
                    q < r ==> rank_seen(eps, eps.len() as int, q),
        )
    } else {
        None
    }
}

proof fn lemma_gather_error_persists(
    eps: Seq<LocalEndpoint>,
    k: nat,
    n: nat,
    world_size: usize,
    local_rank: usize,
)
    requires
        k <= n,
        gather_error_in(eps, k, world_size, local_rank) is Some,
    ensures
        gather_error_in(eps, n, world_size, local_rank) == gather_error_in(
            eps,
            k,
            world_size,
            local_rank,
        ),
    decreases n - k,
{
    if k < n {
        lemma_gather_error_persists(eps, k, (n - 1) as nat, world_size, local_rank);
    }
}

/// Collects and validates the endpoints received from all peers, this node's
/// own among them: each rank of the network must send exactly one, and each
/// must carry a channel for `local_rank`. Answers, in rank order, each
/// rank's channel for this node.
pub fn gather_endpoints(local_rank: usize, world_size: usize, endpoints: Vec<LocalEndpoint>) -> (r:
    Result<RemoteEndpoints, EndpointGatherError>)
    ensures
        ({
            let eps = endpoints@;
            match gather_error_in(eps, eps.len(), world_size, local_rank) {
                Some(e) => r == Err::<RemoteEndpoints, EndpointGatherError>(e),
                None => match first_missing_rank(eps, world_size) {
                    Some(m) => r == Err::<RemoteEndpoints, EndpointGatherError>(
                        EndpointGatherError::MissingRank { rank: m },
                    ),
                    None => r matches Ok(RemoteEndpoints(v)) && v@.len() == world_size && forall|
                        j: int,
                    |
                        0 <= j < eps.len() ==> #[trigger] v@[eps[j].rank as int]
                            == eps[j].endpoints@[local_rank as int],
                },
            }
        }),
{
    let ghost eps = endpoints@;
    let mut slots: Vec<Option<NetworkChannelEndpoint>> = Vec::new();
    let mut k: usize = 0;
    while k < world_size
        invariant
            k <= world_size,
            slots@.len() == k,
            forall|q: int| 0 <= q < k ==> slots@[q] is None,
        decreases world_size - k,
    {
        slots.push(None);
        k = k + 1;
    }
    let n = endpoints.len();
    let mut i: usize = 0;
    while i < n
        invariant
            eps == endpoints@,
            n == eps.len(),
            i <= n,
            slots@.len() == world_size,
            gather_error_in(eps, i as nat, world_size, local_rank) is None,
            forall|j: int| 0 <= j < i ==> eps[j].rank < world_size,
            forall|q: int|
                0 <= q < world_size ==> (slots@[q] is Some <==> rank_seen(eps, i as int, q as usize)),
            forall|j: int|
                0 <= j < i ==> #[trigger] slots@[eps[j].rank as int] == Some(
                    eps[j].endpoints@[local_rank as int],
                ),
        decreases n - i,
    {
        let rank = endpoints[i].rank;
        if rank >= world_size {
            proof {
                lemma_gather_error_persists(eps, (i + 1) as nat, n as nat, world_size, local_rank);
            }
            return Err(EndpointGatherError::RankOutOfBounds { rank, world_size });
        }
        if slots[rank].is_some() {
            proof {
                assert(rank_seen(eps, i as int, rank));
                lemma_gather_error_persists(eps, (i + 1) as nat, n as nat, world_size, local_rank);
            }
            return Err(EndpointGatherError::DuplicateRank { rank });
        }
        proof {
            assert(!rank_seen(eps, i as int, rank));
        }
        if endpoints[i].endpoints.len() <= local_rank {
            proof {
                lemma_gather_error_persists(eps, (i + 1) as nat, n as nat, world_size, local_rank);
            }
            return Err(EndpointGatherError::MissingLocalChannel { rank, local_rank });
        }
        let channel = endpoints[i].endpoints[local_rank];
        slots.set(rank, Some(channel));
        proof {
            assert forall|q: int| 0 <= q < world_size implies (slots@[q] is Some <==> rank_seen(
                eps,
                i + 1,
                q as usize,
            )) by {
                if q == rank {
                    assert(eps[i as int].rank == rank);
                } else if rank_seen(eps, i + 1, q as usize) {
                    let j = choose|j: int| 0 <= j < i + 1 && eps[j].rank == q as usize;
                    assert(j != i);
                }
            }
            assert forall|j: int| 0 <= j < i + 1 implies #[trigger] slots@[eps[j].rank as int]
                == Some(eps[j].endpoints@[local_rank as int]) by {
                if j < i {
                    assert(eps[j].rank != rank);
                }
            }
        }
        i = i + 1;
    }
    let mut gathered: Vec<NetworkChannelEndpoint> = Vec::new();
    let mut q: usize = 0;
    while q < world_size
        invariant
            eps == endpoints@,
            n == eps.len(),
            slots@.len() == world_size,
            q <= world_size,
            gather_error_in(eps, n as nat, world_size, local_rank) is None,
            forall|j: int|
                0 <= j < n ==> #[trigger] slots@[eps[j].rank as int] == Some(
                    eps[j].endpoints@[local_rank as int],
                ),
            forall|j: int| 0 <= j < n ==> eps[j].rank < world_size,
            gathered@.len() == q,
            forall|p: usize| p < q ==> #[trigger] rank_seen(eps, n as int, p),
            forall|p: int| 0 <= p < q ==> slots@[p] == Some(#[trigger] gathered@[p]),
            forall|p: int|
                0 <= p < world_size ==> (slots@[p] is Some <==> rank_seen(eps, n as int, p as usize)),
        decreases world_size - q,
    {
        match slots[q] {
            Some(channel) => {
                gathered.push(channel);
            },
            None => {
                proof {
                    let m = q;
                    assert(!rank_seen(eps, n as int, m));
                    assert(exists|r: usize| r < world_size && !rank_seen(eps, eps.len() as int, r));
                    let c = choose|r: usize|
                        r < world_size && !rank_seen(eps, eps.len() as int, r) && forall|s: usize|
                            s < r ==> rank_seen(eps, eps.len() as int, s);
                    assert(forall|s: usize| s < m ==> rank_seen(eps, eps.len() as int, s)) by {
                        assert forall|s: usize| s < m implies rank_seen(eps, eps.len() as int, s) by {
                            assert(0 <= s as int && (s as int) < q as int);
                        }
                    }
                    if c < m {
                        assert(rank_seen(eps, n as int, c));
                    } else if c > m {
                        assert(rank_seen(eps, eps.len() as int, m));
                    }
                }
                return Err(EndpointGatherError::MissingRank { rank: q });
            },
        }
        q = q + 1;
    }
    proof {
        if exists|r: usize| r < world_size && !rank_seen(eps, eps.len() as int, r) {
            let r = choose|r: usize| r < world_size && !rank_seen(eps, eps.len() as int, r);
            assert(0 <= r as int && (r as int) < q as int);
        }
        assert forall|j: int| 0 <= j < eps.len() implies #[trigger] gathered@[eps[j].rank as int]
            == eps[j].endpoints@[local_rank as int] by {
            assert(slots@[eps[j].rank as int] == Some(gathered@[eps[j].rank as int]));
        }
    }
    Ok(RemoteEndpoints(gathered))
}

proof fn lemma_no_error_prefix(
    eps: Seq<LocalEndpoint>,
    n: nat,
    k: nat,
    world_size: usize,
    local_rank: usize,
)
    requires
        k < n,
        gather_error_in(eps, n, world_size, local_rank) is None,
    ensures
        gather_error_in(eps, (k + 1) as nat, world_size, local_rank) is None,
        eps[k as int].rank < world_size,
        !rank_seen(eps, k as int, eps[k as int].rank),
        eps[k as int].endpoints@.len() > local_rank,
    decreases n - k,
{
    if k + 1 < n {
        lemma_no_error_prefix(eps, (n - 1) as nat, k, world_size, local_rank);
    }
}

impl RemoteEndpoints {
    /// The queue pair endpoints, in rank order: what the channels are
    /// connected to, channel `i` to entry `i`.
    pub fn channel_endpoints(&self) -> (r: Vec<QueuePairEndpoint>)
        ensures
            r@.len() == self.0@.len(),
            forall|i: int|
                0 <= i < self.0@.len() ==> #[trigger] r@[i] == self.0@[i].single_channel_endpoint,
    {
        let mut out: Vec<QueuePairEndpoint> = Vec::new();
        let mut i: usize = 0;
        while i < self.0.len()
            invariant
                i <= self.0@.len(),
                out@.len() == i,
                forall|j: int| 0 <= j < i ==> #[trigger] out@[j] == self.0@[j].single_channel_endpoint,
            decreases self.0@.len() - i,
        {
            out.push(self.0[i].single_channel_endpoint);
            i = i + 1;
        }
        out
    }

    /// The peers' barrier memory regions, in rank order: what the barrier is
    /// linked to.
    pub fn barrier_regions(&self) -> (r: Vec<PeerRemoteMemoryRegion>)
        ensures
            r@.len() == self.0@.len(),
            forall|i: int| 0 <= i < self.0@.len() ==> #[trigger] r@[i] == self.0@[i].barrier_mr_remote,
    {
        let mut out: Vec<PeerRemoteMemoryRegion> = Vec::new();
        let mut i: usize = 0;
        while i < self.0.len()
            invariant
                i <= self.0@.len(),
                out@.len() == i,
                forall|j: int| 0 <= j < i ==> #[trigger] out@[j] == self.0@[j].barrier_mr_remote,
            decreases self.0@.len() - i,
        {
            out.push(self.0[i].barrier_mr_remote);
            i = i + 1;
        }
        out
    }
}

/// Endpoints that `gather_endpoints` accepts come from every rank of the
/// network exactly once, each with a channel for the local rank.
pub proof fn law_accepted_endpoints_cover_each_rank_once(
    eps: Seq<LocalEndpoint>,
    world_size: usize,
    local_rank: usize,
)
    requires
        gather_error_in(eps, eps.len(), world_size, local_rank) is None,
        first_missing_rank(eps, world_size) is None,
    ensures
        forall|r: usize| r < world_size ==> rank_seen(eps, eps.len() as int, r),
        forall|j: int| 0 <= j < eps.len() ==> (#[trigger] eps[j]).rank < world_size,
        forall|i: int, j: int|
            0 <= i < j < eps.len() ==> (#[trigger] eps[i]).rank != (#[trigger] eps[j]).rank,
        forall|j: int| 0 <= j < eps.len() ==> (#[trigger] eps[j]).endpoints@.len() > local_rank,
{
    assert forall|j: int| 0 <= j < eps.len() implies (#[trigger] eps[j]).rank < world_size
        && eps[j].endpoints@.len() > local_rank by {
        lemma_no_error_prefix(eps, eps.len(), j as nat, world_size, local_rank);
    }
    assert forall|i: int, j: int| 0 <= i < j < eps.len() implies (#[trigger] eps[i]).rank != (
    #[trigger] eps[j]).rank by {
        lemma_no_error_prefix(eps, eps.len(), j as nat, world_size, local_rank);
        if eps[i].rank == eps[j].rank {
            assert(rank_seen(eps, j, eps[j].rank));
        }
    }
}

} // verus!

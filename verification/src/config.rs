//! Network topology configuration: the nodes taking part in RDMA
//! communication, validated so that ranks are unique, sequential and start at
//! zero, and ordered by rank.
use vstd::prelude::*;
use vstd::relations::{sorted_by, total_ordering};
use vstd::seq_lib::lemma_sorted_unique;

verus! {

/// Configuration for a single node in the network.
#[derive(Debug)]
pub struct NodeConfig {
    /// Network hostname or IP address.
    pub hostname: String,
    /// TCP port used for the initial endpoint exchange.
    pub port: u16,
    /// Name of the RDMA device to use (e.g. `"mlx5_0"`).
    pub ibdev: String,
    /// Unique rank identifier, must be sequential starting from 0.
    pub rankid: usize,
    /// Optional human-readable label.
    pub comment: String,
}

impl NodeConfig {
    /// A node with the given address, device and rank and an empty comment.
    pub fn new(hostname: String, port: u16, ibdev: String, rankid: usize) -> (n: NodeConfig)
        ensures
            n.hostname == hostname,
            n.port == port,
            n.ibdev == ibdev,
            n.rankid == rankid,
            n.comment@ == Seq::<char>::empty(),
    {
        NodeConfig { hostname, port, ibdev, rankid, comment: String::new() }
    }

    /// The same node with the given comment.
    pub fn with_comment(self, comment: String) -> (n: NodeConfig)
        ensures
            n.hostname == self.hostname,
            n.port == self.port,
            n.ibdev == self.ibdev,
            n.rankid == self.rankid,
            n.comment == comment,
    {
        NodeConfig { comment, ..self }
    }
}

impl Clone for NodeConfig {
    /// A copy of the node: same address, port, device, rank and comment.
    fn clone(&self) -> (n: NodeConfig)
        ensures
            n.hostname@ == self.hostname@,
            n.port == self.port,
            n.ibdev@ == self.ibdev@,
            n.rankid == self.rankid,
            n.comment@ == self.comment@,
    {
        NodeConfig {
            hostname: self.hostname.clone(),
            port: self.port,
            ibdev: self.ibdev.clone(),
            rankid: self.rankid,
            comment: self.comment.clone(),
        }
    }
}

/// Validation errors when building a [`NetworkConfig`].
#[derive(Debug, Copy, Clone, PartialEq, Eq, Structural)]
pub enum NetworkConfigError {
    /// No node at all.
    EmptyNetwork,
    /// The smallest rank is not zero.
    FirstRankNotZero,
    /// Rank `gap_rank` is missing.
    NonSequentialRanks { gap_rank: usize },
    /// Rank `dup_rank` appears more than once.
    DuplicatedRank { dup_rank: usize },
}

/// An unvalidated network configuration. Add nodes with [`add_node`](Self::add_node),
/// then call [`build`](Self::build) to validate and produce a [`NetworkConfig`].
#[derive(Debug, Clone)]
pub struct RawNetworkConfig {
    hosts: Vec<NodeConfig>,
}

/// A validated network topology describing all nodes that participate in RDMA
/// communication, ordered by rank: the node at position `i` has rank `i`.
#[derive(Debug)]
pub struct NetworkConfig {
    hosts: Vec<NodeConfig>,
}

impl Clone for NetworkConfig {
    /// A copy of the configuration: the same nodes, in the same order.
    fn clone(&self) -> (c: NetworkConfig)
        ensures
            c.spec_hosts().len() == self.spec_hosts().len(),
            forall|i: int|
                0 <= i < self.spec_hosts().len() ==> (#[trigger] c.spec_hosts()[i]).rankid
                    == self.spec_hosts()[i].rankid && c.spec_hosts()[i].port
                    == self.spec_hosts()[i].port && c.spec_hosts()[i].hostname@
                    == self.spec_hosts()[i].hostname@ && c.spec_hosts()[i].ibdev@
                    == self.spec_hosts()[i].ibdev@ && c.spec_hosts()[i].comment@
                    == self.spec_hosts()[i].comment@,
    {
        proof {
            use_type_invariant(self);
        }
        let hosts = self.hosts.clone();
        NetworkConfig { hosts }
    }
}

/// The ranks of a sequence of nodes.
pub open spec fn ranks(s: Seq<NodeConfig>) -> Seq<usize> {
    s.map_values(|n: NodeConfig| n.rankid)
}

/// The order on ranks.
pub open spec fn rank_le() -> spec_fn(usize, usize) -> bool {
    |a: usize, b: usize| a <= b
}

/// The ranks of the nodes in ascending order.
pub open spec fn sorted_ranks(s: Seq<NodeConfig>) -> Seq<usize> {
    ranks(s).sort_by(rank_le())
}

/// The first violation found scanning the ascending ranks `r` from position `i`:
/// a rank equal to its predecessor, or a position whose rank is not the position.
pub open spec fn first_violation(r: Seq<usize>, i: nat) -> Result<(), NetworkConfigError>
    decreases r.len() - i,
{
    if i >= r.len() {
        Ok(())
    } else if r[i as int] == r[i - 1] {
        Err(NetworkConfigError::DuplicatedRank { dup_rank: r[i as int] })
    } else if r[i as int] != i {
        Err(NetworkConfigError::NonSequentialRanks { gap_rank: i as usize })
    } else {
        first_violation(r, i + 1)
    }
}

/// The verdict on a configuration whose ranks, in ascending order, are `r`.
pub open spec fn check_ranks(r: Seq<usize>) -> Result<(), NetworkConfigError> {
    if r.len() == 0 {
        Err(NetworkConfigError::EmptyNetwork)
    } else if r[0] != 0 {
        Err(NetworkConfigError::FirstRankNotZero)
    } else {
        first_violation(r, 1)
    }
}

/// Every position holds its own rank.
pub open spec fn ranks_are_positions(s: Seq<NodeConfig>) -> bool {
    forall|i: int| 0 <= i < s.len() ==> (#[trigger] s[i]).rankid == i
}

impl RawNetworkConfig {
    pub closed spec fn spec_hosts(&self) -> Seq<NodeConfig> {
        self.hosts@
    }

    /// An empty configuration.
    pub fn new() -> (c: RawNetworkConfig)
        ensures
            c.spec_hosts() == Seq::<NodeConfig>::empty(),
    {
        RawNetworkConfig { hosts: Vec::new() }
    }

    /// Appends a node to the configuration.
    pub fn add_node(self, node: NodeConfig) -> (c: RawNetworkConfig)
        ensures
            c.spec_hosts() == self.spec_hosts().push(node),
    {
        let mut hosts = self.hosts;
        hosts.push(node);
        RawNetworkConfig { hosts }
    }

    /// Truncates the node list to at most `num_nodes` entries.
    pub fn truncate(self, num_nodes: usize) -> (c: RawNetworkConfig)
        ensures
            num_nodes <= self.spec_hosts().len() ==> c.spec_hosts() == self.spec_hosts().take(
                num_nodes as int,
            ),
            num_nodes > self.spec_hosts().len() ==> c.spec_hosts() == self.spec_hosts(),
    {
        let mut hosts = self.hosts;
        hosts.truncate(num_nodes);
        RawNetworkConfig { hosts }
    }

    /// The nodes added so far, in insertion order.
    pub fn hosts(&self) -> (h: &[NodeConfig])
        ensures
            h@ == self.spec_hosts(),
    {
        self.hosts.as_slice()
    }

    /// Validates and builds the [`NetworkConfig`]: ranks must be unique,
    /// sequential and start at 0; nodes are ordered by rank. The error reported
    /// is the first one met scanning the ranks in ascending order.
    pub fn build(self) -> (r: Result<NetworkConfig, NetworkConfigError>)
        ensures
            match r {
                Ok(cfg) => {
                    &&& check_ranks(sorted_ranks(self.spec_hosts())) is Ok
                    &&& cfg.spec_hosts().to_multiset() == self.spec_hosts().to_multiset()
                    &&& ranks_are_positions(cfg.spec_hosts())
                },
                Err(e) => check_ranks(sorted_ranks(self.spec_hosts())) == Err::<(), NetworkConfigError>(e),
            },
    {
        let ghost orig = self.hosts@;
        let hosts = sort_by_rank(self.hosts);
        proof {
            lemma_sorted_is_sort_by(orig, hosts@);
        }
        let ghost r = ranks(hosts@);
        if hosts.len() == 0 {
            return Err(NetworkConfigError::EmptyNetwork);
        }
        if hosts[0].rankid != 0 {
            return Err(NetworkConfigError::FirstRankNotZero);
        }
        let n = hosts.len();
        let mut i: usize = 1;
        while i < n
            invariant
                n == hosts@.len(),
                r == ranks(hosts@),
                r == sorted_ranks(orig),
                orig == self.spec_hosts(),
                hosts@.to_multiset() == orig.to_multiset(),
                1 <= i <= n,
                r[0] == 0,
                forall|j: int| 0 <= j < i ==> r[j] == j,
                first_violation(r, 1) == first_violation(r, i as nat),
            decreases n - i,
        {
            if hosts[i].rankid == hosts[i - 1].rankid {
                return Err(NetworkConfigError::DuplicatedRank { dup_rank: hosts[i].rankid });
            }
            if hosts[i].rankid != i {
                return Err(NetworkConfigError::NonSequentialRanks { gap_rank: i });
            }
            i = i + 1;
        }
        proof {
            assert forall|j: int| 0 <= j < hosts@.len() implies (#[trigger] hosts@[j]).rankid == j by {
                assert(r[j] == hosts@[j].rankid);
            }
        }
        Ok(NetworkConfig { hosts })
    }
}

/// Sorted ascending by rank.
pub open spec fn sorted_by_rank(s: Seq<NodeConfig>) -> bool {
    forall|i: int, j: int| 0 <= i < j < s.len() ==> s[i].rankid <= s[j].rankid
}

proof fn lemma_rank_le_total()
    ensures
        total_ordering(rank_le()),
{
}

proof fn lemma_ranks_remove(s: Seq<NodeConfig>, i: int)
    requires
        0 <= i < s.len(),
    ensures
        ranks(s.remove(i)) == ranks(s).remove(i),
{
    assert(ranks(s.remove(i)) =~= ranks(s).remove(i));
}

proof fn lemma_ranks_insert(s: Seq<NodeConfig>, i: int, a: NodeConfig)
    requires
        0 <= i <= s.len(),
    ensures
        ranks(s.insert(i, a)) == ranks(s).insert(i, a.rankid),
{
    assert(ranks(s.insert(i, a)) =~= ranks(s).insert(i, a.rankid));
}

/// A rank-sorted permutation has exactly the ascending rank sequence.
proof fn lemma_sorted_is_sort_by(orig: Seq<NodeConfig>, s: Seq<NodeConfig>)
    requires
        sorted_by_rank(s),
        ranks(s).to_multiset() == ranks(orig).to_multiset(),
    ensures
        ranks(s) == sorted_ranks(orig),
{
    lemma_rank_le_total();
    ranks(orig).lemma_sort_by_ensures(rank_le());
    assert(sorted_by(ranks(s), rank_le())) by {
        assert forall|i: int, j: int| 0 <= i < j < ranks(s).len() implies #[trigger] (rank_le())(
            ranks(s)[i],
            ranks(s)[j],
        ) by {
            assert(s[i].rankid <= s[j].rankid);
        }
    }
    lemma_sorted_unique(ranks(s), sorted_ranks(orig), rank_le());
}

/// Stable insertion sort by rank.
fn sort_by_rank(v: Vec<NodeConfig>) -> (r: Vec<NodeConfig>)
    ensures
        sorted_by_rank(r@),
        r@.to_multiset() == v@.to_multiset(),
        ranks(r@).to_multiset() == ranks(v@).to_multiset(),
{
    broadcast use vstd::seq_lib::to_multiset_remove, vstd::seq_lib::to_multiset_insert;

    let mut v = v;
    let ghost orig = v@;
    let n = v.len();
    let mut i: usize = 1;
    if n == 0 {
        return v;
    }
    while i < n
        invariant
            n == v@.len(),
            1 <= i <= n,
            v@.to_multiset() == orig.to_multiset(),
            ranks(v@).to_multiset() == ranks(orig).to_multiset(),
            forall|a: int, b: int| 0 <= a < b < i ==> v@[a].rankid <= v@[b].rankid,
        decreases n - i,
    {
        let ghost before = v@;
        let x = v.remove(i);
        proof {
            lemma_ranks_remove(before, i as int);
        }
        let mut j: usize = i;
        while j > 0 && v[j - 1].rankid > x.rankid
            invariant
                v@.len() == n - 1,
                v@ == before.remove(i as int),
                x == before[i as int],
                0 <= j <= i,
                i < n,
                forall|a: int, b: int| 0 <= a < b < i ==> v@[a].rankid <= v@[b].rankid,
                forall|k: int| j <= k < i ==> v@[k].rankid > x.rankid,
            decreases j,
        {
            j = j - 1;
        }
        let ghost mid = v@;
        v.insert(j, x);
        proof {
            lemma_ranks_insert(mid, j as int, x);
            vstd::seq_lib::to_multiset_contains(before, x);
            assert(before.contains(x));
            assert(before.to_multiset().count(x) > 0);
            assert(v@ == mid.insert(j as int, x));
            vstd::seq_lib::to_multiset_insert(mid, j as int, x);
            vstd::seq_lib::to_multiset_remove(before, i as int);
            assert(v@.to_multiset() == mid.to_multiset().insert(x));
            assert(mid.to_multiset() == before.to_multiset().remove(x));
            assert(v@.to_multiset() =~= before.to_multiset());
            let rb = ranks(before);
            assert(rb[i as int] == x.rankid);
            assert(rb.contains(x.rankid));
            vstd::seq_lib::to_multiset_contains(rb, x.rankid);
            assert(ranks(mid) == rb.remove(i as int));
            vstd::seq_lib::to_multiset_remove(rb, i as int);
            vstd::seq_lib::to_multiset_insert(ranks(mid), j as int, x.rankid);
            assert(ranks(mid).to_multiset() == rb.to_multiset().remove(x.rankid));
            assert(ranks(v@) == ranks(mid).insert(j as int, x.rankid));
            assert(ranks(v@).to_multiset() == ranks(mid).to_multiset().insert(x.rankid));
            assert(ranks(v@).to_multiset() =~= rb.to_multiset());
            assert forall|a: int, b: int| 0 <= a < b < i + 1 implies v@[a].rankid <= v@[b].rankid by {
                if b < j {
                    assert(v@[a] == mid[a] && v@[b] == mid[b]);
                } else if b == j {
                    assert(v@[a] == mid[a]);
                } else if a < j {
                    assert(v@[a] == mid[a] && v@[b] == mid[b - 1]);
                    if a == j - 1 {
                    } else {
                        assert(mid[a].rankid <= mid[j - 1].rankid);
                    }
                } else if a == j {
                    assert(v@[b] == mid[b - 1]);
                } else {
                    assert(v@[a] == mid[a - 1] && v@[b] == mid[b - 1]);
                }
            }
        }
        i = i + 1;
    }
    v
}

impl NetworkConfig {
    pub closed spec fn spec_hosts(&self) -> Seq<NodeConfig> {
        self.hosts@
    }

    #[verifier::type_invariant]
    closed spec fn well_formed(&self) -> bool {
        ranks_are_positions(self.hosts@)
    }

    /// Returns an empty [`RawNetworkConfig`] for constructing a network topology.
    pub fn builder() -> (c: RawNetworkConfig)
        ensures
            c.spec_hosts() == Seq::<NodeConfig>::empty(),
    {
        RawNetworkConfig::new()
    }

    /// Returns the total number of nodes in the network.
    pub fn world_size(&self) -> (n: usize)
        ensures
            n == self.spec_hosts().len(),
    {
        self.hosts.len()
    }

    /// The number of nodes.
    pub fn len(&self) -> (n: usize)
        ensures
            n == self.spec_hosts().len(),
    {
        self.hosts.len()
    }

    /// The nodes, ordered by rank.
    pub fn as_slice(&self) -> (s: &[NodeConfig])
        ensures
            s@ == self.spec_hosts(),
            ranks_are_positions(s@),
    {
        proof {
            use_type_invariant(self);
        }
        self.hosts.as_slice()
    }

    /// The node of the given rank, if any.
    pub fn get(&self, rank: usize) -> (n: Option<&NodeConfig>)
        ensures
            rank < self.spec_hosts().len() ==> n == Some(&self.spec_hosts()[rank as int]),
            rank >= self.spec_hosts().len() ==> n is None,
            n matches Some(node) ==> node.rankid == rank,
    {
        proof {
            use_type_invariant(self);
        }
        if rank < self.hosts.len() {
            Some(&self.hosts[rank])
        } else {
            None
        }
    }
}

/// A built configuration holds every rank from 0 to its size minus one exactly
/// once, at the position equal to the rank.
pub proof fn law_built_config_is_rank_indexed(hosts: Seq<NodeConfig>)
    requires
        check_ranks(sorted_ranks(hosts)) is Ok,
    ensures
        hosts.len() > 0,
        forall|i: int| 0 <= i < hosts.len() ==> #[trigger] sorted_ranks(hosts)[i] == i,
{
    lemma_rank_le_total();
    ranks(hosts).lemma_sort_by_ensures(rank_le());
    let r = sorted_ranks(hosts);
    vstd::seq_lib::to_multiset_len(r);
    vstd::seq_lib::to_multiset_len(ranks(hosts));
    lemma_first_violation_ok(r, 1);
}

proof fn lemma_first_violation_ok(r: Seq<usize>, i: nat)
    requires
        r.len() > 0,
        r[0] == 0,
        1 <= i,
        forall|j: int| 0 <= j < i && j < r.len() ==> r[j] == j,
        first_violation(r, i) is Ok,
    ensures
        forall|j: int| 0 <= j < r.len() ==> #[trigger] r[j] == j,
    decreases r.len() - i,
{
    if i < r.len() {
        lemma_first_violation_ok(r, i + 1);
    }
}

/// The verdict on a configuration does not depend on the order in which the
/// nodes were added.
pub proof fn law_build_ignores_node_order(a: Seq<NodeConfig>, b: Seq<NodeConfig>)
    requires
        a.to_multiset() == b.to_multiset(),
    ensures
        check_ranks(sorted_ranks(a)) == check_ranks(sorted_ranks(b)),
{
    lemma_rank_le_total();
    ranks(a).lemma_sort_by_ensures(rank_le());
    ranks(b).lemma_sort_by_ensures(rank_le());
    lemma_ranks_multiset(a, b);
    lemma_sorted_unique(sorted_ranks(a), sorted_ranks(b), rank_le());
}

proof fn lemma_ranks_multiset(a: Seq<NodeConfig>, b: Seq<NodeConfig>)
    requires
        a.to_multiset() == b.to_multiset(),
    ensures
        ranks(a).to_multiset() == ranks(b).to_multiset(),
    decreases a.len(),
{
    broadcast use vstd::seq_lib::to_multiset_remove, vstd::seq_lib::to_multiset_insert,
        vstd::seq_lib::to_multiset_len, vstd::seq_lib::to_multiset_contains;

    if a.len() == 0 {
        assert(a.to_multiset().len() == 0);
        assert(b.to_multiset().len() == 0);
        assert(b.len() == 0);
        assert(ranks(a) =~= ranks(b));
    } else {
        let x = a.last();
        let a1 = a.drop_last();
        assert(a.to_multiset().count(x) > 0);
        assert(b.contains(x));
        let k = choose|k: int| 0 <= k < b.len() && b[k] == x;
        let b1 = b.remove(k);
        assert(a1 =~= a.remove(a.len() - 1));
        assert(a1.to_multiset() == b1.to_multiset());
        lemma_ranks_multiset(a1, b1);
        lemma_ranks_remove(a, a.len() - 1);
        lemma_ranks_remove(b, k);
        assert(ranks(a).remove(a.len() - 1).to_multiset() == ranks(a).to_multiset().remove(x.rankid));
        assert(ranks(b).remove(k).to_multiset() == ranks(b).to_multiset().remove(x.rankid));
        assert(ranks(a).to_multiset().count(x.rankid) > 0);
        assert(ranks(b).to_multiset().count(x.rankid) > 0);
        assert(ranks(a).to_multiset() =~= ranks(a).to_multiset().remove(x.rankid).insert(x.rankid));
        assert(ranks(b).to_multiset() =~= ranks(b).to_multiset().remove(x.rankid).insert(x.rankid));
    }
}

} // verus!

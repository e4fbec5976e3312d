//! The epoch counters behind the barrier's notifications: each node counts,
//! per peer, the notifications it has sent and those it has waited for; a
//! peer's notification has arrived once the epoch it wrote reaches the count
//! awaited.
use vstd::prelude::*;

verus! {

/// Size of one peer's flags in a barrier's memory region: the expected
/// incoming epoch, the outgoing epoch and the incoming epoch, eight bytes each.
pub const BARRIER_FLAGS_SIZE: usize = 24;

/// Offset of the incoming epoch within a peer's flags.
pub const IN_EPOCH_OFFSET: usize = 16;

/// The epoch counters a node keeps for the barrier, one set per peer: how
/// many notifications it has sent each peer, and how many it has waited for
/// from each. The incoming epochs themselves are written by the peers.
pub struct BarrierEpochs {
    rank: usize,
    expected_in: Vec<u64>,
    out: Vec<u64>,
}

/// How many misses a busy wait counts before it reads the clock.
pub const TIMEOUT_CHECK_ITERS: u32 = 65536;

/// The count of a busy wait for a peer's notification, which reads the clock
/// only once every [`TIMEOUT_CHECK_ITERS`] misses.
pub struct SpinPoll {
    iter: u32,
}

impl SpinPoll {
    pub closed spec fn spec_iter(&self) -> u32 {
        self.iter
    }

    /// The count stays below the period.
    pub closed spec fn well_formed(&self) -> bool {
        self.iter < TIMEOUT_CHECK_ITERS
    }

    /// A wait that has not missed yet.
    pub fn new() -> (r: SpinPoll)
        ensures
            r.spec_iter() == 0,
            r.well_formed(),
    {
        SpinPoll { iter: 0 }
    }

    /// Counts a look that found the notification missing; answers whether
    /// the clock is due to be read, which restarts the count.
    pub fn missed(&mut self) -> (due: bool)
        requires
            old(self).well_formed(),
        ensures
            final(self).well_formed(),
            due == (old(self).spec_iter() + 1 == TIMEOUT_CHECK_ITERS),
            due ==> final(self).spec_iter() == 0,
            !due ==> final(self).spec_iter() == old(self).spec_iter() + 1,
    {
        self.iter = self.iter + 1;
        if self.iter >= TIMEOUT_CHECK_ITERS {
            self.iter = 0;
            true
        } else {
            false
        }
    }
}

/// How many times `q` occurs in `s`.
pub open spec fn occurrences(s: Seq<usize>, q: usize) -> nat {
    s.to_multiset().count(q)
}

proof fn lemma_take_occurrences_grow(s: Seq<usize>, i: int, j: int, q: usize)
    requires
        0 <= i <= j <= s.len(),
    ensures
        occurrences(s.take(i), q) <= occurrences(s.take(j), q),
    decreases j - i,
{
    if i < j {
        lemma_take_occurrences_grow(s, i, j - 1, q);
        assert(s.take(j) =~= s.take(j - 1).push(s[j - 1]));
        vstd::seq_lib::to_multiset_build(s.take(j - 1), s[j - 1]);
    }
}

impl BarrierEpochs {
    pub closed spec fn spec_rank(&self) -> usize {
        self.rank
    }

    pub closed spec fn spec_expected(&self) -> Seq<u64> {
        self.expected_in@
    }

    pub closed spec fn spec_out(&self) -> Seq<u64> {
        self.out@
    }

    /// The counters of node `rank` in a network of `world_size` nodes: all zero.
    pub fn new(rank: usize, world_size: usize) -> (r: Self)
        ensures
            r.spec_rank() == rank,
            r.spec_expected() == Seq::new(world_size as nat, |i: int| 0u64),
            r.spec_out() == Seq::new(world_size as nat, |i: int| 0u64),
    {
        let mut expected_in: Vec<u64> = Vec::new();
        let mut out: Vec<u64> = Vec::new();
        let mut i: usize = 0;
        while i < world_size
            invariant
                i <= world_size,
                expected_in@ == Seq::new(i as nat, |j: int| 0u64),
                out@ == Seq::new(i as nat, |j: int| 0u64),
            decreases world_size - i,
        {
            expected_in.push(0);
            out.push(0);
            i = i + 1;
        }
        BarrierEpochs { rank, expected_in, out }
    }

    /// Where, in a peer's barrier region, node `rank`'s incoming epoch lies.
    pub fn remote_in_epoch_offset(rank: usize) -> (r: usize)
        requires
            rank * BARRIER_FLAGS_SIZE + IN_EPOCH_OFFSET <= usize::MAX,
        ensures
            r == rank * BARRIER_FLAGS_SIZE + IN_EPOCH_OFFSET,
    {
        rank * BARRIER_FLAGS_SIZE + IN_EPOCH_OFFSET
    }

    /// Counts a notification of `peer`: answers the epoch to write into the
    /// peer's region and the offset there of this node's incoming epoch.
    pub fn notify_peer(&mut self, peer: usize) -> (r: (u64, usize))
        requires
            peer < old(self).spec_out().len(),
            old(self).spec_out()[peer as int] < u64::MAX,
            old(self).spec_rank() * BARRIER_FLAGS_SIZE + IN_EPOCH_OFFSET <= usize::MAX,
        ensures
            final(self).spec_rank() == old(self).spec_rank(),
            final(self).spec_expected() == old(self).spec_expected(),
            final(self).spec_out() == old(self).spec_out().update(
                peer as int,
                (old(self).spec_out()[peer as int] + 1) as u64,
            ),
            r.0 == old(self).spec_out()[peer as int] + 1,
            r.1 == old(self).spec_rank() * BARRIER_FLAGS_SIZE + IN_EPOCH_OFFSET,
    {
        let epoch = self.out[peer] + 1;
        self.out.set(peer, epoch);
        (epoch, Self::remote_in_epoch_offset(self.rank))
    }

    /// Counts a notification of each listed peer (a peer listed twice is
    /// counted twice), then answers, per listed peer, the epoch to write and
    /// the offset of this node's incoming epoch in that peer's region.
    pub fn scatter_notify_peers(&mut self, peers: &[usize]) -> (r: Vec<(usize, u64, usize)>)
        requires
            forall|i: int| 0 <= i < peers@.len() ==> #[trigger] peers@[i] < old(self).spec_out().len(),
            forall|q: usize|
                q < old(self).spec_out().len() ==> old(self).spec_out()[q as int] + occurrences(
                    peers@,
                    q,
                ) <= u64::MAX,
            old(self).spec_rank() * BARRIER_FLAGS_SIZE + IN_EPOCH_OFFSET <= usize::MAX,
        ensures
            final(self).spec_rank() == old(self).spec_rank(),
            final(self).spec_expected() == old(self).spec_expected(),
            final(self).spec_out().len() == old(self).spec_out().len(),
            forall|q: usize|
                q < old(self).spec_out().len() ==> #[trigger] final(self).spec_out()[q as int]
                    == old(self).spec_out()[q as int] + occurrences(peers@, q),
            r@.len() == peers@.len(),
            forall|i: int|
                0 <= i < peers@.len() ==> (#[trigger] r@[i]).0 == peers@[i] && r@[i].1
                    == final(self).spec_out()[peers@[i] as int] && r@[i].2 == old(self).spec_rank()
                    * BARRIER_FLAGS_SIZE + IN_EPOCH_OFFSET,
    {
        let ghost start = self.out@;
        let n = peers.len();
        let mut i: usize = 0;
        proof {
            assert(peers@.take(0) =~= Seq::<usize>::empty());
            broadcast use vstd::seq_lib::group_to_multiset_ensures;
            vstd::multiset::lemma_multiset_empty_len(Seq::<usize>::empty().to_multiset());
        }
        while i < n
            invariant
                n == peers@.len(),
                i <= n,
                self.out@.len() == start.len(),
                self.rank == old(self).spec_rank(),
                self.expected_in@ == old(self).spec_expected(),
                start == old(self).spec_out(),
                forall|k: int| 0 <= k < peers@.len() ==> #[trigger] peers@[k] < start.len(),
                forall|q: usize| q < start.len() ==> start[q as int] + occurrences(peers@, q) <= u64::MAX,
                forall|q: usize|
                    q < start.len() ==> #[trigger] self.out@[q as int] == start[q as int] + occurrences(
                        peers@.take(i as int),
                        q,
                    ),
            decreases n - i,
        {
            let peer = peers[i];
            proof {
                assert(peers@.take(i + 1) =~= peers@.take(i as int).push(peer));
                vstd::seq_lib::to_multiset_build(peers@.take(i as int), peer);
                lemma_take_occurrences_grow(peers@, i + 1, n as int, peer);
                assert(peers@.take(n as int) =~= peers@);
            }
            let ghost old_out = self.out@;
            let epoch = self.out[peer] + 1;
            self.out.set(peer, epoch);
            proof {
                assert forall|q: usize| q < start.len() implies #[trigger] self.out@[q as int]
                    == start[q as int] + occurrences(peers@.take(i + 1), q) by {
                    let m = peers@.take(i as int).to_multiset();
                    if q != peer {
                        vstd::multiset::lemma_insert_other_elements_unchanged(m, peer, q);
                    } else {
                        vstd::multiset::lemma_insert_increases_count_by_1(m, peer);
                    }
                    assert(old_out[q as int] == start[q as int] + occurrences(peers@.take(i as int), q));
                }
            }
            i = i + 1;
        }
        proof {
            assert(peers@.take(n as int) =~= peers@);
        }
        let offset = Self::remote_in_epoch_offset(self.rank);
        let mut writes: Vec<(usize, u64, usize)> = Vec::new();
        let mut j: usize = 0;
        while j < n
            invariant
                n == peers@.len(),
                j <= n,
                self.rank == old(self).spec_rank(),
                offset == old(self).spec_rank() * BARRIER_FLAGS_SIZE + IN_EPOCH_OFFSET,
                forall|k: int| 0 <= k < peers@.len() ==> #[trigger] peers@[k] < self.out@.len(),
                writes@.len() == j,
                forall|k: int|
                    0 <= k < j ==> #[trigger] writes@[k] == (
                        peers@[k],
                        self.out@[peers@[k] as int],
                        offset,
                    ),
            decreases n - j,
        {
            let peer = peers[j];
            writes.push((peer, self.out[peer], offset));
            j = j + 1;
        }
        writes
    }

    /// Counts a notification awaited from `peer`.
    pub fn increase_peer_expected_epoch(&mut self, peer: usize)
        requires
            peer < old(self).spec_expected().len(),
            old(self).spec_expected()[peer as int] < u64::MAX,
        ensures
            final(self).spec_rank() == old(self).spec_rank(),
            final(self).spec_out() == old(self).spec_out(),
            final(self).spec_expected() == old(self).spec_expected().update(
                peer as int,
                (old(self).spec_expected()[peer as int] + 1) as u64,
            ),
    {
        let e = self.expected_in[peer] + 1;
        self.expected_in.set(peer, e);
    }

    /// Whether the awaited notification from `peer` has arrived, given the
    /// incoming epoch the peer last wrote.
    pub fn is_peer_epoch_expected(&self, peer: usize, in_epoch: u64) -> (r: bool)
        requires
            peer < self.spec_expected().len(),
        ensures
            r == (in_epoch >= self.spec_expected()[peer as int]),
    {
        in_epoch >= self.expected_in[peer]
    }
}


} // verus!

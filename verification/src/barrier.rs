//! Barrier synchronization: peer-list validation, the per-algorithm plan of
//! notifications and waits a node performs, and the poisoning state machine.
//!
//! The RDMA side (writing epochs into remote memory, spin polling the local
//! incoming epoch) executes the steps of a plan; the decisions live here.
use crate::topology::{
    child_indices, law_every_node_is_child_of_parent, law_parent_of_child_is_self,
    law_round_indices_in_bounds, law_round_never_self, num_rounds, parent_index, pow2, round_pairs,
    spec_children, spec_parent, spec_round_pair,
};
use vstd::prelude::*;

verus! {

/// An error that can occur during a barrier synchronization.
///
/// Barriers are poisoned after any error: once a barrier reports an error,
/// every later call returns `Poisoned` without planning any step.
#[derive(Debug, Clone)]
pub enum BarrierError {
    /// The barrier was poisoned by a previous error and can no longer be used.
    Poisoned,
    /// This node's own rank is not present in the supplied peer list.
    SelfNotInGroup,
    /// The peer list is not sorted in ascending order.
    UnorderedPeers,
    /// The peer list contains the same rank more than once.
    DuplicatePeers,
    /// Not all peers reached the barrier within the allotted time.
    Timeout,
    /// An RDMA transport error occurred while exchanging barrier notifications.
    TransportError(String),
}

/// Selects which barrier algorithm a node uses.
#[derive(Debug, Copy, Clone, PartialEq, Eq, Structural)]
pub enum BarrierAlgorithm {
    /// Leader-based barrier: the lowest-ranked participant collects a
    /// notification from every other peer, then broadcasts back.
    Centralized,
    /// Tree-structured barrier over the sorted peer list: reduce to the root,
    /// then broadcast back down.
    BinaryTree,
    /// Dissemination barrier: in round `r` every peer notifies the peer at
    /// distance `2^r` to its right and waits for the one at that distance to
    /// its left.
    Dissemination,
}

/// One action of a barrier plan, naming peers by rank.
#[derive(Debug, Clone)]
pub enum BarrierStep {
    /// Increase the expected incoming epoch of the peer and wait until its
    /// notification has arrived.
    WaitFor(usize),
    /// Increase the outgoing epoch for the peer and write it into the peer's
    /// incoming slot.
    Notify(usize),
    /// Notify every listed peer with a single scatter write.
    NotifyAll(Vec<usize>),
}

/// The mathematical content of a [`BarrierStep`].
pub enum StepView {
    WaitFor(usize),
    Notify(usize),
    NotifyAll(Seq<usize>),
}

impl View for BarrierStep {
    type V = StepView;

    open spec fn view(&self) -> StepView {
        match self {
            BarrierStep::WaitFor(r) => StepView::WaitFor(*r),
            BarrierStep::Notify(r) => StepView::Notify(*r),
            BarrierStep::NotifyAll(v) => StepView::NotifyAll(v@),
        }
    }
}

/// The views of a sequence of steps.
pub open spec fn steps_view(s: Seq<BarrierStep>) -> Seq<StepView> {
    s.map_values(|x: BarrierStep| x@)
}

proof fn lemma_steps_view_push(s: Seq<BarrierStep>, x: BarrierStep)
    ensures
        steps_view(s.push(x)) == steps_view(s).push(x@),
{
    assert(steps_view(s.push(x)) =~= steps_view(s).push(x@));
}

/// Every adjacent pair is in order (what `is_sorted` checks).
pub open spec fn sorted_adjacent(s: Seq<usize>) -> bool {
    forall|i: int| 0 <= i < s.len() - 1 ==> #[trigger] s[i] <= s[i + 1]
}

/// Some adjacent pair holds the same rank.
pub open spec fn has_adjacent_duplicate(s: Seq<usize>) -> bool {
    exists|i: int| 0 <= i < s.len() - 1 && #[trigger] s[i] == s[i + 1]
}

/// Strictly ascending: sorted and free of duplicates.
pub open spec fn strictly_sorted(s: Seq<usize>) -> bool {
    forall|i: int, j: int| 0 <= i < j < s.len() ==> s[i] < s[j]
}

/// What `validate_peer_list` answers for a peer list.
pub open spec fn spec_validate(s: Seq<usize>) -> Result<(), BarrierError> {
    if !sorted_adjacent(s) {
        Err(BarrierError::UnorderedPeers)
    } else if has_adjacent_duplicate(s) {
        Err(BarrierError::DuplicatePeers)
    } else {
        Ok(())
    }
}

/// Validates that a peer list is sorted and contains no duplicates. An
/// unsorted list is reported as such even when it also holds duplicates.
pub fn validate_peer_list(peers: &[usize]) -> (r: Result<(), BarrierError>)
    ensures
        r == spec_validate(peers@),
{
    let n = peers.len();
    let mut i: usize = 0;
    while i + 1 < n
        invariant
            n == peers@.len(),
            i <= n,
            n > 0 ==> i < n,
            forall|j: int| 0 <= j < i && j < n - 1 ==> #[trigger] peers@[j] <= peers@[j + 1],
        decreases n - i,
    {
        if peers[i] > peers[i + 1] {
            assert(!sorted_adjacent(peers@));
            return Err(BarrierError::UnorderedPeers);
        }
        i = i + 1;
    }
    assert(sorted_adjacent(peers@));
    let mut i: usize = 0;
    while i + 1 < n
        invariant
            n == peers@.len(),
            i <= n,
            n > 0 ==> i < n,
            sorted_adjacent(peers@),
            forall|j: int| 0 <= j < i && j < n - 1 ==> #[trigger] peers@[j] != peers@[j + 1],
        decreases n - i,
    {
        if peers[i] == peers[i + 1] {
            assert(has_adjacent_duplicate(peers@));
            return Err(BarrierError::DuplicatePeers);
        }
        i = i + 1;
    }
    assert(!has_adjacent_duplicate(peers@));
    Ok(())
}

proof fn lemma_adjacent_to_pairwise(s: Seq<usize>, i: int, j: int)
    requires
        sorted_adjacent(s),
        0 <= i <= j < s.len(),
    ensures
        s[i] <= s[j],
    decreases j - i,
{
    if i < j {
        lemma_adjacent_to_pairwise(s, i + 1, j);
        assert(s[i] <= s[i + 1]);
    }
}

/// A peer list passes validation exactly when it is strictly ascending.
pub proof fn law_valid_peer_list_is_strictly_sorted(s: Seq<usize>)
    ensures
        (spec_validate(s) is Ok) <==> strictly_sorted(s),
{
    if spec_validate(s) is Ok {
        assert forall|i: int, j: int| 0 <= i < j < s.len() implies s[i] < s[j] by {
            lemma_adjacent_to_pairwise(s, i + 1, j);
            assert(s[i] != s[i + 1]);
            assert(s[i] <= s[i + 1]);
        }
    }
    if strictly_sorted(s) {
        assert(sorted_adjacent(s)) by {
            assert forall|i: int| 0 <= i < s.len() - 1 implies #[trigger] s[i] <= s[i + 1] by {
                assert(s[i] < s[i + 1]);
            }
        }
        if has_adjacent_duplicate(s) {
            let i = choose|i: int| 0 <= i < s.len() - 1 && #[trigger] s[i] == s[i + 1];
            assert(s[i] < s[i + 1]);
        }
    }
}

/// Position of `rank` in a strictly ascending peer list (binary search).
pub fn find_rank(peers: &[usize], rank: usize) -> (r: Option<usize>)
    requires
        strictly_sorted(peers@),
    ensures
        match r {
            Some(i) => i < peers@.len() && peers@[i as int] == rank,
            None => !peers@.contains(rank),
        },
{
    let mut lo: usize = 0;
    let mut hi: usize = peers.len();
    while lo < hi
        invariant
            hi <= peers@.len(),
            lo <= hi,
            strictly_sorted(peers@),
            forall|j: int| 0 <= j < lo ==> peers@[j] < rank,
            forall|j: int| hi <= j < peers@.len() ==> peers@[j] > rank,
        decreases hi - lo,
    {
        let mid = lo + (hi - lo) / 2;
        if peers[mid] == rank {
            return Some(mid);
        } else if peers[mid] < rank {
            lo = mid + 1;
        } else {
            hi = mid;
        }
    }
    assert forall|j: int| 0 <= j < peers@.len() implies peers@[j] != rank by {}
    None
}

/// Ranks of the given positions of the peer list.
pub open spec fn ranks_at(peers: Seq<usize>, idxs: Seq<nat>) -> Seq<usize> {
    idxs.map_values(|i: nat| peers[i as int])
}

/// Binary-tree plan for the node at position `idx`: wait for each child, notify
/// the parent, wait for the parent, then notify all children at once.
pub open spec fn tree_plan(peers: Seq<usize>, idx: nat) -> Seq<StepView> {
    let children = ranks_at(peers, spec_children(idx, peers.len()));
    let waits = children.map_values(|c: usize| StepView::WaitFor(c));
    let up_down = match spec_parent(idx) {
        Some(p) => seq![StepView::Notify(peers[p as int]), StepView::WaitFor(peers[p as int])],
        None => Seq::<StepView>::empty(),
    };
    waits + up_down + seq![StepView::NotifyAll(children)]
}

/// Dissemination plan for the node at position `idx`: in each round notify the
/// right peer, then wait for the left peer.
pub open spec fn dissemination_plan(peers: Seq<usize>, idx: nat) -> Seq<StepView> {
    let len = peers.len();
    Seq::new(
        2 * num_rounds(len),
        |j: int|
            if j % 2 == 0 {
                StepView::Notify(peers[spec_round_pair(idx, len, (j / 2) as nat).0])
            } else {
                StepView::WaitFor(peers[spec_round_pair(idx, len, (j / 2) as nat).1])
            },
    )
}

/// Centralized plan: the leader (first peer) waits for every other peer and
/// then notifies them all; every other node notifies the leader and waits for it.
pub open spec fn linear_plan(peers: Seq<usize>, rank: usize) -> Seq<StepView> {
    let others = peers.skip(1);
    if rank == peers[0] {
        others.map_values(|p: usize| StepView::WaitFor(p)) + seq![StepView::NotifyAll(others)]
    } else {
        seq![StepView::Notify(peers[0]), StepView::WaitFor(peers[0])]
    }
}

/// The plan a node of rank `rank` runs for a barrier over `peers`, or the
/// error the synchronization ends with before any step. The tree and
/// dissemination algorithms first look the node up in the list, whatever its
/// length; a list of fewer than two peers needs no step.
pub open spec fn spec_plan(alg: BarrierAlgorithm, peers: Seq<usize>, rank: usize) -> Result<
    Seq<StepView>,
    BarrierError,
> {
    match alg {
        BarrierAlgorithm::Centralized => if peers.len() < 2 {
            Ok(Seq::empty())
        } else {
            Ok(linear_plan(peers, rank))
        },
        _ => {
            if !peers.contains(rank) {
                Err(BarrierError::SelfNotInGroup)
            } else if peers.len() < 2 {
                Ok(Seq::empty())
            } else {
                let idx = choose|i: int| 0 <= i < peers.len() && peers[i] == rank;
                match alg {
                    BarrierAlgorithm::BinaryTree => Ok(tree_plan(peers, idx as nat)),
                    _ => Ok(dissemination_plan(peers, idx as nat)),
                }
            }
        },
    }
}

/// Whether a plan result matches the planned view.
pub open spec fn plan_matches(
    r: Result<Vec<BarrierStep>, BarrierError>,
    s: Result<Seq<StepView>, BarrierError>,
) -> bool {
    match (r, s) {
        (Ok(v), Ok(p)) => steps_view(v@) == p,
        (Err(e), Err(f)) => e == f,
        _ => false,
    }
}

proof fn lemma_unique_position(peers: Seq<usize>, i: int, rank: usize)
    requires
        strictly_sorted(peers),
        0 <= i < peers.len(),
        peers[i] == rank,
    ensures
        (choose|j: int| 0 <= j < peers.len() && peers[j] == rank) == i,
{
    let j = choose|j: int| 0 <= j < peers.len() && peers[j] == rank;
    assert(0 <= j < peers.len() && peers[j] == rank);
    if j < i {
        assert(peers[j] < peers[i]);
    } else if j > i {
        assert(peers[i] < peers[j]);
    }
}

fn tree_steps(peers: &[usize], idx: usize) -> (r: Vec<BarrierStep>)
    requires
        idx < peers@.len(),
        peers@.len() <= usize::MAX / 2,
    ensures
        steps_view(r@) == tree_plan(peers@, idx as nat),
{
    let n = peers.len();
    let child_idxs = child_indices(idx, n);
    let ghost cs = spec_children(idx as nat, n as nat);
    let mut children: Vec<usize> = Vec::new();
    let mut steps: Vec<BarrierStep> = Vec::new();
    let mut i: usize = 0;
    while i < child_idxs.len()
        invariant
            n == peers@.len(),
            child_idxs@.len() == cs.len(),
            forall|j: int| 0 <= j < child_idxs@.len() ==> child_idxs@[j] == cs[j],
            forall|j: int| 0 <= j < cs.len() ==> cs[j] < n,
            i <= child_idxs@.len(),
            children@ == ranks_at(peers@, cs).take(i as int),
            steps_view(steps@) == ranks_at(peers@, cs).take(i as int).map_values(
                |c: usize| StepView::WaitFor(c),
            ),
        decreases child_idxs@.len() - i,
    {
        let c = child_idxs[i];
        assert(c == cs[i as int]);
        let rank = peers[c];
        let ghost old_steps = steps@;
        children.push(rank);
        steps.push(BarrierStep::WaitFor(rank));
        proof {
            lemma_steps_view_push(old_steps, BarrierStep::WaitFor(rank));
            assert(ranks_at(peers@, cs).take(i + 1) =~= ranks_at(peers@, cs).take(i as int).push(rank));
            assert(steps_view(steps@) =~= ranks_at(peers@, cs).take(i + 1).map_values(
                |c: usize| StepView::WaitFor(c),
            ));
        }
        i = i + 1;
    }
    proof {
        assert(ranks_at(peers@, cs).take(i as int) =~= ranks_at(peers@, cs));
    }
    let ghost waits = steps_view(steps@);
    match parent_index(idx) {
        Some(p) => {
            steps.push(BarrierStep::Notify(peers[p]));
            steps.push(BarrierStep::WaitFor(peers[p]));
        },
        None => {},
    }
    steps.push(BarrierStep::NotifyAll(children));
    proof {
        let up_down = match spec_parent(idx as nat) {
            Some(p) => seq![StepView::Notify(peers@[p as int]), StepView::WaitFor(peers@[p as int])],
            None => Seq::<StepView>::empty(),
        };
        assert(steps_view(steps@) =~= waits + up_down + seq![
            StepView::NotifyAll(ranks_at(peers@, cs)),
        ]);
    }
    steps
}

fn dissemination_steps(peers: &[usize], idx: usize) -> (r: Vec<BarrierStep>)
    requires
        idx < peers@.len(),
        peers@.len() <= usize::MAX / 2,
    ensures
        steps_view(r@) == dissemination_plan(peers@, idx as nat),
{
    let n = peers.len();
    let pairs = round_pairs(idx, n);
    let mut steps: Vec<BarrierStep> = Vec::new();
    let mut k: usize = 0;
    while k < pairs.len()
        invariant
            n == peers@.len(),
            idx < n,
            pairs@.len() == num_rounds(n as nat),
            forall|j: int|
                0 <= j < pairs@.len() ==> (#[trigger] pairs@[j]).0 == spec_round_pair(
                    idx as nat,
                    n as nat,
                    j as nat,
                ).0 && pairs@[j].1 == spec_round_pair(idx as nat, n as nat, j as nat).1,
            k <= pairs@.len(),
            steps_view(steps@) == dissemination_plan(peers@, idx as nat).take(2 * k),
        decreases pairs@.len() - k,
    {
        let (right, left) = pairs[k];
        proof {
            law_round_indices_in_bounds(idx as nat, n as nat, k as nat);
        }
        let ghost s0 = steps@;
        steps.push(BarrierStep::Notify(peers[right]));
        let ghost s1 = steps@;
        steps.push(BarrierStep::WaitFor(peers[left]));
        proof {
            lemma_steps_view_push(s0, BarrierStep::Notify(peers@[right as int]));
            lemma_steps_view_push(s1, BarrierStep::WaitFor(peers@[left as int]));
            let plan = dissemination_plan(peers@, idx as nat);
            assert(plan[2 * k as int] == StepView::Notify(peers@[right as int]));
            assert(plan[2 * k as int + 1] == StepView::WaitFor(peers@[left as int]));
            assert(steps_view(steps@) =~= plan.take(2 * k + 2));
        }
        k = k + 1;
    }
    proof {
        assert(dissemination_plan(peers@, idx as nat).take(2 * k) =~= dissemination_plan(
            peers@,
            idx as nat,
        ));
    }
    steps
}

fn linear_steps(peers: &[usize], rank: usize) -> (r: Vec<BarrierStep>)
    requires
        peers@.len() >= 1,
    ensures
        steps_view(r@) == linear_plan(peers@, rank),
{
    let leader = peers[0];
    let mut steps: Vec<BarrierStep> = Vec::new();
    if rank == leader {
        let mut others: Vec<usize> = Vec::new();
        let mut i: usize = 1;
        while i < peers.len()
            invariant
                1 <= i <= peers@.len(),
                others@ == peers@.skip(1).take(i - 1),
                steps_view(steps@) == peers@.skip(1).take(i - 1).map_values(
                    |p: usize| StepView::WaitFor(p),
                ),
            decreases peers@.len() - i,
        {
            let ghost s0 = steps@;
            others.push(peers[i]);
            steps.push(BarrierStep::WaitFor(peers[i]));
            proof {
                lemma_steps_view_push(s0, BarrierStep::WaitFor(peers@[i as int]));
                assert(peers@.skip(1).take(i as int) =~= peers@.skip(1).take(i - 1).push(
                    peers@[i as int],
                ));
                assert(steps_view(steps@) =~= peers@.skip(1).take(i as int).map_values(
                    |p: usize| StepView::WaitFor(p),
                ));
            }
            i = i + 1;
        }
        let ghost waits = steps_view(steps@);
        proof {
            assert(peers@.skip(1).take(i - 1) =~= peers@.skip(1));
        }
        steps.push(BarrierStep::NotifyAll(others));
        proof {
            assert(steps_view(steps@) =~= waits + seq![StepView::NotifyAll(peers@.skip(1))]);
        }
    } else {
        steps.push(BarrierStep::Notify(leader));
        steps.push(BarrierStep::WaitFor(leader));
        proof {
            assert(steps_view(steps@) =~= seq![StepView::Notify(leader), StepView::WaitFor(leader)]);
        }
    }
    steps
}

/// Computes the steps a node of rank `rank` performs in a barrier over the
/// strictly ascending peer list `peers` with the given algorithm.
pub fn plan_barrier(alg: BarrierAlgorithm, peers: &[usize], rank: usize) -> (r: Result<
    Vec<BarrierStep>,
    BarrierError,
>)
    requires
        strictly_sorted(peers@),
        peers@.len() <= usize::MAX / 2,
    ensures
        plan_matches(r, spec_plan(alg, peers@, rank)),
{
    match alg {
        BarrierAlgorithm::Centralized => {
            if peers.len() < 2 {
                let v: Vec<BarrierStep> = Vec::new();
                assert(steps_view(v@) =~= Seq::<StepView>::empty());
                Ok(v)
            } else {
                Ok(linear_steps(peers, rank))
            }
        },
        _ => {
            match find_rank(peers, rank) {
                None => Err(BarrierError::SelfNotInGroup),
                Some(idx) => {
                    if peers.len() < 2 {
                        let v: Vec<BarrierStep> = Vec::new();
                        assert(steps_view(v@) =~= Seq::<StepView>::empty());
                        return Ok(v);
                    }
                    proof {
                        lemma_unique_position(peers@, idx as int, rank);
                    }
                    match alg {
                        BarrierAlgorithm::BinaryTree => Ok(tree_steps(peers, idx)),
                        _ => Ok(dissemination_steps(peers, idx)),
                    }
                },
            }
        },
    }
}

/// Whether a step names only members of `peers`, and never `rank` itself.
pub open spec fn names_other_peers(step: StepView, peers: Seq<usize>, rank: usize) -> bool {
    match step {
        StepView::Notify(r) => peers.contains(r) && r != rank,
        StepView::WaitFor(r) => peers.contains(r) && r != rank,
        StepView::NotifyAll(v) => forall|m: int| 0 <= m < v.len() ==> peers.contains(#[trigger] v[m])
            && v[m] != rank,
    }
}

/// Every step of every plan names members of the peer list only, and never
/// the planning node itself: a node only notifies and waits for peers of
/// its group.
pub proof fn law_plans_name_only_other_peers(alg: BarrierAlgorithm, peers: Seq<usize>, rank: usize)
    requires
        strictly_sorted(peers),
    ensures
        spec_plan(alg, peers, rank) matches Ok(plan) ==> forall|j: int|
            0 <= j < plan.len() ==> names_other_peers(#[trigger] plan[j], peers, rank),
{
    let len = peers.len();
    match spec_plan(alg, peers, rank) {
        Err(_) => {},
        Ok(plan) => {
            if len >= 2 {
                match alg {
                    BarrierAlgorithm::Centralized => {
                        let others = peers.skip(1);
                        if rank == peers[0] {
                            assert forall|m: int| 0 <= m < others.len() implies peers.contains(
                                #[trigger] others[m],
                            ) && others[m] != rank by {
                                assert(peers[m + 1] == others[m]);
                                assert(peers.contains(peers[m + 1]));
                                assert(peers[0] < peers[m + 1]);
                            }
                        }
                        assert forall|j: int| 0 <= j < plan.len() implies names_other_peers(
                            #[trigger] plan[j],
                            peers,
                            rank,
                        ) by {
                            if rank == peers[0] {
                                if j < others.len() {
                                    assert(plan[j] == StepView::WaitFor(others[j]));
                                } else {
                                    assert(plan[j] == StepView::NotifyAll(others));
                                }
                            } else {
                                assert(peers.contains(peers[0]));
                            }
                        }
                    },
                    BarrierAlgorithm::BinaryTree => {
                        let idx = choose|i: int| 0 <= i < peers.len() && peers[i] == rank;
                        let cs = spec_children(idx as nat, len);
                        let children = ranks_at(peers, cs);
                        assert forall|m: int| 0 <= m < children.len() implies peers.contains(
                            #[trigger] children[m],
                        ) && children[m] != rank by {
                            law_parent_of_child_is_self(idx as nat, len, m);
                            assert(peers[cs[m] as int] == children[m]);
                            assert(idx < cs[m]);
                            assert(peers[idx] < peers[cs[m] as int]);
                        }
                        let waits = children.map_values(|c: usize| StepView::WaitFor(c));
                        let up_down = match spec_parent(idx as nat) {
                            Some(p) => seq![
                                StepView::Notify(peers[p as int]),
                                StepView::WaitFor(peers[p as int]),
                            ],
                            None => Seq::<StepView>::empty(),
                        };
                        assert(plan == waits + up_down + seq![StepView::NotifyAll(children)]);
                        assert forall|j: int| 0 <= j < plan.len() implies names_other_peers(
                            #[trigger] plan[j],
                            peers,
                            rank,
                        ) by {
                            if j < waits.len() {
                                assert(plan[j] == StepView::WaitFor(children[j]));
                            } else if j < waits.len() + up_down.len() {
                                let p = ((idx - 1) / 2) as int;
                                assert(p < idx);
                                assert(peers[p] < peers[idx]);
                                assert(peers.contains(peers[p]));
                            } else {
                                assert(plan[j] == StepView::NotifyAll(children));
                            }
                        }
                    },
                    BarrierAlgorithm::Dissemination => {
                        let idx = choose|i: int| 0 <= i < peers.len() && peers[i] == rank;
                        assert forall|j: int| 0 <= j < plan.len() implies names_other_peers(
                            #[trigger] plan[j],
                            peers,
                            rank,
                        ) by {
                            let k = (j / 2) as nat;
                            law_round_indices_in_bounds(idx as nat, len, k);
                            law_round_never_self(idx as nat, len, k);
                            let (a, b) = spec_round_pair(idx as nat, len, k);
                            if a < idx {
                                assert(peers[a] < peers[idx]);
                            } else {
                                assert(peers[idx] < peers[a]);
                            }
                            if b < idx {
                                assert(peers[b] < peers[idx]);
                            } else {
                                assert(peers[idx] < peers[b]);
                            }
                            assert(peers.contains(peers[a]));
                            assert(peers.contains(peers[b]));
                        }
                    },
                }
            }
        },
    }
}

/// The dissemination plan of the node at position `idx` of the peer list
/// runs one round per doubling of the distance: in round `k` it notifies the
/// peer `2^k` positions to its right and then waits for the peer `2^k`
/// positions to its left, positions counted around the list.
pub proof fn law_dissemination_rounds(peers: Seq<usize>, idx: int)
    requires
        strictly_sorted(peers),
        peers.len() >= 2,
        0 <= idx < peers.len(),
    ensures
        spec_plan(BarrierAlgorithm::Dissemination, peers, peers[idx]) matches Ok(plan) && plan.len()
            == 2 * num_rounds(peers.len()) && forall|k: nat|
            k < num_rounds(peers.len()) ==> plan[2 * k as int] == StepView::Notify(
                peers[(idx + #[trigger] pow2(k)) % (peers.len() as int)],
            ) && plan[2 * k as int + 1] == StepView::WaitFor(
                peers[(idx + peers.len() - pow2(k)) % (peers.len() as int)],
            ),
{
    lemma_unique_position(peers, idx, peers[idx]);
    let plan = dissemination_plan(peers, idx as nat);
    assert forall|k: nat| k < num_rounds(peers.len()) implies plan[2 * k as int] == StepView::Notify(
        peers[(idx + #[trigger] pow2(k)) % (peers.len() as int)],
    ) && plan[2 * k as int + 1] == StepView::WaitFor(
        peers[(idx + peers.len() - pow2(k)) % (peers.len() as int)],
    ) by {
        assert((2 * k) / 2 == k);
        assert((2 * k + 1) / 2 == k);
        assert((2 * k) % 2 == 0);
        assert((2 * k + 1) % 2 == 1);
    }
}

/// In the binary-tree plans every node at position `i > 0` and its parent at
/// position `(i - 1) / 2` meet twice: the parent waits for the child before
/// anything but other waits, and releases it with its final notification,
/// whose list holds exactly the parent's children; the child, once done
/// waiting, notifies the parent, then waits for it, then releases its own
/// children last.
pub proof fn law_tree_parent_and_child_meet(peers: Seq<usize>, i: int)
    requires
        strictly_sorted(peers),
        0 < i < peers.len(),
    ensures
        ({
            let p = (i - 1) / 2;
            &&& (spec_plan(BarrierAlgorithm::BinaryTree, peers, peers[p]) matches Ok(plan)
                && plan.len() > 0 && (exists|w: int|
                0 <= w < plan.len() && plan[w] == StepView::WaitFor(peers[i]) && forall|j: int|
                    0 <= j <= w ==> #[trigger] plan[j] is WaitFor) && (plan.last() matches StepView::NotifyAll(
                v,
            ) && v.contains(peers[i]) && forall|m: int|
                0 <= m < v.len() ==> exists|c: int|
                    0 < c < peers.len() && (c - 1) / 2 == p && #[trigger] v[m] == peers[c]))
            &&& (spec_plan(BarrierAlgorithm::BinaryTree, peers, peers[i]) matches Ok(cplan)
                && cplan.len() >= 3 && ({
                let a = cplan.len() - 3;
                &&& cplan[a] == StepView::Notify(peers[p])
                &&& cplan[a + 1] == StepView::WaitFor(peers[p])
                &&& cplan[a + 2] is NotifyAll
                &&& forall|j: int| 0 <= j < a ==> #[trigger] cplan[j] is WaitFor
            }))
        }),
{
    let len = peers.len();
    let p = (i - 1) / 2;
    lemma_unique_position(peers, p, peers[p]);
    lemma_unique_position(peers, i, peers[i]);
    law_every_node_is_child_of_parent(i as nat, len);
    let cs = spec_children(p as nat, len);
    let children = ranks_at(peers, cs);
    let ci = choose|m: int| 0 <= m < cs.len() && cs[m] == i as nat;
    assert(children[ci] == peers[i]);
    let waits = children.map_values(|c: usize| StepView::WaitFor(c));
    let up_down = match spec_parent(p as nat) {
        Some(q) => seq![StepView::Notify(peers[q as int]), StepView::WaitFor(peers[q as int])],
        None => Seq::<StepView>::empty(),
    };
    let plan = waits + up_down + seq![StepView::NotifyAll(children)];
    assert(plan == tree_plan(peers, p as nat));
    assert(plan[ci] == StepView::WaitFor(peers[i]));
    assert forall|j: int| 0 <= j <= ci implies #[trigger] plan[j] is WaitFor by {
        assert(plan[j] == waits[j]);
    }
    assert(plan.last() == StepView::NotifyAll(children));
    assert forall|m: int| 0 <= m < children.len() implies exists|c: int|
        0 < c < peers.len() && (c - 1) / 2 == p && #[trigger] children[m] == peers[c] by {
        law_parent_of_child_is_self(p as nat, len, m);
        let c = cs[m] as int;
        assert(children[m] == peers[c]);
    }
    let ccs = spec_children(i as nat, len);
    let cchildren = ranks_at(peers, ccs);
    let cwaits = cchildren.map_values(|c: usize| StepView::WaitFor(c));
    let cud = seq![StepView::Notify(peers[p]), StepView::WaitFor(peers[p])];
    let cplan = cwaits + cud + seq![StepView::NotifyAll(cchildren)];
    assert(cplan == tree_plan(peers, i as nat));
    let a = cwaits.len() as int;
    assert(cplan[a] == StepView::Notify(peers[p]));
    assert(cplan[a + 1] == StepView::WaitFor(peers[p]));
    assert(cplan[a + 2] == StepView::NotifyAll(cchildren));
    assert forall|j: int| 0 <= j < a implies #[trigger] cplan[j] is WaitFor by {
        assert(cplan[j] == cwaits[j]);
    }
}

/// A connected barrier of one node: its rank, its algorithm and whether a
/// previous error has poisoned it.
#[derive(Debug)]
pub struct Barrier {
    rank: usize,
    algorithm: BarrierAlgorithm,
    poisoned: bool,
}

impl Barrier {
    pub closed spec fn spec_rank(&self) -> usize {
        self.rank
    }

    pub closed spec fn spec_algorithm(&self) -> BarrierAlgorithm {
        self.algorithm
    }

    pub closed spec fn spec_poisoned(&self) -> bool {
        self.poisoned
    }

    /// A fresh, unpoisoned barrier for the node of rank `rank`.
    pub fn new(algorithm: BarrierAlgorithm, rank: usize) -> (b: Barrier)
        ensures
            b.spec_rank() == rank,
            b.spec_algorithm() == algorithm,
            !b.spec_poisoned(),
    {
        Barrier { rank, algorithm, poisoned: false }
    }

    /// This node's rank.
    pub fn rank(&self) -> (r: usize)
        ensures
            r == self.spec_rank(),
    {
        self.rank
    }

    /// The algorithm this barrier runs.
    pub fn algorithm(&self) -> (a: BarrierAlgorithm)
        ensures
            a == self.spec_algorithm(),
    {
        self.algorithm
    }

    /// Whether an earlier error has poisoned the barrier.
    pub fn is_poisoned(&self) -> (p: bool)
        ensures
            p == self.spec_poisoned(),
    {
        self.poisoned
    }

    /// Plans a synchronization with the given peers, skipping validation of
    /// the list, which must be strictly ascending unless the barrier is
    /// poisoned. A poisoned barrier answers `Poisoned` whatever the list; an
    /// error while planning poisons the barrier.
    pub fn barrier_unchecked(&mut self, peers: &[usize]) -> (r: Result<Vec<BarrierStep>, BarrierError>)
        requires
            !old(self).spec_poisoned() ==> strictly_sorted(peers@),
            peers@.len() <= usize::MAX / 2,
        ensures
            final(self).spec_rank() == old(self).spec_rank(),
            final(self).spec_algorithm() == old(self).spec_algorithm(),
            final(self).spec_poisoned() == (old(self).spec_poisoned() || r is Err),
            old(self).spec_poisoned() ==> (r matches Err(BarrierError::Poisoned)),
            !old(self).spec_poisoned() ==> plan_matches(
                r,
                spec_plan(old(self).spec_algorithm(), peers@, old(self).spec_rank()),
            ),
    {
        if self.poisoned {
            return Err(BarrierError::Poisoned);
        }
        let r = plan_barrier(self.algorithm, peers, self.rank);
        if r.is_err() {
            self.poisoned = true;
        }
        r
    }

    /// Validates the peer list (sorted, without duplicates, and for the
    /// centralized algorithm including this node), then plans the
    /// synchronization as [`barrier_unchecked`](Self::barrier_unchecked) does.
    /// A poisoned barrier answers `Poisoned` at once, whatever the list; any
    /// error, a validation error too, leaves the barrier poisoned.
    pub fn barrier(&mut self, peers: &[usize]) -> (r: Result<Vec<BarrierStep>, BarrierError>)
        requires
            peers@.len() <= usize::MAX / 2,
        ensures
            final(self).spec_rank() == old(self).spec_rank(),
            final(self).spec_algorithm() == old(self).spec_algorithm(),
            final(self).spec_poisoned() == (old(self).spec_poisoned() || r is Err),
            old(self).spec_poisoned() ==> (r matches Err(BarrierError::Poisoned)),
            !old(self).spec_poisoned() && spec_validate(peers@) is Err ==> (r matches Err(e)
                && spec_validate(peers@) == Err::<(), BarrierError>(e)),
            !old(self).spec_poisoned() && spec_validate(peers@) is Ok && old(self).spec_algorithm()
                == BarrierAlgorithm::Centralized && !peers@.contains(old(self).spec_rank()) ==> (r
                matches Err(BarrierError::SelfNotInGroup)),
            !old(self).spec_poisoned() && spec_validate(peers@) is Ok && (old(self).spec_algorithm()
                != BarrierAlgorithm::Centralized || peers@.contains(old(self).spec_rank())) ==> plan_matches(
                r,
                spec_plan(old(self).spec_algorithm(), peers@, old(self).spec_rank()),
            ),
    {
        if self.poisoned {
            return Err(BarrierError::Poisoned);
        }
        match validate_peer_list(peers) {
            Err(e) => {
                self.poisoned = true;
                return Err(e);
            },
            Ok(()) => {},
        }
        proof {
            law_valid_peer_list_is_strictly_sorted(peers@);
        }
        match self.algorithm {
            BarrierAlgorithm::Centralized => {
                if find_rank(peers, self.rank).is_none() {
                    self.poisoned = true;
                    return Err(BarrierError::SelfNotInGroup);
                }
            },
            _ => {},
        }
        self.barrier_unchecked(peers)
    }

    /// Records how the execution of a plan ended: an error poisons the barrier.
    /// Returns the outcome unchanged.
    pub fn complete(&mut self, outcome: Result<(), BarrierError>) -> (r: Result<(), BarrierError>)
        ensures
            r == outcome,
            final(self).spec_rank() == old(self).spec_rank(),
            final(self).spec_algorithm() == old(self).spec_algorithm(),
            final(self).spec_poisoned() == (old(self).spec_poisoned() || outcome is Err),
    {
        if outcome.is_err() {
            self.poisoned = true;
        }
        outcome
    }
}

} // verus!

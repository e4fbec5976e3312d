//! Index arithmetic of the barrier topologies: the implicit binary tree over
//! the sorted peer list and the rounds of the dissemination barrier.
use vstd::prelude::*;

verus! {

/// `2^k`.
pub open spec fn pow2(k: nat) -> nat
    decreases k,
{
    if k == 0 {
        1
    } else {
        2 * pow2((k - 1) as nat)
    }
}

/// `floor(log2(n))` for `n >= 1` (and 0 for `n <= 1`).
pub open spec fn floor_log2(n: nat) -> nat
    decreases n,
{
    if n <= 1 {
        0
    } else {
        1 + floor_log2(n / 2)
    }
}

/// Number of `k` with `2^k < len`: the number of dissemination rounds.
pub open spec fn num_rounds(len: nat) -> nat
    decreases len,
{
    if len <= 1 {
        0
    } else {
        1 + num_rounds(((len + 1) / 2) as nat)
    }
}

/// The parent of a node of the implicit binary tree, `None` for the root.
pub open spec fn spec_parent(idx: nat) -> Option<nat> {
    if idx > 0 {
        Some(((idx - 1) / 2) as nat)
    } else {
        None
    }
}

/// The children of node `idx` that exist in a tree of `len` nodes, left first.
pub open spec fn spec_children(idx: nat, len: nat) -> Seq<nat> {
    let l = 2 * idx + 1;
    let r = 2 * idx + 2;
    if r < len {
        seq![l, r]
    } else if l < len {
        seq![l]
    } else {
        Seq::empty()
    }
}

/// Number of parent steps from `idx` to the root.
pub open spec fn depth(idx: nat) -> nat
    decreases idx,
{
    if idx == 0 {
        0
    } else {
        1 + depth(((idx - 1) / 2) as nat)
    }
}

/// The `(notify, wait)` pair of round `k` for node `idx` in a ring of `len`.
pub open spec fn spec_round_pair(idx: nat, len: nat, k: nat) -> (int, int) {
    let d = pow2(k);
    (((idx + d) as int) % (len as int), ((idx + len - d) as int) % (len as int))
}

/// Returns the parent index in a zero-indexed binary tree, or `None` for the root.
pub fn parent_index(idx: usize) -> (r: Option<usize>)
    ensures
        r == (match spec_parent(idx as nat) {
            Some(p) => Some(p as usize),
            None => None::<usize>,
        }),
{
    if idx > 0 {
        Some((idx - 1) / 2)
    } else {
        None
    }
}

/// Returns the child indices that exist within a tree of `len` nodes.
pub fn child_indices(idx: usize, len: usize) -> (r: Vec<usize>)
    requires
        idx <= (usize::MAX - 2) / 2,
    ensures
        r@.len() == spec_children(idx as nat, len as nat).len(),
        forall|i: int| 0 <= i < r@.len() ==> r@[i] == spec_children(idx as nat, len as nat)[i],
{
    let mut out: Vec<usize> = Vec::new();
    let l = 2 * idx + 1;
    let r = 2 * idx + 2;
    if l < len {
        out.push(l);
    }
    if r < len {
        out.push(r);
    }
    out
}

proof fn lemma_pow2_facts(k: nat)
    ensures
        pow2(k) >= 1,
        pow2(k + 1) == 2 * pow2(k),
    decreases k,
{
    if k > 0 {
        lemma_pow2_facts((k - 1) as nat);
    }
}

/// `num_rounds(len) > k` exactly when `2^k < len`.
proof fn lemma_num_rounds(len: nat, k: nat)
    ensures
        (k < num_rounds(len)) <==> (pow2(k) < len),
    decreases len,
{
    lemma_pow2_facts(k);
    if len <= 1 {
    } else {
        let h = ((len + 1) / 2) as nat;
        if k > 0 {
            let k1 = (k - 1) as nat;
            lemma_num_rounds(h, k1);
            lemma_pow2_facts(k1);
            // 2 * p < len  <==>  p < (len + 1) / 2
        }
    }
}

/// Returns the `(notify_right_idx, wait_left_idx)` pairs for each round of the
/// dissemination barrier. The distance doubles each round (1, 2, 4, ...): the
/// node at `idx` notifies the peer `distance` positions to the right (wrapping)
/// and waits for the peer `distance` positions to the left.
pub fn round_pairs(idx: usize, len: usize) -> (r: Vec<(usize, usize)>)
    requires
        idx + len <= usize::MAX,
    ensures
        r@.len() == num_rounds(len as nat),
        forall|k: int|
            0 <= k < r@.len() ==> (#[trigger] r@[k]).0 == spec_round_pair(idx as nat, len as nat, k as nat).0
                && r@[k].1 == spec_round_pair(idx as nat, len as nat, k as nat).1,
{
    let mut out: Vec<(usize, usize)> = Vec::new();
    let mut d: usize = 1;
    let ghost mut k: nat = 0;
    proof {
        lemma_num_rounds(len as nat, 0);
    }
    while d < len
        invariant_except_break
            d == pow2(k),
            (d < len) <==> (k < num_rounds(len as nat)),
        invariant
            idx + len <= usize::MAX,
            out@.len() == k,
            k <= num_rounds(len as nat),
            forall|j: int|
                0 <= j < out@.len() ==> (#[trigger] out@[j]).0 == spec_round_pair(
                    idx as nat,
                    len as nat,
                    j as nat,
                ).0 && out@[j].1 == spec_round_pair(idx as nat, len as nat, j as nat).1,
        ensures
            out@.len() == num_rounds(len as nat),
            forall|j: int|
                0 <= j < out@.len() ==> (#[trigger] out@[j]).0 == spec_round_pair(
                    idx as nat,
                    len as nat,
                    j as nat,
                ).0 && out@[j].1 == spec_round_pair(idx as nat, len as nat, j as nat).1,
        decreases usize::MAX - d,
    {
        out.push(((idx + d) % len, (idx + len - d) % len));
        proof {
            lemma_pow2_facts(k);
            lemma_num_rounds(len as nat, k + 1);
        }
        if d > usize::MAX / 2 {
            // the next distance is at least `len`: no further round exists
            proof {
                assert(pow2(k + 1) >= len);
                k = k + 1;
            }
            break;
        }
        d = d * 2;
        proof {
            k = k + 1;
        }
    }
    out
}

// ---------------------------------------------------------------------------
// Laws of the binary tree
// ---------------------------------------------------------------------------
/// The parent of every existing child of `idx` is `idx`.
pub proof fn law_parent_of_child_is_self(idx: nat, len: nat, i: int)
    requires
        0 <= i < spec_children(idx, len).len(),
    ensures
        spec_parent(spec_children(idx, len)[i]) == Some(idx),
        spec_children(idx, len)[i] < len,
{
}

/// Every non-root node has a parent strictly smaller than itself (and hence
/// within any tree that contains the node).
pub proof fn law_parent_below_child(idx: nat)
    requires
        idx > 0,
    ensures
        spec_parent(idx) matches Some(p) && p < idx,
{
}

/// Every non-root node of a tree of `len` nodes is a child of its parent, so
/// all nodes are reachable from the root through `spec_children`.
pub proof fn law_every_node_is_child_of_parent(idx: nat, len: nat)
    requires
        0 < idx < len,
    ensures
        spec_parent(idx) matches Some(p) && spec_children(p, len).contains(idx),
{
    let p = ((idx - 1) / 2) as nat;
    let c = spec_children(p, len);
    if idx % 2 == 1 {
        assert(idx == 2 * p + 1);
        assert(c[0] == idx);
    } else {
        assert(idx == 2 * p + 2);
        if c.len() == 2 {
            assert(c[1] == idx);
        }
    }
}

/// The depth of node `idx` (parent steps to the root) is `floor(log2(idx + 1))`:
/// the tree is balanced, so the deepest node of a tree of `len` nodes is at depth
/// `floor(log2(len))`.
pub proof fn law_depth_is_logarithmic(idx: nat)
    ensures
        depth(idx) == floor_log2(idx + 1),
    decreases idx,
{
    if idx > 0 {
        let p = ((idx - 1) / 2) as nat;
        law_depth_is_logarithmic(p);
        assert((idx + 1) / 2 == p + 1);
    }
}

/// Depth only grows with the index: every node is at depth at most that of the
/// last node of the tree.
pub proof fn law_depth_monotonic(i: nat, j: nat)
    requires
        i <= j,
    ensures
        depth(i) <= depth(j),
    decreases j,
{
    if i > 0 && j > 0 {
        law_depth_monotonic(((i - 1) / 2) as nat, ((j - 1) / 2) as nat);
    }
}

// ---------------------------------------------------------------------------
// Laws of the dissemination rounds
// ---------------------------------------------------------------------------
/// The number of rounds is `ceil(log2(len))`: `2^(rounds - 1) < len <= 2^rounds`.
pub proof fn law_round_count_is_ceil_log2(len: nat)
    requires
        len >= 1,
    ensures
        len <= pow2(num_rounds(len)),
        num_rounds(len) > 0 ==> pow2((num_rounds(len) - 1) as nat) < len,
{
    lemma_num_rounds(len, num_rounds(len));
    if num_rounds(len) > 0 {
        lemma_num_rounds(len, (num_rounds(len) - 1) as nat);
    }
}

/// Both indices of every round lie inside the ring.
pub proof fn law_round_indices_in_bounds(idx: nat, len: nat, k: nat)
    requires
        idx < len,
        k < num_rounds(len),
    ensures
        spec_round_pair(idx, len, k).0 < len,
        spec_round_pair(idx, len, k).1 < len,
{
    lemma_num_rounds(len, k);
    lemma_pow2_facts(k);
}

/// No node notifies or waits for itself.
pub proof fn law_round_never_self(idx: nat, len: nat, k: nat)
    requires
        idx < len,
        k < num_rounds(len),
    ensures
        spec_round_pair(idx, len, k).0 != idx,
        spec_round_pair(idx, len, k).1 != idx,
{
    lemma_num_rounds(len, k);
    lemma_pow2_facts(k);
    let d = pow2(k);
    let a = idx + d;
    let b = idx + len - d;
    if a < len {
        vstd::arithmetic::div_mod::lemma_small_mod(a, len);
    } else {
        assert(a - len < len);
        assert((a as int) % (len as int) == a - len) by {
            vstd::arithmetic::div_mod::lemma_mod_sub_multiples_vanish(a as int, len as int);
            vstd::arithmetic::div_mod::lemma_small_mod((a - len) as nat, len);
        }
    }
    if b < len {
        vstd::arithmetic::div_mod::lemma_small_mod(b as nat, len);
    } else {
        assert((b as int) % (len as int) == b - len) by {
            vstd::arithmetic::div_mod::lemma_mod_sub_multiples_vanish(b as int, len as int);
            vstd::arithmetic::div_mod::lemma_small_mod((b - len) as nat, len);
        }
    }
}

/// If node `idx` notifies node `t` in round `k`, then node `t` waits for node
/// `idx` in that same round.
pub proof fn law_notify_and_wait_are_symmetric(idx: nat, len: nat, k: nat)
    requires
        idx < len,
        k < num_rounds(len),
    ensures
        spec_round_pair(spec_round_pair(idx, len, k).0 as nat, len, k).1 == idx,
{
    lemma_num_rounds(len, k);
    lemma_pow2_facts(k);
    let d = pow2(k);
    let t = (((idx + d) as int) % (len as int)) as nat;
    let a = idx + d;
    if a < len {
        vstd::arithmetic::div_mod::lemma_small_mod(a, len);
        assert(t + len - d == idx + len);
        assert(((idx + len) as int) % (len as int) == idx) by {
            vstd::arithmetic::div_mod::lemma_mod_sub_multiples_vanish((idx + len) as int, len as int);
            vstd::arithmetic::div_mod::lemma_small_mod(idx, len);
        }
    } else {
        assert((a as int) % (len as int) == a - len) by {
            vstd::arithmetic::div_mod::lemma_mod_sub_multiples_vanish(a as int, len as int);
            vstd::arithmetic::div_mod::lemma_small_mod((a - len) as nat, len);
        }
        assert(t + len - d == idx);
        vstd::arithmetic::div_mod::lemma_small_mod(idx, len);
    }
}

/// Following the first-round notification `steps` times from `i`.
pub open spec fn first_round_walk(i: nat, len: nat, steps: nat) -> nat
    decreases steps,
{
    if steps == 0 {
        i
    } else {
        spec_round_pair(first_round_walk(i, len, (steps - 1) as nat), len, 0).0 as nat
    }
}

/// All nodes communicate transitively: from any node `i`, repeatedly following
/// the first-round notification reaches any node `j` of a ring of `len >= 2`.
pub proof fn law_all_pairs_communicate_transitively(i: nat, j: nat, len: nat)
    requires
        len >= 2,
        i < len,
        j < len,
    ensures
        first_round_walk(i, len, (((j + len - i) as int) % (len as int)) as nat) == j,
{
    let steps = (((j + len - i) as int) % (len as int)) as nat;
    lemma_walk(i, len, steps);
    let s = i + steps;
    if j >= i {
        assert(((j + len - i) as int) % (len as int) == j - i) by {
            vstd::arithmetic::div_mod::lemma_mod_sub_multiples_vanish((j + len - i) as int, len as int);
            vstd::arithmetic::div_mod::lemma_small_mod((j - i) as nat, len);
        }
        vstd::arithmetic::div_mod::lemma_small_mod(j, len);
    } else {
        vstd::arithmetic::div_mod::lemma_small_mod((j + len - i) as nat, len);
        assert(s == j + len);
        vstd::arithmetic::div_mod::lemma_mod_sub_multiples_vanish(s as int, len as int);
        vstd::arithmetic::div_mod::lemma_small_mod(j, len);
    }
}

proof fn lemma_walk(i: nat, len: nat, steps: nat)
    requires
        len >= 2,
        i < len,
    ensures
        first_round_walk(i, len, steps) == ((i + steps) as int) % (len as int),
    decreases steps,
{
    if steps > 0 {
        lemma_walk(i, len, (steps - 1) as nat);
        let x = (i + steps - 1) as int;
        let prev = first_round_walk(i, len, (steps - 1) as nat);
        assert(prev == x % (len as int));
        assert(pow2(0) == 1);
        assert(spec_round_pair(prev, len, 0).0 == ((prev + 1) as int) % (len as int));
        vstd::arithmetic::div_mod::lemma_add_mod_noop(x, 1, len as int);
        vstd::arithmetic::div_mod::lemma_small_mod(1, len);
        assert(((prev + 1) as int) % (len as int) == (x + 1) % (len as int));
        vstd::arithmetic::div_mod::lemma_mod_bound(x + 1, len as int);
        assert(first_round_walk(i, len, steps) == spec_round_pair(prev, len, 0).0 as nat);
        assert(x + 1 == i + steps);
        assert(first_round_walk(i, len, steps) == (x + 1) % (len as int));
    } else {
        vstd::arithmetic::div_mod::lemma_small_mod(i, len);
    }
}

} // verus!

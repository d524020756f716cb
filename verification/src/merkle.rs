//! Append-only fixed-depth Merkle accumulator over committed leaf hashes.
//!
//! The tree keeps O(DEPTH) state — the rightmost known subtree hash at each
//! level — yet its `root` field always equals the Merkle root of all leaves
//! inserted so far, with unfilled slots standing at a fixed empty sentinel.
use vstd::prelude::*;
use vstd::arithmetic::power2::{
    pow2, lemma2_to64, lemma_pow2_pos, lemma_pow2_unfold, lemma_pow2_strictly_increases,
};

use crate::errors::BridgeError;
use crate::hash::{Data, empty_data, empty_data_spec, hash_pair, hash_pair_spec};

verus! {

/// The hash of the all-empty subtree of height `level`.
pub open spec fn zero_at(level: nat) -> Seq<u8>
    decreases level,
{
    if level == 0 {
        empty_data_spec()
    } else {
        hash_pair_spec(zero_at((level - 1) as nat), zero_at((level - 1) as nat))
    }
}

/// The hash of node `idx` at height `level` of the tree holding `leaves` in
/// insertion order, every unfilled leaf slot standing at the empty sentinel.
pub open spec fn node_hash(leaves: Seq<Seq<u8>>, level: nat, idx: nat) -> Seq<u8>
    decreases level,
{
    if level == 0 {
        if idx < leaves.len() {
            leaves[idx as int]
        } else {
            zero_at(0)
        }
    } else {
        hash_pair_spec(
            node_hash(leaves, (level - 1) as nat, 2 * idx),
            node_hash(leaves, (level - 1) as nat, 2 * idx + 1),
        )
    }
}

/// The Merkle root of the depth-`depth` tree over `leaves`.
pub open spec fn root_spec(leaves: Seq<Seq<u8>>, depth: nat) -> Seq<u8> {
    node_hash(leaves, depth, 0)
}

/// The index, at height `level`, of the node whose subtree holds leaf `n`.
pub open spec fn idx_at(n: nat, level: nat) -> nat
    decreases level,
{
    if level == 0 {
        n
    } else {
        idx_at(n, (level - 1) as nat) / 2
    }
}

proof fn lemma_idx_at_zero(level: nat)
    ensures
        idx_at(0, level) == 0,
    decreases level,
{
    if level > 0 {
        lemma_idx_at_zero((level - 1) as nat);
    }
}

/// Leaf `n` lies inside the leaf range of its height-`level` ancestor.
proof fn lemma_idx_at_bounds(n: nat, level: nat)
    ensures
        idx_at(n, level) * pow2(level) <= n < (idx_at(n, level) + 1) * pow2(level),
    decreases level,
{
    if level == 0 {
        assert(pow2(0) == 1) by {
            lemma2_to64();
        }
    } else {
        let lm1 = (level - 1) as nat;
        lemma_idx_at_bounds(n, lm1);
        lemma_pow2_unfold(level);
        lemma_pow2_pos(lm1);
        let c = idx_at(n, lm1);
        let d = c / 2;
        assert(c == 2 * d || c == 2 * d + 1);
        assert(d * pow2(level) <= n) by (nonlinear_arith)
            requires
                c * pow2(lm1) <= n,
                pow2(level) == 2 * pow2(lm1),
                c == 2 * d || c == 2 * d + 1,
                pow2(lm1) >= 1,
        ;
        assert(n < (d + 1) * pow2(level)) by (nonlinear_arith)
            requires
                n < (c + 1) * pow2(lm1),
                pow2(level) == 2 * pow2(lm1),
                c == 2 * d || c == 2 * d + 1,
                pow2(lm1) >= 1,
        ;
    }
}

/// A node whose whole leaf range lies at or beyond `leaves.len()` hashes to
/// the all-empty sentinel of its height.
proof fn lemma_node_all_empty(leaves: Seq<Seq<u8>>, level: nat, idx: nat)
    requires
        leaves.len() <= idx * pow2(level),
    ensures
        node_hash(leaves, level, idx) == zero_at(level),
    decreases level,
{
    if level == 0 {
        assert(pow2(0) == 1) by {
            lemma2_to64();
        }
    } else {
        let lm1 = (level - 1) as nat;
        lemma_pow2_unfold(level);
        lemma_pow2_pos(lm1);
        assert(leaves.len() <= (2 * idx) * pow2(lm1) && (2 * idx) * pow2(lm1) <= (2 * idx + 1)
            * pow2(lm1)) by (nonlinear_arith)
            requires
                leaves.len() <= idx * pow2(level),
                pow2(level) == 2 * pow2(lm1),
                pow2(lm1) >= 1,
        ;
        lemma_node_all_empty(leaves, lm1, 2 * idx);
        lemma_node_all_empty(leaves, lm1, 2 * idx + 1);
    }
}

/// A node whose whole leaf range lies before `leaves.len()` keeps its hash
/// when a leaf is appended.
proof fn lemma_node_push_agnostic(leaves: Seq<Seq<u8>>, a: Seq<u8>, level: nat, idx: nat)
    requires
        (idx + 1) * pow2(level) <= leaves.len(),
    ensures
        node_hash(leaves.push(a), level, idx) == node_hash(leaves, level, idx),
    decreases level,
{
    if level == 0 {
        assert(pow2(0) == 1) by {
            lemma2_to64();
        }
        assert(leaves.push(a)[idx as int] == leaves[idx as int]);
    } else {
        let lm1 = (level - 1) as nat;
        lemma_pow2_unfold(level);
        lemma_pow2_pos(lm1);
        assert((2 * idx + 1) * pow2(lm1) <= leaves.len() && (2 * idx + 1 + 1) * pow2(lm1)
            <= leaves.len()) by (nonlinear_arith)
            requires
                (idx + 1) * pow2(level) <= leaves.len(),
                pow2(level) == 2 * pow2(lm1),
                pow2(lm1) >= 1,
        ;
        lemma_node_push_agnostic(leaves, a, lm1, 2 * idx);
        lemma_node_push_agnostic(leaves, a, lm1, 2 * idx + 1);
    }
}

/// Two to the power `e`, as a machine integer.
fn pow2_u32(e: usize) -> (r: u32)
    requires
        e <= 31,
    ensures
        r == pow2(e as nat),
{
    proof {
        lemma2_to64();
    }
    let mut r: u32 = 1;
    let mut i: usize = 0;
    while i < e
        invariant
            i <= e <= 31,
            r == pow2(i as nat),
        decreases e - i,
    {
        proof {
            lemma_pow2_unfold((i + 1) as nat);
            if i + 1 < 31 {
                lemma_pow2_strictly_increases((i + 1) as nat, 31);
            }
            lemma2_to64();
        }
        r = r * 2;
        i = i + 1;
    }
    r
}

/// Append-only Merkle accumulator of fixed depth `DEPTH`.
///
/// `filled_subtrees[l]` is the rightmost completed subtree hash at level `l`,
/// `zeroes[l]` the all-empty subtree hash at level `l`, `index` the next free
/// leaf slot, and `leaves` the (ghost) sequence of leaves inserted so far.
pub struct IncrementalMerkleTree<const DEPTH: usize> {
    pub filled_subtrees: Vec<Data>,
    pub zeroes: Vec<Data>,
    pub root: Data,
    pub index: u32,
    pub leaves: Ghost<Seq<Seq<u8>>>,
}

impl<const DEPTH: usize> IncrementalMerkleTree<DEPTH> {
    /// The accumulator's invariant: `root` is the Merkle root of the leaves
    /// inserted so far, and each `filled_subtrees[l]` that the next insertion
    /// will read holds the hash of the left sibling it stands for.
    pub open spec fn wf(self) -> bool {
        &&& DEPTH <= 31
        &&& self.filled_subtrees@.len() == DEPTH
        &&& self.zeroes@.len() == DEPTH + 1
        &&& forall|l: int| 0 <= l <= DEPTH ==> self.zeroes@[l]@ == zero_at(l as nat)
        &&& self.leaves@.len() == self.index
        &&& self.index <= pow2(DEPTH as nat)
        &&& self.root@ == root_spec(self.leaves@, DEPTH as nat)
        &&& forall|l: int|
            0 <= l < DEPTH && idx_at(self.index as nat, l as nat) % 2 == 1
                ==> self.filled_subtrees@[l]@ == node_hash(
                self.leaves@,
                l as nat,
                (idx_at(self.index as nat, l as nat) - 1) as nat,
            )
    }

    /// A fresh accumulator: zero leaves, root at the all-empty root.
    pub fn new() -> (r: Self)
        requires
            DEPTH <= 31,
        ensures
            r.wf(),
            r.index == 0,
            r.leaves@ == Seq::<Seq<u8>>::empty(),
    {
        let e = empty_data();
        let mut zeroes: Vec<Data> = Vec::new();
        zeroes.push(e);
        let mut l: usize = 0;
        while l < DEPTH
            invariant
                l <= DEPTH,
                zeroes@.len() == l + 1,
                forall|k: int| 0 <= k <= l ==> zeroes@[k]@ == zero_at(k as nat),
            decreases DEPTH - l,
        {
            let h = hash_pair(&zeroes[l], &zeroes[l]);
            zeroes.push(h);
            l = l + 1;
        }
        let mut filled: Vec<Data> = Vec::new();
        let mut m: usize = 0;
        while m < DEPTH
            invariant
                m <= DEPTH,
                filled@.len() == m,
            decreases DEPTH - m,
        {
            filled.push(e);
            m = m + 1;
        }
        let root = zeroes[DEPTH];
        let r = IncrementalMerkleTree {
            filled_subtrees: filled,
            zeroes,
            root,
            index: 0,
            leaves: Ghost(Seq::empty()),
        };
        proof {
            lemma_node_all_empty(Seq::<Seq<u8>>::empty(), DEPTH as nat, 0);
            assert forall|l2: int| 0 <= l2 < DEPTH implies #[trigger] idx_at(0, l2 as nat) % 2
                == 0 by {
                lemma_idx_at_zero(l2 as nat);
            }
        }
        r
    }

    /// Appends `leaf` at the next free slot and recomputes the root, in
    /// O(DEPTH) hashes. Fails with `Overflow`, leaving the accumulator
    /// unchanged, exactly when all `2^DEPTH` slots are taken.
    pub fn add(&mut self, leaf: Data) -> (r: Result<(), BridgeError>)
        requires
            old(self).wf(),
        ensures
            final(self).wf(),
            old(self).index < pow2(DEPTH as nat) ==> {
                &&& r is Ok
                &&& final(self).leaves@ == old(self).leaves@.push(leaf@)
                &&& final(self).index == old(self).index + 1
                &&& final(self).root@ == root_spec(old(self).leaves@.push(leaf@), DEPTH as nat)
            },
            old(self).index == pow2(DEPTH as nat) ==> {
                &&& r == Err::<(), BridgeError>(BridgeError::Overflow)
                &&& *final(self) == *old(self)
            },
    {
        let cap: u32 = pow2_u32(DEPTH);
        if self.index >= cap {
            return Err(BridgeError::Overflow);
        }
        let ghost n: nat = self.index as nat;
        let ghost old_leaves: Seq<Seq<u8>> = self.leaves@;
        let ghost new_leaves: Seq<Seq<u8>> = old_leaves.push(leaf@);
        let mut current_index: u32 = self.index;
        let mut current_level_hash: Data = leaf;
        let mut i: usize = 0;
        assert(current_level_hash@ == node_hash(new_leaves, 0, n));
        while i < DEPTH
            invariant
                i <= DEPTH,
                DEPTH <= 31,
                self.index == n,
                n < pow2(DEPTH as nat),
                n == old_leaves.len(),
                new_leaves == old_leaves.push(leaf@),
                current_index == idx_at(n, i as nat),
                idx_at((n + 1) as nat, i as nat) == current_index || idx_at(
                    (n + 1) as nat,
                    i as nat,
                ) == current_index + 1,
                current_level_hash@ == node_hash(new_leaves, i as nat, current_index as nat),
                self.zeroes@.len() == DEPTH + 1,
                forall|k: int| 0 <= k <= DEPTH ==> self.zeroes@[k]@ == zero_at(k as nat),
                self.filled_subtrees@.len() == DEPTH,
                forall|l: int|
                    i <= l < DEPTH && idx_at(n, l as nat) % 2 == 1
                        ==> self.filled_subtrees@[l]@ == node_hash(
                        old_leaves,
                        l as nat,
                        (idx_at(n, l as nat) - 1) as nat,
                    ),
                forall|l: int|
                    0 <= l < i && idx_at((n + 1) as nat, l as nat) % 2 == 1
                        ==> self.filled_subtrees@[l]@ == node_hash(
                        new_leaves,
                        l as nat,
                        (idx_at((n + 1) as nat, l as nat) - 1) as nat,
                    ),
            decreases DEPTH - i,
        {
            let ghost c: nat = current_index as nat;
            let ghost c2: nat = idx_at((n + 1) as nat, i as nat);
            proof {
                lemma_idx_at_bounds(n, i as nat);
                lemma_pow2_pos(i as nat);
            }
            if current_index % 2 == 0 {
                self.filled_subtrees[i] = current_level_hash;
                let z: Data = self.zeroes[i];
                proof {
                    assert((c + 1) * pow2(i as nat) >= new_leaves.len());
                    lemma_node_all_empty(new_leaves, i as nat, c + 1);
                    assert(2 * (c / 2) == c);
                    assert(node_hash(new_leaves, (i + 1) as nat, c / 2) == hash_pair_spec(
                        node_hash(new_leaves, i as nat, c),
                        node_hash(new_leaves, i as nat, c + 1),
                    ));
                }
                current_level_hash = hash_pair(&current_level_hash, &z);
            } else {
                let f: Data = self.filled_subtrees[i];
                proof {
                    assert(f@ == node_hash(old_leaves, i as nat, (c - 1) as nat));
                    assert(c * pow2(i as nat) <= old_leaves.len());
                    lemma_node_push_agnostic(old_leaves, leaf@, i as nat, (c - 1) as nat);
                    assert(2 * (c / 2) == c - 1);
                    assert(node_hash(new_leaves, (i + 1) as nat, c / 2) == hash_pair_spec(
                        node_hash(new_leaves, i as nat, (c - 1) as nat),
                        node_hash(new_leaves, i as nat, c),
                    ));
                }
                current_level_hash = hash_pair(&f, &current_level_hash);
            }
            current_index = current_index / 2;
            i = i + 1;
            proof {
                assert(idx_at(n, i as nat) == c / 2);
                assert(idx_at((n + 1) as nat, i as nat) == c2 / 2);
                assert(c2 / 2 == c / 2 || c2 / 2 == c / 2 + 1);
            }
        }
        proof {
            lemma_idx_at_bounds(n, DEPTH as nat);
            let top = idx_at(n, DEPTH as nat);
            assert(top == 0) by (nonlinear_arith)
                requires
                    top * pow2(DEPTH as nat) <= n,
                    n < pow2(DEPTH as nat),
            ;
            if DEPTH < 31 {
                lemma_pow2_strictly_increases(DEPTH as nat, 31);
            }
            lemma2_to64();
        }
        self.root = current_level_hash;
        self.index = self.index + 1;
        self.leaves = Ghost(new_leaves);
        Ok(())
    }
}

/// Law: the root is determined by the sequence of inserted leaves alone. Two
/// well-formed accumulators that received the same leaves in the same order
/// hold the same root.
pub proof fn lemma_root_determined_by_leaves<const DEPTH: usize>(
    t1: IncrementalMerkleTree<DEPTH>,
    t2: IncrementalMerkleTree<DEPTH>,
)
    requires
        t1.wf(),
        t2.wf(),
        t1.leaves@ == t2.leaves@,
    ensures
        t1.root@ == t2.root@,
{
}

} // verus!

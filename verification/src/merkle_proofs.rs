//! Merkle inclusion proofs and their verification against a cap.

use vstd::prelude::*;

use crate::field::{fwf, GoldilocksField};
use crate::hash_types::{hash_or_noop, hwf, spec_hash_or_noop, HashOut, Hasher};
use crate::merkle_tree::{
    digests_wf, left_half, lemma_subtree_proof_len, lemma_tree_cap_len, lemma_tree_proof_len,
    right_half, row_wf, subtree_proof, subtree_root, tree_cap, tree_proof, MerkleCap,
};
use crate::util::{
    lemma_pow2_adds, lemma_pow2_lg, lemma_pow2_pos, spec_is_pow2, spec_lg, spec_pow2,
};

verus! {

/// The sibling digests on the path from a leaf to the cap, ordered from the
/// leaf layer upward. It holds no ownership over the tree it came from.
pub struct MerkleProof {
    /// The sibling digest on each level, bottom-up.
    pub siblings: Vec<HashOut>,
}

impl MerkleProof {
    /// The number of layers in the proof.
    pub fn len(&self) -> (r: usize)
        ensures
            r == self.siblings@.len(),
    {
        self.siblings.len()
    }
}

/// Folds a leaf digest up the tree: at each level the running digest is
/// compressed with the sibling, standing left or right according to the
/// corresponding bit of the leaf index, least significant bit first.
pub open spec fn spec_fold_proof<H: Hasher>(h0: HashOut, idx: nat, siblings: Seq<HashOut>)
    -> HashOut
    decreases siblings.len(),
{
    if siblings.len() == 0 {
        h0
    } else {
        let next = if idx % 2 == 0 {
            H::spec_two_to_one(h0, siblings[0])
        } else {
            H::spec_two_to_one(siblings[0], h0)
        };
        spec_fold_proof::<H>(next, idx / 2, siblings.drop_first())
    }
}

/// Verifies that `leaf_data` is the row committed at `leaf_index`: hashes the
/// row, folds it with the supplied siblings, and compares the result with the
/// owning cap entry. Rejection is an ordinary outcome, not a failure.
pub fn verify_merkle_proof_to_cap<H: Hasher>(
    leaf_data: Vec<GoldilocksField>,
    leaf_index: usize,
    merkle_cap: &MerkleCap,
    proof: &MerkleProof,
) -> (r: bool)
    requires
        row_wf(leaf_data@),
        digests_wf(merkle_cap.0@),
        digests_wf(proof.siblings@),
        leaf_index < merkle_cap.0@.len() * spec_pow2(proof.siblings@.len()),
    ensures
        r <==> spec_fold_proof::<H>(
            spec_hash_or_noop::<H>(leaf_data@),
            leaf_index as nat,
            proof.siblings@,
        ) == merkle_cap.0@[leaf_index as int / spec_pow2(proof.siblings@.len()) as int],
{
    let num_layers = proof.siblings.len();
    let mut current = hash_or_noop::<H>(leaf_data.as_slice());
    let mut index: usize = leaf_index;
    let mut i: usize = 0;
    proof {
        assert(spec_pow2(0nat) == 1);
        assert(leaf_index as int / 1int == leaf_index as int);
        assert(proof.siblings@.skip(0) =~= proof.siblings@);
    }
    while i < num_layers
        invariant
            i <= num_layers,
            num_layers == proof.siblings@.len(),
            digests_wf(proof.siblings@),
            hwf(current),
            index == leaf_index as int / spec_pow2(i as nat) as int,
            spec_fold_proof::<H>(
                spec_hash_or_noop::<H>(leaf_data@),
                leaf_index as nat,
                proof.siblings@,
            ) == spec_fold_proof::<H>(
                current,
                index as nat,
                proof.siblings@.skip(i as int),
            ),
        decreases num_layers - i,
    {
        let sibling = proof.siblings[i];
        if index % 2 == 0 {
            current = H::two_to_one(current, sibling);
        } else {
            current = H::two_to_one(sibling, current);
        }
        index = index / 2;
        i = i + 1;
        proof {
            crate::util::lemma_pow2_pos((i - 1) as nat);
            vstd::arithmetic::div_mod::lemma_div_denominator(
                leaf_index as int,
                spec_pow2((i - 1) as nat) as int,
                2,
            );
            assert(spec_pow2((i - 1) as nat) * 2 == spec_pow2(i as nat)) by {
                crate::util::lemma_pow2_pos(i as nat);
            };
            assert(proof.siblings@.skip(i as int - 1).drop_first() =~= proof.siblings@.skip(
                i as int,
            ));
            assert(proof.siblings@.skip(i as int - 1)[0] == proof.siblings@[i as int - 1]);
        }
    }
    proof {
        assert(proof.siblings@.skip(num_layers as int) =~= Seq::<HashOut>::empty());
        crate::util::lemma_pow2_pos(num_layers as nat);
        vstd::arithmetic::mul::lemma_mul_is_commutative(
            merkle_cap.0@.len() as int,
            spec_pow2(num_layers as nat) as int,
        );
        vstd::arithmetic::div_mod::lemma_multiply_divide_lt(
            leaf_index as int,
            spec_pow2(num_layers as nat) as int,
            merkle_cap.0@.len() as int,
        );
        vstd::arithmetic::div_mod::lemma_div_pos_is_pos(
            leaf_index as int,
            spec_pow2(num_layers as nat) as int,
        );
    }
    let cap_entry = merkle_cap.0[index];
    current.equals(cap_entry)
}

/// Degenerate cap: when the cap height equals the full tree height, the cap
/// is exactly the leaf hashes, one per row; together with the proof-length
/// law this says every proof is then empty.
pub proof fn lemma_all_cap<H: Hasher>(rows: Seq<Seq<GoldilocksField>>)
    requires
        spec_is_pow2(rows.len()),
    ensures
        tree_cap::<H>(rows, spec_lg(rows.len())) == Seq::new(
            rows.len(),
            |i: int| spec_hash_or_noop::<H>(rows[i]),
        ),
    decreases rows.len(),
{
    let expected = Seq::new(rows.len(), |i: int| spec_hash_or_noop::<H>(rows[i]));
    if rows.len() == 1 {
        assert(tree_cap::<H>(rows, 0) =~= expected);
    } else {
        let half = rows.len() as int / 2;
        let l = left_half(rows);
        let r = right_half(rows);
        assert(spec_is_pow2(half as nat));
        assert(spec_lg(half as nat) == spec_lg(rows.len()) - 1);
        lemma_all_cap::<H>(l);
        lemma_all_cap::<H>(r);
        lemma_tree_cap_len::<H>(l, (spec_lg(rows.len()) - 1) as nat);
        assert(tree_cap::<H>(rows, spec_lg(rows.len())) =~= expected);
    }
}

/// Round trip: the proof generated for any committed row of a well-formed
/// tree folds back to the cap entry of the subtree that owns the row, so
/// verification of an honest proof always succeeds.
pub proof fn lemma_round_trip<H: Hasher>(
    tree: crate::merkle_tree::MerkleTree<H>,
    leaf_index: int,
)
    requires
        tree.wf(),
        0 <= leaf_index < tree.spec_num_leaves(),
    ensures
        ({
            let layers = (spec_lg(tree.spec_num_leaves()) - tree.spec_cap_height()) as nat;
            spec_fold_proof::<H>(
                spec_hash_or_noop::<H>(tree.spec_rows()[leaf_index]),
                leaf_index as nat,
                tree_proof::<H>(tree.spec_rows(), tree.spec_cap_height(), leaf_index),
            ) == tree.cap.0@[leaf_index / spec_pow2(layers) as int]
        }),
{
    lemma_tree_round_trip::<H>(tree.spec_rows(), tree.spec_cap_height(), leaf_index);
}

/// Folding with one more sibling on top compresses the fold of the shorter
/// path with that sibling, on the side selected by the next index bit.
proof fn lemma_fold_push<H: Hasher>(h0: HashOut, idx: nat, p: Seq<HashOut>, s: HashOut)
    ensures
        spec_fold_proof::<H>(h0, idx, p.push(s)) == if (idx / spec_pow2(p.len())) % 2 == 0 {
            H::spec_two_to_one(spec_fold_proof::<H>(h0, idx, p), s)
        } else {
            H::spec_two_to_one(s, spec_fold_proof::<H>(h0, idx, p))
        },
    decreases p.len(),
{
    if p.len() == 0 {
        assert(p.push(s).drop_first() =~= p);
        assert(idx as int / 1int == idx as int);
        assert(idx / spec_pow2(0) == idx);
        assert(p.push(s)[0] == s);
        assert(spec_fold_proof::<H>(h0, idx, p) == h0);
        let nx = if idx % 2 == 0 {
            H::spec_two_to_one(h0, s)
        } else {
            H::spec_two_to_one(s, h0)
        };
        assert(spec_fold_proof::<H>(nx, idx / 2, p) == nx);
        assert(spec_fold_proof::<H>(h0, idx, p.push(s)) == spec_fold_proof::<H>(
            nx,
            idx / 2,
            p.push(s).drop_first(),
        ));
        assert(spec_fold_proof::<H>(h0, idx, p.push(s)) == if (idx / spec_pow2(p.len())) % 2
            == 0 {
            H::spec_two_to_one(spec_fold_proof::<H>(h0, idx, p), s)
        } else {
            H::spec_two_to_one(s, spec_fold_proof::<H>(h0, idx, p))
        });
    } else {
        let next = if idx % 2 == 0 {
            H::spec_two_to_one(h0, p[0])
        } else {
            H::spec_two_to_one(p[0], h0)
        };
        assert(p.push(s)[0] == p[0]);
        assert(p.push(s).drop_first() =~= p.drop_first().push(s));
        assert(spec_fold_proof::<H>(h0, idx, p.push(s)) == spec_fold_proof::<H>(
            next,
            idx / 2,
            p.drop_first().push(s),
        ));
        assert(spec_fold_proof::<H>(h0, idx, p) == spec_fold_proof::<H>(
            next,
            idx / 2,
            p.drop_first(),
        ));
        lemma_fold_push::<H>(next, idx / 2, p.drop_first(), s);
        crate::util::lemma_pow2_pos((p.len() - 1) as nat);
        vstd::arithmetic::div_mod::lemma_div_denominator(
            idx as int,
            2,
            spec_pow2((p.len() - 1) as nat) as int,
        );
        assert((idx / 2) / spec_pow2((p.len() - 1) as nat) == idx / spec_pow2(p.len()));
        assert(spec_fold_proof::<H>(h0, idx, p.push(s)) == if (idx / spec_pow2(p.len())) % 2
            == 0 {
            H::spec_two_to_one(spec_fold_proof::<H>(h0, idx, p), s)
        } else {
            H::spec_two_to_one(s, spec_fold_proof::<H>(h0, idx, p))
        });
    }
}

/// The fold of a path of length `L` depends only on the low `L` bits of the
/// index.
proof fn lemma_fold_mod<H: Hasher>(h0: HashOut, a: nat, b: nat, p: Seq<HashOut>)
    requires
        a % spec_pow2(p.len()) == b % spec_pow2(p.len()),
    ensures
        spec_fold_proof::<H>(h0, a, p) == spec_fold_proof::<H>(h0, b, p),
    decreases p.len(),
{
    if p.len() > 0 {
        let sub = spec_pow2((p.len() - 1) as nat) as int;
        crate::util::lemma_pow2_pos((p.len() - 1) as nat);
        vstd::arithmetic::div_mod::lemma_breakdown(a as int, 2, sub);
        vstd::arithmetic::div_mod::lemma_breakdown(b as int, 2, sub);
        vstd::arithmetic::div_mod::lemma_mod_division_less_than_divisor(a as int / 2, sub);
        vstd::arithmetic::div_mod::lemma_mod_division_less_than_divisor(b as int / 2, sub);
        vstd::arithmetic::div_mod::lemma_mod_division_less_than_divisor(a as int, 2);
        vstd::arithmetic::div_mod::lemma_mod_division_less_than_divisor(b as int, 2);
        assert(a % 2 == b % 2 && (a / 2) % (sub as nat) == (b / 2) % (sub as nat));
        let next_a = if a % 2 == 0 {
            H::spec_two_to_one(h0, p[0])
        } else {
            H::spec_two_to_one(p[0], h0)
        };
        lemma_fold_mod::<H>(next_a, a / 2, b / 2, p.drop_first());
    }
}

/// Round trip within one subtree: the fold of a row's hash with its sibling
/// path recomputes the subtree's root digest.
#[verifier::rlimit(50)]
proof fn lemma_subtree_round_trip<H: Hasher>(rows: Seq<Seq<GoldilocksField>>, idx: int)
    requires
        crate::util::spec_is_pow2(rows.len()),
        0 <= idx < rows.len(),
    ensures
        spec_fold_proof::<H>(
            spec_hash_or_noop::<H>(rows[idx]),
            idx as nat,
            crate::merkle_tree::subtree_proof::<H>(rows, idx),
        ) == crate::merkle_tree::subtree_root::<H>(rows),
    decreases rows.len(),
{
    if rows.len() == 1 {
    } else {
        let half = rows.len() as int / 2;
        let l = left_half(rows);
        let r = right_half(rows);
        let layers = crate::util::spec_lg(half as nat);
        lemma_subtree_proof_len::<H>(l, idx);
        lemma_subtree_proof_len::<H>(r, idx - half);
        crate::util::lemma_pow2_lg(half as nat);
        crate::util::lemma_pow2_pos(layers);
        if idx < half {
            lemma_subtree_round_trip::<H>(l, idx);
            lemma_fold_push::<H>(
                spec_hash_or_noop::<H>(rows[idx]),
                idx as nat,
                subtree_proof::<H>(l, idx),
                subtree_root::<H>(r),
            );
            vstd::arithmetic::div_mod::lemma_basic_div(idx, half);
        } else {
            let local = idx - half;
            lemma_subtree_round_trip::<H>(r, local);
            // the low `layers` bits of `idx` are those of `local`
            vstd::arithmetic::div_mod::lemma_mod_add_multiples_vanish(local, half);
            lemma_fold_mod::<H>(
                spec_hash_or_noop::<H>(rows[idx]),
                idx as nat,
                local as nat,
                subtree_proof::<H>(r, local),
            );
            lemma_fold_push::<H>(
                spec_hash_or_noop::<H>(rows[idx]),
                idx as nat,
                subtree_proof::<H>(r, local),
                subtree_root::<H>(l),
            );
            vstd::arithmetic::div_mod::lemma_div_plus_one(local, half);
            vstd::arithmetic::div_mod::lemma_basic_div(local, half);
            assert(idx / half == 1);
        }
    }
}

/// Round trip for the whole tree: the fold of a committed row's hash with its
/// generated sibling path equals the cap entry of the subtree that owns it.
#[verifier::rlimit(50)]
pub proof fn lemma_tree_round_trip<H: Hasher>(rows: Seq<Seq<GoldilocksField>>, h: nat, idx: int)
    requires
        crate::util::spec_is_pow2(rows.len()),
        h <= crate::util::spec_lg(rows.len()),
        0 <= idx < rows.len(),
    ensures
        ({
            let m = spec_pow2((crate::util::spec_lg(rows.len()) - h) as nat);
            spec_fold_proof::<H>(
                spec_hash_or_noop::<H>(rows[idx]),
                idx as nat,
                crate::merkle_tree::tree_proof::<H>(rows, h, idx),
            ) == crate::merkle_tree::tree_cap::<H>(rows, h)[idx / m as int]
        }),
    decreases h,
{
    let lg_n = crate::util::spec_lg(rows.len());
    let m = spec_pow2((lg_n - h) as nat) as int;
    crate::util::lemma_pow2_pos((lg_n - h) as nat);
    crate::util::lemma_pow2_lg(rows.len());
    if h == 0 {
        lemma_subtree_round_trip::<H>(rows, idx);
        vstd::arithmetic::div_mod::lemma_basic_div(idx, m);
    } else {
        let half = rows.len() as int / 2;
        let l = left_half(rows);
        let r = right_half(rows);
        assert(rows.len() >= 2);
        assert(spec_is_pow2(half as nat));
        assert(l.len() == half && r.len() == half);
        assert(spec_lg(half as nat) == lg_n - 1);
        // half == 2^(h-1) * m
        crate::util::lemma_pow2_adds((h - 1) as nat, (lg_n - h) as nat);
        crate::util::lemma_pow2_pos((h - 1) as nat);
        crate::merkle_tree::lemma_tree_cap_len::<H>(l, (h - 1) as nat);
        crate::merkle_tree::lemma_tree_cap_len::<H>(r, (h - 1) as nat);
        assert(half == spec_pow2((h - 1) as nat) * m);
        vstd::arithmetic::mul::lemma_mul_is_commutative(spec_pow2((h - 1) as nat) as int, m);
        if idx < half {
            lemma_tree_round_trip::<H>(l, (h - 1) as nat, idx);
            assert(idx < m * spec_pow2((h - 1) as nat));
            vstd::arithmetic::div_mod::lemma_multiply_divide_lt(
                idx,
                m,
                spec_pow2((h - 1) as nat) as int,
            );
            vstd::arithmetic::div_mod::lemma_div_pos_is_pos(idx, m);
            assert(tree_cap::<H>(rows, h)[idx / m] == tree_cap::<H>(l, (h - 1) as nat)[idx / m]);
        } else {
            let local = idx - half;
            lemma_tree_round_trip::<H>(r, (h - 1) as nat, local);
            crate::merkle_tree::lemma_tree_proof_len::<H>(r, (h - 1) as nat, local);
            assert(tree_proof::<H>(r, (h - 1) as nat, local).len() == (lg_n - h) as nat);
            assert(spec_pow2(tree_proof::<H>(r, (h - 1) as nat, local).len()) == m);
            vstd::arithmetic::div_mod::lemma_mod_multiples_vanish(
                spec_pow2((h - 1) as nat) as int,
                local,
                m,
            );
            assert(idx == spec_pow2((h - 1) as nat) * m + local);
            assert(idx % m == local % m);
            lemma_fold_mod::<H>(
                spec_hash_or_noop::<H>(rows[idx]),
                idx as nat,
                local as nat,
                tree_proof::<H>(r, (h - 1) as nat, local),
            );
            vstd::arithmetic::div_mod::lemma_hoist_over_denominator(
                local,
                spec_pow2((h - 1) as nat) as int,
                m as nat,
            );
            vstd::arithmetic::div_mod::lemma_div_pos_is_pos(local, m);
            vstd::arithmetic::div_mod::lemma_multiply_divide_lt(
                local,
                m,
                spec_pow2((h - 1) as nat) as int,
            );
            assert(idx / m == spec_pow2((h - 1) as nat) + local / m);
        }
    }
}

} // verus!

//! The Merkle commitment tree: construction of the digest layers from leaves
//! up to a configurable-height cap, and inclusion-proof generation.
//!
//! The digest array consists of `2^cap_height` contiguous, independent subtree
//! regions. Within a region the layout is recursive:
//! `[left_subtree] [left_child_digest] [right_child_digest] [right_subtree]`,
//! i.e. a node's two children stand adjacently at the split point between its
//! two recursive regions, and a node's own digest is stored by its parent. The
//! root digest of each subtree is not stored in the array; it lives in the cap.

use vstd::prelude::*;

use crate::field::{fwf, GoldilocksField};
use crate::hash_types::{hash_or_noop, spec_hash_or_noop, HashOut, Hasher};
use crate::util::{
    lemma_pow2_le, lemma_pow2_lg, lemma_pow2_pos, log2_strict, pow2_exec, spec_is_pow2, spec_lg,
    spec_pow2, try_log2_strict,
};

verus! {

/// Every element of the row is canonical.
pub open spec fn row_wf(row: Seq<GoldilocksField>) -> bool {
    forall|i: int| 0 <= i < row.len() ==> fwf(#[trigger] row[i])
}

/// Every row consists of canonical elements.
pub open spec fn rows_wf(rows: Seq<Seq<GoldilocksField>>) -> bool {
    forall|i: int| 0 <= i < rows.len() ==> row_wf(#[trigger] rows[i])
}

/// The first half of a sequence of rows.
pub open spec fn left_half(rows: Seq<Seq<GoldilocksField>>) -> Seq<Seq<GoldilocksField>> {
    rows.subrange(0, rows.len() as int / 2)
}

/// The second half of a sequence of rows.
pub open spec fn right_half(rows: Seq<Seq<GoldilocksField>>) -> Seq<Seq<GoldilocksField>> {
    rows.subrange(rows.len() as int / 2, rows.len() as int)
}

/// The root digest of the subtree over `rows`: the leaf hash for a single
/// row, else the compression of the two halves' roots.
pub open spec fn subtree_root<H: Hasher>(rows: Seq<Seq<GoldilocksField>>) -> HashOut
    decreases rows.len(),
{
    if rows.len() <= 1 {
        spec_hash_or_noop::<H>(rows[0])
    } else {
        H::spec_two_to_one(
            subtree_root::<H>(left_half(rows)),
            subtree_root::<H>(right_half(rows)),
        )
    }
}

/// The digest region of the subtree over `rows`, in the recursive layout
/// `left_region ++ [left_child_root, right_child_root] ++ right_region`.
/// A single row has an empty region; the region of `m` rows holds
/// `2 * (m - 1)` digests.
pub open spec fn subtree_digests<H: Hasher>(rows: Seq<Seq<GoldilocksField>>) -> Seq<HashOut>
    decreases rows.len(),
{
    if rows.len() <= 1 {
        Seq::empty()
    } else {
        subtree_digests::<H>(left_half(rows)) + seq![
            subtree_root::<H>(left_half(rows)),
            subtree_root::<H>(right_half(rows)),
        ] + subtree_digests::<H>(right_half(rows))
    }
}

/// The inclusion-proof siblings for the row at `idx` inside the subtree over
/// `rows`, ordered bottom-up from the leaf layer to the subtree root.
pub open spec fn subtree_proof<H: Hasher>(rows: Seq<Seq<GoldilocksField>>, idx: int) -> Seq<
    HashOut,
>
    decreases rows.len(),
{
    if rows.len() <= 1 {
        Seq::empty()
    } else {
        let half = rows.len() as int / 2;
        if idx < half {
            subtree_proof::<H>(left_half(rows), idx).push(subtree_root::<H>(right_half(rows)))
        } else {
            subtree_proof::<H>(right_half(rows), idx - half).push(
                subtree_root::<H>(left_half(rows)),
            )
        }
    }
}

/// The whole digest array: the concatenation of the `2^h` subtree regions,
/// left to right.
pub open spec fn tree_digests<H: Hasher>(rows: Seq<Seq<GoldilocksField>>, h: nat) -> Seq<HashOut>
    decreases h,
{
    if h == 0 {
        subtree_digests::<H>(rows)
    } else {
        tree_digests::<H>(left_half(rows), (h - 1) as nat) + tree_digests::<H>(
            right_half(rows),
            (h - 1) as nat,
        )
    }
}

/// The cap: the `2^h` subtree roots, left to right. For `h == lg(N)` this is
/// one leaf hash per row.
pub open spec fn tree_cap<H: Hasher>(rows: Seq<Seq<GoldilocksField>>, h: nat) -> Seq<HashOut>
    decreases h,
{
    if h == 0 {
        seq![subtree_root::<H>(rows)]
    } else {
        tree_cap::<H>(left_half(rows), (h - 1) as nat) + tree_cap::<H>(
            right_half(rows),
            (h - 1) as nat,
        )
    }
}

/// The inclusion proof for the row at `idx` of the whole tree: the sibling
/// path inside the subtree that owns `idx`.
pub open spec fn tree_proof<H: Hasher>(rows: Seq<Seq<GoldilocksField>>, h: nat, idx: int) -> Seq<
    HashOut,
>
    decreases h,
{
    if h == 0 {
        subtree_proof::<H>(rows, idx)
    } else {
        let half = rows.len() as int / 2;
        if idx < half {
            tree_proof::<H>(left_half(rows), (h - 1) as nat, idx)
        } else {
            tree_proof::<H>(right_half(rows), (h - 1) as nat, idx - half)
        }
    }
}

/// The view of a batch of leaf rows: each row as a sequence.
pub open spec fn rows_view(leaves: Seq<Vec<GoldilocksField>>) -> Seq<Seq<GoldilocksField>> {
    Seq::new(leaves.len(), |i: int| leaves[i]@)
}

/// Every digest in the sequence is canonical.
pub open spec fn digests_wf(ds: Seq<HashOut>) -> bool {
    forall|i: int| 0 <= i < ds.len() ==> crate::hash_types::hwf(#[trigger] ds[i])
}

/// Fills one subtree region: hashes the rows `leaves[start..start + len]`,
/// returns their digest region in the recursive layout together with the
/// subtree's root digest. The region of the left half is written before the
/// two child digests, which are written before the region of the right half,
/// so every slot is written exactly once and no slot is read before it is
/// written.
fn fill_subtree<H: Hasher>(leaves: &Vec<Vec<GoldilocksField>>, start: usize, len: usize) -> (r: (
    Vec<HashOut>,
    HashOut,
))
    requires
        1 <= len,
        start + len <= leaves@.len(),
        rows_wf(rows_view(leaves@)),
    ensures
        r.0@ == subtree_digests::<H>(rows_view(leaves@).subrange(
            start as int,
            start as int + len as int,
        )),
        r.1 == subtree_root::<H>(rows_view(leaves@).subrange(
            start as int,
            start as int + len as int,
        )),
        digests_wf(r.0@),
        crate::hash_types::hwf(r.1),
    decreases len,
{
    let total = leaves.len();
    let ghost chunk = rows_view(leaves@).subrange(start as int, start as int + len as int);
    if len == 1 {
        proof {
            assert(rows_view(leaves@)[start as int] == leaves@[start as int]@);
            assert(row_wf(leaves@[start as int]@));
        }
        let root = hash_or_noop::<H>(leaves[start].as_slice());
        proof {
            assert(chunk[0] == leaves@[start as int]@);
        }
        (Vec::new(), root)
    } else {
        let half = len / 2;
        let ghost l = left_half(chunk);
        let ghost r_ = right_half(chunk);
        proof {
            assert(l =~= rows_view(leaves@).subrange(start as int, start as int + half as int));
            assert(r_ =~= rows_view(leaves@).subrange(
                start as int + half as int,
                start as int + len as int,
            ));
        }
        let (mut digests, left_root) = fill_subtree::<H>(leaves, start, half);
        let (mut right_digests, right_root) = fill_subtree::<H>(leaves, start + half, len - half);
        digests.push(left_root);
        digests.push(right_root);
        digests.append(&mut right_digests);
        proof {
            assert(digests@ =~= subtree_digests::<H>(l) + seq![
                subtree_root::<H>(l),
                subtree_root::<H>(r_),
            ] + subtree_digests::<H>(r_));
        }
        (digests, H::two_to_one(left_root, right_root))
    }
}

/// Populates the digest array and the cap for the rows
/// `leaves[start..start + len]` with `2^h` independent subtrees: the digest
/// array is the concatenation of the subtree regions and the cap holds the
/// subtree roots. When `h` equals the full tree height every row is hashed
/// directly into the cap and the digest array is empty.
fn fill_digests_buf<H: Hasher>(leaves: &Vec<Vec<GoldilocksField>>, start: usize, len: usize, h:
    usize) -> (r: (Vec<HashOut>, Vec<HashOut>))
    requires
        spec_is_pow2(len as nat),
        h as nat <= spec_lg(len as nat),
        start + len <= leaves@.len(),
        rows_wf(rows_view(leaves@)),
    ensures
        r.0@ == tree_digests::<H>(
            rows_view(leaves@).subrange(start as int, start as int + len as int),
            h as nat,
        ),
        r.1@ == tree_cap::<H>(
            rows_view(leaves@).subrange(start as int, start as int + len as int),
            h as nat,
        ),
        digests_wf(r.0@),
        digests_wf(r.1@),
    decreases h,
{
    let total = leaves.len();
    let ghost chunk = rows_view(leaves@).subrange(start as int, start as int + len as int);
    if h == 0 {
        let (digests, root) = fill_subtree::<H>(leaves, start, len);
        let mut cap: Vec<HashOut> = Vec::new();
        cap.push(root);
        proof {
            assert(cap@ =~= seq![subtree_root::<H>(chunk)]);
        }
        (digests, cap)
    } else {
        let half = len / 2;
        let ghost l = left_half(chunk);
        let ghost r_ = right_half(chunk);
        proof {
            assert(l =~= rows_view(leaves@).subrange(start as int, start as int + half as int));
            assert(r_ =~= rows_view(leaves@).subrange(
                start as int + half as int,
                start as int + len as int,
            ));
        }
        let (mut digests, mut cap) = fill_digests_buf::<H>(leaves, start, half, h - 1);
        let (mut right_digests, mut right_cap) = fill_digests_buf::<H>(
            leaves,
            start + half,
            len - half,
            h - 1,
        );
        digests.append(&mut right_digests);
        cap.append(&mut right_cap);
        (digests, cap)
    }
}

/// Why a Merkle tree could not be constructed.
#[derive(Clone, Copy, PartialEq, Eq, Structural, Debug)]
pub enum MerkleError {
    /// The number of leaf rows is not a power of two.
    LeavesNotPowerOfTwo,
    /// The requested cap height exceeds the full tree height.
    CapHeightTooLarge,
}

/// The Merkle cap of height `h` of a Merkle tree is the `h`-th layer (from
/// the root) of the tree. It can be used in place of the root to verify
/// Merkle paths, which are `h` elements shorter.
pub struct MerkleCap(pub Vec<HashOut>);

impl MerkleCap {
    /// The number of digests in the cap.
    pub fn len(&self) -> (r: usize)
        ensures
            r == self.0@.len(),
    {
        self.0.len()
    }

    /// Whether the cap holds no digests.
    pub fn is_empty(&self) -> (r: bool)
        ensures
            r <==> self.0@.len() == 0,
    {
        self.0.len() == 0
    }

    /// The cap's height: the exact binary logarithm of its size.
    pub fn height(&self) -> (r: usize)
        requires
            spec_is_pow2(self.0@.len()),
        ensures
            r == spec_lg(self.0@.len()),
    {
        log2_strict(self.0.len())
    }

    /// All the cap's digests, flattened into one sequence of field elements,
    /// four per digest, for committing the cap into an outer structure.
    pub fn flatten(&self) -> (r: Vec<GoldilocksField>)
        ensures
            r@.len() == 4 * self.0@.len(),
            forall|i: int|
                0 <= i < r@.len() ==> #[trigger] r@[i] == self.0@[i / 4].elements[i % 4],
    {
        let mut out: Vec<GoldilocksField> = Vec::new();
        let n = self.0.len();
        let mut i: usize = 0;
        while i < n
            invariant
                i <= n,
                n == self.0@.len(),
                out@.len() == 4 * i,
                forall|k: int|
                    0 <= k < out@.len() ==> #[trigger] out@[k] == self.0@[k / 4].elements[k % 4],
            decreases n - i,
        {
            let h = self.0[i];
            out.push(h.elements[0]);
            out.push(h.elements[1]);
            out.push(h.elements[2]);
            out.push(h.elements[3]);
            i = i + 1;
        }
        out
    }
}

/// The committed object: the leaf rows (flattened, with a fixed stride), the
/// digest array, and the cap. Built once, in full, at construction; immutable
/// thereafter.
pub struct MerkleTree<H: Hasher> {
    /// The data in the leaves of the Merkle tree, flattened: row `i` occupies
    /// `leaves[i * leaf_size .. (i + 1) * leaf_size]`.
    pub leaves: Vec<GoldilocksField>,
    /// The length of each leaf row.
    pub leaf_size: usize,
    /// The digests in the tree: `cap.len()` contiguous subtree regions, each
    /// in the recursive layout described at the top of this module.
    pub digests: Vec<HashOut>,
    /// The Merkle cap: one root digest per subtree.
    pub cap: MerkleCap,
    pub _hasher: core::marker::PhantomData<H>,
}

impl<H: Hasher> MerkleTree<H> {
    /// The number of leaf rows.
    pub open spec fn spec_num_leaves(self) -> nat {
        self.leaves@.len() / self.leaf_size as nat
    }

    /// The cap height the tree was built with.
    pub open spec fn spec_cap_height(self) -> nat {
        spec_lg(self.cap.0@.len())
    }

    /// The committed rows, recovered from the flattened storage.
    pub open spec fn spec_rows(self) -> Seq<Seq<GoldilocksField>> {
        Seq::new(
            self.spec_num_leaves(),
            |i: int|
                self.leaves@.subrange(
                    i * self.leaf_size as int,
                    (i + 1) * self.leaf_size as int,
                ),
        )
    }

    /// Structural well-formedness: the storage is consistent with the stride,
    /// the number of rows is a power of two, the cap height does not exceed
    /// the tree height, all elements are canonical, and the digest array and
    /// cap hold exactly the layout computed from the rows.
    pub open spec fn wf(self) -> bool {
        &&& self.leaf_size >= 1
        &&& self.leaves@.len() == self.spec_num_leaves() * self.leaf_size
        &&& spec_is_pow2(self.spec_num_leaves())
        &&& spec_is_pow2(self.cap.0@.len())
        &&& self.spec_cap_height() <= spec_lg(self.spec_num_leaves())
        &&& forall|i: int| 0 <= i < self.leaves@.len() ==> fwf(#[trigger] self.leaves@[i])
        &&& self.digests@ == tree_digests::<H>(self.spec_rows(), self.spec_cap_height())
        &&& self.cap.0@ == tree_cap::<H>(self.spec_rows(), self.spec_cap_height())
        &&& digests_wf(self.digests@)
        &&& digests_wf(self.cap.0@)
    }

    /// Builds the tree. The leaf count must be a power of two and the cap
    /// height at most the tree height; inputs violating that are rejected by
    /// [`MerkleTree::try_new`], which reports the reason instead.
    pub fn new(leaves_2d: Vec<Vec<GoldilocksField>>, cap_height: usize) -> (r: MerkleTree<H>)
        requires
            spec_is_pow2(leaves_2d@.len()),
            cap_height as nat <= spec_lg(leaves_2d@.len()),
            leaves_2d@[0]@.len() >= 1,
            forall|i: int|
                0 <= i < leaves_2d@.len() ==> (#[trigger] leaves_2d@[i])@.len()
                    == leaves_2d@[0]@.len(),
            rows_wf(rows_view(leaves_2d@)),
        ensures
            r.wf(),
            r.spec_num_leaves() == leaves_2d@.len(),
            r.leaf_size == leaves_2d@[0]@.len(),
            r.spec_rows() == rows_view(leaves_2d@),
            r.spec_cap_height() == cap_height,
            r.digests@ == tree_digests::<H>(rows_view(leaves_2d@), cap_height as nat),
            r.cap.0@ == tree_cap::<H>(rows_view(leaves_2d@), cap_height as nat),
    {
        let n = leaves_2d.len();
        let leaf_size = leaves_2d[0].len();
        proof {
            assert(rows_view(leaves_2d@).subrange(0, n as int) =~= rows_view(leaves_2d@));
        }
        let (digests, cap) = fill_digests_buf::<H>(&leaves_2d, 0, n, cap_height);

        let mut leaves_1d: Vec<GoldilocksField> = Vec::new();
        let mut i: usize = 0;
        while i < n
            invariant
                i <= n,
                n == leaves_2d@.len(),
                leaf_size == leaves_2d@[0]@.len(),
                forall|k: int|
                    0 <= k < n ==> (#[trigger] leaves_2d@[k])@.len() == leaf_size,
                rows_wf(rows_view(leaves_2d@)),
                leaves_1d@.len() == i * leaf_size,
                forall|k: int|
                    0 <= k < i ==> leaves_1d@.subrange(k * leaf_size as int, (k + 1)
                        * leaf_size as int) =~= (#[trigger] leaves_2d@[k])@,
                forall|k: int| 0 <= k < leaves_1d@.len() ==> fwf(#[trigger] leaves_1d@[k]),
            decreases n - i,
        {
            let ghost base = leaves_1d@;
            let row = &leaves_2d[i];
            let mut j: usize = 0;
            proof {
                assert(rows_view(leaves_2d@)[i as int] == leaves_2d@[i as int]@);
                assert(row_wf(leaves_2d@[i as int]@));
            }
            while j < leaf_size
                invariant
                    j <= leaf_size,
                    row@ == leaves_2d@[i as int]@,
                    row@.len() == leaf_size,
                    row_wf(row@),
                    leaves_1d@ == base + row@.subrange(0, j as int),
                decreases leaf_size - j,
            {
                leaves_1d.push(row[j]);
                proof {
                    assert(leaves_1d@ =~= base + row@.subrange(0, j + 1 as int));
                }
                j = j + 1;
            }
            proof {
                assert(leaves_1d@ =~= base + leaves_2d@[i as int]@);
                assert forall|k: int| 0 <= k < i + 1 implies leaves_1d@.subrange(
                    k * leaf_size as int,
                    (k + 1) * leaf_size as int,
                ) =~= (#[trigger] leaves_2d@[k])@ by {
                    vstd::arithmetic::mul::lemma_mul_nonnegative(k, leaf_size as int);
                    if k < i {
                        vstd::arithmetic::mul::lemma_mul_inequality(
                            k + 1,
                            i as int,
                            leaf_size as int,
                        );
                        vstd::arithmetic::mul::lemma_mul_is_distributive_add_other_way(
                            leaf_size as int,
                            k,
                            1,
                        );
                        assert(base.subrange(k * leaf_size as int, (k + 1) * leaf_size as int)
                            =~= leaves_2d@[k]@);
                        assert(leaves_1d@.subrange(k * leaf_size as int, (k + 1)
                            * leaf_size as int) =~= base.subrange(
                            k * leaf_size as int,
                            (k + 1) * leaf_size as int,
                        ));
                    } else {
                        vstd::arithmetic::mul::lemma_mul_is_distributive_add_other_way(
                            leaf_size as int,
                            k,
                            1,
                        );
                        assert(leaves_1d@.subrange(k * leaf_size as int, (k + 1)
                            * leaf_size as int) =~= leaves_2d@[i as int]@);
                    }
                }
                vstd::arithmetic::mul::lemma_mul_is_distributive_add_other_way(
                    leaf_size as int,
                    i as int,
                    1,
                );
            }
            i = i + 1;
        }

        let tree = MerkleTree {
            leaves: leaves_1d,
            leaf_size,
            digests,
            cap: MerkleCap(cap),
            _hasher: core::marker::PhantomData,
        };
        proof {
            vstd::arithmetic::mul::lemma_mul_is_commutative(n as int, leaf_size as int);
            vstd::arithmetic::div_mod::lemma_div_multiples_vanish(
                n as int,
                leaf_size as int,
            );
            assert(tree.spec_num_leaves() == n);
            assert(tree.spec_rows() =~= rows_view(leaves_2d@));
            lemma_tree_cap_len::<H>(rows_view(leaves_2d@), cap_height as nat);
            crate::util::lemma_pow2_is_pow2(cap_height as nat);
        }
        tree
    }

    /// Builds the tree, rejecting invalid shapes: a leaf count that is not a
    /// power of two, or a cap height above the full tree height. Exactly
    /// those inputs are rejected, each with its own error.
    pub fn try_new(leaves_2d: Vec<Vec<GoldilocksField>>, cap_height: usize) -> (r: Result<
        MerkleTree<H>,
        MerkleError,
    >)
        requires
            leaves_2d@.len() >= 1 ==> leaves_2d@[0]@.len() >= 1,
            forall|i: int|
                0 <= i < leaves_2d@.len() ==> (#[trigger] leaves_2d@[i])@.len()
                    == leaves_2d@[0]@.len(),
            rows_wf(rows_view(leaves_2d@)),
        ensures
            r is Ok <==> (spec_is_pow2(leaves_2d@.len()) && cap_height as nat <= spec_lg(
                leaves_2d@.len(),
            )),
            r matches Ok(t) ==> {
                &&& t.wf()
                &&& t.spec_num_leaves() == leaves_2d@.len()
                &&& t.leaf_size == leaves_2d@[0]@.len()
                &&& t.spec_rows() == rows_view(leaves_2d@)
                &&& t.spec_cap_height() == cap_height
            },
            r matches Err(e) ==> if !spec_is_pow2(leaves_2d@.len()) {
                e == MerkleError::LeavesNotPowerOfTwo
            } else {
                e == MerkleError::CapHeightTooLarge
            },
    {
        match try_log2_strict(leaves_2d.len()) {
            None => Err(MerkleError::LeavesNotPowerOfTwo),
            Some(log2_n) => {
                if cap_height > log2_n {
                    Err(MerkleError::CapHeightTooLarge)
                } else {
                    Ok(Self::new(leaves_2d, cap_height))
                }
            },
        }
    }

    /// Reassembles a tree from parts computed elsewhere. The caller is
    /// answerable for the parts fitting together; a tree whose digest array
    /// does not match its rows is not well-formed and proofs drawn from it
    /// carry no guarantee.
    pub fn new_from_fields(
        leaves_1d: Vec<GoldilocksField>,
        leaf_size: usize,
        digests: Vec<HashOut>,
        cap: MerkleCap,
    ) -> (r: MerkleTree<H>)
        ensures
            r.leaves == leaves_1d,
            r.leaf_size == leaf_size,
            r.digests == digests,
            r.cap == cap,
    {
        MerkleTree {
            leaves: leaves_1d,
            leaf_size,
            digests,
            cap,
            _hasher: core::marker::PhantomData,
        }
    }

    /// The number of leaf rows.
    pub fn get_leaves_count(&self) -> (r: usize)
        requires
            self.leaf_size >= 1,
        ensures
            r == self.spec_num_leaves(),
    {
        self.leaves.len() / self.leaf_size
    }

    /// The `i`-th committed row.
    pub fn get(&self, i: usize) -> (r: &[GoldilocksField])
        requires
            self.wf(),
            i < self.spec_num_leaves(),
        ensures
            r@ == self.spec_rows()[i as int],
    {
        let total = self.leaves.len();
        proof {
            vstd::arithmetic::mul::lemma_mul_inequality(
                i + 1,
                self.spec_num_leaves() as int,
                self.leaf_size as int,
            );
            vstd::arithmetic::mul::lemma_mul_is_distributive_add_other_way(
                self.leaf_size as int,
                i as int,
                1,
            );
            vstd::arithmetic::mul::lemma_mul_nonnegative(i as int, self.leaf_size as int);
        }
        let start = i * self.leaf_size;
        vstd::slice::slice_subrange(self.leaves.as_slice(), start, start + self.leaf_size)
    }

    /// The flattened leaf storage, copied.
    pub fn get_leaves_1d(&self) -> (r: Vec<GoldilocksField>)
        ensures
            r@ == self.leaves@,
    {
        vstd::slice::slice_to_vec(self.leaves.as_slice())
    }

    /// Creates a Merkle proof from a leaf index: the sibling digest on each
    /// level from the leaf layer up to (but not including) the cap, derived
    /// from the same recursive region decomposition that filled the array.
    pub fn prove(&self, leaf_index: usize) -> (p: crate::merkle_proofs::MerkleProof)
        requires
            self.wf(),
            leaf_index < self.spec_num_leaves(),
        ensures
            p.siblings@ == tree_proof::<H>(
                self.spec_rows(),
                self.spec_cap_height(),
                leaf_index as int,
            ),
            p.siblings@.len() == spec_lg(self.spec_num_leaves()) - self.spec_cap_height(),
            digests_wf(p.siblings@),
    {
        let cap_height = log2_strict(self.cap.0.len());
        let num_leaves = self.get_leaves_count();
        proof {
            lemma_tree_digests_len::<H>(self.spec_rows(), self.spec_cap_height());
            assert(self.digests@.subrange(0, self.digests@.len() as int) =~= self.digests@);
            lemma_tree_proof_len::<H>(
                self.spec_rows(),
                self.spec_cap_height(),
                leaf_index as int,
            );
        }
        let siblings = collect_tree_siblings::<H>(
            &self.digests,
            0,
            num_leaves,
            cap_height,
            leaf_index,
            Ghost(self.spec_rows()),
        );
        crate::merkle_proofs::MerkleProof { siblings }
    }

    /// The committed rows, copied row by row.
    pub fn get_leaves_2d(&self) -> (r: Vec<Vec<GoldilocksField>>)
        requires
            self.wf(),
        ensures
            rows_view(r@) == self.spec_rows(),
            r@.len() == self.spec_num_leaves(),
    {
        let n = self.get_leaves_count();
        let mut out: Vec<Vec<GoldilocksField>> = Vec::new();
        let mut i: usize = 0;
        while i < n
            invariant
                i <= n,
                self.wf(),
                n == self.spec_num_leaves(),
                out@.len() == i,
                forall|k: int| 0 <= k < i ==> (#[trigger] out@[k])@ == self.spec_rows()[k],
            decreases n - i,
        {
            let row = self.get(i);
            out.push(vstd::slice::slice_to_vec(row));
            i = i + 1;
        }
        proof {
            assert(rows_view(out@) =~= self.spec_rows());
        }
        out
    }
}

/// Collects the sibling path for local index `idx` out of one subtree's
/// digest region `digests[start .. start + 2 * (m - 1)]`, bottom-up, by the
/// same left/mid/right decomposition that built the region.
fn collect_subtree_siblings<H: Hasher>(
    digests: &Vec<HashOut>,
    start: usize,
    m: usize,
    idx: usize,
    Ghost(chunk): Ghost<Seq<Seq<GoldilocksField>>>,
) -> (r: Vec<HashOut>)
    requires
        spec_is_pow2(m as nat),
        idx < m,
        chunk.len() == m,
        start + 2 * (m - 1) <= digests@.len(),
        digests@.subrange(start as int, start as int + 2 * (m as int - 1)) == subtree_digests::<
            H,
        >(chunk),
        digests_wf(digests@),
    ensures
        r@ == subtree_proof::<H>(chunk, idx as int),
        digests_wf(r@),
    decreases m,
{
    let total = digests.len();
    if m == 1 {
        Vec::new()
    } else {
        let half = m / 2;
        let ghost l = left_half(chunk);
        let ghost rr = right_half(chunk);
        let ghost region = digests@.subrange(start as int, start as int + 2 * (m as int - 1));
        proof {
            lemma_subtree_digests_len::<H>(l);
            lemma_subtree_digests_len::<H>(rr);
            // region = left_region ++ [left_root, right_root] ++ right_region
            assert(region[m as int - 2] == subtree_root::<H>(l));
            assert(region[m as int - 1] == subtree_root::<H>(rr));
            assert(digests@[start as int + m as int - 2] == subtree_root::<H>(l));
            assert(digests@[start as int + m as int - 1] == subtree_root::<H>(rr));
        }
        if idx < half {
            proof {
                let llen = 2 * (half as int - 1);
                assert forall|k: int| 0 <= k < llen implies digests@.subrange(
                    start as int,
                    start as int + llen,
                )[k] == subtree_digests::<H>(l)[k] by {
                    assert(region[k] == digests@[start as int + k]);
                }
                assert(digests@.subrange(start as int, start as int + 2 * (half as int - 1))
                    =~= subtree_digests::<H>(l));
            }
            let mut v = collect_subtree_siblings::<H>(digests, start, half, idx, Ghost(l));
            let sib = digests[start + m - 1];
            v.push(sib);
            v
        } else {
            proof {
                let llen = 2 * (half as int - 1);
                assert forall|k: int| 0 <= k < llen implies digests@.subrange(
                    start as int + m as int,
                    start as int + m as int + llen,
                )[k] == subtree_digests::<H>(rr)[k] by {
                    assert(region[m as int + k] == digests@[start as int + m as int + k]);
                }
                assert(digests@.subrange(start as int + m as int, start as int + m as int + 2 * (
                half as int - 1)) =~= subtree_digests::<H>(rr));
            }
            let mut v = collect_subtree_siblings::<H>(
                digests,
                start + m,
                half,
                idx - half,
                Ghost(rr),
            );
            let sib = digests[start + m - 2];
            v.push(sib);
            v
        }
    }
}

/// Collects the sibling path for `idx` out of the whole digest array
/// `digests[start .. start + 2 * (len - 2^h)]`: descends through the `2^h`
/// subtree regions to the one owning `idx`, then walks that region.
fn collect_tree_siblings<H: Hasher>(
    digests: &Vec<HashOut>,
    start: usize,
    len: usize,
    h: usize,
    idx: usize,
    Ghost(chunk): Ghost<Seq<Seq<GoldilocksField>>>,
) -> (r: Vec<HashOut>)
    requires
        spec_is_pow2(len as nat),
        h as nat <= spec_lg(len as nat),
        idx < len,
        chunk.len() == len,
        start as int + 2 * (len as int - spec_pow2(h as nat)) <= digests@.len(),
        digests@.subrange(start as int, start as int + 2 * (len as int - spec_pow2(h as nat)))
            == tree_digests::<H>(chunk, h as nat),
        digests_wf(digests@),
    ensures
        r@ == tree_proof::<H>(chunk, h as nat, idx as int),
        digests_wf(r@),
    decreases h,
{
    let total = digests.len();
    if h == 0 {
        collect_subtree_siblings::<H>(digests, start, len, idx, Ghost(chunk))
    } else {
        let half = len / 2;
        let ghost l = left_half(chunk);
        let ghost rr = right_half(chunk);
        let ghost region = digests@.subrange(
            start as int,
            start as int + 2 * (len as int - spec_pow2(h as nat)),
        );
        proof {
            lemma_pow2_pos((h - 1) as nat);
            lemma_pow2_lg(len as nat);
            lemma_pow2_le(h as nat, spec_lg(len as nat));
            lemma_tree_digests_len::<H>(l, (h - 1) as nat);
            lemma_tree_digests_len::<H>(rr, (h - 1) as nat);
        }
        let sub_cap = pow2_exec(h - 1);
        let left_region_len = 2 * (half - sub_cap);
        proof {
            let llen = left_region_len as int;
            let lsub = digests@.subrange(start as int, start as int + llen);
            let rsub = digests@.subrange(
                start as int + llen,
                start as int + 2 * (len as int - spec_pow2(h as nat)),
            );
            assert forall|k: int| 0 <= k < llen implies #[trigger] lsub[k] == tree_digests::<H>(
                l,
                (h - 1) as nat,
            )[k] by {
                assert(region[k] == digests@[start as int + k]);
            }
            assert(lsub =~= tree_digests::<H>(l, (h - 1) as nat));
            assert forall|k: int| 0 <= k < llen implies #[trigger] rsub[k] == tree_digests::<H>(
                rr,
                (h - 1) as nat,
            )[k] by {
                assert(region[llen + k] == digests@[start as int + llen + k]);
            }
            assert(rsub =~= tree_digests::<H>(rr, (h - 1) as nat));
        }
        if idx < half {
            collect_tree_siblings::<H>(digests, start, half, h - 1, idx, Ghost(l))
        } else {
            collect_tree_siblings::<H>(
                digests,
                start + left_region_len,
                half,
                h - 1,
                idx - half,
                Ghost(rr),
            )
        }
    }
}

/// The digest region of `m` rows holds exactly `2 * (m - 1)` digests.
pub proof fn lemma_subtree_digests_len<H: Hasher>(rows: Seq<Seq<GoldilocksField>>)
    requires
        rows.len() >= 1,
    ensures
        subtree_digests::<H>(rows).len() == 2 * (rows.len() - 1),
    decreases rows.len(),
{
    if rows.len() > 1 {
        lemma_subtree_digests_len::<H>(left_half(rows));
        lemma_subtree_digests_len::<H>(right_half(rows));
    }
}

/// A subtree proof over `m` rows holds exactly `lg(m)` siblings.
pub proof fn lemma_subtree_proof_len<H: Hasher>(rows: Seq<Seq<GoldilocksField>>, idx: int)
    requires
        spec_is_pow2(rows.len()),
    ensures
        subtree_proof::<H>(rows, idx).len() == spec_lg(rows.len()),
    decreases rows.len(),
{
    if rows.len() > 1 {
        let half = rows.len() as int / 2;
        if idx < half {
            lemma_subtree_proof_len::<H>(left_half(rows), idx);
        } else {
            lemma_subtree_proof_len::<H>(right_half(rows), idx - half);
        }
    }
}

/// The whole digest array over `N` rows with cap height `h` holds exactly
/// `2 * (N - 2^h)` digests.
pub proof fn lemma_tree_digests_len<H: Hasher>(rows: Seq<Seq<GoldilocksField>>, h: nat)
    requires
        spec_is_pow2(rows.len()),
        h <= spec_lg(rows.len()),
    ensures
        tree_digests::<H>(rows, h).len() == 2 * (rows.len() - spec_pow2(h)),
    decreases h,
{
    if h == 0 {
        lemma_subtree_digests_len::<H>(rows);
    } else {
        lemma_tree_digests_len::<H>(left_half(rows), (h - 1) as nat);
        lemma_tree_digests_len::<H>(right_half(rows), (h - 1) as nat);
    }
}

/// The cap over `2^h` subtrees holds exactly `2^h` digests.
pub proof fn lemma_tree_cap_len<H: Hasher>(rows: Seq<Seq<GoldilocksField>>, h: nat)
    ensures
        tree_cap::<H>(rows, h).len() == spec_pow2(h),
    decreases h,
{
    if h > 0 {
        lemma_tree_cap_len::<H>(left_half(rows), (h - 1) as nat);
        lemma_tree_cap_len::<H>(right_half(rows), (h - 1) as nat);
    }
}

/// A tree proof with cap height `h` holds exactly `lg(N) - h` siblings.
pub proof fn lemma_tree_proof_len<H: Hasher>(rows: Seq<Seq<GoldilocksField>>, h: nat, idx: int)
    requires
        spec_is_pow2(rows.len()),
        h <= spec_lg(rows.len()),
    ensures
        tree_proof::<H>(rows, h, idx).len() == spec_lg(rows.len()) - h,
    decreases h,
{
    if h == 0 {
        lemma_subtree_proof_len::<H>(rows, idx);
    } else {
        let half = rows.len() as int / 2;
        if idx < half {
            lemma_tree_proof_len::<H>(left_half(rows), (h - 1) as nat, idx);
        } else {
            lemma_tree_proof_len::<H>(right_half(rows), (h - 1) as nat, idx - half);
        }
    }
}

} // verus!

//! The digest type shared by all tree hashers, and the hashing interface the
//! Merkle tree consumes: a row hash (`hash_no_pad`, wrapped by
//! [`hash_or_noop`]) and an order-sensitive two-to-one compression.

use vstd::prelude::*;

use crate::field::{fwf, GoldilocksField};

verus! {

broadcast use vstd::array::group_array_axioms;

/// Number of field elements in a digest.
pub const NUM_HASH_OUT_ELTS: usize = 4;

/// A fixed-size hash output: four Goldilocks field elements.
#[derive(Clone, Copy, Debug)]
pub struct HashOut {
    pub elements: [GoldilocksField; 4],
}

/// Every element of the digest is canonical.
pub open spec fn hwf(h: HashOut) -> bool {
    forall|i: int| 0 <= i < 4 ==> fwf(#[trigger] h.elements[i])
}

impl HashOut {
    /// The all-zero digest.
    pub fn zero() -> (r: HashOut)
        ensures
            forall|i: int| 0 <= i < 4 ==> #[trigger] r.elements[i] == (GoldilocksField(0u64)),
            hwf(r),
    {
        HashOut { elements: [GoldilocksField(0u64); 4] }
    }

    /// Whether two digests hold the same four elements; in specifications this
    /// is exactly value equality of the digests.
    pub fn equals(self, other: HashOut) -> (r: bool)
        ensures
            r <==> self == other,
    {
        let eq = self.elements[0].0 == other.elements[0].0 && self.elements[1].0
            == other.elements[1].0 && self.elements[2].0 == other.elements[2].0
            && self.elements[3].0 == other.elements[3].0;
        proof {
            if eq {
                assert(self.elements =~= other.elements);
            }
        }
        eq
    }
}

/// What a row of at most four elements is padded to in place of a real hash:
/// the row itself, extended with zeros.
pub open spec fn spec_pad_to_hash(row: Seq<GoldilocksField>) -> HashOut {
    HashOut {
        elements: [
            if row.len() > 0 {
                row[0]
            } else {
                GoldilocksField(0u64)
            },
            if row.len() > 1 {
                row[1]
            } else {
                GoldilocksField(0u64)
            },
            if row.len() > 2 {
                row[2]
            } else {
                GoldilocksField(0u64)
            },
            if row.len() > 3 {
                row[3]
            } else {
                GoldilocksField(0u64)
            },
        ],
    }
}

/// The sponge state two digests are compressed from: the left digest's four
/// elements, the right digest's four, and four zero capacity lanes.
pub open spec fn spec_compress_state(left: HashOut, right: HashOut) -> Seq<GoldilocksField> {
    Seq::new(
        12,
        |i: int|
            if i < 4 {
                left.elements[i]
            } else if i < 8 {
                right.elements[i - 4]
            } else {
                GoldilocksField(0u64)
            },
    )
}

/// Builds the twelve-lane state that compresses two digests.
pub fn compress_state(left: HashOut, right: HashOut) -> (st: Vec<GoldilocksField>)
    requires
        hwf(left),
        hwf(right),
    ensures
        st@ == spec_compress_state(left, right),
        st@.len() == 12,
        forall|i: int| 0 <= i < 12 ==> fwf(#[trigger] st@[i]),
{
    let mut st: Vec<GoldilocksField> = Vec::new();
    let mut z: usize = 0;
    while z < 4
        invariant
            z <= 4,
            st@.len() == z,
            forall|k: int| 0 <= k < z ==> #[trigger] st@[k] == left.elements[k],
        decreases 4 - z,
    {
        st.push(left.elements[z]);
        z = z + 1;
    }
    let mut z: usize = 0;
    while z < 4
        invariant
            z <= 4,
            st@.len() == 4 + z,
            forall|k: int| 0 <= k < 4 ==> #[trigger] st@[k] == left.elements[k],
            forall|k: int| 4 <= k < 4 + z ==> #[trigger] st@[k] == right.elements[k - 4],
        decreases 4 - z,
    {
        st.push(right.elements[z]);
        z = z + 1;
    }
    let mut z: usize = 0;
    while z < 4
        invariant
            z <= 4,
            st@.len() == 8 + z,
            forall|k: int| 0 <= k < 4 ==> #[trigger] st@[k] == left.elements[k],
            forall|k: int| 4 <= k < 8 ==> #[trigger] st@[k] == right.elements[k - 4],
            forall|k: int| 8 <= k < 8 + z ==> #[trigger] st@[k] == (GoldilocksField(0u64)),
        decreases 4 - z,
    {
        st.push(GoldilocksField(0u64));
        z = z + 1;
    }
    proof {
        assert(st@ =~= spec_compress_state(left, right));
    }
    st
}

/// A hash family usable for building Merkle trees: a row hash and a binding,
/// order-sensitive compression of two digests. Both are deterministic, so
/// their behaviour is a specification-level function of the inputs.
pub trait Hasher {
    /// The value `hash_no_pad` computes.
    spec fn spec_hash_no_pad(input: Seq<GoldilocksField>) -> HashOut;

    /// The value `two_to_one` computes.
    spec fn spec_two_to_one(left: HashOut, right: HashOut) -> HashOut;

    /// Hashes a row of canonical field elements.
    fn hash_no_pad(input: &[GoldilocksField]) -> (h: HashOut)
        requires
            forall|i: int| 0 <= i < input@.len() ==> fwf(#[trigger] input@[i]),
        ensures
            h == Self::spec_hash_no_pad(input@),
            hwf(h),
    ;

    /// Compresses two digests into one; the order of the arguments matters.
    fn two_to_one(left: HashOut, right: HashOut) -> (h: HashOut)
        requires
            hwf(left),
            hwf(right),
        ensures
            h == Self::spec_two_to_one(left, right),
            hwf(h),
    ;
}

/// What [`hash_or_noop`] computes: rows already no wider than a digest are
/// embedded as-is (padded with zeros), wider rows are hashed.
pub open spec fn spec_hash_or_noop<H: Hasher>(row: Seq<GoldilocksField>) -> HashOut {
    if row.len() <= 4 {
        spec_pad_to_hash(row)
    } else {
        H::spec_hash_no_pad(row)
    }
}

/// Leaf hashing: identity-like for rows already narrow enough, a full hash
/// otherwise.
pub fn hash_or_noop<H: Hasher>(row: &[GoldilocksField]) -> (h: HashOut)
    requires
        forall|i: int| 0 <= i < row@.len() ==> fwf(#[trigger] row@[i]),
    ensures
        h == spec_hash_or_noop::<H>(row@),
        hwf(h),
{
    if row.len() <= 4 {
        let mut elements = [GoldilocksField(0u64); 4];
        if row.len() > 0 {
            elements[0] = row[0];
        }
        if row.len() > 1 {
            elements[1] = row[1];
        }
        if row.len() > 2 {
            elements[2] = row[2];
        }
        if row.len() > 3 {
            elements[3] = row[3];
        }
        let h = HashOut { elements };
        proof {
            assert(h.elements =~= spec_pad_to_hash(row@).elements);
        }
        h
    } else {
        H::hash_no_pad(row)
    }
}

} // verus!

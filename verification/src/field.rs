//! The Goldilocks prime field, modelled directly: an element is a canonical
//! `u64` below the field order, and every operation is specified as modular
//! arithmetic on that value.

use vstd::prelude::*;

verus! {

/// Order of the Goldilocks field: 2^64 - 2^32 + 1.
pub const FIELD_ORDER: u64 = 0xFFFF_FFFF_0000_0001;

/// An element of the Goldilocks prime field, kept in canonical form
/// (see [`fwf`]).
#[derive(Clone, Copy, PartialEq, Eq, Structural, Debug, Hash)]
pub struct GoldilocksField(pub u64);

/// Canonical form: the representative is reduced below the field order.
pub open spec fn fwf(a: GoldilocksField) -> bool {
    a.0 < FIELD_ORDER
}

/// Sum in the field.
pub open spec fn f_add(a: GoldilocksField, b: GoldilocksField) -> GoldilocksField {
    GoldilocksField(((a.0 + b.0) % (FIELD_ORDER as int)) as u64)
}

/// Difference in the field.
pub open spec fn f_sub(a: GoldilocksField, b: GoldilocksField) -> GoldilocksField {
    GoldilocksField(((a.0 - b.0) % (FIELD_ORDER as int)) as u64)
}

/// Product in the field.
pub open spec fn f_mul(a: GoldilocksField, b: GoldilocksField) -> GoldilocksField {
    GoldilocksField(((a.0 * b.0) % (FIELD_ORDER as int)) as u64)
}

/// Additive inverse in the field.
pub open spec fn f_neg(a: GoldilocksField) -> GoldilocksField {
    GoldilocksField(((0 - a.0) % (FIELD_ORDER as int)) as u64)
}

/// `a` raised to the `n`-th power in the field.
pub open spec fn f_pow(a: GoldilocksField, n: nat) -> GoldilocksField
    decreases n,
{
    if n == 0 {
        GoldilocksField(1u64 % FIELD_ORDER)
    } else {
        f_mul(a, f_pow(a, (n - 1) as nat))
    }
}

impl GoldilocksField {
    /// The zero element.
    pub fn zero() -> (r: GoldilocksField)
        ensures
            r == (GoldilocksField(0u64)),
            fwf(r),
    {
        GoldilocksField(0u64)
    }

    /// Builds an element from an already-canonical representative.
    pub fn from_canonical_u64(n: u64) -> (r: GoldilocksField)
        requires
            n < FIELD_ORDER,
        ensures
            r == (GoldilocksField(n)),
            fwf(r),
    {
        GoldilocksField(n)
    }

    /// The canonical representative of this element.
    pub fn to_canonical_u64(self) -> (r: u64)
        ensures
            r == self.0,
    {
        self.0
    }

    /// Builds an element from any `u64`, reducing it modulo the field order.
    pub fn from_noncanonical_u64(n: u64) -> (r: GoldilocksField)
        ensures
            r.0 == n % FIELD_ORDER,
            fwf(r),
    {
        GoldilocksField(n % FIELD_ORDER)
    }

    /// Builds an element from a `u128`, reducing it modulo the field order.
    pub fn from_noncanonical_u128(n: u128) -> (r: GoldilocksField)
        ensures
            r.0 == n as int % (FIELD_ORDER as int),
            fwf(r),
    {
        GoldilocksField((n % (FIELD_ORDER as u128)) as u64)
    }

    /// Field addition.
    pub fn add(self, rhs: GoldilocksField) -> (r: GoldilocksField)
        ensures
            r == f_add(self, rhs),
            fwf(r),
    {
        let s: u128 = self.0 as u128 + rhs.0 as u128;
        GoldilocksField((s % (FIELD_ORDER as u128)) as u64)
    }

    /// Field subtraction.
    pub fn sub(self, rhs: GoldilocksField) -> (r: GoldilocksField)
        requires
            fwf(self),
            fwf(rhs),
        ensures
            r == f_sub(self, rhs),
            fwf(r),
    {
        if self.0 >= rhs.0 {
            let d: u64 = self.0 - rhs.0;
            proof {
                vstd::arithmetic::div_mod::lemma_small_mod(d as nat, FIELD_ORDER as nat);
            }
            GoldilocksField(d)
        } else {
            // self.0 < rhs.0 < FIELD_ORDER, so the difference is a single
            // borrow away from the canonical value.
            let d: u64 = FIELD_ORDER - (rhs.0 - self.0);
            proof {
                vstd::arithmetic::div_mod::lemma_mod_add_multiples_vanish(
                    self.0 - rhs.0,
                    FIELD_ORDER as int,
                );
                vstd::arithmetic::div_mod::lemma_small_mod(d as nat, FIELD_ORDER as nat);
            }
            GoldilocksField(d)
        }
    }

    /// Field negation.
    pub fn neg(self) -> (r: GoldilocksField)
        requires
            fwf(self),
        ensures
            r == f_neg(self),
            fwf(r),
    {
        if self.0 == 0 {
            proof {
                vstd::arithmetic::div_mod::lemma_small_mod(0nat, FIELD_ORDER as nat);
            }
            GoldilocksField(0u64)
        } else {
            let d: u64 = FIELD_ORDER - self.0;
            proof {
                vstd::arithmetic::div_mod::lemma_mod_add_multiples_vanish(
                    0 - self.0,
                    FIELD_ORDER as int,
                );
                vstd::arithmetic::div_mod::lemma_small_mod(d as nat, FIELD_ORDER as nat);
            }
            GoldilocksField(d)
        }
    }

    /// Field multiplication.
    pub fn mul(self, rhs: GoldilocksField) -> (r: GoldilocksField)
        ensures
            r == f_mul(self, rhs),
            fwf(r),
    {
        proof {
            vstd::arithmetic::mul::lemma_mul_upper_bound(
                self.0 as int,
                u64::MAX as int,
                rhs.0 as int,
                u64::MAX as int,
            );
        }
        let p: u128 = self.0 as u128 * rhs.0 as u128;
        GoldilocksField((p % (FIELD_ORDER as u128)) as u64)
    }

    /// Field squaring.
    pub fn square(self) -> (r: GoldilocksField)
        ensures
            r == f_mul(self, self),
            fwf(r),
    {
        self.mul(self)
    }
}

/// The value of up to eight little-endian bytes read at `off`; bytes past
/// the end count as zero.
pub open spec fn spec_le_chunk(data: Seq<u8>, off: int) -> u64 {
    (spec_chunk_byte(data, off) as u64) | ((spec_chunk_byte(data, off + 1) as u64) << 8) | ((
    spec_chunk_byte(data, off + 2) as u64) << 16) | ((spec_chunk_byte(data, off + 3) as u64)
        << 24) | ((spec_chunk_byte(data, off + 4) as u64) << 32) | ((spec_chunk_byte(
        data,
        off + 5,
    ) as u64) << 40) | ((spec_chunk_byte(data, off + 6) as u64) << 48) | ((spec_chunk_byte(
        data,
        off + 7,
    ) as u64) << 56)
}

/// One byte of a chunk, zero past the end of the data.
pub open spec fn spec_chunk_byte(data: Seq<u8>, i: int) -> u8 {
    if 0 <= i < data.len() {
        data[i]
    } else {
        0
    }
}

/// Reads the bytes as little-endian 64-bit chunks (the last chunk padded
/// with zeros) and interprets each as a canonical field element. A chunk at
/// or above the field order is rejected by the caller's precondition; in the
/// reference system such input panics.
pub fn u8_to_goldilocks(data: &[u8]) -> (r: Vec<GoldilocksField>)
    requires
        forall|off: int|
            0 <= off < data@.len() && off % 8 == 0 ==> #[trigger] spec_le_chunk(data@, off)
                < FIELD_ORDER,
    ensures
        r@.len() == (data@.len() + 7) / 8,
        forall|c: int|
            0 <= c < r@.len() ==> #[trigger] r@[c] == (GoldilocksField(
                spec_le_chunk(data@, 8 * c),
            )),
        forall|c: int| 0 <= c < r@.len() ==> fwf(#[trigger] r@[c]),
{
    let len = data.len();
    let num_chunks = len / 8 + if len % 8 == 0 {
        0
    } else {
        1
    };
    proof {
        assert(num_chunks == (len + 7) as int / 8);
    }
    let mut out: Vec<GoldilocksField> = Vec::new();
    let mut c: usize = 0;
    while c < num_chunks
        invariant
            c <= num_chunks,
            len == data@.len(),
            num_chunks == (len + 7) as int / 8,
            forall|off: int|
                0 <= off < data@.len() && off % 8 == 0 ==> #[trigger] spec_le_chunk(data@, off)
                    < FIELD_ORDER,
            out@.len() == c,
            forall|k: int|
                0 <= k < c ==> #[trigger] out@[k] == (GoldilocksField(
                    spec_le_chunk(data@, 8 * k),
                )),
        decreases num_chunks - c,
    {
        let base = 8 * c;
        let b0 = chunk_byte(data, base);
        let b1 = chunk_byte(data, base + 1);
        let b2 = chunk_byte(data, base + 2);
        let b3 = chunk_byte(data, base + 3);
        let b4 = chunk_byte(data, base + 4);
        let b5 = chunk_byte(data, base + 5);
        let b6 = chunk_byte(data, base + 6);
        let b7 = chunk_byte(data, base + 7);
        let v: u64 = (b0 as u64) | ((b1 as u64) << 8u64) | ((b2 as u64) << 16u64) | ((b3 as u64)
            << 24u64) | ((b4 as u64) << 32u64) | ((b5 as u64) << 40u64) | ((b6 as u64) << 48u64)
            | ((b7 as u64) << 56u64);
        proof {
            assert(v == spec_le_chunk(data@, 8 * c as int));
        }
        out.push(GoldilocksField::from_canonical_u64(v));
        c = c + 1;
    }
    out
}

/// One byte of a chunk, zero past the end of the data.
fn chunk_byte(data: &[u8], i: usize) -> (r: u8)
    ensures
        r == spec_chunk_byte(data@, i as int),
{
    if i < data.len() {
        data[i]
    } else {
        0
    }
}

} // verus!

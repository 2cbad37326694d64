//! The Poseidon MDS gate: its wire layout and the MDS-layer arithmetic its
//! constraints check, over the extension field and over the extension
//! algebra. The constraint for each row is `output - mds_row(inputs)`, which
//! is linear in the wires.

use vstd::prelude::*;

use crate::extension::{
    ea_wf, qe_wf, spec_ea_add, spec_qe_add, spec_qe_mul, ExtensionAlgebra, QuadraticExtension,
};
use crate::field::GoldilocksField;

verus! {

/// Width of the Poseidon state this gate moves through its MDS layer.
pub const SPONGE_WIDTH: usize = 12;

/// Circulant part of the Poseidon MDS matrix for Goldilocks, width 12.
pub const MDS_MATRIX_CIRC: [u64; 12] = [17, 15, 41, 16, 2, 28, 13, 13, 39, 18, 34, 20];

/// Diagonal part of the Poseidon MDS matrix for Goldilocks, width 12.
pub const MDS_MATRIX_DIAG: [u64; 12] = [8, 0, 0, 0, 0, 0, 0, 0, 0, 0, 0, 0];

/// Computes one row of the MDS layer over the extension algebra:
/// `sum_i circ[i] * v[(i + r) % 12] + diag[r] * v[r]`, accumulated left to
/// right from zero.
pub open spec fn spec_mds_row_acc(r: int, v: Seq<ExtensionAlgebra>, n: nat) -> ExtensionAlgebra
    decreases n,
{
    if n == 0 {
        ExtensionAlgebra(
            QuadraticExtension(GoldilocksField(0u64), GoldilocksField(0u64)),
            QuadraticExtension(GoldilocksField(0u64), GoldilocksField(0u64)),
        )
    } else {
        let i = n - 1;
        let term = ExtensionAlgebra(
            spec_qe_mul(
                v[(i + r) % 12].0,
                QuadraticExtension(
                    GoldilocksField(MDS_MATRIX_CIRC[i]),
                    GoldilocksField(0u64),
                ),
            ),
            spec_qe_mul(
                v[(i + r) % 12].1,
                QuadraticExtension(
                    GoldilocksField(MDS_MATRIX_CIRC[i]),
                    GoldilocksField(0u64),
                ),
            ),
        );
        spec_ea_add(spec_mds_row_acc(r, v, (n - 1) as nat), term)
    }
}

/// One full row of the MDS layer over the algebra.
pub open spec fn spec_mds_row(r: int, v: Seq<ExtensionAlgebra>) -> ExtensionAlgebra {
    let diag_term = ExtensionAlgebra(
        spec_qe_mul(
            v[r].0,
            QuadraticExtension(GoldilocksField(MDS_MATRIX_DIAG[r]), GoldilocksField(0u64)),
        ),
        spec_qe_mul(
            v[r].1,
            QuadraticExtension(GoldilocksField(MDS_MATRIX_DIAG[r]), GoldilocksField(0u64)),
        ),
    );
    spec_ea_add(spec_mds_row_acc(r, v, 12), diag_term)
}

/// The same row over the extension field (base evaluation):
/// accumulated left to right from zero.
pub open spec fn spec_mds_row_field_acc(r: int, v: Seq<QuadraticExtension>, n: nat)
    -> QuadraticExtension
    decreases n,
{
    if n == 0 {
        QuadraticExtension(GoldilocksField(0u64), GoldilocksField(0u64))
    } else {
        let i = n - 1;
        spec_qe_add(
            spec_mds_row_field_acc(r, v, (n - 1) as nat),
            spec_qe_mul(
                v[(i + r) % 12],
                QuadraticExtension(
                    GoldilocksField(MDS_MATRIX_CIRC[i]),
                    GoldilocksField(0u64),
                ),
            ),
        )
    }
}

/// One full row of the MDS layer over the extension field.
pub open spec fn spec_mds_row_field(r: int, v: Seq<QuadraticExtension>) -> QuadraticExtension {
    spec_qe_add(
        spec_mds_row_field_acc(r, v, 12),
        spec_qe_mul(
            v[r],
            QuadraticExtension(GoldilocksField(MDS_MATRIX_DIAG[r]), GoldilocksField(0u64)),
        ),
    )
}

/// Poseidon MDS gate: recomputes the MDS layer on twelve extension wires and
/// constrains the twelve output wires to equal it.
#[derive(Clone, Copy, Debug, Default)]
pub struct PoseidonMdsGate<const D: usize>;

impl<const D: usize> PoseidonMdsGate<D> {
    /// A fresh gate.
    pub fn new() -> (g: PoseidonMdsGate<D>)
        ensures
            g == (PoseidonMdsGate::<D>),
    {
        PoseidonMdsGate
    }

    /// The wire range of the `i`-th input: `[i * D, (i + 1) * D)`.
    pub fn wires_input(i: usize) -> (r: (usize, usize))
        requires
            i < 12,
            12 * D <= usize::MAX,
        ensures
            r.0 == i * D,
            r.1 == (i + 1) * D,
    {
        proof {
            vstd::arithmetic::mul::lemma_mul_inequality(i + 1, 12, D as int);
            vstd::arithmetic::mul::lemma_mul_is_distributive_add_other_way(D as int, i as int, 1);
            vstd::arithmetic::mul::lemma_mul_nonnegative(i as int, D as int);
        }
        (i * D, (i + 1) * D)
    }

    /// The wire range of the `i`-th output: `[(12 + i) * D, (12 + i + 1) * D)`.
    pub fn wires_output(i: usize) -> (r: (usize, usize))
        requires
            i < 12,
            24 * D <= usize::MAX,
        ensures
            r.0 == (12 + i) * D,
            r.1 == (12 + i + 1) * D,
    {
        proof {
            vstd::arithmetic::mul::lemma_mul_inequality(12 + i + 1, 24, D as int);
            vstd::arithmetic::mul::lemma_mul_is_distributive_add_other_way(
                D as int,
                12 + i as int,
                1,
            );
            vstd::arithmetic::mul::lemma_mul_nonnegative(12 + i as int, D as int);
        }
        ((12 + i) * D, (12 + i + 1) * D)
    }

    /// One row of the MDS layer over the extension algebra.
    pub fn mds_row_shf_algebra(r: usize, v: &Vec<ExtensionAlgebra>) -> (res: ExtensionAlgebra)
        requires
            r < 12,
            v@.len() == 12,
        ensures
            res == spec_mds_row(r as int, v@),
            ea_wf(res),
    {
        let mut res = ExtensionAlgebra::zero();
        let mut i: usize = 0;
        while i < 12
            invariant
                i <= 12,
                r < 12,
                v@.len() == 12,
                res == spec_mds_row_acc(r as int, v@, i as nat),
                ea_wf(res),
            decreases 12 - i,
        {
            let coeff = QuadraticExtension(
                GoldilocksField(MDS_MATRIX_CIRC[i]),
                GoldilocksField(0u64),
            );
            res = res.add(v[(i + r) % 12].scalar_mul(coeff));
            i = i + 1;
        }
        let coeff = QuadraticExtension(GoldilocksField(MDS_MATRIX_DIAG[r]), GoldilocksField(0u64));
        res.add(v[r].scalar_mul(coeff))
    }

    /// The whole MDS layer over the extension algebra.
    pub fn mds_layer_algebra(state: &Vec<ExtensionAlgebra>) -> (res: Vec<ExtensionAlgebra>)
        requires
            state@.len() == 12,
        ensures
            res@.len() == 12,
            forall|k: int| 0 <= k < 12 ==> #[trigger] res@[k] == spec_mds_row(k, state@),
    {
        let mut res: Vec<ExtensionAlgebra> = Vec::new();
        let mut r: usize = 0;
        while r < 12
            invariant
                r <= 12,
                state@.len() == 12,
                res@.len() == r,
                forall|k: int| 0 <= k < r ==> #[trigger] res@[k] == spec_mds_row(k, state@),
            decreases 12 - r,
        {
            res.push(Self::mds_row_shf_algebra(r, state));
            r = r + 1;
        }
        res
    }

    /// One row of the MDS layer over the extension field.
    pub fn mds_row_shf_field(r: usize, v: &Vec<QuadraticExtension>) -> (res: QuadraticExtension)
        requires
            r < 12,
            v@.len() == 12,
        ensures
            res == spec_mds_row_field(r as int, v@),
            qe_wf(res),
    {
        let mut res = QuadraticExtension::zero();
        let mut i: usize = 0;
        while i < 12
            invariant
                i <= 12,
                r < 12,
                v@.len() == 12,
                res == spec_mds_row_field_acc(r as int, v@, i as nat),
                qe_wf(res),
            decreases 12 - i,
        {
            let coeff = QuadraticExtension(
                GoldilocksField(MDS_MATRIX_CIRC[i]),
                GoldilocksField(0u64),
            );
            res = res.add(v[(i + r) % 12].mul(coeff));
            i = i + 1;
        }
        let coeff = QuadraticExtension(GoldilocksField(MDS_MATRIX_DIAG[r]), GoldilocksField(0u64));
        res.add(v[r].mul(coeff))
    }

    /// The whole MDS layer over the extension field.
    pub fn mds_layer_field(state: &Vec<QuadraticExtension>) -> (res: Vec<QuadraticExtension>)
        requires
            state@.len() == 12,
        ensures
            res@.len() == 12,
            forall|k: int| 0 <= k < 12 ==> #[trigger] res@[k] == spec_mds_row_field(k, state@),
    {
        let mut res: Vec<QuadraticExtension> = Vec::new();
        let mut r: usize = 0;
        while r < 12
            invariant
                r <= 12,
                state@.len() == 12,
                res@.len() == r,
                forall|k: int| 0 <= k < r ==> #[trigger] res@[k] == spec_mds_row_field(k, state@),
            decreases 12 - r,
        {
            res.push(Self::mds_row_shf_field(r, state));
            r = r + 1;
        }
        res
    }

    /// This gate's constraints over the extension algebra: for each row, the
    /// output wire minus the recomputed MDS row; all must vanish.
    pub fn eval_unfiltered(inputs: &Vec<ExtensionAlgebra>, outputs: &Vec<ExtensionAlgebra>) -> (
    res: Vec<ExtensionAlgebra>)
        requires
            inputs@.len() == 12,
            outputs@.len() == 12,
            forall|k: int| 0 <= k < 12 ==> ea_wf(#[trigger] outputs@[k]),
        ensures
            res@.len() == 12,
            forall|k: int|
                0 <= k < 12 ==> #[trigger] res@[k] == crate::extension::spec_ea_sub(
                    outputs@[k],
                    spec_mds_row(k, inputs@),
                ),
    {
        let computed = Self::mds_layer_algebra(inputs);
        let mut res: Vec<ExtensionAlgebra> = Vec::new();
        let mut k: usize = 0;
        while k < 12
            invariant
                k <= 12,
                inputs@.len() == 12,
                outputs@.len() == 12,
                computed@.len() == 12,
                forall|j: int| 0 <= j < 12 ==> ea_wf(#[trigger] outputs@[j]),
                forall|j: int| 0 <= j < 12 ==> #[trigger] computed@[j] == spec_mds_row(j, inputs@),
                forall|j: int| 0 <= j < 12 ==> ea_wf(#[trigger] computed@[j]),
                res@.len() == k,
                forall|j: int|
                    0 <= j < k ==> #[trigger] res@[j] == crate::extension::spec_ea_sub(
                        outputs@[j],
                        spec_mds_row(j, inputs@),
                    ),
            decreases 12 - k,
        {
            res.push(outputs[k].sub(computed[k]));
            k = k + 1;
        }
        res
    }

    /// This gate's constraints over the extension field (base evaluation).
    pub fn eval_unfiltered_base_one(
        inputs: &Vec<QuadraticExtension>,
        outputs: &Vec<QuadraticExtension>,
    ) -> (res: Vec<QuadraticExtension>)
        requires
            inputs@.len() == 12,
            outputs@.len() == 12,
            forall|k: int| 0 <= k < 12 ==> qe_wf(#[trigger] outputs@[k]),
        ensures
            res@.len() == 12,
            forall|k: int|
                0 <= k < 12 ==> #[trigger] res@[k] == crate::extension::spec_qe_sub(
                    outputs@[k],
                    spec_mds_row_field(k, inputs@),
                ),
    {
        let computed = Self::mds_layer_field(inputs);
        let mut res: Vec<QuadraticExtension> = Vec::new();
        let mut k: usize = 0;
        while k < 12
            invariant
                k <= 12,
                inputs@.len() == 12,
                outputs@.len() == 12,
                computed@.len() == 12,
                forall|j: int| 0 <= j < 12 ==> qe_wf(#[trigger] outputs@[j]),
                forall|j: int|
                    0 <= j < 12 ==> #[trigger] computed@[j] == spec_mds_row_field(j, inputs@),
                forall|j: int| 0 <= j < 12 ==> qe_wf(#[trigger] computed@[j]),
                res@.len() == k,
                forall|j: int|
                    0 <= j < k ==> #[trigger] res@[j] == crate::extension::spec_qe_sub(
                        outputs@[j],
                        spec_mds_row_field(j, inputs@),
                    ),
            decreases 12 - k,
        {
            res.push(outputs[k].sub(computed[k]));
            k = k + 1;
        }
        res
    }

    /// Number of wires this gate uses.
    pub fn num_wires() -> (r: usize)
        requires
            24 * D <= usize::MAX,
        ensures
            r == 24 * D,
    {
        24 * D
    }

    /// This gate's constraint degree: the constraints are linear.
    pub fn degree() -> (r: usize)
        ensures
            r == 1,
    {
        1
    }
}

/// The witness generator paired with this gate: it records this gate's row and
/// fills the output wires with the MDS layer of the input wires, which
/// [`PoseidonMdsGate::mds_layer_field`] computes.
#[derive(Clone, Debug, Default)]
pub struct PoseidonMdsGenerator<const D: usize> {
    /// The row of the circuit the generator works on.
    pub row: usize,
}

} // verus!

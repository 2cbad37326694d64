//! The reducing gate: computes `sum_i alpha^i c_i` for a vector of base-field
//! coefficients by Horner accumulation, one accumulator per coefficient. Its
//! constraints tie each accumulator to `acc * alpha + c`, a degree-two
//! relation in the wires.

use vstd::prelude::*;

use crate::extension::{
    ea_wf, qe_wf, spec_ea_add, spec_ea_mul, spec_ea_sub, spec_qe_add, spec_qe_mul, spec_qe_sub,
    ExtensionAlgebra, QuadraticExtension,
};
use crate::field::{fwf, GoldilocksField};

verus! {

/// The accumulator after consuming the first `n` coefficients:
/// `acc_0 = old_acc`, `acc_{k+1} = acc_k * alpha + c_k`.
pub open spec fn spec_reduce(
    old_acc: QuadraticExtension,
    alpha: QuadraticExtension,
    coeffs: Seq<GoldilocksField>,
    n: nat,
) -> QuadraticExtension
    decreases n,
{
    if n == 0 {
        old_acc
    } else {
        spec_qe_add(
            spec_qe_mul(spec_reduce(old_acc, alpha, coeffs, (n - 1) as nat), alpha),
            QuadraticExtension(coeffs[n - 1], GoldilocksField(0u64)),
        )
    }
}

/// Computes `sum alpha^i c_i` for a vector `c_i` of `num_coeffs` elements of
/// the base field.
#[derive(Clone, Debug, Default)]
pub struct ReducingGate<const D: usize> {
    /// How many coefficients this gate folds in.
    pub num_coeffs: usize,
}

impl<const D: usize> ReducingGate<D> {
    /// A gate for `num_coeffs` coefficients.
    pub fn new(num_coeffs: usize) -> (g: ReducingGate<D>)
        ensures
            g.num_coeffs == num_coeffs,
    {
        ReducingGate { num_coeffs }
    }

    /// The largest coefficient count that fits: bounded both by the routed
    /// wires (which must carry the output, alpha, the old accumulator and the
    /// coefficients) and by the total wires.
    pub fn max_coeffs_len(num_wires: usize, num_routed_wires: usize) -> (r: usize)
        requires
            3 * D <= num_routed_wires,
            2 * D <= num_wires,
            D >= 1,
        ensures
            r == if num_routed_wires - 3 * D <= (num_wires - 2 * D) / (D + 1) {
                num_routed_wires - 3 * D
            } else {
                (num_wires - 2 * D) / (D + 1)
            },
    {
        let a = num_routed_wires - 3 * D;
        let b = (num_wires - 2 * D) / (D + 1);
        if a <= b {
            a
        } else {
            b
        }
    }

    /// The wire range of the output accumulator: `[0, D)`.
    pub fn wires_output() -> (r: (usize, usize))
        ensures
            r.0 == 0 && r.1 == D,
    {
        (0, D)
    }

    /// The wire range of `alpha`: `[D, 2 D)`.
    pub fn wires_alpha() -> (r: (usize, usize))
        requires
            2 * D <= usize::MAX,
        ensures
            r.0 == D && r.1 == 2 * D,
    {
        (D, 2 * D)
    }

    /// The wire range of the old accumulator: `[2 D, 3 D)`.
    pub fn wires_old_acc() -> (r: (usize, usize))
        requires
            3 * D <= usize::MAX,
        ensures
            r.0 == 2 * D && r.1 == 3 * D,
    {
        (2 * D, 3 * D)
    }

    /// The wire range of the coefficients: `[3 D, 3 D + num_coeffs)`.
    pub fn wires_coeffs(&self) -> (r: (usize, usize))
        requires
            3 * D + self.num_coeffs <= usize::MAX,
        ensures
            r.0 == 3 * D && r.1 == 3 * D + self.num_coeffs,
    {
        (3 * D, 3 * D + self.num_coeffs)
    }

    /// The first wire of the intermediate accumulators.
    pub fn start_accs(&self) -> (r: usize)
        requires
            3 * D + self.num_coeffs <= usize::MAX,
        ensures
            r == 3 * D + self.num_coeffs,
    {
        3 * D + self.num_coeffs
    }

    /// The wire range of the `i`-th accumulator; the last accumulator is the
    /// output.
    pub fn wires_accs(&self, i: usize) -> (r: (usize, usize))
        requires
            i < self.num_coeffs,
            3 * D + self.num_coeffs + (i + 1) * D <= usize::MAX,
        ensures
            r == if i + 1 == self.num_coeffs {
                (0usize, D as usize)
            } else {
                ((3 * D + self.num_coeffs + i * D) as usize, (3 * D + self.num_coeffs + (i + 1)
                    * D) as usize)
            },
    {
        if i == self.num_coeffs - 1 {
            // The last accumulator is the output.
            return Self::wires_output();
        }
        proof {
            vstd::arithmetic::mul::lemma_mul_is_distributive_add_other_way(D as int, i as int, 1);
            vstd::arithmetic::mul::lemma_mul_nonnegative(i as int, D as int);
        }
        (3 * D + self.num_coeffs + i * D, 3 * D + self.num_coeffs + (i + 1) * D)
    }

    /// All intermediate accumulators, as the witness generator fills them:
    /// the `k`-th entry is the accumulator after `k + 1` coefficients, and
    /// the last entry is this gate's output.
    pub fn reducing_accs(
        alpha: QuadraticExtension,
        old_acc: QuadraticExtension,
        coeffs: &Vec<GoldilocksField>,
    ) -> (accs: Vec<QuadraticExtension>)
        requires
            qe_wf(alpha),
            qe_wf(old_acc),
            forall|k: int| 0 <= k < coeffs@.len() ==> fwf(#[trigger] coeffs@[k]),
        ensures
            accs@.len() == coeffs@.len(),
            forall|k: int|
                0 <= k < accs@.len() ==> #[trigger] accs@[k] == spec_reduce(
                    old_acc,
                    alpha,
                    coeffs@,
                    (k + 1) as nat,
                ),
    {
        let n = coeffs.len();
        let mut accs: Vec<QuadraticExtension> = Vec::new();
        let mut acc = old_acc;
        let mut k: usize = 0;
        while k < n
            invariant
                k <= n,
                n == coeffs@.len(),
                qe_wf(alpha),
                qe_wf(acc),
                forall|j: int| 0 <= j < coeffs@.len() ==> fwf(#[trigger] coeffs@[j]),
                acc == spec_reduce(old_acc, alpha, coeffs@, k as nat),
                accs@.len() == k,
                forall|j: int|
                    0 <= j < k ==> #[trigger] accs@[j] == spec_reduce(
                        old_acc,
                        alpha,
                        coeffs@,
                        (j + 1) as nat,
                    ),
            decreases n - k,
        {
            acc = acc.mul(alpha).add(QuadraticExtension::from_base(coeffs[k]));
            accs.push(acc);
            k = k + 1;
        }
        accs
    }

    /// This gate's constraints over the extension algebra: with `acc_0` the
    /// old accumulator, each constraint is `acc_k * alpha + c_k - acc_{k+1}`
    /// on the wire values; all must vanish for an honest witness.
    pub fn eval_unfiltered(
        alpha: ExtensionAlgebra,
        old_acc: ExtensionAlgebra,
        coeffs: &Vec<ExtensionAlgebra>,
        accs: &Vec<ExtensionAlgebra>,
    ) -> (res: Vec<ExtensionAlgebra>)
        requires
            ea_wf(alpha),
            ea_wf(old_acc),
            accs@.len() == coeffs@.len(),
            forall|k: int| 0 <= k < coeffs@.len() ==> ea_wf(#[trigger] coeffs@[k]),
            forall|k: int| 0 <= k < accs@.len() ==> ea_wf(#[trigger] accs@[k]),
        ensures
            res@.len() == coeffs@.len(),
            forall|k: int|
                0 <= k < res@.len() ==> #[trigger] res@[k] == spec_ea_sub(
                    spec_ea_add(
                        spec_ea_mul(
                            if k == 0 {
                                old_acc
                            } else {
                                accs@[k - 1]
                            },
                            alpha,
                        ),
                        coeffs@[k],
                    ),
                    accs@[k],
                ),
    {
        let n = coeffs.len();
        let mut res: Vec<ExtensionAlgebra> = Vec::new();
        let mut acc = old_acc;
        let mut k: usize = 0;
        while k < n
            invariant
                k <= n,
                n == coeffs@.len(),
                accs@.len() == n,
                ea_wf(alpha),
                ea_wf(old_acc),
                forall|j: int| 0 <= j < coeffs@.len() ==> ea_wf(#[trigger] coeffs@[j]),
                forall|j: int| 0 <= j < accs@.len() ==> ea_wf(#[trigger] accs@[j]),
                acc == if k == 0 {
                    old_acc
                } else {
                    accs@[k - 1]
                },
                ea_wf(acc),
                res@.len() == k,
                forall|j: int|
                    0 <= j < k ==> #[trigger] res@[j] == spec_ea_sub(
                        spec_ea_add(
                            spec_ea_mul(
                                if j == 0 {
                                    old_acc
                                } else {
                                    accs@[j - 1]
                                },
                                alpha,
                            ),
                            coeffs@[j],
                        ),
                        accs@[j],
                    ),
            decreases n - k,
        {
            res.push(acc.mul(alpha).add(coeffs[k]).sub(accs[k]));
            acc = accs[k];
            k = k + 1;
        }
        res
    }

    /// This gate's constraints over the extension field (base evaluation).
    pub fn eval_unfiltered_base_one(
        alpha: QuadraticExtension,
        old_acc: QuadraticExtension,
        coeffs: &Vec<QuadraticExtension>,
        accs: &Vec<QuadraticExtension>,
    ) -> (res: Vec<QuadraticExtension>)
        requires
            qe_wf(alpha),
            qe_wf(old_acc),
            accs@.len() == coeffs@.len(),
            forall|k: int| 0 <= k < coeffs@.len() ==> qe_wf(#[trigger] coeffs@[k]),
            forall|k: int| 0 <= k < accs@.len() ==> qe_wf(#[trigger] accs@[k]),
        ensures
            res@.len() == coeffs@.len(),
            forall|k: int|
                0 <= k < res@.len() ==> #[trigger] res@[k] == spec_qe_sub(
                    spec_qe_add(
                        spec_qe_mul(
                            if k == 0 {
                                old_acc
                            } else {
                                accs@[k - 1]
                            },
                            alpha,
                        ),
                        coeffs@[k],
                    ),
                    accs@[k],
                ),
    {
        let n = coeffs.len();
        let mut res: Vec<QuadraticExtension> = Vec::new();
        let mut acc = old_acc;
        let mut k: usize = 0;
        while k < n
            invariant
                k <= n,
                n == coeffs@.len(),
                accs@.len() == n,
                qe_wf(alpha),
                qe_wf(old_acc),
                forall|j: int| 0 <= j < coeffs@.len() ==> qe_wf(#[trigger] coeffs@[j]),
                forall|j: int| 0 <= j < accs@.len() ==> qe_wf(#[trigger] accs@[j]),
                acc == if k == 0 {
                    old_acc
                } else {
                    accs@[k - 1]
                },
                qe_wf(acc),
                res@.len() == k,
                forall|j: int|
                    0 <= j < k ==> #[trigger] res@[j] == spec_qe_sub(
                        spec_qe_add(
                            spec_qe_mul(
                                if j == 0 {
                                    old_acc
                                } else {
                                    accs@[j - 1]
                                },
                                alpha,
                            ),
                            coeffs@[j],
                        ),
                        accs@[j],
                    ),
            decreases n - k,
        {
            res.push(acc.mul(alpha).add(coeffs[k]).sub(accs[k]));
            acc = accs[k];
            k = k + 1;
        }
        res
    }

    /// Number of wires this gate uses.
    pub fn num_wires(&self) -> (r: usize)
        requires
            2 * D + self.num_coeffs * (D + 1) <= usize::MAX,
        ensures
            r == 2 * D + self.num_coeffs * (D + 1),
    {
        proof {
            vstd::arithmetic::mul::lemma_mul_nonnegative(self.num_coeffs as int, D as int + 1);
        }
        2 * D + self.num_coeffs * (D + 1)
    }

    /// This gate's constraint degree: each constraint multiplies two wires.
    pub fn degree(&self) -> (r: usize)
        ensures
            r == 2,
    {
        2
    }
}

/// The witness generator paired with this gate: it records this gate's row and
/// this gate, and fills the accumulator wires with the values
/// [`ReducingGate::reducing_accs`] computes.
#[derive(Clone, Debug, Default)]
pub struct ReducingGenerator<const D: usize> {
    /// The row of the circuit the generator works on.
    pub row: usize,
    /// The one whose wires are being filled.
    pub gate: ReducingGate<D>,
}

} // verus!

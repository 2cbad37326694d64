//! The quadratic extension of the Goldilocks field (adjoining a square root
//! of 7), and the rank-two extension algebra over it that gate constraints
//! are evaluated in.

use vstd::prelude::*;

use crate::field::{f_add, f_mul, f_sub, fwf, GoldilocksField};

verus! {

/// The element `W` with `X^2 = W` defining the quadratic extension.
pub const QUADRATIC_EXT_W: u64 = 7;

/// An element `c0 + c1 X` of the quadratic extension field.
#[derive(Clone, Copy, PartialEq, Eq, Structural, Debug)]
pub struct QuadraticExtension(pub GoldilocksField, pub GoldilocksField);

/// Both coefficients canonical.
pub open spec fn qe_wf(a: QuadraticExtension) -> bool {
    fwf(a.0) && fwf(a.1)
}

/// Sum in the extension field.
pub open spec fn spec_qe_add(a: QuadraticExtension, b: QuadraticExtension) -> QuadraticExtension {
    QuadraticExtension(f_add(a.0, b.0), f_add(a.1, b.1))
}

/// Difference in the extension field.
pub open spec fn spec_qe_sub(a: QuadraticExtension, b: QuadraticExtension) -> QuadraticExtension {
    QuadraticExtension(f_sub(a.0, b.0), f_sub(a.1, b.1))
}

/// Product in the extension field: `(a0 + a1 X)(b0 + b1 X)` with `X^2 = 7`.
pub open spec fn spec_qe_mul(a: QuadraticExtension, b: QuadraticExtension) -> QuadraticExtension {
    QuadraticExtension(
        f_add(f_mul(a.0, b.0), f_mul(GoldilocksField(QUADRATIC_EXT_W), f_mul(a.1, b.1))),
        f_add(f_mul(a.0, b.1), f_mul(a.1, b.0)),
    )
}

impl QuadraticExtension {
    /// The zero element.
    pub fn zero() -> (r: QuadraticExtension)
        ensures
            r == (QuadraticExtension(GoldilocksField(0u64), GoldilocksField(0u64))),
            qe_wf(r),
    {
        QuadraticExtension(GoldilocksField(0u64), GoldilocksField(0u64))
    }

    /// A base-field element embedded into the extension.
    pub fn from_base(a: GoldilocksField) -> (r: QuadraticExtension)
        requires
            fwf(a),
        ensures
            r == (QuadraticExtension(a, GoldilocksField(0u64))),
            qe_wf(r),
    {
        QuadraticExtension(a, GoldilocksField(0u64))
    }

    /// Extension-field addition.
    pub fn add(self, rhs: QuadraticExtension) -> (r: QuadraticExtension)
        ensures
            r == spec_qe_add(self, rhs),
            qe_wf(r),
    {
        QuadraticExtension(self.0.add(rhs.0), self.1.add(rhs.1))
    }

    /// Extension-field subtraction.
    pub fn sub(self, rhs: QuadraticExtension) -> (r: QuadraticExtension)
        requires
            qe_wf(self),
            qe_wf(rhs),
        ensures
            r == spec_qe_sub(self, rhs),
            qe_wf(r),
    {
        QuadraticExtension(self.0.sub(rhs.0), self.1.sub(rhs.1))
    }

    /// Extension-field multiplication.
    pub fn mul(self, rhs: QuadraticExtension) -> (r: QuadraticExtension)
        ensures
            r == spec_qe_mul(self, rhs),
            qe_wf(r),
    {
        QuadraticExtension(
            self.0.mul(rhs.0).add(GoldilocksField(QUADRATIC_EXT_W).mul(self.1.mul(rhs.1))),
            self.0.mul(rhs.1).add(self.1.mul(rhs.0)),
        )
    }

    /// Multiplication by a base-field scalar.
    pub fn scalar_mul(self, c: GoldilocksField) -> (r: QuadraticExtension)
        ensures
            r == (QuadraticExtension(f_mul(self.0, c), f_mul(self.1, c))),
            qe_wf(r),
    {
        QuadraticExtension(self.0.mul(c), self.1.mul(c))
    }
}

/// An element `a0 + a1 Y` of the rank-two algebra over the extension field,
/// with `Y^2 = W` again; gate constraints over extension wires live here.
#[derive(Clone, Copy, PartialEq, Eq, Structural, Debug)]
pub struct ExtensionAlgebra(pub QuadraticExtension, pub QuadraticExtension);

/// Both components canonical.
pub open spec fn ea_wf(a: ExtensionAlgebra) -> bool {
    qe_wf(a.0) && qe_wf(a.1)
}

/// Sum in the algebra.
pub open spec fn spec_ea_add(a: ExtensionAlgebra, b: ExtensionAlgebra) -> ExtensionAlgebra {
    ExtensionAlgebra(spec_qe_add(a.0, b.0), spec_qe_add(a.1, b.1))
}

/// Difference in the algebra.
pub open spec fn spec_ea_sub(a: ExtensionAlgebra, b: ExtensionAlgebra) -> ExtensionAlgebra {
    ExtensionAlgebra(spec_qe_sub(a.0, b.0), spec_qe_sub(a.1, b.1))
}

/// Product in the algebra: `(a0 + a1 Y)(b0 + b1 Y)` with `Y^2 = W`.
pub open spec fn spec_ea_mul(a: ExtensionAlgebra, b: ExtensionAlgebra) -> ExtensionAlgebra {
    let w = QuadraticExtension(GoldilocksField(QUADRATIC_EXT_W), GoldilocksField(0u64));
    ExtensionAlgebra(
        spec_qe_add(spec_qe_mul(a.0, b.0), spec_qe_mul(w, spec_qe_mul(a.1, b.1))),
        spec_qe_add(spec_qe_mul(a.0, b.1), spec_qe_mul(a.1, b.0)),
    )
}

impl ExtensionAlgebra {
    /// The zero element.
    pub fn zero() -> (r: ExtensionAlgebra)
        ensures
            r == (ExtensionAlgebra(
                QuadraticExtension(GoldilocksField(0u64), GoldilocksField(0u64)),
                QuadraticExtension(GoldilocksField(0u64), GoldilocksField(0u64)),
            )),
            ea_wf(r),
    {
        ExtensionAlgebra(QuadraticExtension::zero(), QuadraticExtension::zero())
    }

    /// An extension-field element embedded at the constant coefficient.
    pub fn from_base(a: QuadraticExtension) -> (r: ExtensionAlgebra)
        requires
            qe_wf(a),
        ensures
            r == (ExtensionAlgebra(
                a,
                QuadraticExtension(GoldilocksField(0u64), GoldilocksField(0u64)),
            )),
            ea_wf(r),
    {
        ExtensionAlgebra(a, QuadraticExtension::zero())
    }

    /// Algebra addition.
    pub fn add(self, rhs: ExtensionAlgebra) -> (r: ExtensionAlgebra)
        ensures
            r == spec_ea_add(self, rhs),
            ea_wf(r),
    {
        ExtensionAlgebra(self.0.add(rhs.0), self.1.add(rhs.1))
    }

    /// Algebra subtraction.
    pub fn sub(self, rhs: ExtensionAlgebra) -> (r: ExtensionAlgebra)
        requires
            ea_wf(self),
            ea_wf(rhs),
        ensures
            r == spec_ea_sub(self, rhs),
            ea_wf(r),
    {
        ExtensionAlgebra(self.0.sub(rhs.0), self.1.sub(rhs.1))
    }

    /// Algebra multiplication.
    pub fn mul(self, rhs: ExtensionAlgebra) -> (r: ExtensionAlgebra)
        ensures
            r == spec_ea_mul(self, rhs),
            ea_wf(r),
    {
        let w = QuadraticExtension(GoldilocksField(QUADRATIC_EXT_W), GoldilocksField(0u64));
        ExtensionAlgebra(
            self.0.mul(rhs.0).add(w.mul(self.1.mul(rhs.1))),
            self.0.mul(rhs.1).add(self.1.mul(rhs.0)),
        )
    }

    /// Multiplication by an extension-field scalar, component by component.
    pub fn scalar_mul(self, c: QuadraticExtension) -> (r: ExtensionAlgebra)
        ensures
            r == (ExtensionAlgebra(spec_qe_mul(self.0, c), spec_qe_mul(self.1, c))),
            ea_wf(r),
    {
        ExtensionAlgebra(self.0.mul(c), self.1.mul(c))
    }
}

} // verus!

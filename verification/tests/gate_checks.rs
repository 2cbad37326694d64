use merkle_commit::extension::{ExtensionAlgebra, QuadraticExtension};
use merkle_commit::field::{GoldilocksField, FIELD_ORDER};
use merkle_commit::gates::poseidon_mds::PoseidonMdsGate;
use merkle_commit::gates::reducing::ReducingGate;

fn f(x: u64) -> GoldilocksField {
    GoldilocksField(x % FIELD_ORDER)
}

// A small deterministic generator for test inputs.
struct Lcg(u64);

impl Lcg {
    fn next_field(&mut self) -> GoldilocksField {
        self.0 = self
            .0
            .wrapping_mul(6364136223846793005)
            .wrapping_add(1442695040888963407);
        f(self.0)
    }

    fn next_qe(&mut self) -> QuadraticExtension {
        QuadraticExtension(self.next_field(), self.next_field())
    }

    fn next_qe_vec(&mut self, n: usize) -> Vec<QuadraticExtension> {
        (0..n).map(|_| self.next_qe()).collect()
    }
}

fn qe_zero() -> QuadraticExtension {
    QuadraticExtension(GoldilocksField(0), GoldilocksField(0))
}

// The MDS constraints are linear in the wires: the layer is additive and
// homogeneous, so the constraint polynomials have degree one.
#[test]
fn poseidon_mds_low_degree() {
    let mut gen = Lcg(7);
    let u = gen.next_qe_vec(12);
    let v = gen.next_qe_vec(12);
    let c = gen.next_qe();

    let sum: Vec<QuadraticExtension> = (0..12).map(|i| u[i].add(v[i])).collect();
    let layer_u = PoseidonMdsGate::<2>::mds_layer_field(&u);
    let layer_v = PoseidonMdsGate::<2>::mds_layer_field(&v);
    let layer_sum = PoseidonMdsGate::<2>::mds_layer_field(&sum);
    for i in 0..12 {
        assert_eq!(layer_sum[i], layer_u[i].add(layer_v[i]));
    }

    let scaled: Vec<QuadraticExtension> = (0..12).map(|i| u[i].mul(c)).collect();
    let layer_scaled = PoseidonMdsGate::<2>::mds_layer_field(&scaled);
    for i in 0..12 {
        assert_eq!(layer_scaled[i], layer_u[i].mul(c));
    }
}

// The two evaluation forms of the MDS constraints agree: evaluating over the
// extension algebra on embedded wires matches the base evaluation, and both
// vanish exactly on an honest witness.
#[test]
fn poseidon_mds_eval_fns() {
    let mut gen = Lcg(11);
    let inputs = gen.next_qe_vec(12);
    let outputs = gen.next_qe_vec(12);

    let base = PoseidonMdsGate::<2>::eval_unfiltered_base_one(&inputs, &outputs);

    let alg_inputs: Vec<ExtensionAlgebra> =
        inputs.iter().map(|&x| ExtensionAlgebra(x, qe_zero())).collect();
    let alg_outputs: Vec<ExtensionAlgebra> =
        outputs.iter().map(|&x| ExtensionAlgebra(x, qe_zero())).collect();
    let alg = PoseidonMdsGate::<2>::eval_unfiltered(&alg_inputs, &alg_outputs);

    assert_eq!(base.len(), 12);
    assert_eq!(alg.len(), 12);
    for i in 0..12 {
        assert_eq!(alg[i].0, base[i]);
        assert_eq!(alg[i].1, qe_zero());
    }

    // An honest witness satisfies every constraint.
    let honest = PoseidonMdsGate::<2>::mds_layer_field(&inputs);
    let vanished = PoseidonMdsGate::<2>::eval_unfiltered_base_one(&inputs, &honest);
    for i in 0..12 {
        assert_eq!(vanished[i], qe_zero());
    }
}

fn reducing_base_constraints(
    wires: &(
        QuadraticExtension,
        QuadraticExtension,
        Vec<QuadraticExtension>,
        Vec<QuadraticExtension>,
    ),
) -> Vec<QuadraticExtension> {
    ReducingGate::<2>::eval_unfiltered_base_one(wires.0, wires.1, &wires.2, &wires.3)
}

// The reducing constraints have degree two in the wires: along any line
// through wire space, each constraint is a quadratic polynomial, so its
// third finite difference vanishes.
#[test]
fn reducing_low_degree() {
    let num_coeffs = 22;
    let gate = ReducingGate::<2>::new(num_coeffs);
    assert_eq!(gate.num_coeffs, 22);

    let mut gen = Lcg(13);
    let base = (
        gen.next_qe(),
        gen.next_qe(),
        gen.next_qe_vec(num_coeffs),
        gen.next_qe_vec(num_coeffs),
    );
    let dir = (
        gen.next_qe(),
        gen.next_qe(),
        gen.next_qe_vec(num_coeffs),
        gen.next_qe_vec(num_coeffs),
    );

    let at = |t: u64| {
        let tq = QuadraticExtension(f(t), GoldilocksField(0));
        let wires = (
            base.0.add(dir.0.mul(tq)),
            base.1.add(dir.1.mul(tq)),
            (0..num_coeffs)
                .map(|i| base.2[i].add(dir.2[i].mul(tq)))
                .collect::<Vec<_>>(),
            (0..num_coeffs)
                .map(|i| base.3[i].add(dir.3[i].mul(tq)))
                .collect::<Vec<_>>(),
        );
        reducing_base_constraints(&wires)
    };

    let g0 = at(0);
    let g1 = at(1);
    let g2 = at(2);
    let g3 = at(3);
    let three = QuadraticExtension(f(3), GoldilocksField(0));
    for k in 0..num_coeffs {
        // g(0) - 3 g(1) + 3 g(2) - g(3) vanishes for a quadratic.
        let diff = g0[k]
            .sub(g1[k].mul(three))
            .add(g2[k].mul(three))
            .sub(g3[k]);
        assert_eq!(diff, qe_zero());
    }
}

// The two evaluation forms of the reducing constraints agree on embedded
// wires, and both vanish exactly on the accumulators the witness generator
// fills in.
#[test]
fn reducing_eval_fns() {
    let num_coeffs = 22;
    let mut gen = Lcg(17);
    let alpha = gen.next_qe();
    let old_acc = gen.next_qe();
    let coeffs = gen.next_qe_vec(num_coeffs);
    let accs = gen.next_qe_vec(num_coeffs);

    let base = ReducingGate::<2>::eval_unfiltered_base_one(alpha, old_acc, &coeffs, &accs);

    let embed = |v: &Vec<QuadraticExtension>| -> Vec<ExtensionAlgebra> {
        v.iter().map(|&x| ExtensionAlgebra(x, qe_zero())).collect()
    };
    let alg = ReducingGate::<2>::eval_unfiltered(
        ExtensionAlgebra(alpha, qe_zero()),
        ExtensionAlgebra(old_acc, qe_zero()),
        &embed(&coeffs),
        &embed(&accs),
    );

    assert_eq!(base.len(), num_coeffs);
    assert_eq!(alg.len(), num_coeffs);
    for k in 0..num_coeffs {
        assert_eq!(alg[k].0, base[k]);
        assert_eq!(alg[k].1, qe_zero());
    }

    // The generator's accumulators satisfy every constraint, and the last
    // accumulator is the Horner value of the coefficients.
    let base_coeffs: Vec<GoldilocksField> = (0..num_coeffs).map(|_| gen.next_field()).collect();
    let honest_accs = ReducingGate::<2>::reducing_accs(alpha, old_acc, &base_coeffs);
    let coeffs_embedded: Vec<QuadraticExtension> = base_coeffs
        .iter()
        .map(|&c| QuadraticExtension(c, GoldilocksField(0)))
        .collect();
    let vanished = ReducingGate::<2>::eval_unfiltered_base_one(
        alpha,
        old_acc,
        &coeffs_embedded,
        &honest_accs,
    );
    for k in 0..num_coeffs {
        assert_eq!(vanished[k], qe_zero());
    }

    let mut expected = old_acc;
    for c in &coeffs_embedded {
        expected = expected.mul(alpha).add(*c);
    }
    assert_eq!(honest_accs[num_coeffs - 1], expected);
}

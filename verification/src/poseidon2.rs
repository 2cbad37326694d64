//! The Poseidon2 permutation over the Goldilocks field, width 12, and the
//! tree hasher built on it: external rounds apply a round constant, the
//! seventh-power S-box and the circulant external matrix `circ(2 M_4, M_4,
//! M_4)`; internal rounds touch only the first lane and multiply by a
//! diagonal-plus-ones matrix.

use vstd::prelude::*;

use crate::field::{f_add, f_mul, fwf, GoldilocksField};
use crate::hash_types::{hwf, HashOut, Hasher};

verus! {

/// Number of field elements absorbed per permutation call.
pub const SPONGE_RATE: usize = 8;

/// Number of state lanes never exposed by the sponge.
pub const SPONGE_CAPACITY: usize = 4;

/// Width of the permutation state.
pub const SPONGE_WIDTH: usize = 12;

/// Diagonal of the internal matrix, minus one in each entry.
pub const MATRIX_DIAG_12_GOLDILOCKS: [u64; 12] = [
    0xc3b6c08e23ba9300,
    0xd84b5de94a324fb6,
    0x0d0c371c5b35b84f,
    0x7964f570e7188037,
    0x5daf18bbd996604b,
    0x6743bc47b9595257,
    0x5528b9362c59bb70,
    0xac45e25b7127b68b,
    0xa2077d7dfbb606b5,
    0xf3faac6faee378ae,
    0x0c6388b51545e883,
    0xd27dbb6944917b60,
];

/// Round constants: four full rounds, twenty-two internal rounds (first lane
/// only), four full rounds.
pub const RC12: [[u64; 12]; 30] = [
    [1431286215153372998, 3509349009260703107, 2289575380984896342, 10625215922958251110, 17137022507167291684, 17143426961497010024, 9589775313463224365, 7736066733515538648, 2217569167061322248, 10394930802584583083, 4612393375016695705, 5332470884919453534],
    [8724526834049581439, 17673787971454860688, 2519987773101056005, 7999687124137420323, 18312454652563306701, 15136091233824155669, 1257110570403430003, 5665449074466664773, 16178737609685266571, 52855143527893348, 8084454992943870230, 2597062441266647183],
    [3342624911463171251, 6781356195391537436, 4697929572322733707, 4179687232228901671, 17841073646522133059, 18340176721233187897, 13152929999122219197, 6306257051437840427, 4974451914008050921, 11258703678970285201, 581736081259960204, 18323286026903235604],
    [10250026231324330997, 13321947507807660157, 13020725208899496943, 11416990495425192684, 7221795794796219413, 2607917872900632985, 2591896057192169329, 10485489452304998145, 9480186048908910015, 2645141845409940474, 16242299839765162610, 12203738590896308135],
    [5395176197344543510, 0, 0, 0, 0, 0, 0, 0, 0, 0, 0, 0],
    [17941136338888340715, 0, 0, 0, 0, 0, 0, 0, 0, 0, 0, 0],
    [7559392505546762987, 0, 0, 0, 0, 0, 0, 0, 0, 0, 0, 0],
    [549633128904721280, 0, 0, 0, 0, 0, 0, 0, 0, 0, 0, 0],
    [15658455328409267684, 0, 0, 0, 0, 0, 0, 0, 0, 0, 0, 0],
    [10078371877170729592, 0, 0, 0, 0, 0, 0, 0, 0, 0, 0, 0],
    [2349868247408080783, 0, 0, 0, 0, 0, 0, 0, 0, 0, 0, 0],
    [13105911261634181239, 0, 0, 0, 0, 0, 0, 0, 0, 0, 0, 0],
    [12868653202234053626, 0, 0, 0, 0, 0, 0, 0, 0, 0, 0, 0],
    [9471330315555975806, 0, 0, 0, 0, 0, 0, 0, 0, 0, 0, 0],
    [4580289636625406680, 0, 0, 0, 0, 0, 0, 0, 0, 0, 0, 0],
    [13222733136951421572, 0, 0, 0, 0, 0, 0, 0, 0, 0, 0, 0],
    [4555032575628627551, 0, 0, 0, 0, 0, 0, 0, 0, 0, 0, 0],
    [7619130111929922899, 0, 0, 0, 0, 0, 0, 0, 0, 0, 0, 0],
    [4547848507246491777, 0, 0, 0, 0, 0, 0, 0, 0, 0, 0, 0],
    [5662043532568004632, 0, 0, 0, 0, 0, 0, 0, 0, 0, 0, 0],
    [15723873049665279492, 0, 0, 0, 0, 0, 0, 0, 0, 0, 0, 0],
    [13585630674756818185, 0, 0, 0, 0, 0, 0, 0, 0, 0, 0, 0],
    [6990417929677264473, 0, 0, 0, 0, 0, 0, 0, 0, 0, 0, 0],
    [6373257983538884779, 0, 0, 0, 0, 0, 0, 0, 0, 0, 0, 0],
    [1005856792729125863, 0, 0, 0, 0, 0, 0, 0, 0, 0, 0, 0],
    [17850970025369572891, 0, 0, 0, 0, 0, 0, 0, 0, 0, 0, 0],
    [14306783492963476045, 12653264875831356889, 10887434669785806501, 7221072982690633460, 9953585853856674407, 13497620366078753434, 18140292631504202243, 17311934738088402529, 6686302214424395771, 11193071888943695519, 10233795775801758543, 3362219552562939863],
    [8595401306696186761, 7753411262943026561, 12415218859476220947, 12517451587026875834, 3257008032900598499, 2187469039578904770, 657675168296710415, 8659969869470208989, 12526098871288378639, 12525853395769009329, 15388161689979551704, 7880966905416338909],
    [2911694411222711481, 6420652251792580406, 323544930728360053, 11718666476052241225, 2449132068789045592, 17993014181992530560, 15161788952257357966, 3788504801066818367, 1282111773460545571, 8849495164481705550, 8380852402060721190, 2161980224591127360],
    [2440151485689245146, 17521895002090134367, 13821005335130766955, 17513705631114265826, 17068447856797239529, 17964439003977043993, 5685000919538239429, 11615940660682589106, 2522854885180605258, 12584118968072796115, 17841258728624635591, 10821564568873127316],
];

/// A permutation state: twelve canonical lanes.
pub open spec fn state_wf(s: Seq<GoldilocksField>) -> bool {
    s.len() == 12 && forall|i: int| 0 <= i < s.len() ==> fwf(#[trigger] s[i])
}

/// The M_4 block transform, multiplications unrolled into additions, applied
/// to lanes `base .. base + 4`.
pub open spec fn spec_apply_m_4(s: Seq<GoldilocksField>, base: int) -> Seq<GoldilocksField> {
    let x0 = s[base];
    let x1 = s[base + 1];
    let x2 = s[base + 2];
    let x3 = s[base + 3];
    let t0 = f_add(x0, x1);
    let t1 = f_add(x2, x3);
    let t2 = f_add(f_add(x1, x1), t1);
    let t3 = f_add(f_add(x3, x3), t0);
    let t4 = f_add(f_add(f_add(f_add(t1, t1), t1), t1), t3);
    let t5 = f_add(f_add(f_add(f_add(t0, t0), t0), t0), t2);
    let t6 = f_add(t3, t5);
    let t7 = f_add(t2, t4);
    s.update(base, t6).update(base + 1, t5).update(base + 2, t7).update(base + 3, t4)
}

/// The external (full-round) linear layer: M_4 on each block of four, then
/// each lane gets the sum of its block-position peers added.
pub open spec fn spec_external_layer(s: Seq<GoldilocksField>) -> Seq<GoldilocksField> {
    let a = spec_apply_m_4(spec_apply_m_4(spec_apply_m_4(s, 0), 4), 8);
    Seq::new(12, |i: int| f_add(a[i], f_add(f_add(a[i % 4], a[i % 4 + 4]), a[i % 4 + 8])))
}

/// Adds one row of round constants, lane by lane.
pub open spec fn spec_add_rc(s: Seq<GoldilocksField>, rc: Seq<u64>) -> Seq<GoldilocksField> {
    Seq::new(12, |i: int| f_add(s[i], GoldilocksField(rc[i])))
}

/// The S-box `x^7`, computed as `(x^2 * x) * (x^2 * x^2)`.
pub open spec fn spec_sbox_p(a: GoldilocksField) -> GoldilocksField {
    f_mul(f_mul(f_mul(a, a), a), f_mul(f_mul(a, a), f_mul(a, a)))
}

/// The S-box applied to every lane.
pub open spec fn spec_sbox_layer(s: Seq<GoldilocksField>) -> Seq<GoldilocksField> {
    Seq::new(12, |i: int| spec_sbox_p(s[i]))
}

/// The sum of the first `n` lanes, accumulated left to right from zero.
pub open spec fn spec_sum_prefix(s: Seq<GoldilocksField>, n: nat) -> GoldilocksField
    decreases n,
{
    if n == 0 {
        GoldilocksField(0u64)
    } else {
        f_add(spec_sum_prefix(s, (n - 1) as nat), s[n - 1])
    }
}

/// The internal linear layer: each lane is scaled by its diagonal entry and
/// the sum of all lanes is added.
pub open spec fn spec_matmul_internal(s: Seq<GoldilocksField>, diag: Seq<u64>) -> Seq<
    GoldilocksField,
> {
    let total = spec_sum_prefix(s, 12);
    Seq::new(12, |i: int| f_add(f_mul(s[i], GoldilocksField(diag[i])), total))
}

/// One round of the permutation: a full round outside the middle window, an
/// internal round (first lane only) inside it.
pub open spec fn spec_round(s: Seq<GoldilocksField>, r: int) -> Seq<GoldilocksField> {
    if r < 4 || r >= 26 {
        spec_external_layer(spec_sbox_layer(spec_add_rc(s, RC12[r]@)))
    } else {
        let t = s.update(0, spec_sbox_p(f_add(s[0], GoldilocksField(RC12[r][0]))));
        spec_matmul_internal(t, MATRIX_DIAG_12_GOLDILOCKS@)
    }
}

/// Rounds `r .. 30` applied in order.
pub open spec fn spec_rounds(s: Seq<GoldilocksField>, r: nat) -> Seq<GoldilocksField>
    decreases 30 - r,
{
    if r >= 30 {
        s
    } else {
        spec_rounds(spec_round(s, r as int), r + 1)
    }
}

/// The whole permutation: the initial external layer, then all thirty rounds.
pub open spec fn spec_poseidon2(s: Seq<GoldilocksField>) -> Seq<GoldilocksField> {
    spec_rounds(spec_external_layer(s), 0)
}

/// Multiplies the four lanes at `base` by M_4, in place. This uses the
/// addition chain from the reference design, with multiplications unrolled
/// into additions.
pub fn apply_m_4(x: &mut Vec<GoldilocksField>, base: usize)
    requires
        base + 4 <= old(x)@.len(),
    ensures
        final(x)@ == spec_apply_m_4(old(x)@, base as int),
        final(x)@.len() == old(x)@.len(),
{
    let n = x.len();
    let x0 = x[base];
    let x1 = x[base + 1];
    let x2 = x[base + 2];
    let x3 = x[base + 3];
    let t0 = x0.add(x1);
    let t1 = x2.add(x3);
    let t2 = x1.add(x1).add(t1);
    let t3 = x3.add(x3).add(t0);
    let t4 = t1.add(t1).add(t1).add(t1).add(t3);
    let t5 = t0.add(t0).add(t0).add(t0).add(t2);
    let t6 = t3.add(t5);
    let t7 = t2.add(t4);
    x.set(base, t6);
    x.set(base + 1, t5);
    x.set(base + 2, t7);
    x.set(base + 3, t4);
}

/// The t x t external matrix M_E := circ(2 M_4, M_4, ..., M_4), where M_4 is
/// the 4 x 4 matrix
/// `[ 5 7 1 3 ; 4 6 1 1 ; 1 3 5 7 ; 1 1 4 6 ]`.
/// The calculation follows the reference design's appendix.
#[derive(Clone, Copy)]
pub struct Poseidon2MEMatrix;

impl Poseidon2MEMatrix {
    /// Applies the external linear layer in place.
    pub fn permute_mut(&self, state: &mut Vec<GoldilocksField>)
        requires
            old(state)@.len() == 12,
        ensures
            final(state)@ == spec_external_layer(old(state)@),
            final(state)@.len() == 12,
    {
        apply_m_4(state, 0);
        apply_m_4(state, 4);
        apply_m_4(state, 8);
        let ghost a = state@;
        let sum0 = state[0].add(state[4]).add(state[8]);
        let sum1 = state[1].add(state[5]).add(state[9]);
        let sum2 = state[2].add(state[6]).add(state[10]);
        let sum3 = state[3].add(state[7]).add(state[11]);
        let mut i: usize = 0;
        while i < 12
            invariant
                i <= 12,
                state@.len() == 12,
                a.len() == 12,
                sum0 == f_add(f_add(a[0], a[4]), a[8]),
                sum1 == f_add(f_add(a[1], a[5]), a[9]),
                sum2 == f_add(f_add(a[2], a[6]), a[10]),
                sum3 == f_add(f_add(a[3], a[7]), a[11]),
                forall|k: int| i <= k < 12 ==> #[trigger] state@[k] == a[k],
                forall|k: int|
                    0 <= k < i ==> #[trigger] state@[k] == f_add(
                        a[k],
                        f_add(f_add(a[k % 4], a[k % 4 + 4]), a[k % 4 + 8]),
                    ),
            decreases 12 - i,
        {
            let s = if i % 4 == 0 {
                sum0
            } else if i % 4 == 1 {
                sum1
            } else if i % 4 == 2 {
                sum2
            } else {
                sum3
            };
            let v = state[i].add(s);
            state.set(i, v);
            i = i + 1;
        }
        proof {
            assert(state@ =~= spec_external_layer(old(state)@));
        }
    }
}

/// Adds a row of round constants to the state, lane by lane.
pub fn add_rc(state: &mut Vec<GoldilocksField>, rc: &[u64; 12])
    requires
        old(state)@.len() == 12,
    ensures
        final(state)@ == spec_add_rc(old(state)@, rc@),
        final(state)@.len() == 12,
{
    let ghost s0 = state@;
    let mut i: usize = 0;
    while i < 12
        invariant
            i <= 12,
            state@.len() == 12,
            s0.len() == 12,
            forall|k: int| i <= k < 12 ==> #[trigger] state@[k] == s0[k],
            forall|k: int|
                0 <= k < i ==> #[trigger] state@[k] == f_add(s0[k], GoldilocksField(rc@[k])),
        decreases 12 - i,
    {
        let v = state[i].add(GoldilocksField(rc[i]));
        state.set(i, v);
        i = i + 1;
    }
    proof {
        assert(state@ =~= spec_add_rc(s0, rc@));
    }
}

/// The S-box `x -> x^7` on one lane.
pub fn sbox_p(input: GoldilocksField) -> (r: GoldilocksField)
    ensures
        r == spec_sbox_p(input),
        fwf(r),
{
    let x2 = input.mul(input);
    let x4 = x2.mul(x2);
    let x3 = x2.mul(input);
    x3.mul(x4)
}

/// The S-box applied to every lane.
pub fn sbox(state: &mut Vec<GoldilocksField>)
    requires
        old(state)@.len() == 12,
    ensures
        final(state)@ == spec_sbox_layer(old(state)@),
        final(state)@.len() == 12,
{
    let ghost s0 = state@;
    let mut i: usize = 0;
    while i < 12
        invariant
            i <= 12,
            state@.len() == 12,
            s0.len() == 12,
            forall|k: int| i <= k < 12 ==> #[trigger] state@[k] == s0[k],
            forall|k: int| 0 <= k < i ==> #[trigger] state@[k] == spec_sbox_p(s0[k]),
        decreases 12 - i,
    {
        let v = sbox_p(state[i]);
        state.set(i, v);
        i = i + 1;
    }
    proof {
        assert(state@ =~= spec_sbox_layer(s0));
    }
}

/// The internal linear layer: scales each lane by its diagonal entry and adds
/// the sum of all lanes.
pub fn matmul_internal(state: &mut Vec<GoldilocksField>, mat_internal_diag_m_1: [u64; 12])
    requires
        old(state)@.len() == 12,
    ensures
        final(state)@ == spec_matmul_internal(old(state)@, mat_internal_diag_m_1@),
        final(state)@.len() == 12,
{
    let ghost s0 = state@;
    let mut sum = GoldilocksField(0u64);
    let mut i: usize = 0;
    while i < 12
        invariant
            i <= 12,
            state@ == s0,
            s0.len() == 12,
            sum == spec_sum_prefix(s0, i as nat),
        decreases 12 - i,
    {
        sum = sum.add(state[i]);
        i = i + 1;
    }
    let mut i: usize = 0;
    while i < 12
        invariant
            i <= 12,
            state@.len() == 12,
            s0.len() == 12,
            sum == spec_sum_prefix(s0, 12),
            forall|k: int| i <= k < 12 ==> #[trigger] state@[k] == s0[k],
            forall|k: int|
                0 <= k < i ==> #[trigger] state@[k] == f_add(
                    f_mul(s0[k], GoldilocksField(mat_internal_diag_m_1@[k])),
                    spec_sum_prefix(s0, 12),
                ),
        decreases 12 - i,
    {
        let v = state[i].mul(GoldilocksField(mat_internal_diag_m_1[i])).add(sum);
        state.set(i, v);
        i = i + 1;
    }
    proof {
        assert(state@ =~= spec_matmul_internal(s0, mat_internal_diag_m_1@));
    }
}

/// The Poseidon2 permutation, for lane types that support it.
pub trait Poseidon2: Sized {
    /// A lane value the permutation accepts.
    spec fn p2_valid(self) -> bool;

    /// What the permutation computes.
    spec fn spec_permutation(s: Seq<Self>) -> Seq<Self>;

    /// Applies the permutation to a twelve-lane state in place.
    fn poseidon2(state: &mut Vec<Self>)
        requires
            old(state)@.len() == 12,
            forall|i: int| 0 <= i < 12 ==> (#[trigger] old(state)@[i]).p2_valid(),
        ensures
            final(state)@ == Self::spec_permutation(old(state)@),
            final(state)@.len() == 12,
            forall|i: int| 0 <= i < 12 ==> (#[trigger] final(state)@[i]).p2_valid(),
    ;
}

impl Poseidon2 for GoldilocksField {
    open spec fn p2_valid(self) -> bool {
        fwf(self)
    }

    open spec fn spec_permutation(s: Seq<GoldilocksField>) -> Seq<GoldilocksField> {
        spec_poseidon2(s)
    }

    fn poseidon2(state: &mut Vec<GoldilocksField>) {
        let external_linear_layer = Poseidon2MEMatrix;

        // The initial linear layer.
        external_linear_layer.permute_mut(state);
        let ghost s_init = state@;

        let mut r: usize = 0;
        while r < 30
            invariant
                r <= 30,
                state@.len() == 12,
                spec_rounds(s_init, 0) == spec_rounds(state@, r as nat),
            decreases 30 - r,
        {
            let ghost before = state@;
            if r < 4 || r >= 26 {
                add_rc(state, &RC12[r]);
                sbox(state);
                external_linear_layer.permute_mut(state);
            } else {
                let v = sbox_p(state[0].add(GoldilocksField(RC12[r][0])));
                state.set(0, v);
                proof {
                    assert(state@ =~= before.update(
                        0,
                        spec_sbox_p(f_add(before[0], GoldilocksField(RC12[r as int][0]))),
                    ));
                }
                matmul_internal(state, MATRIX_DIAG_12_GOLDILOCKS);
            }
            proof {
                assert(state@ == spec_round(before, r as int));
            }
            r = r + 1;
        }
        proof {
            lemma_spec_poseidon2_wf(old(state)@);
        }
    }
}

/// An all-zero permutation state.
pub open spec fn spec_zero_state() -> Seq<GoldilocksField> {
    Seq::new(12, |i: int| GoldilocksField(0u64))
}

/// A sponge state for the Poseidon2 permutation.
#[derive(Clone, Debug)]
pub struct Poseidon2Permutation {
    /// The twelve lanes.
    pub state: Vec<GoldilocksField>,
}

impl Poseidon2Permutation {
    /// All lanes present and canonical.
    pub open spec fn wf(self) -> bool {
        state_wf(self.state@)
    }

    /// A fresh state: the given elements, the remaining lanes zero.
    pub fn new(elts: &[GoldilocksField]) -> (r: Poseidon2Permutation)
        requires
            elts@.len() <= 12,
            forall|i: int| 0 <= i < elts@.len() ==> fwf(#[trigger] elts@[i]),
        ensures
            r.wf(),
            r.state@ == Seq::new(
                12,
                |i: int|
                    if i < elts@.len() {
                        elts@[i]
                    } else {
                        GoldilocksField(0u64)
                    },
            ),
    {
        let mut state: Vec<GoldilocksField> = Vec::new();
        let n = elts.len();
        let mut i: usize = 0;
        while i < n
            invariant
                i <= n,
                n == elts@.len() <= 12,
                state@ == elts@.subrange(0, i as int),
            decreases n - i,
        {
            state.push(elts[i]);
            proof {
                assert(state@ =~= elts@.subrange(0, i + 1));
            }
            i = i + 1;
        }
        proof {
            assert(elts@.subrange(0, n as int) =~= elts@);
        }
        while i < 12
            invariant
                i <= 12,
                n <= i,
                n == elts@.len() <= 12,
                state@.len() == i,
                state@.subrange(0, n as int) == elts@,
                forall|k: int| n <= k < i ==> #[trigger] state@[k] == (GoldilocksField(0u64)),
            decreases 12 - i,
        {
            let ghost pre = state@;
            state.push(GoldilocksField(0u64));
            proof {
                assert(state@.subrange(0, n as int) =~= pre.subrange(0, n as int));
            }
            i = i + 1;
        }
        let r = Poseidon2Permutation { state };
        proof {
            assert(r.state@ =~= Seq::new(
                12,
                |i: int|
                    if i < elts@.len() {
                        elts@[i]
                    } else {
                        GoldilocksField(0u64)
                    },
            ));
        }
        r
    }

    /// Overwrites one lane.
    pub fn set_elt(&mut self, elt: GoldilocksField, idx: usize)
        requires
            old(self).wf(),
            idx < 12,
            fwf(elt),
        ensures
            final(self).wf(),
            final(self).state@ == old(self).state@.update(idx as int, elt),
    {
        self.state.set(idx, elt);
    }

    /// Overwrites the lanes `start_idx ..` with the given elements.
    pub fn set_from_slice(&mut self, elts: &[GoldilocksField], start_idx: usize)
        requires
            old(self).wf(),
            start_idx + elts@.len() <= 12,
            forall|i: int| 0 <= i < elts@.len() ==> fwf(#[trigger] elts@[i]),
        ensures
            final(self).wf(),
            final(self).state@ == Seq::new(
                12,
                |i: int|
                    if start_idx <= i < start_idx + elts@.len() {
                        elts@[i - start_idx]
                    } else {
                        old(self).state@[i]
                    },
            ),
    {
        let ghost s0 = self.state@;
        let n = elts.len();
        let mut j: usize = 0;
        while j < n
            invariant
                j <= n,
                n == elts@.len(),
                start_idx + n <= 12,
                self.state@.len() == 12,
                forall|i: int| 0 <= i < elts@.len() ==> fwf(#[trigger] elts@[i]),
                forall|k: int| 0 <= k < 12 && !(start_idx <= k < start_idx + j)
                    ==> #[trigger] self.state@[k] == s0[k],
                forall|k: int|
                    start_idx <= k < start_idx + j ==> #[trigger] self.state@[k] == elts@[k
                        - start_idx],
                forall|k: int| 0 <= k < 12 ==> fwf(#[trigger] self.state@[k]),
            decreases n - j,
        {
            self.state.set(start_idx + j, elts[j]);
            j = j + 1;
        }
        proof {
            assert(self.state@ =~= Seq::new(
                12,
                |i: int|
                    if start_idx <= i < start_idx + elts@.len() {
                        elts@[i - start_idx]
                    } else {
                        s0[i]
                    },
            ));
        }
    }

    /// Applies the Poseidon2 permutation to the state.
    pub fn permute(&mut self)
        requires
            old(self).wf(),
        ensures
            final(self).wf(),
            final(self).state@ == spec_poseidon2(old(self).state@),
    {
        GoldilocksField::poseidon2(&mut self.state);
    }

    /// The rate portion of the state: the first eight lanes, copied out.
    pub fn squeeze(&self) -> (r: Vec<GoldilocksField>)
        requires
            self.wf(),
        ensures
            r@ == self.state@.subrange(0, 8),
    {
        let mut out: Vec<GoldilocksField> = Vec::new();
        let mut i: usize = 0;
        while i < 8
            invariant
                i <= 8,
                self.wf(),
                out@ == self.state@.subrange(0, i as int),
            decreases 8 - i,
        {
            out.push(self.state[i]);
            proof {
                assert(out@ =~= self.state@.subrange(0, i + 1));
            }
            i = i + 1;
        }
        out
    }
}

/// Absorbing a sequence of inputs: each chunk of at most eight elements
/// overwrites the front of the state, then the state is permuted.
pub open spec fn spec_absorb(state: Seq<GoldilocksField>, input: Seq<GoldilocksField>) -> Seq<
    GoldilocksField,
>
    decreases input.len(),
{
    if input.len() == 0 {
        state
    } else {
        let c = if input.len() < 8 {
            input.len() as int
        } else {
            8
        };
        let loaded = Seq::new(
            12,
            |i: int|
                if i < c {
                    input[i]
                } else {
                    state[i]
                },
        );
        spec_absorb(spec_poseidon2(loaded), input.skip(c))
    }
}

/// The Poseidon2 tree hasher: a rate-8 sponge over the permutation for rows,
/// one permutation call for compressing two digests.
#[derive(Clone, Copy, Debug, PartialEq, Eq, Structural)]
pub struct Poseidon2Hash;

impl Hasher for Poseidon2Hash {
    open spec fn spec_hash_no_pad(input: Seq<GoldilocksField>) -> HashOut {
        let s = spec_absorb(spec_zero_state(), input);
        HashOut { elements: [s[0], s[1], s[2], s[3]] }
    }

    open spec fn spec_two_to_one(left: HashOut, right: HashOut) -> HashOut {
        let s = spec_poseidon2(crate::hash_types::spec_compress_state(left, right));
        HashOut { elements: [s[0], s[1], s[2], s[3]] }
    }

    #[verifier::rlimit(100)]
    fn hash_no_pad(input: &[GoldilocksField]) -> (h: HashOut) {
        let mut perm = Poseidon2Permutation::new(&[]);
        proof {
            assert(perm.state@ =~= spec_zero_state());
            assert(input@.skip(0) =~= input@);
        }
        let len = input.len();
        let mut i: usize = 0;
        while i < len
            invariant
                i <= len,
                len == input@.len(),
                forall|k: int| 0 <= k < input@.len() ==> fwf(#[trigger] input@[k]),
                perm.wf(),
                spec_absorb(spec_zero_state(), input@) == spec_absorb(
                    perm.state@,
                    input@.skip(i as int),
                ),
            decreases len - i,
        {
            let c = if len - i < 8 {
                len - i
            } else {
                8
            };
            let ghost pre = perm.state@;
            let chunk = vstd::slice::slice_subrange(input, i, i + c);
            perm.set_from_slice(chunk, 0);
            proof {
                assert(perm.state@ =~= Seq::new(
                    12,
                    |k: int|
                        if k < c {
                            input@.skip(i as int)[k]
                        } else {
                            pre[k]
                        },
                ));
            }
            perm.permute();
            proof {
                assert(input@.skip(i as int).skip(c as int) =~= input@.skip(i + c));
            }
            i = i + c;
        }
        proof {
            assert(input@.skip(len as int) =~= Seq::<GoldilocksField>::empty());
        }
        let out = HashOut {
            elements: [perm.state[0], perm.state[1], perm.state[2], perm.state[3]],
        };
        proof {
            assert(out.elements =~= Self::spec_hash_no_pad(input@).elements);
        }
        out
    }

    fn two_to_one(left: HashOut, right: HashOut) -> (h: HashOut) {
        let mut state = crate::hash_types::compress_state(left, right);
        GoldilocksField::poseidon2(&mut state);
        let out = HashOut { elements: [state[0], state[1], state[2], state[3]] };
        proof {
            assert(out.elements =~= Self::spec_two_to_one(left, right).elements);
        }
        out
    }
}

/// The permutation keeps all lanes canonical; its result is determined lane
/// by lane by the specification above.
proof fn lemma_rounds_wf(s: Seq<GoldilocksField>, r: nat)
    requires
        s.len() == 12,
    ensures
        spec_rounds(s, r).len() == 12,
        (forall|i: int| 0 <= i < 12 ==> fwf(#[trigger] s[i])) ==> forall|i: int|
            0 <= i < 12 ==> fwf(#[trigger] spec_rounds(s, r)[i]),
    decreases 30 - r,
{
    if r < 30 {
        lemma_rounds_wf(spec_round(s, r as int), r + 1);
    }
}

/// Canonical lanes in, canonical lanes out, for the whole permutation.
proof fn lemma_spec_poseidon2_wf(s: Seq<GoldilocksField>)
    requires
        s.len() == 12,
        forall|i: int| 0 <= i < 12 ==> fwf(#[trigger] s[i]),
    ensures
        spec_poseidon2(s).len() == 12,
        forall|i: int| 0 <= i < 12 ==> fwf(#[trigger] spec_poseidon2(s)[i]),
{
    lemma_rounds_wf(spec_external_layer(s), 0);
}

} // verus!

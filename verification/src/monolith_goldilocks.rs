//! The Monolith permutation over the Goldilocks field, width 12, with 8-bit
//! lookup limbs, and the tree hasher built on it. Each round applies `bars`
//! (a bytewise S-box on the first four lanes), `bricks` (a Feistel layer
//! adding the square of the previous lane), and `concrete` (a circulant
//! matrix with round constants).

use vstd::prelude::*;

use crate::field::{f_add, f_mul, fwf, GoldilocksField};
use crate::hash_types::{HashOut, Hasher};
use crate::poseidon2::{spec_zero_state, state_wf};

verus! {

/// Number of Monolith rounds.
pub const N_ROUNDS: usize = 6;

/// Width of the lookup limbs the `bars` layer splits a lane into.
pub const LOOKUP_BITS: usize = 8;

/// Number of lanes the `bars` layer touches.
pub const NUM_BARS: usize = 4;

/// Round constants for the 8-bit lookup instance: an all-zero row before the
/// first round, then one row per round, the last all zero.
pub const MONOLITH_ROUND_CONSTANTS: [[u64; 12]; 7] = [
    [0, 0, 0, 0, 0, 0, 0, 0, 0, 0, 0, 0],
    [
        13596126580325903823,
        5676126986831820406,
        11349149288412960427,
        3368797843020733411,
        16240671731749717664,
        9273190757374900239,
        14446552112110239438,
        4033077683985131644,
        4291229347329361293,
        13231607645683636062,
        1383651072186713277,
        8898815177417587567,
    ],
    [
        2383619671172821638,
        6065528368924797662,
        16737578966352303081,
        2661700069680749654,
        7414030722730336790,
        18124970299993404776,
        9169923000283400738,
        15832813151034110977,
        16245117847613094506,
        11056181639108379773,
        10546400734398052938,
        8443860941261719174,
    ],
    [
        15799082741422909885,
        13421235861052008152,
        15448208253823605561,
        2540286744040770964,
        2895626806801935918,
        8644593510196221619,
        17722491003064835823,
        5166255496419771636,
        1015740739405252346,
        4400043467547597488,
        5176473243271652644,
        4517904634837939508,
    ],
    [
        18341030605319882173,
        13366339881666916534,
        6291492342503367536,
        10004214885638819819,
        4748655089269860551,
        1520762444865670308,
        8393589389936386108,
        11025183333304586284,
        5993305003203422738,
        458912836931247573,
        5947003897778655410,
        17184667486285295106,
    ],
    [
        15710528677110011358,
        8929476121507374707,
        2351989866172789037,
        11264145846854799752,
        14924075362538455764,
        10107004551857451916,
        18325221206052792232,
        16751515052585522105,
        15305034267720085905,
        15639149412312342017,
        14624541102106656564,
        3542311898554959098,
    ],
    [0, 0, 0, 0, 0, 0, 0, 0, 0, 0, 0, 0],
];

/// The circulant matrix of the `concrete` layer.
pub const MONOLITH_MAT_12: [[u64; 12]; 12] = [
    [7, 23, 8, 26, 13, 10, 9, 7, 6, 22, 21, 8],
    [8, 7, 23, 8, 26, 13, 10, 9, 7, 6, 22, 21],
    [21, 8, 7, 23, 8, 26, 13, 10, 9, 7, 6, 22],
    [22, 21, 8, 7, 23, 8, 26, 13, 10, 9, 7, 6],
    [6, 22, 21, 8, 7, 23, 8, 26, 13, 10, 9, 7],
    [7, 6, 22, 21, 8, 7, 23, 8, 26, 13, 10, 9],
    [9, 7, 6, 22, 21, 8, 7, 23, 8, 26, 13, 10],
    [10, 9, 7, 6, 22, 21, 8, 7, 23, 8, 26, 13],
    [13, 10, 9, 7, 6, 22, 21, 8, 7, 23, 8, 26],
    [26, 13, 10, 9, 7, 6, 22, 21, 8, 7, 23, 8],
    [8, 26, 13, 10, 9, 7, 6, 22, 21, 8, 7, 23],
    [23, 8, 26, 13, 10, 9, 7, 6, 22, 21, 8, 7],
];

/// The bytewise `bar` S-box on one lane's canonical representative: in each
/// byte, `y = (x ^ (~x <<< 1 & x <<< 2 & x <<< 3)) <<< 1`, where `<<<` is
/// rotation within the byte.
pub open spec fn spec_bar(x: u64) -> u64 {
    let l1 = ((!x & 0x8080808080808080) >> 7) | ((!x & 0x7F7F7F7F7F7F7F7F) << 1);
    let l2 = ((x & 0xC0C0C0C0C0C0C0C0) >> 6) | ((x & 0x3F3F3F3F3F3F3F3F) << 2);
    let l3 = ((x & 0xE0E0E0E0E0E0E0E0) >> 5) | ((x & 0x1F1F1F1F1F1F1F1F) << 3);
    let tmp = x ^ (l1 & l2 & l3);
    ((tmp & 0x8080808080808080) >> 7) | ((tmp & 0x7F7F7F7F7F7F7F7F) << 1)
}

/// The `bars` layer: `bar` on the first four lanes, the result reduced back
/// into the field.
pub open spec fn spec_bars(s: Seq<GoldilocksField>) -> Seq<GoldilocksField> {
    Seq::new(
        12,
        |i: int|
            if i < 4 {
                GoldilocksField(spec_bar(s[i].0) % crate::field::FIELD_ORDER)
            } else {
                s[i]
            },
    )
}

/// The `bricks` layer: each lane above the first gets the square of the lane
/// below it (before this layer) added.
pub open spec fn spec_bricks(s: Seq<GoldilocksField>) -> Seq<GoldilocksField> {
    Seq::new(
        12,
        |i: int|
            if i == 0 {
                s[0]
            } else {
                f_add(s[i], f_mul(s[i - 1], s[i - 1]))
            },
    )
}

/// The dot product of one matrix row with the state, accumulated left to
/// right from zero.
pub open spec fn spec_row_dot(s: Seq<GoldilocksField>, row: Seq<u64>, n: nat) -> GoldilocksField
    decreases n,
{
    if n == 0 {
        GoldilocksField(0u64)
    } else {
        f_add(
            spec_row_dot(s, row, (n - 1) as nat),
            f_mul(s[n - 1], GoldilocksField(row[n - 1])),
        )
    }
}

/// The `concrete` layer: the circulant matrix applied to the state, plus one
/// row of round constants.
pub open spec fn spec_concrete(s: Seq<GoldilocksField>, rc: Seq<u64>) -> Seq<GoldilocksField> {
    Seq::new(
        12,
        |i: int| f_add(spec_row_dot(s, MONOLITH_MAT_12[i]@, 12), GoldilocksField(rc[i])),
    )
}

/// One Monolith round: bars, bricks, concrete with that round's constants.
pub open spec fn spec_monolith_round(s: Seq<GoldilocksField>, r: int) -> Seq<GoldilocksField> {
    spec_concrete(spec_bricks(spec_bars(s)), MONOLITH_ROUND_CONSTANTS[r]@)
}

/// Rounds `r ..= 6` applied in order.
pub open spec fn spec_monolith_rounds(s: Seq<GoldilocksField>, r: nat) -> Seq<GoldilocksField>
    decreases 7 - r,
{
    if r > 6 {
        s
    } else {
        spec_monolith_rounds(spec_monolith_round(s, r as int), r + 1)
    }
}

/// The whole permutation: the initial `concrete` (with zero constants), then
/// six rounds.
pub open spec fn spec_monolith(s: Seq<GoldilocksField>) -> Seq<GoldilocksField> {
    spec_monolith_rounds(spec_concrete(s, MONOLITH_ROUND_CONSTANTS[0]@), 1)
}

/// The bytewise `bar` S-box on one lane.
pub fn bar(x: u64) -> (r: u64)
    ensures
        r == spec_bar(x),
{
    let l1 = ((!x & 0x8080808080808080) >> 7u64) | ((!x & 0x7F7F7F7F7F7F7F7F) << 1u64);
    let l2 = ((x & 0xC0C0C0C0C0C0C0C0) >> 6u64) | ((x & 0x3F3F3F3F3F3F3F3F) << 2u64);
    let l3 = ((x & 0xE0E0E0E0E0E0E0E0) >> 5u64) | ((x & 0x1F1F1F1F1F1F1F1F) << 3u64);
    let tmp = x ^ (l1 & l2 & l3);
    ((tmp & 0x8080808080808080) >> 7u64) | ((tmp & 0x7F7F7F7F7F7F7F7F) << 1u64)
}

/// The `bars` layer in place.
pub fn bars(state: &mut Vec<GoldilocksField>)
    requires
        old(state)@.len() == 12,
    ensures
        final(state)@ == spec_bars(old(state)@),
        final(state)@.len() == 12,
{
    let ghost s0 = state@;
    let mut i: usize = 0;
    while i < 4
        invariant
            i <= 4,
            state@.len() == 12,
            s0.len() == 12,
            forall|k: int| i <= k < 12 ==> #[trigger] state@[k] == s0[k],
            forall|k: int|
                0 <= k < i ==> #[trigger] state@[k] == (GoldilocksField(
                    spec_bar(s0[k].0) % crate::field::FIELD_ORDER,
                )),
        decreases 4 - i,
    {
        let v = GoldilocksField::from_noncanonical_u64(bar(state[i].0));
        state.set(i, v);
        i = i + 1;
    }
    proof {
        assert(state@ =~= spec_bars(s0));
    }
}

/// The `bricks` layer in place, walked from the top lane down so each lane
/// reads the value its neighbour had before the layer.
pub fn bricks(state: &mut Vec<GoldilocksField>)
    requires
        old(state)@.len() == 12,
    ensures
        final(state)@ == spec_bricks(old(state)@),
        final(state)@.len() == 12,
{
    let ghost s0 = state@;
    let mut i: usize = 12;
    while i > 1
        invariant
            1 <= i <= 12,
            state@.len() == 12,
            s0.len() == 12,
            forall|k: int| 0 <= k < i ==> #[trigger] state@[k] == s0[k],
            forall|k: int|
                i <= k < 12 ==> #[trigger] state@[k] == f_add(s0[k], f_mul(s0[k - 1], s0[k - 1])),
        decreases i,
    {
        i = i - 1;
        let v = state[i].add(state[i - 1].square());
        state.set(i, v);
    }
    proof {
        assert(state@ =~= spec_bricks(s0));
    }
}

/// The `concrete` layer: multiplies the state by the circulant matrix and
/// adds one row of round constants.
pub fn concrete(state: &mut Vec<GoldilocksField>, rc: &[u64; 12])
    requires
        old(state)@.len() == 12,
    ensures
        final(state)@ == spec_concrete(old(state)@, rc@),
        final(state)@.len() == 12,
{
    let ghost s0 = state@;
    let mut out: Vec<GoldilocksField> = Vec::new();
    let mut i: usize = 0;
    while i < 12
        invariant
            i <= 12,
            state@ == s0,
            s0.len() == 12,
            out@.len() == i,
            forall|k: int|
                0 <= k < i ==> #[trigger] out@[k] == f_add(
                    spec_row_dot(s0, MONOLITH_MAT_12[k]@, 12),
                    GoldilocksField(rc@[k]),
                ),
        decreases 12 - i,
    {
        let mut acc = GoldilocksField(0u64);
        let mut j: usize = 0;
        while j < 12
            invariant
                j <= 12,
                i < 12,
                state@ == s0,
                s0.len() == 12,
                acc == spec_row_dot(s0, MONOLITH_MAT_12[i as int]@, j as nat),
            decreases 12 - j,
        {
            acc = acc.add(state[j].mul(GoldilocksField(MONOLITH_MAT_12[i][j])));
            j = j + 1;
        }
        out.push(acc.add(GoldilocksField(rc[i])));
        i = i + 1;
    }
    proof {
        assert(out@ =~= spec_concrete(s0, rc@));
    }
    *state = out;
}

/// The Monolith permutation in place.
pub fn monolith(state: &mut Vec<GoldilocksField>)
    requires
        old(state)@.len() == 12,
    ensures
        final(state)@ == spec_monolith(old(state)@),
        final(state)@.len() == 12,
{
    concrete(state, &MONOLITH_ROUND_CONSTANTS[0]);
    let ghost s_init = state@;
    let mut r: usize = 1;
    while r <= 6
        invariant
            1 <= r <= 7,
            state@.len() == 12,
            spec_monolith_rounds(s_init, 1) == spec_monolith_rounds(state@, r as nat),
        decreases 7 - r,
    {
        let ghost before = state@;
        bars(state);
        bricks(state);
        concrete(state, &MONOLITH_ROUND_CONSTANTS[r]);
        proof {
            assert(state@ == spec_monolith_round(before, r as int));
        }
        r = r + 1;
    }
}

/// The Monolith tree hasher: the same rate-8 sponge as the Poseidon2 hasher,
/// over the Monolith permutation.
#[derive(Clone, Copy, Debug, PartialEq, Eq, Structural)]
pub struct MonolithHash;

/// Absorbing a sequence of inputs into the Monolith sponge.
pub open spec fn spec_monolith_absorb(
    state: Seq<GoldilocksField>,
    input: Seq<GoldilocksField>,
) -> Seq<GoldilocksField>
    decreases input.len(),
{
    if input.len() == 0 {
        state
    } else {
        let c = if input.len() < 8 {
            input.len() as int
        } else {
            8
        };
        let loaded = Seq::new(
            12,
            |i: int|
                if i < c {
                    input[i]
                } else {
                    state[i]
                },
        );
        spec_monolith_absorb(spec_monolith(loaded), input.skip(c))
    }
}

impl Hasher for MonolithHash {
    open spec fn spec_hash_no_pad(input: Seq<GoldilocksField>) -> HashOut {
        let s = spec_monolith_absorb(spec_zero_state(), input);
        HashOut { elements: [s[0], s[1], s[2], s[3]] }
    }

    open spec fn spec_two_to_one(left: HashOut, right: HashOut) -> HashOut {
        let s = spec_monolith(crate::hash_types::spec_compress_state(left, right));
        HashOut { elements: [s[0], s[1], s[2], s[3]] }
    }

    #[verifier::rlimit(100)]
    fn hash_no_pad(input: &[GoldilocksField]) -> (h: HashOut) {
        let mut state: Vec<GoldilocksField> = Vec::new();
        let mut z: usize = 0;
        while z < 12
            invariant
                z <= 12,
                state@.len() == z,
                forall|k: int| 0 <= k < z ==> #[trigger] state@[k] == (GoldilocksField(0u64)),
            decreases 12 - z,
        {
            state.push(GoldilocksField(0u64));
            z = z + 1;
        }
        proof {
            assert(state@ =~= spec_zero_state());
            assert(input@.skip(0) =~= input@);
            lemma_spec_monolith_wf(state@);
        }
        let len = input.len();
        let mut i: usize = 0;
        while i < len
            invariant
                i <= len,
                len == input@.len(),
                forall|k: int| 0 <= k < input@.len() ==> fwf(#[trigger] input@[k]),
                state@.len() == 12,
                forall|k: int| 0 <= k < 12 ==> fwf(#[trigger] state@[k]),
                spec_monolith_absorb(spec_zero_state(), input@) == spec_monolith_absorb(
                    state@,
                    input@.skip(i as int),
                ),
            decreases len - i,
        {
            let c = if len - i < 8 {
                len - i
            } else {
                8
            };
            let ghost pre = state@;
            let mut j: usize = 0;
            while j < c
                invariant
                    j <= c,
                    c <= 8,
                    i + c <= len,
                    len == input@.len(),
                    forall|k: int| 0 <= k < input@.len() ==> fwf(#[trigger] input@[k]),
                    state@.len() == 12,
                    pre.len() == 12,
                    forall|k: int| j <= k < 12 ==> #[trigger] state@[k] == pre[k],
                    forall|k: int| 0 <= k < j ==> #[trigger] state@[k] == input@[i + k],
                    forall|k: int| 0 <= k < 12 ==> fwf(#[trigger] pre[k]),
                decreases c - j,
            {
                state.set(j, input[i + j]);
                j = j + 1;
            }
            proof {
                assert(forall|k: int| 0 <= k < 12 ==> fwf(#[trigger] state@[k]));
                assert(state@ =~= Seq::new(
                    12,
                    |k: int|
                        if k < c {
                            input@.skip(i as int)[k]
                        } else {
                            pre[k]
                        },
                ));
                lemma_spec_monolith_wf(state@);
            }
            monolith(&mut state);
            proof {
                assert(input@.skip(i as int).skip(c as int) =~= input@.skip(i + c));
            }
            i = i + c;
        }
        proof {
            assert(input@.skip(len as int) =~= Seq::<GoldilocksField>::empty());
        }
        let out = HashOut { elements: [state[0], state[1], state[2], state[3]] };
        proof {
            assert(out.elements =~= Self::spec_hash_no_pad(input@).elements);
        }
        out
    }

    fn two_to_one(left: HashOut, right: HashOut) -> (h: HashOut) {
        let mut state = crate::hash_types::compress_state(left, right);
        proof {
            lemma_spec_monolith_wf(state@);
        }
        monolith(&mut state);
        let out = HashOut { elements: [state[0], state[1], state[2], state[3]] };
        proof {
            assert(out.elements =~= Self::spec_two_to_one(left, right).elements);
        }
        out
    }
}

/// Configuration marker: Monolith over the Goldilocks field as the tree
/// hasher.
#[derive(Debug, Copy, Clone, Eq, PartialEq, Structural)]
pub struct MonolithGoldilocksConfig;

/// Every round keeps all lanes canonical.
proof fn lemma_monolith_rounds_wf(s: Seq<GoldilocksField>, r: nat)
    requires
        s.len() == 12,
    ensures
        spec_monolith_rounds(s, r).len() == 12,
        (forall|i: int| 0 <= i < 12 ==> fwf(#[trigger] s[i])) ==> forall|i: int|
            0 <= i < 12 ==> fwf(#[trigger] spec_monolith_rounds(s, r)[i]),
    decreases 7 - r,
{
    if r <= 6 {
        lemma_monolith_rounds_wf(spec_monolith_round(s, r as int), r + 1);
    }
}

/// Canonical lanes in, canonical lanes out, for the whole permutation.
proof fn lemma_spec_monolith_wf(s: Seq<GoldilocksField>)
    requires
        s.len() == 12,
        forall|i: int| 0 <= i < 12 ==> fwf(#[trigger] s[i]),
    ensures
        spec_monolith(s).len() == 12,
        forall|i: int| 0 <= i < 12 ==> fwf(#[trigger] spec_monolith(s)[i]),
{
    lemma_monolith_rounds_wf(spec_concrete(s, MONOLITH_ROUND_CONSTANTS[0]@), 1);
}

} // verus!

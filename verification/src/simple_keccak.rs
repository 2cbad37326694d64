//! A baseline Keccak implementation: the `keccak-f[1600]` permutation and a
//! flexible-width sponge producing 28- to 64-byte digests.

use vstd::prelude::*;

use vstd::array::ArrayAdditionalExecFns;

verus! {

broadcast use vstd::array::group_array_axioms;

/// Number of rounds of the full permutation.
pub const KECCAK_ROUNDS: i32 = 24;

/// Round constants for the iota step.
pub const KECCAKF_RNDC: [u64; 24] = [
    1u64,
    0x8082u64,
    0x800000000000808au64,
    0x8000000080008000u64,
    0x808bu64,
    0x80000001u64,
    0x8000000080008081u64,
    0x8000000000008009u64,
    0x8au64,
    0x88u64,
    0x80008009u64,
    0x8000000au64,
    0x8000808bu64,
    0x800000000000008bu64,
    0x8000000000008089u64,
    0x8000000000008003u64,
    0x8000000000008002u64,
    0x8000000000000080u64,
    0x800au64,
    0x800000008000000au64,
    0x8000000080008081u64,
    0x8000000000008080u64,
    0x80000001u64,
    0x8000000080008008u64,
];

/// Rotation amounts for the rho step.
pub const KECCAKF_ROTC: [u32; 24] = [
    1,
    3,
    6,
    10,
    15,
    21,
    28,
    36,
    45,
    55,
    2,
    14,
    27,
    41,
    56,
    8,
    25,
    43,
    62,
    18,
    39,
    61,
    20,
    44,
];

/// Lane order for the pi step.
pub const KECCAKF_PILN: [usize; 24] = [
    10,
    7,
    11,
    17,
    18,
    3,
    5,
    16,
    8,
    21,
    24,
    4,
    15,
    23,
    19,
    13,
    12,
    2,
    20,
    14,
    22,
    9,
    6,
    1,
];

/// Left rotation of a 64-bit lane by `1 <= n <= 63` bits.
pub open spec fn spec_rotl64(x: u64, n: u32) -> u64 {
    (x << n) | (x >> (64 - n) as u32)
}

/// The theta step: each lane is mixed with the parities of two columns.
pub open spec fn spec_theta(st: Seq<u64>) -> Seq<u64> {
    let c = Seq::new(5, |i: int| st[i] ^ st[i + 5] ^ st[i + 10] ^ st[i + 15] ^ st[i + 20]);
    Seq::new(25, |k: int| st[k] ^ c[(k % 5 + 4) % 5] ^ spec_rotl64(c[(k % 5 + 1) % 5], 1))
}

/// One step of the rho-pi walk: lane `PILN[i]` receives the carried lane,
/// rotated, and hands its old value on.
pub open spec fn spec_rho_pi_step(st: Seq<u64>, t: u64, i: nat) -> Seq<u64>
    decreases 24 - i,
{
    if i >= 24 {
        st
    } else {
        spec_rho_pi_step(
            st.update(KECCAKF_PILN[i as int] as int, spec_rotl64(t, KECCAKF_ROTC[i as int])),
            st[KECCAKF_PILN[i as int] as int],
            i + 1,
        )
    }
}

/// The rho and pi steps.
pub open spec fn spec_rho_pi(st: Seq<u64>) -> Seq<u64> {
    spec_rho_pi_step(st, st[1], 0)
}

/// The chi step: nonlinear mixing within each row of five lanes.
pub open spec fn spec_chi(st: Seq<u64>) -> Seq<u64> {
    Seq::new(
        25,
        |k: int| st[k] ^ ((!st[(k / 5) * 5 + (k % 5 + 1) % 5]) & st[(k / 5) * 5 + (k % 5 + 2)
            % 5]),
    )
}

/// One full round: theta, rho-pi, chi, then the round constant.
pub open spec fn spec_keccakf_round(st: Seq<u64>, round: int) -> Seq<u64> {
    let a = spec_chi(spec_rho_pi(spec_theta(st)));
    a.update(0, a[0] ^ KECCAKF_RNDC[round])
}

/// Rounds `r .. rounds` applied in order.
pub open spec fn spec_keccakf_rounds(st: Seq<u64>, r: int, rounds: int) -> Seq<u64>
    decreases rounds - r,
{
    if r >= rounds {
        st
    } else {
        spec_keccakf_rounds(spec_keccakf_round(st, r), r + 1, rounds)
    }
}

/// The permutation over the 25-lane state.
pub open spec fn spec_keccakf(st: Seq<u64>, rounds: int) -> Seq<u64> {
    spec_keccakf_rounds(st, 0, rounds)
}

/// Exclusive-or is associative.
proof fn lemma_xor_assoc(a: u64, b: u64, c: u64)
    ensures
        a ^ (b ^ c) == (a ^ b) ^ c,
{
    assert(a ^ (b ^ c) == (a ^ b) ^ c) by (bit_vector);
}

/// Left rotation of a 64-bit lane by `1 <= n <= 63` bits.
pub fn rotl64(x: u64, n: u32) -> (r: u64)
    requires
        1 <= n < 64,
    ensures
        r == spec_rotl64(x, n),
{
    (x << n) | (x >> (64 - n))
}

/// The `keccak-f` permutation on a 25-lane state, `rounds` rounds.
pub fn keccakf(st: &mut [u64; 25], rounds: i32)
    requires
        rounds <= 24,
    ensures
        final(st)@ == spec_keccakf(old(st)@, rounds as int),
{
    let mut round: i32 = 0;
    while round < rounds
        invariant
            0 <= round,
            rounds <= 24,
            round <= rounds || round == 0,
            st@.len() == 25,
            spec_keccakf(old(st)@, rounds as int) == spec_keccakf_rounds(
                st@,
                round as int,
                rounds as int,
            ),
        decreases rounds - round,
    {
        let ghost entry = st@;
        // Theta
        let mut bc: [u64; 5] = [0; 5];
        let mut i: usize = 0;
        while i < 5
            invariant
                i <= 5,
                st@ == entry,
                st@.len() == 25,
                entry.len() == 25,
                bc@.len() == 5,
                forall|k: int|
                    0 <= k < i ==> #[trigger] bc@[k] == (entry[k] ^ entry[k + 5] ^ entry[k + 10]
                        ^ entry[k + 15] ^ entry[k + 20]),
            decreases 5 - i,
        {
            bc.set(i, st[i] ^ st[i + 5] ^ st[i + 10] ^ st[i + 15] ^ st[i + 20]);
            i = i + 1;
        }
        let mut i: usize = 0;
        while i < 5
            invariant
                i <= 5,
                st@.len() == 25,
                entry.len() == 25,
                bc@.len() == 5,
                forall|k: int|
                    0 <= k < 5 ==> #[trigger] bc@[k] == (entry[k] ^ entry[k + 5] ^ entry[k + 10]
                        ^ entry[k + 15] ^ entry[k + 20]),
                forall|k: int|
                    0 <= k < 25 && k % 5 < i ==> #[trigger] st@[k] == spec_theta(entry)[k],
                forall|k: int| 0 <= k < 25 && k % 5 >= i ==> #[trigger] st@[k] == entry[k],
            decreases 5 - i,
        {
            let t = bc[(i + 4) % 5] ^ rotl64(bc[(i + 1) % 5], 1);
            proof {
                assert(((i + 4) % 5) as int == (i as int + 4) % 5);
                assert(((i + 1) % 5) as int == (i as int + 1) % 5);
                assert(t == bc@[(i as int + 4) % 5] ^ spec_rotl64(bc@[(i as int + 1) % 5], 1));
            }
            let mut j: usize = 0;
            while j < 5
                invariant
                    j <= 5,
                    i < 5,
                    st@.len() == 25,
                    entry.len() == 25,
                    t == bc@[(i as int + 4) % 5] ^ spec_rotl64(bc@[(i as int + 1) % 5], 1),
                    bc@.len() == 5,
                    forall|k: int|
                        0 <= k < 5 ==> #[trigger] bc@[k] == (entry[k] ^ entry[k + 5] ^ entry[k
                            + 10] ^ entry[k + 15] ^ entry[k + 20]),
                    forall|k: int|
                        0 <= k < 25 && k % 5 < i ==> #[trigger] st@[k] == spec_theta(entry)[k],
                    forall|k: int|
                        0 <= k < 25 && k % 5 == i && k / 5 < j ==> #[trigger] st@[k] == (entry[k]
                            ^ t),
                    forall|k: int|
                        0 <= k < 25 && (k % 5 > i || (k % 5 == i && k / 5 >= j))
                            ==> #[trigger] st@[k] == entry[k],
                decreases 5 - j,
            {
                let idx = 5 * j + i;
                st.set(idx, st[idx] ^ t);
                j = j + 1;
            }
            proof {
                assert forall|k: int| 0 <= k < 25 && k % 5 == i implies #[trigger] st@[k]
                    == spec_theta(entry)[k] by {
                    lemma_xor_assoc(
                        entry[k],
                        bc@[(i as int + 4) % 5],
                        spec_rotl64(bc@[(i as int + 1) % 5], 1),
                    );
                }
            }
            i = i + 1;
        }
        proof {
            assert(st@ =~= spec_theta(entry));
        }
        // Rho and pi
        let ghost after_theta = st@;
        let mut t = st[1];
        let mut i: usize = 0;
        while i < 24
            invariant
                i <= 24,
                st@.len() == 25,
                after_theta.len() == 25,
                spec_rho_pi_step(after_theta, after_theta[1], 0) == spec_rho_pi_step(
                    st@,
                    t,
                    i as nat,
                ),
            decreases 24 - i,
        {
            let j = KECCAKF_PILN[i];
            let bc0 = st[j];
            let rot = KECCAKF_ROTC[i];
            let v = rotl64(t, rot);
            st.set(j, v);
            t = bc0;
            i = i + 1;
        }
        proof {
            assert(st@ =~= spec_rho_pi(after_theta));
        }
        // Chi
        let ghost after_pi = st@;
        let mut j: usize = 0;
        while j < 25
            invariant
                j <= 25,
                j % 5 == 0,
                st@.len() == 25,
                after_pi.len() == 25,
                forall|k: int| 0 <= k < j ==> #[trigger] st@[k] == spec_chi(after_pi)[k],
                forall|k: int| j <= k < 25 ==> #[trigger] st@[k] == after_pi[k],
            decreases 25 - j,
        {
            let mut bc: [u64; 5] = [0; 5];
            let mut i: usize = 0;
            while i < 5
                invariant
                    i <= 5,
                    j + 5 <= 25,
                    j % 5 == 0,
                    st@.len() == 25,
                    after_pi.len() == 25,
                    forall|k: int| j <= k < 25 ==> #[trigger] st@[k] == after_pi[k],
                    forall|k: int| 0 <= k < j ==> #[trigger] st@[k] == spec_chi(after_pi)[k],
                    bc@.len() == 5,
                    forall|k: int| 0 <= k < i ==> #[trigger] bc@[k] == after_pi[j + k],
                decreases 5 - i,
            {
                bc.set(i, st[j + i]);
                i = i + 1;
            }
            let mut i: usize = 0;
            while i < 5
                invariant
                    i <= 5,
                    j + 5 <= 25,
                    j % 5 == 0,
                    st@.len() == 25,
                    after_pi.len() == 25,
                    bc@.len() == 5,
                    forall|k: int| 0 <= k < 5 ==> #[trigger] bc@[k] == after_pi[j + k],
                    forall|k: int| 0 <= k < j ==> #[trigger] st@[k] == spec_chi(after_pi)[k],
                    forall|k: int|
                        j <= k < j + i ==> #[trigger] st@[k] == spec_chi(after_pi)[k],
                    forall|k: int| j + i <= k < 25 ==> #[trigger] st@[k] == after_pi[k],
                decreases 5 - i,
            {
                let v = bc[i] ^ ((!bc[(i + 1) % 5]) & bc[(i + 2) % 5]);
                st.set(j + i, v);
                i = i + 1;
            }
            j = j + 5;
        }
        proof {
            assert(st@ =~= spec_chi(after_pi));
        }
        // Iota
        let ghost after_chi = st@;
        let v0 = st[0] ^ KECCAKF_RNDC[round as usize];
        st.set(0, v0);
        proof {
            assert(st@ =~= spec_keccakf_round(entry, round as int));
        }
        round = round + 1;
    }
}


/// A 64-bit lane read from eight little-endian bytes.
pub open spec fn spec_le64(bytes: Seq<u8>, off: int) -> u64 {
    (bytes[off] as u64) | ((bytes[off + 1] as u64) << 8) | ((bytes[off + 2] as u64) << 16) | ((
    bytes[off + 3] as u64) << 24) | ((bytes[off + 4] as u64) << 32) | ((bytes[off + 5] as u64)
        << 40) | ((bytes[off + 6] as u64) << 48) | ((bytes[off + 7] as u64) << 56)
}

/// One rate-sized block of bytes xored into the front lanes of the state.
pub open spec fn spec_xor_block(st: Seq<u64>, block: Seq<u8>, rsizw: int) -> Seq<u64> {
    Seq::new(
        25,
        |i: int|
            if i < rsizw {
                st[i] ^ spec_le64(block, 8 * i)
            } else {
                st[i]
            },
    )
}

/// All full rate-sized blocks of the input absorbed in order, each followed
/// by the full permutation.
pub open spec fn spec_absorb_blocks(st: Seq<u64>, inp: Seq<u8>, rsiz: nat) -> Seq<u64>
    decreases inp.len(),
{
    if rsiz < 1 || inp.len() < rsiz {
        st
    } else {
        spec_absorb_blocks(
            spec_keccakf(spec_xor_block(st, inp.take(rsiz as int), rsiz as int / 8), 24),
            inp.skip(rsiz as int),
            rsiz,
        )
    }
}

/// The final padded block: the leftover bytes, a one, zeros, and the top bit
/// of the last byte set.
pub open spec fn spec_pad_block(tail: Seq<u8>, rsiz: int) -> Seq<u8> {
    Seq::new(
        rsiz as nat,
        |i: int|
            {
                let b: u8 = if i < tail.len() {
                    tail[i]
                } else if i == tail.len() {
                    1
                } else {
                    0
                };
                if i == rsiz - 1 {
                    b | 0x80
                } else {
                    b
                }
            },
    )
}

/// Byte `j` (little-endian) of a 64-bit lane.
pub open spec fn spec_byte(x: u64, j: int) -> u8 {
    ((x >> (8 * j) as u64) & 0xFF) as u8
}

/// The digest of `inp` with output width `mdlen`: absorb all full blocks of
/// `200 - 2 * mdlen` bytes, then the padded final block, and read the first
/// `mdlen` bytes of the state.
pub open spec fn spec_keccak_digest(inp: Seq<u8>, mdlen: nat) -> Seq<u8> {
    let rsiz = (200 - 2 * mdlen) as nat;
    let st0 = Seq::new(25, |i: int| 0u64);
    let st1 = spec_absorb_blocks(st0, inp, rsiz);
    let tail = inp.skip((inp.len() - (inp.len() % rsiz)) as int);
    let st2 = spec_keccakf(
        spec_xor_block(st1, spec_pad_block(tail, rsiz as int), rsiz as int / 8),
        24,
    );
    Seq::new(mdlen, |i: int| spec_byte(st2[i / 8], i % 8))
}

/// A 64-bit lane read from eight little-endian bytes of the input.
fn load64_le(b: &[u8], off: usize) -> (r: u64)
    requires
        off + 8 <= b@.len(),
    ensures
        r == spec_le64(b@, off as int),
{
    (b[off] as u64) | ((b[off + 1] as u64) << 8u64) | ((b[off + 2] as u64) << 16u64) | ((b[off
        + 3] as u64) << 24u64) | ((b[off + 4] as u64) << 32u64) | ((b[off + 5] as u64) << 40u64)
        | ((b[off + 6] as u64) << 48u64) | ((b[off + 7] as u64) << 56u64)
}

/// Xors the block `inp[off .. off + 8 * rsizw]` into the front lanes.
fn xor_block(st: &mut [u64; 25], inp: &[u8], off: usize, rsizw: usize)
    requires
        rsizw <= 25,
        off + 8 * rsizw <= inp@.len(),
    ensures
        final(st)@ == spec_xor_block(old(st)@, inp@.skip(off as int), rsizw as int),
{
    let total = inp.len();
    let ghost s0 = st@;
    let mut i: usize = 0;
    while i < rsizw
        invariant
            i <= rsizw,
            rsizw <= 25,
            total == inp@.len(),
            off + 8 * rsizw <= inp@.len(),
            st@.len() == 25,
            s0.len() == 25,
            forall|k: int| i <= k < 25 ==> #[trigger] st@[k] == s0[k],
            forall|k: int|
                0 <= k < i ==> #[trigger] st@[k] == (s0[k] ^ spec_le64(
                    inp@.skip(off as int),
                    8 * k,
                )),
        decreases rsizw - i,
    {
        let lane = load64_le(inp, off + 8 * i);
        proof {
            let blk = inp@.skip(off as int);
            assert(spec_le64(inp@, (off + 8 * i) as int) == spec_le64(blk, 8 * i as int));
        }
        st.set(i, st[i] ^ lane);
        i = i + 1;
    }
    proof {
        assert(st@ =~= spec_xor_block(s0, inp@.skip(off as int), rsizw as int));
    }
}

/// A block xored in reads only its first `8 * rsizw` bytes, so a longer
/// buffer may be cut there.
proof fn lemma_xor_block_take(st: Seq<u64>, blk: Seq<u8>, rsiz: int, rsizw: int)
    requires
        0 <= 8 * rsizw <= rsiz <= blk.len(),
    ensures
        spec_xor_block(st, blk, rsizw) == spec_xor_block(st, blk.take(rsiz), rsizw),
{
    assert(spec_xor_block(st, blk, rsizw) =~= spec_xor_block(st, blk.take(rsiz), rsizw));
}

/// Builds the padded final block for the leftover bytes `inp[off ..]`.
fn build_pad_block(inp: &[u8], off: usize, rsiz: usize) -> (temp: Vec<u8>)
    requires
        off <= inp@.len(),
        inp@.len() - off < rsiz,
        1 <= rsiz <= 200,
    ensures
        temp@ == spec_pad_block(inp@.skip(off as int), rsiz as int),
        temp@.len() == rsiz,
{
    let total = inp.len();
    let llen = total - off;
    let mut temp: Vec<u8> = Vec::new();
    let mut i: usize = 0;
    while i < rsiz
        invariant
            i <= rsiz,
            off + llen == inp@.len(),
            inp@.len() <= usize::MAX,
            llen < rsiz,
            temp@.len() == i,
            forall|k: int|
                0 <= k < i ==> #[trigger] temp@[k] == spec_pad_block(
                    inp@.skip(off as int),
                    rsiz as int,
                )[k],
        decreases rsiz - i,
    {
        let b: u8 = if i < llen {
            inp[off + i]
        } else if i == llen {
            1
        } else {
            0
        };
        let b: u8 = if i == rsiz - 1 {
            b | 0x80
        } else {
            b
        };
        temp.push(b);
        i = i + 1;
    }
    proof {
        assert(temp@ =~= spec_pad_block(inp@.skip(off as int), rsiz as int));
    }
    temp
}

/// Reads the first `mdlen` bytes of the state, little-endian lane by lane.
fn extract_digest(st: &[u64; 25], md: &mut Vec<u8>, mdlen: usize)
    requires
        old(md)@.len() == mdlen,
        mdlen <= 64,
    ensures
        final(md)@ == Seq::new(mdlen as nat, |i: int| spec_byte(st@[i / 8], i % 8)),
{
    let mut i: usize = 0;
    while i < mdlen
        invariant
            i <= mdlen,
            mdlen <= 64,
            md@.len() == mdlen,
            st@.len() == 25,
            forall|k: int| 0 <= k < i ==> #[trigger] md@[k] == spec_byte(st@[k / 8], k % 8),
        decreases mdlen - i,
    {
        let sh: u64 = ((i % 8) * 8) as u64;
        let b: u8 = ((st[i / 8] >> sh) & 0xFF) as u8;
        md.set(i, b);
        i = i + 1;
    }
    proof {
        assert(md@ =~= Seq::new(mdlen as nat, |i: int| spec_byte(st@[i / 8], i % 8)));
    }
}

/// The flexible-width Keccak sponge: writes the `mdlen`-byte digest of
/// `inp[..inlen]` into `md`. Output widths between 28 and 64 bytes (in steps
/// of four) cover the 224- to 512-bit variants.
#[verifier::rlimit(50)]
pub fn keccak_flex(inp: &[u8], inlen: usize, md: &mut Vec<u8>, mdlen: usize)
    requires
        inp@.len() == inlen,
        old(md)@.len() == mdlen,
        28 <= mdlen <= 64,
        mdlen % 4 == 0,
    ensures
        final(md)@ == spec_keccak_digest(inp@, mdlen as nat),
{
    let rsiz: usize = 200 - 2 * mdlen;
    let rsizw: usize = rsiz / 8;
    let mut st: [u64; 25] = [0; 25];
    proof {
        assert(st@ =~= Seq::new(25, |i: int| 0u64));
        assert(inp@.skip(0) =~= inp@);
    }
    let ghost st0 = st@;
    let mut off: usize = 0;
    while inlen - off >= rsiz
        invariant
            off <= inlen,
            off % rsiz == 0,
            inp@.len() == inlen,
            28 <= mdlen <= 64,
            mdlen % 4 == 0,
            rsiz == 200 - 2 * mdlen,
            rsizw == rsiz / 8,
            st@.len() == 25,
            spec_absorb_blocks(st0, inp@, rsiz as nat) == spec_absorb_blocks(
                st@,
                inp@.skip(off as int),
                rsiz as nat,
            ),
        decreases inlen - off,
    {
        let ghost pre = st@;
        xor_block(&mut st, inp, off, rsizw);
        proof {
            lemma_xor_block_take(pre, inp@.skip(off as int), rsiz as int, rsizw as int);
        }
        keccakf(&mut st, KECCAK_ROUNDS);
        proof {
            assert(inp@.skip(off as int).skip(rsiz as int) =~= inp@.skip(off + rsiz));
            vstd::arithmetic::div_mod::lemma_mod_add_multiples_vanish(
                off as int,
                rsiz as int,
            );
        }
        off = off + rsiz;
    }
    // last block and padding
    let llen = inlen - off;
    proof {
        vstd::arithmetic::div_mod::lemma_fundamental_div_mod(off as int, rsiz as int);
        assert(off as int == rsiz * (off as int / rsiz as int));
        assert(inlen as int == (off as int / rsiz as int) * rsiz + llen) by {
            vstd::arithmetic::mul::lemma_mul_is_commutative(
                rsiz as int,
                off as int / rsiz as int,
            );
        };
        vstd::arithmetic::div_mod::lemma_fundamental_div_mod_converse_mod(
            inlen as int,
            rsiz as int,
            (off / rsiz) as int,
            llen as int,
        );
        assert(inlen % rsiz == llen);
    }
    let temp = build_pad_block(inp, off, rsiz);
    let ghost before_pad = st@;
    xor_block(&mut st, temp.as_slice(), 0, rsizw);
    proof {
        assert(temp@.skip(0) =~= temp@);
    }
    keccakf(&mut st, KECCAK_ROUNDS);
    extract_digest(&st, md, mdlen);
    proof {
        assert(final(md)@ =~= spec_keccak_digest(inp@, mdlen as nat));
    }
}

/// A 32-byte hash value.
pub struct H256(pub [u8; 32]);

impl H256 {
    /// The digest's bytes.
    pub fn to_fixed_bytes(self) -> (r: [u8; 32])
        ensures
            r@ == self.0@,
    {
        self.0
    }
}

/// The 256-bit Keccak digest of the input.
pub fn keccaks(inp: Vec<u8>) -> (r: H256)
    ensures
        r.0@ == spec_keccak_digest(inp@, 32),
{
    let mut md: Vec<u8> = Vec::new();
    let mut i: usize = 0;
    while i < 32
        invariant
            i <= 32,
            md@.len() == i,
        decreases 32 - i,
    {
        md.push(0);
        i = i + 1;
    }
    let n = inp.len();
    keccak_flex(inp.as_slice(), n, &mut md, 32);
    let mut out: [u8; 32] = [0; 32];
    let mut i: usize = 0;
    while i < 32
        invariant
            i <= 32,
            md@.len() == 32,
            out@.len() == 32,
            forall|k: int| 0 <= k < i ==> #[trigger] out@[k] == md@[k],
        decreases 32 - i,
    {
        out.set(i, md[i]);
        i = i + 1;
    }
    let r = H256(out);
    proof {
        assert(r.0@ =~= md@);
    }
    r
}

} // verus!

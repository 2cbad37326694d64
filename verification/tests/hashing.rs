use merkle_commit::field::{GoldilocksField, FIELD_ORDER};
use merkle_commit::monolith_goldilocks::{monolith, LOOKUP_BITS};
use merkle_commit::poseidon2::Poseidon2;
use merkle_commit::simple_keccak::{keccak_flex, keccaks};
use rand::Rng;
use zkhash::ark_ff::{BigInteger, PrimeField};
use zkhash::fields::goldilocks::FpGoldiLocks;
use zkhash::poseidon2::poseidon2::Poseidon2 as Poseidon2Ref;
use zkhash::poseidon2::poseidon2_instance_goldilocks::POSEIDON2_GOLDILOCKS_12_PARAMS;

fn goldilocks_from_ark_ff(input: FpGoldiLocks) -> GoldilocksField {
    let as_bigint = input.into_bigint();
    let mut as_bytes = as_bigint.to_bytes_le();
    as_bytes.resize(8, 0);
    let as_u64 = u64::from_le_bytes(as_bytes[0..8].try_into().unwrap());
    GoldilocksField(as_u64)
}

#[test]
fn test_poseidon2_goldilocks_width_12() {
    const WIDTH: usize = 12;

    let mut rng = rand::thread_rng();

    // Poseidon2 reference implementation from the zkhash crate.
    let poseidon2_ref = Poseidon2Ref::new(&POSEIDON2_GOLDILOCKS_12_PARAMS);

    // Generate random input and convert to both Goldilocks field formats.
    let input_u64 = rng.gen::<[u64; WIDTH]>();
    let input_ref = input_u64
        .iter()
        .cloned()
        .map(FpGoldiLocks::from)
        .collect::<Vec<_>>();
    let input: Vec<GoldilocksField> = input_u64
        .iter()
        .map(|&x| GoldilocksField(x % FIELD_ORDER))
        .collect();

    // Check that the conversion is correct.
    assert!(input_ref
        .iter()
        .zip(input.iter())
        .all(|(a, b)| goldilocks_from_ark_ff(*a) == *b));

    // Run reference implementation.
    let output_ref = poseidon2_ref.permutation(&input_ref);
    let expected: Vec<GoldilocksField> = output_ref
        .iter()
        .cloned()
        .map(goldilocks_from_ark_ff)
        .collect();

    // Run our implementation.
    let mut output = input;
    GoldilocksField::poseidon2(&mut output);

    assert_eq!(output, expected);
}

#[test]
fn test_vectors() {
    // Test inputs are:
    // 1. 0..WIDTH-1

    let test_vectors12: Vec<([u64; 12], [u64; 12])> = match LOOKUP_BITS {
        8 => vec![(
            [0, 1, 2, 3, 4, 5, 6, 7, 8, 9, 10, 11],
            [
                5867581605548782913,
                588867029099903233,
                6043817495575026667,
                805786589926590032,
                9919982299747097782,
                6718641691835914685,
                7951881005429661950,
                15453177927755089358,
                974633365445157727,
                9654662171963364206,
                6281307445101925412,
                13745376999934453119,
            ],
        )],
        16 => vec![(
            [0, 1, 2, 3, 4, 5, 6, 7, 8, 9, 10, 11],
            [
                15270549627416999494,
                2608801733076195295,
                2511564300649802419,
                14351608014180687564,
                4101801939676807387,
                234091379199311770,
                3560400203616478913,
                17913168886441793528,
                7247432905090441163,
                667535998170608897,
                5848119428178849609,
                7505720212650520546,
            ],
        )],
        _ => panic!("unsupported lookup size"),
    };

    for (input, expected) in test_vectors12 {
        let mut state: Vec<GoldilocksField> = input.iter().map(|&x| GoldilocksField(x)).collect();
        monolith(&mut state);
        let output: Vec<u64> = state.iter().map(|x| x.0).collect();
        assert_eq!(&output[..], &expected[..]);
    }
}

const RES1: [u8; 28] = [
    0x30, 0x04, 0x5B, 0x34, 0x94, 0x6E, 0x1B, 0x2E, 0x09, 0x16, 0x13, 0x36, 0x2F, 0xD2, 0x2A,
    0xA0, 0x8E, 0x2B, 0xEA, 0xFE, 0xC5, 0xE8, 0xDA, 0xEE, 0x42, 0xC2, 0xE6, 0x65,
];

const RES2: [u8; 32] = [
    0xA8, 0xD7, 0x1B, 0x07, 0xF4, 0xAF, 0x26, 0xA4, 0xFF, 0x21, 0x02, 0x7F, 0x62, 0xFF, 0x60,
    0x26, 0x7F, 0xF9, 0x55, 0xC9, 0x63, 0xF0, 0x42, 0xC4, 0x6D, 0xA5, 0x2E, 0xE3, 0xCF, 0xAF,
    0x3D, 0x3C,
];

const RES3: [u8; 48] = [
    0xE2, 0x13, 0xFD, 0x74, 0xAF, 0x0C, 0x5F, 0xF9, 0x1B, 0x42, 0x3C, 0x8B, 0xCE, 0xEC, 0xD7,
    0x01, 0xF8, 0xDD, 0x64, 0xEC, 0x18, 0xFD, 0x6F, 0x92, 0x60, 0xFC, 0x9E, 0xC1, 0xED, 0xBD,
    0x22, 0x30, 0xA6, 0x90, 0x86, 0x65, 0xBC, 0xD9, 0xFB, 0xF4, 0x1A, 0x99, 0xA1, 0x8A, 0x7D,
    0x9E, 0x44, 0x6E,
];

const RES4: [u8; 64] = [
    0x96, 0xEE, 0x47, 0x18, 0xDC, 0xBA, 0x3C, 0x74, 0x61, 0x9B, 0xA1, 0xFA, 0x7F, 0x57, 0xDF,
    0xE7, 0x76, 0x9D, 0x3F, 0x66, 0x98, 0xA8, 0xB3, 0x3F, 0xA1, 0x01, 0x83, 0x89, 0x70, 0xA1,
    0x31, 0xE6, 0x21, 0xCC, 0xFD, 0x05, 0xFE, 0xFF, 0xBC, 0x11, 0x80, 0xF2, 0x63, 0xC2, 0x7F,
    0x1A, 0xDA, 0xB4, 0x60, 0x95, 0xD6, 0xF1, 0x25, 0x33, 0x14, 0x72, 0x4B, 0x5C, 0xBF, 0x78,
    0x28, 0x65, 0x8E, 0x6A,
];

const STR1: &str = "Keccak-224 Test Hash";
const STR2: &str = "Keccak-256 Test Hash";
const STR3: &str = "Keccak-384 Test Hash";
const STR4: &str = "Keccak-512 Test Hash";

fn check_res(rs: &[u8], rf: &[u8], size: usize) {
    for i in 0..size {
        assert!(rs[i] == rf[i], "Keccak Hash is different");
    }
}

#[test]
fn test_simple_keccak_flex() {
    let x = STR1.as_bytes();
    let mut md = vec![0u8; 28];
    keccak_flex(x, x.len(), &mut md, 28);
    check_res(&md, &RES1, 28);

    let x = STR2.as_bytes();
    let mut md = vec![0u8; 32];
    keccak_flex(x, x.len(), &mut md, 32);
    check_res(&md, &RES2, 32);

    let x = STR3.as_bytes();
    let mut md = vec![0u8; 48];
    keccak_flex(x, x.len(), &mut md, 48);
    check_res(&md, &RES3, 48);

    let x = STR4.as_bytes();
    let mut md = vec![0u8; 64];
    keccak_flex(x, x.len(), &mut md, 64);
    check_res(&md, &RES4, 64);
}

#[test]
fn test_keccaks_vector() {
    let x = STR2.as_bytes().to_vec();
    let md = keccaks(x).to_fixed_bytes();
    check_res(&md, &RES2, 32);
}

#[test]
fn test_tiny_keccak() {
    let x = STR2.as_bytes().to_vec();
    let md = keccak_hash::keccak(x).0;
    check_res(&md, &RES2, 32);
}

#[test]
fn test_simple_keccak() {
    let x = STR2.as_bytes().to_vec();
    let h = keccak_hash::keccak(x);
    let md = h.0;
    check_res(&md, &RES2, 32);
}

fn random_bytes(n: usize, k: usize) -> Vec<Vec<u8>> {
    (0..n)
        .map(|_| (0..k).map(|_| rand::random::<u8>()).collect())
        .collect()
}

#[test]
fn test_tiny_keccak_2() {
    let data = random_bytes(1000, 400);
    for elem in data {
        let celem = elem.clone();
        let md1 = keccak_hash::keccak(elem).0;
        let md2 = keccaks(celem).0;
        check_res(&md1, &md2, 32);
    }
}

use merkle_commit::field::{GoldilocksField, FIELD_ORDER};
use merkle_commit::hash_types::hash_or_noop;
use merkle_commit::merkle_proofs::verify_merkle_proof_to_cap;
use merkle_commit::merkle_tree::{MerkleError, MerkleTree};
use merkle_commit::monolith_goldilocks::MonolithHash;
use merkle_commit::poseidon2::Poseidon2Hash;
use rand::Rng;

fn random_data(n: usize, k: usize) -> Vec<Vec<GoldilocksField>> {
    let mut rng = rand::thread_rng();
    (0..n)
        .map(|_| {
            (0..k)
                .map(|_| GoldilocksField(rng.gen::<u64>() % FIELD_ORDER))
                .collect()
        })
        .collect()
}

fn field_rows(values: &[u64]) -> Vec<Vec<GoldilocksField>> {
    values.iter().map(|&v| vec![GoldilocksField(v)]).collect()
}

fn verify_all_leaves(leaves: Vec<Vec<GoldilocksField>>, cap_height: usize) {
    let tree = MerkleTree::<Poseidon2Hash>::try_new(leaves.clone(), cap_height).unwrap();
    for (i, leaf) in leaves.into_iter().enumerate() {
        let proof = tree.prove(i);
        assert!(verify_merkle_proof_to_cap::<Poseidon2Hash>(
            leaf, i, &tree.cap, &proof
        ));
    }
}

#[test]
#[should_panic]
fn test_cap_height_too_big() {
    let log_n = 8;
    let cap_height = log_n + 1; // Should panic if `cap_height > log_n`.

    let leaves = random_data(1 << log_n, 7);
    let _ = MerkleTree::<Poseidon2Hash>::try_new(leaves, cap_height).unwrap();
}

#[test]
fn test_cap_height_eq_log2_len() {
    let log_n = 8;
    let n = 1 << log_n;
    let leaves = random_data(n, 7);

    verify_all_leaves(leaves, log_n);
}

#[test]
fn test_merkle_trees_poseidon2_g64() {
    let log_n = 12;
    let n = 1 << log_n;
    let leaves = random_data(n, 7);

    verify_all_leaves(leaves, 1);
}

#[test]
fn test_merkle_trees_monolith() {
    let log_n = 6;
    let n = 1 << log_n;
    let leaves = random_data(n, 7);
    let tree = MerkleTree::<MonolithHash>::try_new(leaves.clone(), 2).unwrap();
    for (i, leaf) in leaves.into_iter().enumerate() {
        let proof = tree.prove(i);
        assert!(verify_merkle_proof_to_cap::<MonolithHash>(
            leaf, i, &tree.cap, &proof
        ));
    }
}

// Degenerate case: a cap height equal to the full tree height hashes every
// leaf directly into the cap; every proof is empty.
#[test]
fn test_all_cap_tree() {
    let leaves = random_data(8, 7);
    let tree = MerkleTree::<Poseidon2Hash>::try_new(leaves.clone(), 3).unwrap();
    assert_eq!(tree.cap.len(), 8);
    assert_eq!(tree.digests.len(), 0);
    for i in 0..8 {
        let expected = hash_or_noop::<Poseidon2Hash>(&leaves[i]);
        assert_eq!(tree.cap.0[i].elements, expected.elements);
        let proof = tree.prove(i);
        assert_eq!(proof.len(), 0);
        assert!(verify_merkle_proof_to_cap::<Poseidon2Hash>(
            leaves[i].clone(),
            i,
            &tree.cap,
            &proof
        ));
    }
}

// Degenerate case: a single leaf with cap height zero.
#[test]
fn test_single_leaf_tree() {
    let leaves = field_rows(&[42]);
    let tree = MerkleTree::<Poseidon2Hash>::try_new(leaves.clone(), 0).unwrap();
    assert_eq!(tree.cap.len(), 1);
    assert_eq!(tree.digests.len(), 0);
    let expected = hash_or_noop::<Poseidon2Hash>(&leaves[0]);
    assert_eq!(tree.cap.0[0].elements, expected.elements);
    let proof = tree.prove(0);
    assert_eq!(proof.len(), 0);
    assert!(verify_merkle_proof_to_cap::<Poseidon2Hash>(
        leaves[0].clone(),
        0,
        &tree.cap,
        &proof
    ));
}

// Boundary rejection: a leaf count that is not a power of two, and a cap
// height above the tree height, each with its own error.
#[test]
fn test_boundary_rejection() {
    let three_rows = field_rows(&[1, 2, 3]);
    assert!(matches!(
        MerkleTree::<Poseidon2Hash>::try_new(three_rows, 0),
        Err(MerkleError::LeavesNotPowerOfTwo)
    ));

    let empty: Vec<Vec<GoldilocksField>> = Vec::new();
    assert!(matches!(
        MerkleTree::<Poseidon2Hash>::try_new(empty, 0),
        Err(MerkleError::LeavesNotPowerOfTwo)
    ));

    let four_rows = field_rows(&[0, 1, 2, 3]);
    assert!(matches!(
        MerkleTree::<Poseidon2Hash>::try_new(four_rows, 3),
        Err(MerkleError::CapHeightTooLarge)
    ));
}

// Concrete scenario: four one-element rows, cap height one. Two subtrees of
// two leaves each; the proof for leaf 2 is exactly the hash of row 3.
#[test]
fn test_four_leaves_cap_one() {
    let leaves = field_rows(&[0, 1, 2, 3]);
    let tree = MerkleTree::<Poseidon2Hash>::try_new(leaves.clone(), 1).unwrap();
    assert_eq!(tree.cap.len(), 2);

    let proof = tree.prove(2);
    assert_eq!(proof.len(), 1);
    let sibling = hash_or_noop::<Poseidon2Hash>(&leaves[3]);
    assert_eq!(proof.siblings[0].elements, sibling.elements);

    assert!(verify_merkle_proof_to_cap::<Poseidon2Hash>(
        leaves[2].clone(),
        2,
        &tree.cap,
        &proof
    ));

    let mut bad_proof = tree.prove(2);
    bad_proof.siblings[0] = hash_or_noop::<Poseidon2Hash>(&[GoldilocksField(12345)]);
    assert!(!verify_merkle_proof_to_cap::<Poseidon2Hash>(
        leaves[2].clone(),
        2,
        &tree.cap,
        &bad_proof
    ));
}

// Concrete scenario: eight rows, cap height zero. One subtree, a cap of one
// digest, three siblings per proof; a proof folded from a different leaf
// index fails.
#[test]
fn test_eight_leaves_cap_zero() {
    let leaves = random_data(8, 7);
    let tree = MerkleTree::<Poseidon2Hash>::try_new(leaves.clone(), 0).unwrap();
    assert_eq!(tree.cap.len(), 1);
    for i in 0..8 {
        let proof = tree.prove(i);
        assert_eq!(proof.len(), 3);
        assert!(verify_merkle_proof_to_cap::<Poseidon2Hash>(
            leaves[i].clone(),
            i,
            &tree.cap,
            &proof
        ));
        for j in 0..8 {
            if j != i {
                assert!(!verify_merkle_proof_to_cap::<Poseidon2Hash>(
                    leaves[i].clone(),
                    j,
                    &tree.cap,
                    &proof
                ));
            }
        }
    }
}

// Negative property: changing any single field element of a committed row
// makes verification with the original proof fail.
#[test]
fn test_mutated_leaf_rejected() {
    let leaves = random_data(16, 7);
    let tree = MerkleTree::<Poseidon2Hash>::try_new(leaves.clone(), 2).unwrap();
    for i in 0..16 {
        let proof = tree.prove(i);
        for j in 0..7 {
            let mut mutated = leaves[i].clone();
            mutated[j] = GoldilocksField(mutated[j].0.wrapping_add(1) % FIELD_ORDER);
            assert!(!verify_merkle_proof_to_cap::<Poseidon2Hash>(
                mutated, i, &tree.cap, &proof
            ));
        }
    }
}

// The accessors recover exactly the committed rows, and the cap flattens to
// four field elements per digest.
#[test]
fn test_leaf_accessors_and_flatten() {
    let leaves = random_data(4, 3);
    let tree = MerkleTree::<Poseidon2Hash>::try_new(leaves.clone(), 1).unwrap();
    assert_eq!(tree.get_leaves_count(), 4);
    for i in 0..4 {
        assert_eq!(tree.get(i), &leaves[i][..]);
    }
    assert_eq!(tree.get_leaves_2d(), leaves);
    let flat_leaves = tree.get_leaves_1d();
    assert_eq!(flat_leaves.len(), 12);
    assert_eq!(&flat_leaves[3..6], &leaves[1][..]);

    let flat_cap = tree.cap.flatten();
    assert_eq!(flat_cap.len(), 8);
    for i in 0..2 {
        for j in 0..4 {
            assert_eq!(flat_cap[4 * i + j], tree.cap.0[i].elements[j]);
        }
    }
    assert_eq!(tree.cap.height(), 1);
    assert!(!tree.cap.is_empty());
}

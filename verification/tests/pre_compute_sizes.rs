use merkle_commit::pre_compute::{get_pre_compute_size, PRE_COMPUTE_END, PRE_COMPUTE_START};

#[test]
fn test_get_pre_compute_size() {
    assert_eq!(get_pre_compute_size(10, 10), 1024);
    assert_eq!(get_pre_compute_size(10, 11), 3072);
    assert_eq!(get_pre_compute_size(14, 14), 16384);
    assert_eq!(get_pre_compute_size(10, 16), 130048);
}

#[test]
fn test_pre_compute_bounds() {
    assert_eq!(PRE_COMPUTE_START, 10);
    assert_eq!(PRE_COMPUTE_END, 18);
    // 2^(end + 1) - 2^start for the configured bounds.
    assert_eq!(
        get_pre_compute_size(PRE_COMPUTE_START, PRE_COMPUTE_END),
        (1usize << 19) - (1usize << 10)
    );
}

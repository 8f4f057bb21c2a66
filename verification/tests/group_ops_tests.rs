use indexer_read::group_ops::{
    internal_add, internal_div, internal_hash_to, internal_mul, internal_multi_scalar_mul,
    internal_pairing, internal_sub, internal_validate, Groups, INVALID_INPUT_ERROR,
    NOT_SUPPORTED_ERROR,
};

fn scalar(k: u8) -> Vec<u8> {
    let mut b = vec![0u8; 32];
    b[31] = k;
    b
}

#[test]
fn group_tags_decode() {
    assert_eq!(Groups::from_u8(0), Some(Groups::BLS12381Scalar));
    assert_eq!(Groups::from_u8(1), Some(Groups::BLS12381G1));
    assert_eq!(Groups::from_u8(2), Some(Groups::BLS12381G2));
    assert_eq!(Groups::from_u8(3), Some(Groups::BLS12381GT));
    assert_eq!(Groups::from_u8(4), None);
    assert_eq!(Groups::from_u8(255), None);
}

#[test]
fn unsupported_calls_abort_with_the_not_supported_code() {
    assert_eq!(internal_validate(false, 0, &scalar(1)), Err(NOT_SUPPORTED_ERROR));
    assert_eq!(internal_add(false, 0, &scalar(1), &scalar(2)), Err(NOT_SUPPORTED_ERROR));
    assert_eq!(internal_hash_to(false, 1, &b"m".to_vec()), Err(NOT_SUPPORTED_ERROR));
    assert_eq!(
        internal_multi_scalar_mul(false, 1, &scalar(1), &vec![0u8; 48]),
        Err(NOT_SUPPORTED_ERROR)
    );
    assert_eq!(
        internal_pairing(false, 1, &vec![0u8; 48], &vec![0u8; 96]),
        Err(NOT_SUPPORTED_ERROR)
    );
}

#[test]
fn unknown_groups_and_bad_inputs_are_invalid() {
    assert_eq!(internal_validate(true, 9, &scalar(1)), Ok(false));
    assert_eq!(internal_add(true, 9, &scalar(1), &scalar(2)), Err(INVALID_INPUT_ERROR));
    assert_eq!(internal_add(true, 0, &vec![1u8; 3], &scalar(2)), Err(INVALID_INPUT_ERROR));
    assert_eq!(internal_hash_to(true, 0, &b"m".to_vec()), Err(INVALID_INPUT_ERROR));
    assert_eq!(internal_hash_to(true, 3, &b"m".to_vec()), Err(INVALID_INPUT_ERROR));
    assert_eq!(internal_pairing(true, 2, &vec![0u8; 48], &vec![0u8; 96]), Err(INVALID_INPUT_ERROR));
}

#[test]
fn scalar_arithmetic_on_canonical_encodings() {
    assert_eq!(internal_validate(true, 0, &scalar(1)), Ok(true));
    assert_eq!(internal_validate(true, 0, &vec![0xffu8; 32]), Ok(false));
    assert_eq!(internal_validate(true, 0, &vec![0u8; 31]), Ok(false));

    assert_eq!(internal_add(true, 0, &scalar(1), &scalar(2)), Ok(scalar(3)));
    assert_eq!(internal_sub(true, 0, &scalar(5), &scalar(2)), Ok(scalar(3)));
    assert_eq!(internal_mul(true, 0, &scalar(2), &scalar(3)), Ok(scalar(6)));
    // The element encoded second is divided by the scalar encoded first.
    assert_eq!(internal_div(true, 0, &scalar(2), &scalar(6)), Ok(scalar(3)));
    // Division by zero is an invalid input.
    assert_eq!(internal_div(true, 0, &scalar(0), &scalar(6)), Err(INVALID_INPUT_ERROR));
}

#[test]
fn g1_arithmetic_through_hashed_points() {
    let h = internal_hash_to(true, 1, &b"hello".to_vec()).unwrap();
    assert_eq!(h.len(), 48);
    assert_eq!(internal_validate(true, 1, &h), Ok(true));

    let doubled = internal_add(true, 1, &h, &h).unwrap();
    assert_eq!(internal_mul(true, 1, &scalar(2), &h), Ok(doubled.clone()));
    assert_eq!(internal_div(true, 1, &scalar(2), &doubled), Ok(h.clone()));

    let zero = internal_sub(true, 1, &h, &h).unwrap();
    assert_eq!(internal_add(true, 1, &zero, &h), Ok(h.clone()));

    // One-point multi-scalar multiplication is plain multiplication.
    assert_eq!(internal_multi_scalar_mul(true, 1, &scalar(2), &h), Ok(doubled));
    assert_eq!(internal_multi_scalar_mul(true, 1, &scalar(1), &h), Ok(h));
}

#[test]
fn g2_arithmetic_through_hashed_points() {
    let h = internal_hash_to(true, 2, &b"hello".to_vec()).unwrap();
    assert_eq!(h.len(), 96);
    assert_eq!(internal_validate(true, 2, &h), Ok(true));

    let doubled = internal_add(true, 2, &h, &h).unwrap();
    assert_eq!(internal_mul(true, 2, &scalar(2), &h), Ok(doubled.clone()));
    assert_eq!(internal_multi_scalar_mul(true, 2, &scalar(2), &h), Ok(doubled));
}

#[test]
fn multi_scalar_mul_checks_input_shape() {
    let h = internal_hash_to(true, 1, &b"p".to_vec()).unwrap();
    // Counts differ: two scalars, one point.
    let mut two_scalars = scalar(1);
    two_scalars.extend_from_slice(&scalar(2));
    assert_eq!(internal_multi_scalar_mul(true, 1, &two_scalars, &h), Err(INVALID_INPUT_ERROR));
    // Ragged byte strings.
    assert_eq!(
        internal_multi_scalar_mul(true, 1, &scalar(1), &vec![0u8; 47]),
        Err(INVALID_INPUT_ERROR)
    );
    // Empty input is rejected by the underlying group library.
    assert_eq!(internal_multi_scalar_mul(true, 1, &vec![], &vec![]), Err(INVALID_INPUT_ERROR));
    // Scalars only support validation and arithmetic, not multi-scalar calls.
    assert_eq!(internal_multi_scalar_mul(true, 0, &scalar(1), &scalar(1)), Err(INVALID_INPUT_ERROR));
}

#[test]
fn pairing_of_hashed_points_is_a_valid_gt_element() {
    let a = internal_hash_to(true, 1, &b"left".to_vec()).unwrap();
    let b = internal_hash_to(true, 2, &b"right".to_vec()).unwrap();
    let gt = internal_pairing(true, 1, &a, &b).unwrap();
    assert_eq!(gt.len(), 576);
    assert_eq!(internal_validate(true, 3, &gt), Ok(true));

    // GT arithmetic closes over pairing results.
    let doubled = internal_add(true, 3, &gt, &gt).unwrap();
    assert_eq!(internal_mul(true, 3, &scalar(2), &gt), Ok(doubled.clone()));
    assert_eq!(internal_sub(true, 3, &doubled, &gt), Ok(gt.clone()));
    assert_eq!(internal_div(true, 3, &scalar(2), &doubled), Ok(gt));
}

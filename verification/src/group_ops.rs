//! Native group operations over the BLS12-381 groups: validation, the four
//! arithmetic operations, hashing to a group element, multi-scalar
//! multiplication and pairing, each dispatched on a group tag carried as a
//! byte. The element arithmetic itself is done by the fastcrypto crate; this
//! module owns the dispatch, the error codes and the input-shape checks, and
//! names each operation's result so callers' contracts are exact.
//!
//! Inputs and outputs are canonical byte encodings: 32 bytes for a scalar,
//! 48 for a G1 element, 96 for a G2 element, 576 for a GT element.

use vstd::prelude::*;
use fastcrypto::groups::bls12381 as bls;
use fastcrypto::groups::HashToGroupElement;
use fastcrypto::groups::MultiScalarMul;
use fastcrypto::groups::Pairing;
use fastcrypto::serde_helpers::ToFromByteArray;

verus! {

/// Abort code for an input that does not decode, a group that does not
/// support the operation, or a division by zero.
pub const INVALID_INPUT_ERROR: u64 = 0;

/// Abort code for a call made while the native functions are switched off.
pub const NOT_SUPPORTED_ERROR: u64 = 1;

/// The groups a request can name.
#[derive(Debug, Clone, Copy, PartialEq, Eq, Structural)]
pub enum Groups {
    BLS12381Scalar,
    BLS12381G1,
    BLS12381G2,
    BLS12381GT,
}

pub open spec fn spec_groups_from_u8(value: u8) -> Option<Groups> {
    if value == 0 {
        Some(Groups::BLS12381Scalar)
    } else if value == 1 {
        Some(Groups::BLS12381G1)
    } else if value == 2 {
        Some(Groups::BLS12381G2)
    } else if value == 3 {
        Some(Groups::BLS12381GT)
    } else {
        None
    }
}

impl Groups {
    /// Decode a group tag; tags are aligned with the on-chain modules.
    pub fn from_u8(value: u8) -> (r: Option<Groups>)
        ensures
            r == spec_groups_from_u8(value),
    {
        if value == 0 {
            Some(Groups::BLS12381Scalar)
        } else if value == 1 {
            Some(Groups::BLS12381G1)
        } else if value == 2 {
            Some(Groups::BLS12381G2)
        } else if value == 3 {
            Some(Groups::BLS12381GT)
        } else {
            None
        }
    }
}

/// The bytes behind an optional byte string.
pub open spec fn opt_bytes(r: Option<Vec<u8>>) -> Option<Seq<u8>> {
    match r {
        Some(v) => Some(v@),
        None => None,
    }
}

/// The bytes behind an operation's result.
pub open spec fn result_bytes(r: Result<Vec<u8>, u64>) -> Result<Seq<u8>, u64> {
    match r {
        Ok(v) => Ok(v@),
        Err(e) => Err(e),
    }
}

/// An optional result as an outcome: absent means invalid input.
pub open spec fn res_of(o: Option<Seq<u8>>) -> Result<Seq<u8>, u64> {
    match o {
        Some(b) => Ok(b),
        None => Err(INVALID_INPUT_ERROR),
    }
}

pub uninterp spec fn scalar_valid(b: Seq<u8>) -> bool;

pub uninterp spec fn g1_valid(b: Seq<u8>) -> bool;

pub uninterp spec fn g2_valid(b: Seq<u8>) -> bool;

pub uninterp spec fn gt_valid(b: Seq<u8>) -> bool;

pub uninterp spec fn scalar_sum_of(a: Seq<u8>, b: Seq<u8>) -> Option<Seq<u8>>;

pub uninterp spec fn scalar_diff_of(a: Seq<u8>, b: Seq<u8>) -> Option<Seq<u8>>;

pub uninterp spec fn scalar_prod_of(a: Seq<u8>, b: Seq<u8>) -> Option<Seq<u8>>;

pub uninterp spec fn scalar_quot_of(a: Seq<u8>, b: Seq<u8>) -> Option<Seq<u8>>;

pub uninterp spec fn g1_sum_of(a: Seq<u8>, b: Seq<u8>) -> Option<Seq<u8>>;

pub uninterp spec fn g1_diff_of(a: Seq<u8>, b: Seq<u8>) -> Option<Seq<u8>>;

pub uninterp spec fn g1_prod_of(scalar: Seq<u8>, element: Seq<u8>) -> Option<Seq<u8>>;

pub uninterp spec fn g1_quot_of(scalar: Seq<u8>, element: Seq<u8>) -> Option<Seq<u8>>;

pub uninterp spec fn g2_sum_of(a: Seq<u8>, b: Seq<u8>) -> Option<Seq<u8>>;

pub uninterp spec fn g2_diff_of(a: Seq<u8>, b: Seq<u8>) -> Option<Seq<u8>>;

pub uninterp spec fn g2_prod_of(scalar: Seq<u8>, element: Seq<u8>) -> Option<Seq<u8>>;

pub uninterp spec fn g2_quot_of(scalar: Seq<u8>, element: Seq<u8>) -> Option<Seq<u8>>;

pub uninterp spec fn gt_sum_of(a: Seq<u8>, b: Seq<u8>) -> Option<Seq<u8>>;

pub uninterp spec fn gt_diff_of(a: Seq<u8>, b: Seq<u8>) -> Option<Seq<u8>>;

pub uninterp spec fn gt_prod_of(scalar: Seq<u8>, element: Seq<u8>) -> Option<Seq<u8>>;

pub uninterp spec fn gt_quot_of(scalar: Seq<u8>, element: Seq<u8>) -> Option<Seq<u8>>;

pub uninterp spec fn g1_hash_of(msg: Seq<u8>) -> Seq<u8>;

pub uninterp spec fn g2_hash_of(msg: Seq<u8>) -> Seq<u8>;

pub uninterp spec fn g1_msm_of(scalars: Seq<Seq<u8>>, elements: Seq<Seq<u8>>) -> Option<Seq<u8>>;

pub uninterp spec fn g2_msm_of(scalars: Seq<Seq<u8>>, elements: Seq<Seq<u8>>) -> Option<Seq<u8>>;

pub uninterp spec fn pairing_of(e1: Seq<u8>, e2: Seq<u8>) -> Option<Seq<u8>>;

/// Relies on fastcrypto's bls12381 Scalar::from_byte_array: whether the
/// bytes are a canonical scalar encoding.
#[verifier::external_body]
fn check_scalar(b: &[u8]) -> (r: bool)
    ensures
        r == scalar_valid(b@),
{
    match <&[u8; 32]>::try_from(b) {
        Ok(a) => bls::Scalar::from_byte_array(a).is_ok(),
        Err(_) => false,
    }
}

/// Relies on fastcrypto's bls12381 G1Element::from_byte_array: whether the
/// bytes are a canonical G1 encoding.
#[verifier::external_body]
fn check_g1(b: &[u8]) -> (r: bool)
    ensures
        r == g1_valid(b@),
{
    match <&[u8; 48]>::try_from(b) {
        Ok(a) => bls::G1Element::from_byte_array(a).is_ok(),
        Err(_) => false,
    }
}

/// Relies on fastcrypto's bls12381 G2Element::from_byte_array: whether the
/// bytes are a canonical G2 encoding.
#[verifier::external_body]
fn check_g2(b: &[u8]) -> (r: bool)
    ensures
        r == g2_valid(b@),
{
    match <&[u8; 96]>::try_from(b) {
        Ok(a) => bls::G2Element::from_byte_array(a).is_ok(),
        Err(_) => false,
    }
}

/// Relies on fastcrypto's bls12381 GTElement::from_byte_array: whether the
/// bytes are a canonical GT encoding.
#[verifier::external_body]
fn check_gt(b: &[u8]) -> (r: bool)
    ensures
        r == gt_valid(b@),
{
    match <&[u8; 576]>::try_from(b) {
        Ok(a) => bls::GTElement::from_byte_array(a).is_ok(),
        Err(_) => false,
    }
}

/// Relies on fastcrypto's bls12381 Scalar addition: decode two scalars, add,
/// and return the canonical encoding; absent when a decode fails.
#[verifier::external_body]
fn scalar_add(a: &[u8], b: &[u8]) -> (r: Option<Vec<u8>>)
    ensures
        opt_bytes(r) == scalar_sum_of(a@, b@),
{
    let x = <&[u8; 32]>::try_from(a).ok()?;
    let y = <&[u8; 32]>::try_from(b).ok()?;
    let e1 = bls::Scalar::from_byte_array(x).ok()?;
    let e2 = bls::Scalar::from_byte_array(y).ok()?;
    Some((e1 + e2).to_byte_array().to_vec())
}

/// Relies on fastcrypto's bls12381 Scalar subtraction: the first scalar
/// minus the second.
#[verifier::external_body]
fn scalar_sub(a: &[u8], b: &[u8]) -> (r: Option<Vec<u8>>)
    ensures
        opt_bytes(r) == scalar_diff_of(a@, b@),
{
    let x = <&[u8; 32]>::try_from(a).ok()?;
    let y = <&[u8; 32]>::try_from(b).ok()?;
    let e1 = bls::Scalar::from_byte_array(x).ok()?;
    let e2 = bls::Scalar::from_byte_array(y).ok()?;
    Some((e1 - e2).to_byte_array().to_vec())
}

/// Relies on fastcrypto's bls12381 Scalar multiplication: the second scalar
/// times the first.
#[verifier::external_body]
fn scalar_mul(a: &[u8], b: &[u8]) -> (r: Option<Vec<u8>>)
    ensures
        opt_bytes(r) == scalar_prod_of(a@, b@),
{
    let x = <&[u8; 32]>::try_from(a).ok()?;
    let y = <&[u8; 32]>::try_from(b).ok()?;
    let e1 = bls::Scalar::from_byte_array(x).ok()?;
    let e2 = bls::Scalar::from_byte_array(y).ok()?;
    Some((e2 * e1).to_byte_array().to_vec())
}

/// Relies on fastcrypto's bls12381 Scalar division: the second scalar
/// divided by the first; absent on a zero divisor.
#[verifier::external_body]
fn scalar_div(a: &[u8], b: &[u8]) -> (r: Option<Vec<u8>>)
    ensures
        opt_bytes(r) == scalar_quot_of(a@, b@),
{
    let x = <&[u8; 32]>::try_from(a).ok()?;
    let y = <&[u8; 32]>::try_from(b).ok()?;
    let e1 = bls::Scalar::from_byte_array(x).ok()?;
    let e2 = bls::Scalar::from_byte_array(y).ok()?;
    (e2 / e1).ok().map(|e| e.to_byte_array().to_vec())
}

/// Relies on fastcrypto's bls12381 G1 addition.
#[verifier::external_body]
fn g1_add(a: &[u8], b: &[u8]) -> (r: Option<Vec<u8>>)
    ensures
        opt_bytes(r) == g1_sum_of(a@, b@),
{
    let x = <&[u8; 48]>::try_from(a).ok()?;
    let y = <&[u8; 48]>::try_from(b).ok()?;
    let e1 = bls::G1Element::from_byte_array(x).ok()?;
    let e2 = bls::G1Element::from_byte_array(y).ok()?;
    Some((e1 + e2).to_byte_array().to_vec())
}

/// Relies on fastcrypto's bls12381 G1 subtraction: the first element minus
/// the second.
#[verifier::external_body]
fn g1_sub(a: &[u8], b: &[u8]) -> (r: Option<Vec<u8>>)
    ensures
        opt_bytes(r) == g1_diff_of(a@, b@),
{
    let x = <&[u8; 48]>::try_from(a).ok()?;
    let y = <&[u8; 48]>::try_from(b).ok()?;
    let e1 = bls::G1Element::from_byte_array(x).ok()?;
    let e2 = bls::G1Element::from_byte_array(y).ok()?;
    Some((e1 - e2).to_byte_array().to_vec())
}

/// Relies on fastcrypto's bls12381 G1 scalar multiplication: the element
/// decoded from `element` times the scalar decoded from `scalar`.
#[verifier::external_body]
fn g1_mul(scalar: &[u8], element: &[u8]) -> (r: Option<Vec<u8>>)
    ensures
        opt_bytes(r) == g1_prod_of(scalar@, element@),
{
    let x = <&[u8; 32]>::try_from(scalar).ok()?;
    let y = <&[u8; 48]>::try_from(element).ok()?;
    let s = bls::Scalar::from_byte_array(x).ok()?;
    let e = bls::G1Element::from_byte_array(y).ok()?;
    Some((e * s).to_byte_array().to_vec())
}

/// Relies on fastcrypto's bls12381 G1 scalar division: the element divided
/// by the scalar; absent on a zero divisor.
#[verifier::external_body]
fn g1_div(scalar: &[u8], element: &[u8]) -> (r: Option<Vec<u8>>)
    ensures
        opt_bytes(r) == g1_quot_of(scalar@, element@),
{
    let x = <&[u8; 32]>::try_from(scalar).ok()?;
    let y = <&[u8; 48]>::try_from(element).ok()?;
    let s = bls::Scalar::from_byte_array(x).ok()?;
    let e = bls::G1Element::from_byte_array(y).ok()?;
    (e / s).ok().map(|e| e.to_byte_array().to_vec())
}

/// Relies on fastcrypto's bls12381 G2 addition.
#[verifier::external_body]
fn g2_add(a: &[u8], b: &[u8]) -> (r: Option<Vec<u8>>)
    ensures
        opt_bytes(r) == g2_sum_of(a@, b@),
{
    let x = <&[u8; 96]>::try_from(a).ok()?;
    let y = <&[u8; 96]>::try_from(b).ok()?;
    let e1 = bls::G2Element::from_byte_array(x).ok()?;
    let e2 = bls::G2Element::from_byte_array(y).ok()?;
    Some((e1 + e2).to_byte_array().to_vec())
}

/// Relies on fastcrypto's bls12381 G2 subtraction: the first element minus
/// the second.
#[verifier::external_body]
fn g2_sub(a: &[u8], b: &[u8]) -> (r: Option<Vec<u8>>)
    ensures
        opt_bytes(r) == g2_diff_of(a@, b@),
{
    let x = <&[u8; 96]>::try_from(a).ok()?;
    let y = <&[u8; 96]>::try_from(b).ok()?;
    let e1 = bls::G2Element::from_byte_array(x).ok()?;
    let e2 = bls::G2Element::from_byte_array(y).ok()?;
    Some((e1 - e2).to_byte_array().to_vec())
}

/// Relies on fastcrypto's bls12381 G2 scalar multiplication.
#[verifier::external_body]
fn g2_mul(scalar: &[u8], element: &[u8]) -> (r: Option<Vec<u8>>)
    ensures
        opt_bytes(r) == g2_prod_of(scalar@, element@),
{
    let x = <&[u8; 32]>::try_from(scalar).ok()?;
    let y = <&[u8; 96]>::try_from(element).ok()?;
    let s = bls::Scalar::from_byte_array(x).ok()?;
    let e = bls::G2Element::from_byte_array(y).ok()?;
    Some((e * s).to_byte_array().to_vec())
}

/// Relies on fastcrypto's bls12381 G2 scalar division; absent on a zero
/// divisor.
#[verifier::external_body]
fn g2_div(scalar: &[u8], element: &[u8]) -> (r: Option<Vec<u8>>)
    ensures
        opt_bytes(r) == g2_quot_of(scalar@, element@),
{
    let x = <&[u8; 32]>::try_from(scalar).ok()?;
    let y = <&[u8; 96]>::try_from(element).ok()?;
    let s = bls::Scalar::from_byte_array(x).ok()?;
    let e = bls::G2Element::from_byte_array(y).ok()?;
    (e / s).ok().map(|e| e.to_byte_array().to_vec())
}

/// Relies on fastcrypto's bls12381 GT addition.
#[verifier::external_body]
fn gt_add(a: &[u8], b: &[u8]) -> (r: Option<Vec<u8>>)
    ensures
        opt_bytes(r) == gt_sum_of(a@, b@),
{
    let x = <&[u8; 576]>::try_from(a).ok()?;
    let y = <&[u8; 576]>::try_from(b).ok()?;
    let e1 = bls::GTElement::from_byte_array(x).ok()?;
    let e2 = bls::GTElement::from_byte_array(y).ok()?;
    Some((e1 + e2).to_byte_array().to_vec())
}

/// Relies on fastcrypto's bls12381 GT subtraction: the first element minus
/// the second.
#[verifier::external_body]
fn gt_sub(a: &[u8], b: &[u8]) -> (r: Option<Vec<u8>>)
    ensures
        opt_bytes(r) == gt_diff_of(a@, b@),
{
    let x = <&[u8; 576]>::try_from(a).ok()?;
    let y = <&[u8; 576]>::try_from(b).ok()?;
    let e1 = bls::GTElement::from_byte_array(x).ok()?;
    let e2 = bls::GTElement::from_byte_array(y).ok()?;
    Some((e1 - e2).to_byte_array().to_vec())
}

/// Relies on fastcrypto's bls12381 GT scalar multiplication.
#[verifier::external_body]
fn gt_mul(scalar: &[u8], element: &[u8]) -> (r: Option<Vec<u8>>)
    ensures
        opt_bytes(r) == gt_prod_of(scalar@, element@),
{
    let x = <&[u8; 32]>::try_from(scalar).ok()?;
    let y = <&[u8; 576]>::try_from(element).ok()?;
    let s = bls::Scalar::from_byte_array(x).ok()?;
    let e = bls::GTElement::from_byte_array(y).ok()?;
    Some((e * s).to_byte_array().to_vec())
}

/// Relies on fastcrypto's bls12381 GT scalar division; absent on a zero
/// divisor.
#[verifier::external_body]
fn gt_div(scalar: &[u8], element: &[u8]) -> (r: Option<Vec<u8>>)
    ensures
        opt_bytes(r) == gt_quot_of(scalar@, element@),
{
    let x = <&[u8; 32]>::try_from(scalar).ok()?;
    let y = <&[u8; 576]>::try_from(element).ok()?;
    let s = bls::Scalar::from_byte_array(x).ok()?;
    let e = bls::GTElement::from_byte_array(y).ok()?;
    (e / s).ok().map(|e| e.to_byte_array().to_vec())
}

/// Relies on fastcrypto's bls12381 G1 hash-to-group: a function of the
/// message alone.
#[verifier::external_body]
fn g1_hash(msg: &[u8]) -> (r: Vec<u8>)
    ensures
        r@ == g1_hash_of(msg@),
{
    bls::G1Element::hash_to_group_element(msg).to_byte_array().to_vec()
}

/// Relies on fastcrypto's bls12381 G2 hash-to-group: a function of the
/// message alone.
#[verifier::external_body]
fn g2_hash(msg: &[u8]) -> (r: Vec<u8>)
    ensures
        r@ == g2_hash_of(msg@),
{
    bls::G2Element::hash_to_group_element(msg).to_byte_array().to_vec()
}

/// Relies on fastcrypto's bls12381 G1 multi-scalar multiplication: the inner
/// product of the decoded scalars and points; absent when a decode fails,
/// when the counts differ, or when both lists are empty.
#[verifier::external_body]
fn g1_msm(scalars: &Vec<Vec<u8>>, elements: &Vec<Vec<u8>>) -> (r: Option<Vec<u8>>)
    ensures
        opt_bytes(r) == g1_msm_of(scalars.deep_view(), elements.deep_view()),
{
    let f = |c: &Vec<u8>| bls::Scalar::from_byte_array(c.as_slice().try_into().ok()?).ok();
    let g = |c: &Vec<u8>| bls::G1Element::from_byte_array(c.as_slice().try_into().ok()?).ok();
    let s: Option<Vec<bls::Scalar>> = scalars.iter().map(f).collect();
    let p: Option<Vec<bls::G1Element>> = elements.iter().map(g).collect();
    bls::G1Element::multi_scalar_mul(&s?, &p?).ok().map(|e| e.to_byte_array().to_vec())
}

/// Relies on fastcrypto's bls12381 G2 multi-scalar multiplication: the inner
/// product of the decoded scalars and points; absent when a decode fails,
/// when the counts differ, or when both lists are empty.
#[verifier::external_body]
fn g2_msm(scalars: &Vec<Vec<u8>>, elements: &Vec<Vec<u8>>) -> (r: Option<Vec<u8>>)
    ensures
        opt_bytes(r) == g2_msm_of(scalars.deep_view(), elements.deep_view()),
{
    let f = |c: &Vec<u8>| bls::Scalar::from_byte_array(c.as_slice().try_into().ok()?).ok();
    let g = |c: &Vec<u8>| bls::G2Element::from_byte_array(c.as_slice().try_into().ok()?).ok();
    let s: Option<Vec<bls::Scalar>> = scalars.iter().map(f).collect();
    let p: Option<Vec<bls::G2Element>> = elements.iter().map(g).collect();
    bls::G2Element::multi_scalar_mul(&s?, &p?).ok().map(|e| e.to_byte_array().to_vec())
}

/// Relies on fastcrypto's bls12381 pairing of a G1 and a G2 element; absent
/// when a decode fails.
#[verifier::external_body]
fn g1_g2_pairing(e1: &[u8], e2: &[u8]) -> (r: Option<Vec<u8>>)
    ensures
        opt_bytes(r) == pairing_of(e1@, e2@),
{
    let x = <&[u8; 48]>::try_from(e1).ok()?;
    let y = <&[u8; 96]>::try_from(e2).ok()?;
    let a = bls::G1Element::from_byte_array(x).ok()?;
    let b = bls::G2Element::from_byte_array(y).ok()?;
    Some(a.pairing(&b).to_byte_array().to_vec())
}

/// What validation answers: whether the bytes are a canonical encoding in
/// the named group; an unknown group tag validates nothing.
pub open spec fn spec_internal_validate(supported: bool, group_type: u8, bytes: Seq<u8>) -> Result<
    bool,
    u64,
> {
    if !supported {
        Err(NOT_SUPPORTED_ERROR)
    } else {
        Ok(
            match spec_groups_from_u8(group_type) {
                Some(Groups::BLS12381Scalar) => scalar_valid(bytes),
                Some(Groups::BLS12381G1) => g1_valid(bytes),
                Some(Groups::BLS12381G2) => g2_valid(bytes),
                Some(Groups::BLS12381GT) => gt_valid(bytes),
                None => false,
            },
        )
    }
}

/// Validate one encoded element against the named group.
pub fn internal_validate(supported: bool, group_type: u8, bytes: &Vec<u8>) -> (r: Result<bool, u64>)
    ensures
        r == spec_internal_validate(supported, group_type, bytes@),
{
    if !supported {
        return Err(NOT_SUPPORTED_ERROR);
    }
    let result = match Groups::from_u8(group_type) {
        Some(Groups::BLS12381Scalar) => check_scalar(bytes.as_slice()),
        Some(Groups::BLS12381G1) => check_g1(bytes.as_slice()),
        Some(Groups::BLS12381G2) => check_g2(bytes.as_slice()),
        Some(Groups::BLS12381GT) => check_gt(bytes.as_slice()),
        None => false,
    };
    Ok(result)
}

pub open spec fn spec_internal_add(supported: bool, group_type: u8, e1: Seq<u8>, e2: Seq<u8>) -> Result<
    Seq<u8>,
    u64,
> {
    if !supported {
        Err(NOT_SUPPORTED_ERROR)
    } else {
        match spec_groups_from_u8(group_type) {
            Some(Groups::BLS12381Scalar) => res_of(scalar_sum_of(e1, e2)),
            Some(Groups::BLS12381G1) => res_of(g1_sum_of(e1, e2)),
            Some(Groups::BLS12381G2) => res_of(g2_sum_of(e1, e2)),
            Some(Groups::BLS12381GT) => res_of(gt_sum_of(e1, e2)),
            None => Err(INVALID_INPUT_ERROR),
        }
    }
}

/// Add two encoded elements of the named group.
pub fn internal_add(supported: bool, group_type: u8, e1: &Vec<u8>, e2: &Vec<u8>) -> (r: Result<
    Vec<u8>,
    u64,
>)
    ensures
        result_bytes(r) == spec_internal_add(supported, group_type, e1@, e2@),
{
    if !supported {
        return Err(NOT_SUPPORTED_ERROR);
    }
    let result = match Groups::from_u8(group_type) {
        Some(Groups::BLS12381Scalar) => scalar_add(e1.as_slice(), e2.as_slice()),
        Some(Groups::BLS12381G1) => g1_add(e1.as_slice(), e2.as_slice()),
        Some(Groups::BLS12381G2) => g2_add(e1.as_slice(), e2.as_slice()),
        Some(Groups::BLS12381GT) => gt_add(e1.as_slice(), e2.as_slice()),
        None => None,
    };
    match result {
        Some(bytes) => Ok(bytes),
        None => Err(INVALID_INPUT_ERROR),
    }
}

pub open spec fn spec_internal_sub(supported: bool, group_type: u8, e1: Seq<u8>, e2: Seq<u8>) -> Result<
    Seq<u8>,
    u64,
> {
    if !supported {
        Err(NOT_SUPPORTED_ERROR)
    } else {
        match spec_groups_from_u8(group_type) {
            Some(Groups::BLS12381Scalar) => res_of(scalar_diff_of(e1, e2)),
            Some(Groups::BLS12381G1) => res_of(g1_diff_of(e1, e2)),
            Some(Groups::BLS12381G2) => res_of(g2_diff_of(e1, e2)),
            Some(Groups::BLS12381GT) => res_of(gt_diff_of(e1, e2)),
            None => Err(INVALID_INPUT_ERROR),
        }
    }
}

/// Subtract the second encoded element from the first.
pub fn internal_sub(supported: bool, group_type: u8, e1: &Vec<u8>, e2: &Vec<u8>) -> (r: Result<
    Vec<u8>,
    u64,
>)
    ensures
        result_bytes(r) == spec_internal_sub(supported, group_type, e1@, e2@),
{
    if !supported {
        return Err(NOT_SUPPORTED_ERROR);
    }
    let result = match Groups::from_u8(group_type) {
        Some(Groups::BLS12381Scalar) => scalar_sub(e1.as_slice(), e2.as_slice()),
        Some(Groups::BLS12381G1) => g1_sub(e1.as_slice(), e2.as_slice()),
        Some(Groups::BLS12381G2) => g2_sub(e1.as_slice(), e2.as_slice()),
        Some(Groups::BLS12381GT) => gt_sub(e1.as_slice(), e2.as_slice()),
        None => None,
    };
    match result {
        Some(bytes) => Ok(bytes),
        None => Err(INVALID_INPUT_ERROR),
    }
}

pub open spec fn spec_internal_mul(supported: bool, group_type: u8, e1: Seq<u8>, e2: Seq<u8>) -> Result<
    Seq<u8>,
    u64,
> {
    if !supported {
        Err(NOT_SUPPORTED_ERROR)
    } else {
        match spec_groups_from_u8(group_type) {
            Some(Groups::BLS12381Scalar) => res_of(scalar_prod_of(e1, e2)),
            Some(Groups::BLS12381G1) => res_of(g1_prod_of(e1, e2)),
            Some(Groups::BLS12381G2) => res_of(g2_prod_of(e1, e2)),
            Some(Groups::BLS12381GT) => res_of(gt_prod_of(e1, e2)),
            None => Err(INVALID_INPUT_ERROR),
        }
    }
}

/// Multiply: the first argument encodes the scalar, the second the element
/// (both are scalars in the scalar group).
pub fn internal_mul(supported: bool, group_type: u8, e1: &Vec<u8>, e2: &Vec<u8>) -> (r: Result<
    Vec<u8>,
    u64,
>)
    ensures
        result_bytes(r) == spec_internal_mul(supported, group_type, e1@, e2@),
{
    if !supported {
        return Err(NOT_SUPPORTED_ERROR);
    }
    let result = match Groups::from_u8(group_type) {
        Some(Groups::BLS12381Scalar) => scalar_mul(e1.as_slice(), e2.as_slice()),
        Some(Groups::BLS12381G1) => g1_mul(e1.as_slice(), e2.as_slice()),
        Some(Groups::BLS12381G2) => g2_mul(e1.as_slice(), e2.as_slice()),
        Some(Groups::BLS12381GT) => gt_mul(e1.as_slice(), e2.as_slice()),
        None => None,
    };
    match result {
        Some(bytes) => Ok(bytes),
        None => Err(INVALID_INPUT_ERROR),
    }
}

pub open spec fn spec_internal_div(supported: bool, group_type: u8, e1: Seq<u8>, e2: Seq<u8>) -> Result<
    Seq<u8>,
    u64,
> {
    if !supported {
        Err(NOT_SUPPORTED_ERROR)
    } else {
        match spec_groups_from_u8(group_type) {
            Some(Groups::BLS12381Scalar) => res_of(scalar_quot_of(e1, e2)),
            Some(Groups::BLS12381G1) => res_of(g1_quot_of(e1, e2)),
            Some(Groups::BLS12381G2) => res_of(g2_quot_of(e1, e2)),
            Some(Groups::BLS12381GT) => res_of(gt_quot_of(e1, e2)),
            None => Err(INVALID_INPUT_ERROR),
        }
    }
}

/// Divide the element encoded second by the scalar encoded first; a zero
/// divisor is an invalid input.
pub fn internal_div(supported: bool, group_type: u8, e1: &Vec<u8>, e2: &Vec<u8>) -> (r: Result<
    Vec<u8>,
    u64,
>)
    ensures
        result_bytes(r) == spec_internal_div(supported, group_type, e1@, e2@),
{
    if !supported {
        return Err(NOT_SUPPORTED_ERROR);
    }
    let result = match Groups::from_u8(group_type) {
        Some(Groups::BLS12381Scalar) => scalar_div(e1.as_slice(), e2.as_slice()),
        Some(Groups::BLS12381G1) => g1_div(e1.as_slice(), e2.as_slice()),
        Some(Groups::BLS12381G2) => g2_div(e1.as_slice(), e2.as_slice()),
        Some(Groups::BLS12381GT) => gt_div(e1.as_slice(), e2.as_slice()),
        None => None,
    };
    match result {
        Some(bytes) => Ok(bytes),
        None => Err(INVALID_INPUT_ERROR),
    }
}

pub open spec fn spec_internal_hash_to(supported: bool, group_type: u8, msg: Seq<u8>) -> Result<
    Seq<u8>,
    u64,
> {
    if !supported {
        Err(NOT_SUPPORTED_ERROR)
    } else {
        match spec_groups_from_u8(group_type) {
            Some(Groups::BLS12381G1) => Ok(g1_hash_of(msg)),
            Some(Groups::BLS12381G2) => Ok(g2_hash_of(msg)),
            _ => Err(INVALID_INPUT_ERROR),
        }
    }
}

/// Hash a message to an element of G1 or G2; the other groups support no
/// hashing.
pub fn internal_hash_to(supported: bool, group_type: u8, msg: &Vec<u8>) -> (r: Result<Vec<u8>, u64>)
    ensures
        result_bytes(r) == spec_internal_hash_to(supported, group_type, msg@),
{
    if !supported {
        return Err(NOT_SUPPORTED_ERROR);
    }
    match Groups::from_u8(group_type) {
        Some(Groups::BLS12381G1) => Ok(g1_hash(msg.as_slice())),
        Some(Groups::BLS12381G2) => Ok(g2_hash(msg.as_slice())),
        _ => Err(INVALID_INPUT_ERROR),
    }
}

/// The byte string cut into chunks of `size`, a final shorter chunk kept.
pub open spec fn spec_chunks(s: Seq<u8>, size: int) -> Seq<Seq<u8>>
    decreases s.len(),
{
    if size <= 0 || s.len() == 0 {
        Seq::empty()
    } else {
        let k = if s.len() < size {
            s.len() as int
        } else {
            size
        };
        seq![s.take(k)] + spec_chunks(s.skip(k), size)
    }
}

fn subvec(v: &Vec<u8>, from: usize, to: usize) -> (r: Vec<u8>)
    requires
        from <= to <= v@.len(),
    ensures
        r@ == v@.subrange(from as int, to as int),
{
    let mut r: Vec<u8> = Vec::new();
    let mut i: usize = from;
    while i < to
        invariant
            from <= i <= to <= v@.len(),
            r@ == v@.subrange(from as int, i as int),
        decreases to - i,
    {
        proof {
            assert(v@.subrange(from as int, i + 1) =~= v@.subrange(from as int, i as int).push(
                v@[i as int],
            ));
        }
        r.push(v[i]);
        i = i + 1;
    }
    r
}

fn chunks_of(v: &Vec<u8>, size: usize) -> (r: Vec<Vec<u8>>)
    requires
        size > 0,
    ensures
        r.deep_view() == spec_chunks(v@, size as int),
{
    let mut r: Vec<Vec<u8>> = Vec::new();
    proof {
        assert(v@.skip(0) =~= v@);
        assert(r.deep_view() =~= Seq::<Seq<u8>>::empty());
        assert(Seq::<Seq<u8>>::empty() + spec_chunks(v@, size as int) =~= spec_chunks(
            v@,
            size as int,
        ));
    }
    let mut pos: usize = 0;
    while pos < v.len()
        invariant
            pos <= v@.len(),
            size > 0,
            spec_chunks(v@, size as int) == r.deep_view() + spec_chunks(
                v@.skip(pos as int),
                size as int,
            ),
        decreases v@.len() - pos,
    {
        let k = if v.len() - pos < size {
            v.len() - pos
        } else {
            size
        };
        let chunk = subvec(v, pos, pos + k);
        let ghost before = r.deep_view();
        r.push(chunk);
        proof {
            let rest = v@.skip(pos as int);
            assert(rest.take(k as int) =~= v@.subrange(pos as int, (pos + k) as int));
            assert(rest.skip(k as int) =~= v@.skip((pos + k) as int));
            assert(r.deep_view() =~~= before.push(chunk@));
            assert(before.push(chunk@) + spec_chunks(v@.skip((pos + k) as int), size as int)
                =~= before + (seq![chunk@] + spec_chunks(v@.skip((pos + k) as int), size as int)));
        }
        pos = pos + k;
    }
    proof {
        assert(v@.skip(v@.len() as int) =~= Seq::<u8>::empty());
    }
    r
}

pub open spec fn spec_internal_multi_scalar_mul(
    supported: bool,
    group_type: u8,
    scalars: Seq<u8>,
    elements: Seq<u8>,
) -> Result<Seq<u8>, u64> {
    if !supported {
        Err(NOT_SUPPORTED_ERROR)
    } else {
        match spec_groups_from_u8(group_type) {
            Some(Groups::BLS12381G1) => if elements.len() % 48 != 0 || scalars.len() % 32 != 0
                || elements.len() / 48 != scalars.len() / 32 {
                Err(INVALID_INPUT_ERROR)
            } else {
                res_of(g1_msm_of(spec_chunks(scalars, 32), spec_chunks(elements, 48)))
            },
            Some(Groups::BLS12381G2) => if elements.len() % 96 != 0 || scalars.len() % 32 != 0
                || elements.len() / 96 != scalars.len() / 32 {
                Err(INVALID_INPUT_ERROR)
            } else {
                res_of(g2_msm_of(spec_chunks(scalars, 32), spec_chunks(elements, 96)))
            },
            _ => Err(INVALID_INPUT_ERROR),
        }
    }
}

/// Multi-scalar multiplication in G1 or G2: the byte strings must cut evenly
/// into equally many scalars and elements.
pub fn internal_multi_scalar_mul(
    supported: bool,
    group_type: u8,
    scalars: &Vec<u8>,
    elements: &Vec<u8>,
) -> (r: Result<Vec<u8>, u64>)
    ensures
        result_bytes(r) == spec_internal_multi_scalar_mul(supported, group_type, scalars@, elements@),
{
    if !supported {
        return Err(NOT_SUPPORTED_ERROR);
    }
    let result = match Groups::from_u8(group_type) {
        Some(Groups::BLS12381G1) => {
            if elements.len() % 48 != 0 || scalars.len() % 32 != 0 || elements.len() / 48
                != scalars.len() / 32 {
                return Err(INVALID_INPUT_ERROR);
            }
            let s = chunks_of(scalars, 32);
            let p = chunks_of(elements, 48);
            g1_msm(&s, &p)
        },
        Some(Groups::BLS12381G2) => {
            if elements.len() % 96 != 0 || scalars.len() % 32 != 0 || elements.len() / 96
                != scalars.len() / 32 {
                return Err(INVALID_INPUT_ERROR);
            }
            let s = chunks_of(scalars, 32);
            let p = chunks_of(elements, 96);
            g2_msm(&s, &p)
        },
        _ => {
            return Err(INVALID_INPUT_ERROR);
        },
    };
    match result {
        Some(bytes) => Ok(bytes),
        None => Err(INVALID_INPUT_ERROR),
    }
}

pub open spec fn spec_internal_pairing(supported: bool, group_type: u8, e1: Seq<u8>, e2: Seq<u8>) -> Result<
    Seq<u8>,
    u64,
> {
    if !supported {
        Err(NOT_SUPPORTED_ERROR)
    } else {
        match spec_groups_from_u8(group_type) {
            Some(Groups::BLS12381G1) => res_of(pairing_of(e1, e2)),
            _ => Err(INVALID_INPUT_ERROR),
        }
    }
}

/// Pair a G1 element with a G2 element; only the G1 tag names a pairing.
pub fn internal_pairing(supported: bool, group_type: u8, e1: &Vec<u8>, e2: &Vec<u8>) -> (r: Result<
    Vec<u8>,
    u64,
>)
    ensures
        result_bytes(r) == spec_internal_pairing(supported, group_type, e1@, e2@),
{
    if !supported {
        return Err(NOT_SUPPORTED_ERROR);
    }
    match Groups::from_u8(group_type) {
        Some(Groups::BLS12381G1) => match g1_g2_pairing(e1.as_slice(), e2.as_slice()) {
            Some(bytes) => Ok(bytes),
            None => Err(INVALID_INPUT_ERROR),
        },
        _ => Err(INVALID_INPUT_ERROR),
    }
}

} // verus!

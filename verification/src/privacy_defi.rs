//! Pedersen commitments over Ristretto255: the checks a privacy-preserving
//! token makes on the points the host's curve operations answer.

use vstd::prelude::*;
use crate::bytes::bytes_eq;

verus! {

/// `create_commitment`: with both generators valid points, the host's
/// multi-scalar product of the value and blinding with them is the
/// commitment, when it is a valid point; else 1.
pub fn create_commitment(generators_valid: bool, commitment: &[u8; 32], commitment_valid: bool) -> (r: Result<[u8; 32], u64>)
    ensures
        r == if generators_valid && commitment_valid { Ok::<[u8; 32], u64>(*commitment) } else { Err(1) },
{
    if !generators_valid {
        return Err(1);
    }
    if !commitment_valid {
        return Err(1);
    }
    Ok(*commitment)
}

/// Checking that `claimed` is the host's sum of two commitments, all three
/// valid points: 0 when so, else 1.
pub fn verify_commitment_sum(all_valid: bool, computed: &[u8; 32], claimed: &[u8; 32]) -> (r: u64)
    ensures
        r == if all_valid && computed@ == claimed@ { 0u64 } else { 1u64 },
{
    if !all_valid {
        return 1;
    }
    if bytes_eq(computed.as_slice(), claimed.as_slice()) {
        0
    } else {
        1
    }
}

/// `verify_homomorphic_addition`: the sum commitment is the sum of the two.
pub fn verify_homomorphic_addition(all_valid: bool, computed_sum: &[u8; 32], sum_commitment: &[u8; 32]) -> (r: u64)
    ensures
        r == if all_valid && computed_sum@ == sum_commitment@ { 0u64 } else { 1u64 },
{
    verify_commitment_sum(all_valid, computed_sum, sum_commitment)
}

/// `verify_confidential_transfer`: the old balance commitment is the new
/// one plus the transferred one.
pub fn verify_confidential_transfer(all_valid: bool, computed_old: &[u8; 32], old_balance_commit: &[u8; 32]) -> (r: u64)
    ensures
        r == if all_valid && computed_old@ == old_balance_commit@ { 0u64 } else { 1u64 },
{
    verify_commitment_sum(all_valid, computed_old, old_balance_commit)
}

/// The host validates a point by writing 1.
pub fn validate_ristretto_point(result: u8) -> (r: bool)
    ensures
        r == (result == 1),
{
    result == 1
}

} // verus!

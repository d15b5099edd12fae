//! The test caller: invokes the test callee with an amount, checks that
//! the callee doubled it, and records the compute units the invocation
//! used.

use vstd::prelude::*;
use crate::bytes::{le_bytes, read_u64_at, u64_le};
use crate::storage::Storage;
use crate::cells::write_u64;
use crate::cpi::{CpiError, TEST_AMOUNT, key_last_cpi_compute_used_vec, test_caller_outcome};

verus! {

/// The contract the test caller invokes.
pub open spec fn callee() -> Seq<u8> {
    Seq::new(32, |i: int| 0xBBu8)
}

/// The caller's instruction: invoke [`callee`] with the test amount (8
/// bytes); the host meters compute units around the invocation, and the
/// answer goes to [`on_return`].
pub fn entrypoint() -> (r: ([u8; 32], Vec<u8>))
    ensures
        r.0@ == callee(),
        r.1@ == le_bytes(TEST_AMOUNT as nat, 8),
{
    let a = [0xBBu8; 32];
    assert(a@ =~= callee());
    (a, u64_le(TEST_AMOUNT))
}

/// The second step, with what the host answered and its compute meter
/// before and after the invocation.
pub fn on_return(st: &mut Storage, invoked: bool, return_data: &[u8], compute_before: u64, compute_after: u64) -> (r: Result<(), CpiError>)
    ensures
        (r, final(st)@) == test_caller_outcome(old(st)@, invoked, return_data@, compute_before, compute_after),
{
    if !invoked {
        return Err(CpiError::InvokeFailed);
    }
    let used = compute_before.saturating_sub(compute_after);
    if return_data.len() < 8 {
        return Err(CpiError::InvalidReturnData);
    }
    let result = read_u64_at(return_data, 0);
    if result != TEST_AMOUNT * 2 {
        return Err(CpiError::InvalidReturnData);
    }
    write_u64(st, key_last_cpi_compute_used_vec().as_slice(), used);
    Ok(())
}

} // verus!

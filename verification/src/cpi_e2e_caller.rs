//! The end-to-end caller: stores three numbers, invokes the end-to-end
//! callee, and checks that it answered their sum and the host's hash of
//! that sum.

use vstd::prelude::*;
use crate::bytes::{le_bytes, bytes_eq, read_u64_at, copy_range};
use crate::storage::Storage;
use crate::cells::write_u64;
use crate::cpi::{CpiError, E2E_SUM, key_input_num1, key_input_num1_vec, key_input_num2, key_input_num2_vec, key_input_num3, key_input_num3_vec, e2e_caller_result};

verus! {

/// The contract the end-to-end caller invokes.
pub open spec fn callee() -> Seq<u8> {
    Seq::new(32, |i: int| 0xBBu8)
}

/// The caller's instruction: its three inputs are stored, then [`callee`]
/// is to be invoked with no data; the answer goes to [`on_return`].
pub fn entrypoint(st: &mut Storage) -> (r: ([u8; 32], Vec<u8>))
    ensures
        r.0@ == callee(),
        r.1@ == Seq::<u8>::empty(),
        final(st)@ == old(st)@.insert(key_input_num1(), le_bytes(100, 8)).insert(key_input_num2(), le_bytes(200, 8)).insert(
            key_input_num3(),
            le_bytes(300, 8),
        ),
{
    write_u64(st, key_input_num1_vec().as_slice(), 100);
    write_u64(st, key_input_num2_vec().as_slice(), 200);
    write_u64(st, key_input_num3_vec().as_slice(), 300);
    let a = [0xBBu8; 32];
    assert(a@ =~= callee());
    (a, Vec::new())
}

/// The second step, with what the host answered: the invocation succeeded
/// and the callee answered the expected sum followed by `expected_hash`,
/// the host's hash of that sum.
pub fn on_return(invoked: bool, return_data: &[u8], expected_hash: &[u8; 32]) -> (r: Result<(), CpiError>)
    ensures
        r == e2e_caller_result(invoked, return_data@, expected_hash@),
{
    if !invoked {
        return Err(CpiError::InvokeFailed);
    }
    if return_data.len() != 40 {
        return Err(CpiError::InvalidReturnData);
    }
    let sum = read_u64_at(return_data, 0);
    if sum != E2E_SUM {
        return Err(CpiError::InvalidReturnData);
    }
    let hash = crate::bytes::copy_range(return_data, 8, 32);
    if !bytes_eq(hash.as_slice(), expected_hash.as_slice()) {
        return Err(CpiError::InvalidReturnData);
    }
    Ok(())
}

} // verus!

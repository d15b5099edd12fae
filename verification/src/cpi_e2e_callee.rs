//! The end-to-end callee: sums the three inputs its caller stored, and
//! answers the sum with the host's hash of it.

use vstd::prelude::*;
use crate::bytes::{le_bytes, append_bytes, u64_le};
use crate::storage::Storage;
use crate::cells::{read_u64, write_u64};
use crate::cpi::{CpiError, e2e_inputs, saturated_sum, key_input_num1_vec, key_input_num2_vec, key_input_num3_vec, key_result_sum, key_result_sum_vec, key_result_hash, key_result_hash_vec};

verus! {

/// The callee's first step: the saturating sum of its three stored inputs;
/// the host then hashes its 8 bytes for [`finish`].
pub fn entrypoint(st: &Storage) -> (r: Result<u64, CpiError>)
    ensures
        match e2e_inputs(st@) {
            Some((a, b, c)) => r == Ok::<u64, CpiError>(saturated_sum(a, b, c)),
            None => r == Err::<u64, CpiError>(CpiError::MissingInput),
        },
{
    let num1 = match read_u64(st, key_input_num1_vec().as_slice()) {
        Some(v) => v,
        None => return Err(CpiError::MissingInput),
    };
    let num2 = match read_u64(st, key_input_num2_vec().as_slice()) {
        Some(v) => v,
        None => return Err(CpiError::MissingInput),
    };
    let num3 = match read_u64(st, key_input_num3_vec().as_slice()) {
        Some(v) => v,
        None => return Err(CpiError::MissingInput),
    };
    Ok(num1.saturating_add(num2).saturating_add(num3))
}

/// The end-to-end callee's second step, with the host's hash of the sum:
/// both are stored, and the sum followed by the hash is the return data.
pub fn finish(st: &mut Storage, sum: u64, hash: &[u8; 32]) -> (r: Vec<u8>)
    ensures
        r@ == le_bytes(sum as nat, 8) + hash@,
        final(st)@ == old(st)@.insert(key_result_sum(), le_bytes(sum as nat, 8)).insert(key_result_hash(), hash@),
{
    write_u64(st, key_result_sum_vec().as_slice(), sum);
    st.write(key_result_hash_vec().as_slice(), hash.as_slice());
    let mut data = u64_le(sum);
    append_bytes(&mut data, hash.as_slice());
    data
}

} // verus!

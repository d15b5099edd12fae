//! The test callee: counts its invocations, doubles its default amount,
//! and answers both with the compute units it used.

use vstd::prelude::*;
use crate::bytes::{le_bytes, append_bytes, u64_le};
use crate::storage::Storage;
use crate::cells::write_u64;
use crate::cpi::{TEST_AMOUNT, key_invocation_counter, key_invocation_counter_vec, key_last_result, key_last_result_vec, stored, bumped, read_stored, test_callee_data};

verus! {

/// The test callee: counts its invocation, stores twice its default amount
/// as its last result, and answers both with the compute units it used,
/// from the host's meter before and after (saturating at zero).
pub fn entrypoint(st: &mut Storage, compute_start: u64, compute_end: u64) -> (r: Vec<u8>)
    ensures
        ({
            let count = bumped(stored(old(st)@, key_invocation_counter()));
            let used = if compute_start < compute_end { 0 } else { (compute_start - compute_end) as u64 };
            &&& r@ == test_callee_data((2 * TEST_AMOUNT) as u64, count, used)
            &&& final(st)@ == old(st)@.insert(key_invocation_counter(), le_bytes(count as nat, 8)).insert(
                key_last_result(),
                le_bytes((2 * TEST_AMOUNT) as nat, 8),
            )
        }),
{
    let current = read_stored(st, key_invocation_counter_vec().as_slice());
    let new_count = current.saturating_add(1);
    let result = TEST_AMOUNT * 2;
    write_u64(st, key_invocation_counter_vec().as_slice(), new_count);
    write_u64(st, key_last_result_vec().as_slice(), result);
    let used = compute_start.saturating_sub(compute_end);
    let mut data = u64_le(result);
    append_bytes(&mut data, u64_le(new_count).as_slice());
    append_bytes(&mut data, u64_le(used).as_slice());
    data
}

} // verus!

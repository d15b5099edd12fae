//! The counting callee: each invocation counts one more and answers the
//! new count.

use vstd::prelude::*;
use crate::bytes::{le_bytes, u64_le};
use crate::storage::Storage;
use crate::cpi::{key_cpi_counter, key_cpi_counter_vec, stored, bumped, read_stored};

verus! {

/// The callee's instruction: its counter grows by one (saturating) and the
/// new count is its return data.
pub fn entrypoint(st: &mut Storage) -> (r: Vec<u8>)
    ensures
        r@ == le_bytes(bumped(stored(old(st)@, key_cpi_counter())) as nat, 8),
        final(st)@ == old(st)@.insert(key_cpi_counter(), r@),
{
    let current = read_stored(st, key_cpi_counter_vec().as_slice());
    let value = u64_le(current.saturating_add(1));
    st.write(key_cpi_counter_vec().as_slice(), value.as_slice());
    value
}

} // verus!

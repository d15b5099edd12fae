//! The implementation behind the proxy: its instruction runs on the
//! proxy's storage (the host delegates the call), counting up the
//! proxy's counter.

use vstd::prelude::*;
use crate::bytes::{le_bytes, u64_le};
use crate::storage::Storage;
use crate::cells::lemma_u64_cell_roundtrip;
use crate::stablecoin::StorageMap;
use crate::proxy::{counter, key_counter, read_counter, write_counter};

verus! {

/// The implementation's instruction, run on the proxy's storage: the
/// counter grows by one (saturating), and its new value is answered.
pub open spec fn incremented(m: StorageMap) -> u64 {
    if counter(m) == u64::MAX {
        u64::MAX
    } else {
        (counter(m) + 1) as u64
    }
}

pub fn entrypoint(st: &mut Storage) -> (r: (u64, Vec<u8>))
    ensures
        r.0 == 0,
        r.1@ == le_bytes(incremented(old(st)@) as nat, 8),
        final(st)@ == old(st)@.insert(key_counter(), le_bytes(incremented(old(st)@) as nat, 8)),
{
    let current = read_counter(st);
    let new_value = current.saturating_add(1);
    write_counter(st, new_value);
    (0, u64_le(new_value))
}

/// The delegated increment, run on the proxy's storage, counts up by one
/// and answers the new count.
pub proof fn law_increment_counts(m: StorageMap)
    requires
        counter(m) < u64::MAX,
    ensures
        counter(m.insert(key_counter(), le_bytes(incremented(m) as nat, 8))) == counter(m) + 1,
{
    lemma_u64_cell_roundtrip(incremented(m));
}

} // verus!

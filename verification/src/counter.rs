//! A counter that counts its own invocations: every call adds one to the
//! stored count (saturating).

use vstd::prelude::*;
use crate::bytes::le_bytes;
use crate::storage::Storage;
use crate::cells::{u64_cell, read_u64, write_u64, lemma_u64_cell_roundtrip};
use crate::stablecoin::StorageMap;

verus! {

pub const SUCCESS: u64 = 0;

/// `count`
pub open spec fn key_count() -> Seq<u8> {
    seq![0x63u8, 0x6fu8, 0x75u8, 0x6eu8, 0x74u8]
}

fn key_count_vec() -> (r: Vec<u8>)
    ensures
        r@ == key_count(),
{
    let v = vec![0x63u8, 0x6fu8, 0x75u8, 0x6eu8, 0x74u8];
    assert(v@ =~= key_count());
    v
}

/// The count: 0 until 8 bytes are stored.
pub open spec fn count(m: StorageMap) -> u64 {
    match u64_cell(m.get(key_count())) {
        Some(v) => v,
        None => 0,
    }
}

/// The count after one more call.
pub open spec fn next_count(m: StorageMap) -> u64 {
    if count(m) == u64::MAX {
        u64::MAX
    } else {
        (count(m) + 1) as u64
    }
}

pub fn entrypoint(st: &mut Storage) -> (r: u64)
    ensures
        r == SUCCESS,
        final(st)@ == old(st)@.insert(key_count(), le_bytes(next_count(old(st)@) as nat, 8)),
{
    let current = match read_u64(st, key_count_vec().as_slice()) {
        Some(v) => v,
        None => 0,
    };
    write_u64(st, key_count_vec().as_slice(), current.saturating_add(1));
    SUCCESS
}

/// Each call counts exactly one more, until the count saturates.
pub proof fn law_counts_calls(m: StorageMap)
    ensures
        count(m.insert(key_count(), le_bytes(next_count(m) as nat, 8))) == next_count(m),
        count(m) < u64::MAX ==> next_count(m) == count(m) + 1,
{
    lemma_u64_cell_roundtrip(next_count(m));
}

} // verus!

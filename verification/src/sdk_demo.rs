//! The SDK demo contract: it checks that the sender holds a balance and
//! counts its calls.

use vstd::prelude::*;
use crate::bytes::le_bytes;
use crate::storage::Storage;
use crate::cells::{u64_cell, read_u64, write_u64};
use crate::stablecoin::StorageMap;

verus! {

/// The refusal of a sender without balance.
pub const ERR_INVALID_AMOUNT: u64 = 1001;

/// `counter`
pub open spec fn key_demo_counter() -> Seq<u8> {
    seq![0x63u8, 0x6fu8, 0x75u8, 0x6eu8, 0x74u8, 0x65u8, 0x72u8]
}

/// The count of calls: 0 until 8 bytes are stored.
pub open spec fn demo_counter(m: StorageMap) -> u64 {
    match u64_cell(m.get(key_demo_counter())) {
        Some(v) => v,
        None => 0,
    }
}

/// The demo's instruction: a sender without balance is refused; otherwise
/// the counter grows by one (saturating).
pub fn process_instruction(st: &mut Storage, sender_balance: u64) -> (r: Result<(), u64>)
    ensures
        sender_balance == 0 ==> r == Err::<(), u64>(ERR_INVALID_AMOUNT) && final(st)@ == old(st)@,
        sender_balance > 0 ==> r == Ok::<(), u64>(()) && final(st)@ == old(st)@.insert(
            key_demo_counter(),
            le_bytes((if demo_counter(old(st)@) == u64::MAX { u64::MAX as int } else { demo_counter(old(st)@) + 1 }) as nat, 8),
        ),
{
    if sender_balance == 0 {
        return Err(ERR_INVALID_AMOUNT);
    }
    let key = vec![0x63u8, 0x6fu8, 0x75u8, 0x6eu8, 0x74u8, 0x65u8, 0x72u8];
    assert(key@ =~= key_demo_counter());
    let counter = match read_u64(st, key.as_slice()) {
        Some(v) => v,
        None => 0,
    };
    write_u64(st, key.as_slice(), counter.saturating_add(1));
    let total = 100u64.saturating_add(50);
    if total != 150 {
        return Err(ERR_INVALID_AMOUNT);
    }
    Ok(())
}

} // verus!

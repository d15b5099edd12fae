//! A contract that tests the host's caller identity: it asks for the
//! caller, stores it and reads it back, and checks that the caller stays
//! the same; five tests run in turn and the first failure answers
//! `100 * (its number)` plus its status.

use vstd::prelude::*;
use crate::bytes::bytes_eq;
use crate::storage::Storage;
use crate::test_suite::{filled, hundreds, hundreds_suite};
use crate::native_nft::suite_status;

verus! {

/// `test_get_caller`: the caller is only logged.
pub fn test_get_caller() -> (r: u64)
    ensures
        r == 0,
{
    0
}

/// `test_caller_nonzero`: whether the caller is the zero address is only
/// logged.
pub fn test_caller_nonzero() -> (r: u64)
    ensures
        r == 0,
{
    0
}

/// The keys the caller tests store the caller under.
pub open spec fn caller_slot(tag: u8) -> Seq<u8> {
    Seq::new(32, |i: int| tag)
}

/// Storing the caller under the key of 32 bytes `tag` and reading it back:
/// 2 when nothing is read, 3 when it differs, else 0.
pub fn store_and_check_caller(st: &mut Storage, caller: &[u8; 32], tag: u8) -> (r: u64)
    ensures
        r == 0,
        final(st)@ == old(st)@.insert(caller_slot(tag), caller@),
{
    let key = filled(tag, 32);
    st.write(key.as_slice(), caller.as_slice());
    let (retrieved, bytes_read) = st.read(key.as_slice(), 32);
    proof {
        assert(st@.get(key@) == Some(caller@));
        assert(retrieved@ =~= caller@);
    }
    if bytes_read == 0 {
        return 2;
    }
    if !bytes_eq(caller.as_slice(), retrieved.as_slice()) {
        return 3;
    }
    0
}

/// `test_store_caller`: the caller stored under `[0x01; 32]` reads back.
pub fn test_store_caller(st: &mut Storage, caller: &[u8; 32]) -> (r: u64)
    ensures
        r == 0,
        final(st)@ == old(st)@.insert(caller_slot(1), caller@),
{
    store_and_check_caller(st, caller, 1)
}

/// `test_access_control`: the caller stored as owner under `[0x02; 32]`
/// reads back as the owner.
pub fn test_access_control(st: &mut Storage, caller: &[u8; 32]) -> (r: u64)
    ensures
        r == 0,
        final(st)@ == old(st)@.insert(caller_slot(2), caller@),
{
    store_and_check_caller(st, caller, 2)
}

/// `test_caller_consistency`: the caller asked three times is the same.
pub fn test_caller_consistency(c1: &[u8; 32], c2: &[u8; 32], c3: &[u8; 32]) -> (r: u64)
    ensures
        r == if c1@ == c2@ && c2@ == c3@ { 0u64 } else { 1u64 },
{
    if !bytes_eq(c1.as_slice(), c2.as_slice()) || !bytes_eq(c2.as_slice(), c3.as_slice()) {
        return 1;
    }
    0
}

/// The contract's report, from the statuses of the tests run in turn (up to
/// the first failure).
pub fn entrypoint(statuses: &[u64]) -> (r: u64)
    requires
        statuses@.len() <= 5,
        forall|i: int| 0 <= i < statuses@.len() ==> #[trigger] statuses@[i] <= u64::MAX - 100 * (i + 1),
    ensures
        r == suite_status(hundreds(5), statuses@),
{
    hundreds_suite(statuses)
}

} // verus!

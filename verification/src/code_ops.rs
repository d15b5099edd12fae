//! A contract that tests the host's code introspection: its own code size,
//! copies of its code, and their agreement; five tests (numbered 1, 3, 5,
//! 6 and 7) run in turn and the first failure answers `100 * (its number)`
//! plus its status.

use vstd::prelude::*;
use crate::test_suite::{status_of, call_status};
use crate::native_nft::{suite, suite_status};

verus! {

/// `test_own_code_size`: 3 for an empty contract, 2 when the host cannot
/// tell, else 0.
pub fn test_own_code_size(size: Result<u64, u64>) -> (r: u64)
    ensures
        r == match size {
            Ok(s) => if s == 0 { 3u64 } else { 0u64 },
            Err(_) => 2u64,
        },
{
    match size {
        Ok(s) => if s == 0 {
            3
        } else {
            0
        },
        Err(_) => 2,
    }
}

/// The copies of its own code the tests ask for, as (length, offset): the
/// first 64 bytes, 32 bytes from offset 64, and nothing.
pub fn code_copies() -> (r: Vec<(usize, u64)>)
    ensures
        r@ == seq![(64usize, 0u64), (32usize, 64u64), (0usize, 0u64)],
{
    let v = vec![(64usize, 0u64), (32usize, 64u64), (0usize, 0u64)];
    assert(v@ =~= seq![(64usize, 0u64), (32usize, 64u64), (0usize, 0u64)]);
    v
}

/// `test_copy_own_code`: fails when the copy does (whether the code starts
/// with the ELF magic is only logged).
pub fn test_copy_own_code(copied: Result<(), u64>) -> (r: u64)
    ensures
        r == status_of(copied),
{
    call_status(copied)
}

/// `test_partial_code_copy`: fails when the copy does.
pub fn test_partial_code_copy(copied: Result<(), u64>) -> (r: u64)
    ensures
        r == status_of(copied),
{
    call_status(copied)
}

/// `test_zero_length_copy`: fails when the copy does.
pub fn test_zero_length_copy(copied: Result<(), u64>) -> (r: u64)
    ensures
        r == status_of(copied),
{
    call_status(copied)
}

/// How much `test_size_consistency` copies of a contract of `size` bytes:
/// all of it, up to 256 bytes.
pub fn size_consistency_copy_len(size: u64) -> (r: usize)
    ensures
        r == if size < 256 { size as int } else { 256 },
{
    if size < 256 {
        size as usize
    } else {
        256
    }
}

/// `test_size_consistency`: 1 when the size is unknown, 2 when the copy
/// failed, else 0.
pub fn test_size_consistency(size: Result<u64, u64>, copied: Result<(), u64>) -> (r: u64)
    ensures
        r == match size {
            Err(_) => 1u64,
            Ok(_) => if status_of(copied) == 0 { 0u64 } else { 2u64 },
        },
{
    match size {
        Err(_) => 1,
        Ok(_) => match copied {
            Ok(_) => 0,
            Err(_) => 2,
        },
    }
}

/// The code-introspection suite numbers its five tests 1, 3, 5, 6 and 7.
pub open spec fn code_ops_bases() -> Seq<u64> {
    seq![100u64, 300, 500, 600, 700]
}

/// The contract's report, from the statuses of the tests run in turn (up to
/// the first failure).
pub fn entrypoint(statuses: &[u64]) -> (r: u64)
    requires
        statuses@.len() <= 5,
        forall|i: int| 0 <= i < statuses@.len() ==> #[trigger] statuses@[i] <= u64::MAX - code_ops_bases()[i],
    ensures
        r == suite_status(code_ops_bases(), statuses@),
{
    let bases: [u64; 5] = [100, 300, 500, 600, 700];
    assert(bases@ =~= code_ops_bases());
    suite(bases.as_slice(), statuses)
}

} // verus!

//! A contract that tests the host's balances and transfers: it queries its
//! own balance and another account's, and makes transfers; five tests run
//! in turn and the first failure answers `100 * (its number)` plus its
//! status.
//!
//! Only the zero transfer can fail a test: the balances are only logged,
//! and the other transfers may fail for want of funds.

use vstd::prelude::*;
use crate::test_suite::{status_of, call_status, hundreds, hundreds_suite};
use crate::native_nft::suite_status;

verus! {

/// `test_query_own_balance`: the contract's own balance is only logged.
pub fn test_query_own_balance() -> (r: u64)
    ensures
        r == 0,
{
    0
}

/// The account whose balance `test_query_other_balance` asks for.
pub fn queried_account() -> (r: [u8; 32])
    ensures
        r@ == Seq::new(32, |i: int| 0x11u8),
{
    let a = [0x11u8; 32];
    assert(a@ =~= Seq::new(32, |i: int| 0x11u8));
    a
}

/// `test_query_other_balance`: the balance of [`queried_account`] is only
/// logged.
pub fn test_query_other_balance() -> (r: u64)
    ensures
        r == 0,
{
    0
}

/// The transfer `test_transfer_to_account` asks for: 1000 to an account of
/// 32 bytes `0x22`.
pub fn transfer_to_account() -> (r: ([u8; 32], u64))
    ensures
        r.0@ == Seq::new(32, |i: int| 0x22u8),
        r.1 == 1000,
{
    let a = [0x22u8; 32];
    assert(a@ =~= Seq::new(32, |i: int| 0x22u8));
    (a, 1000)
}

/// `test_transfer_to_account`: passes whether or not the transfer went
/// through (it fails while the contract has no funds).
pub fn test_transfer_to_account(_transferred: Result<(), u64>) -> (r: u64)
    ensures
        r == 0,
{
    0
}

/// The transfer `test_zero_transfer` asks for: nothing to an account of 32
/// bytes `0x33`.
pub fn zero_transfer() -> (r: ([u8; 32], u64))
    ensures
        r.0@ == Seq::new(32, |i: int| 0x33u8),
        r.1 == 0,
{
    let a = [0x33u8; 32];
    assert(a@ =~= Seq::new(32, |i: int| 0x33u8));
    (a, 0)
}

/// `test_zero_transfer`: a transfer of nothing must succeed.
pub fn test_zero_transfer(transferred: Result<(), u64>) -> (r: u64)
    ensures
        r == status_of(transferred),
{
    call_status(transferred)
}

/// The transfers `test_multiple_transfers` makes: 100, 200 and 300 to
/// three accounts of 32 equal bytes 0x44, 0x55 and 0x66.
pub fn multiple_transfers() -> (r: Vec<([u8; 32], u64)>)
    ensures
        r@.len() == 3,
        r@[0].1 == 100 && r@[1].1 == 200 && r@[2].1 == 300,
        r@[0].0@ == Seq::new(32, |i: int| 0x44u8),
        r@[1].0@ == Seq::new(32, |i: int| 0x55u8),
        r@[2].0@ == Seq::new(32, |i: int| 0x66u8),
{
    let a = [0x44u8; 32];
    let b = [0x55u8; 32];
    let c = [0x66u8; 32];
    assert(a@ =~= Seq::new(32, |i: int| 0x44u8));
    assert(b@ =~= Seq::new(32, |i: int| 0x55u8));
    assert(c@ =~= Seq::new(32, |i: int| 0x66u8));
    vec![(a, 100), (b, 200), (c, 300)]
}

/// `test_multiple_transfers`: passes whatever the transfers answered.
pub fn test_multiple_transfers(_transferred: &[Result<(), u64>]) -> (r: u64)
    ensures
        r == 0,
{
    0
}

/// The contract's report, from the statuses of the tests run in turn (up to
/// the first failure).
pub fn entrypoint(statuses: &[u64]) -> (r: u64)
    requires
        statuses@.len() <= 5,
        forall|i: int| 0 <= i < statuses@.len() ==> #[trigger] statuses@[i] <= u64::MAX - 100 * (i + 1),
    ensures
        r == suite_status(hundreds(5), statuses@),
{
    hundreds_suite(statuses)
}

} // verus!

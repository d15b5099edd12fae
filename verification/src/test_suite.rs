//! What the host-call test contracts share: the status of a host call
//! (0 when it succeeded, 1 when it failed) and the report of a suite of
//! tests run in turn until one fails.

use vstd::prelude::*;
use crate::native_nft::{suite, suite_status};

verus! {

/// The status of a host call that either succeeded (0) or failed (1).
pub open spec fn status_of(r: Result<(), u64>) -> u64 {
    match r {
        Ok(_) => 0,
        Err(_) => 1,
    }
}

/// The status of a host call: 0 when it succeeded, 1 when it failed.
pub fn call_status(r: Result<(), u64>) -> (s: u64)
    ensures
        s == status_of(r),
{
    match r {
        Ok(_) => 0,
        Err(_) => 1,
    }
}

/// The bases the test suites add to a failing test's status: 100 for the
/// first test, 200 for the second, and so on.
pub open spec fn hundreds(n: nat) -> Seq<u64> {
    Seq::new(n, |i: int| (100 * (i + 1)) as u64)
}

pub(crate) fn hundreds_vec(n: usize) -> (r: Vec<u64>)
    requires
        n <= 10,
    ensures
        r@ == hundreds(n as nat),
{
    let mut v: Vec<u64> = Vec::new();
    let mut i: usize = 0;
    while i < n
        invariant
            i <= n,
            n <= 10,
            v@ == hundreds(i as nat),
        decreases n - i,
    {
        v.push(100 * (i as u64 + 1));
        proof {
            assert(v@ =~= hundreds((i + 1) as nat));
        }
        i = i + 1;
    }
    v
}

/// The report of a suite of five tests numbered 1 to 5: 0 when all passed,
/// else `100 * (number)` plus the first failing status.
pub fn hundreds_suite(statuses: &[u64]) -> (r: u64)
    requires
        statuses@.len() <= 5,
        forall|i: int| 0 <= i < statuses@.len() ==> #[trigger] statuses@[i] <= u64::MAX - 100 * (i + 1),
    ensures
        r == suite_status(hundreds(5), statuses@),
{
    let bases = hundreds_vec(5);
    suite(bases.as_slice(), statuses)
}

/// `n` copies of `byte`.
pub(crate) fn filled(byte: u8, n: usize) -> (r: Vec<u8>)
    ensures
        r@ == Seq::new(n as nat, |i: int| byte),
{
    let mut v: Vec<u8> = Vec::new();
    let mut i: usize = 0;
    while i < n
        invariant
            i <= n,
            v@ == Seq::new(i as nat, |j: int| byte),
        decreases n - i,
    {
        v.push(byte);
        proof {
            assert(v@ =~= Seq::new((i + 1) as nat, |j: int| byte));
        }
        i = i + 1;
    }
    v
}

} // verus!

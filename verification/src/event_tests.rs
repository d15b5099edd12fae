//! A contract that tests the host's events: five tests emit events with
//! zero to four topics; a refused event fails its test, and the first
//! failure answers `100 * (its number)` plus its status.

use vstd::prelude::*;
use crate::test_suite::{filled, hundreds, hundreds_suite};
use crate::native_nft::suite_status;

verus! {

/// The event the `n`-th event test emits: `n` topics of 32 equal bytes and
/// a data block.
pub open spec fn test_event(n: int) -> (Seq<Seq<u8>>, Seq<u8>) {
    if n == 0 {
        (Seq::empty(), Seq::new(32, |i: int| 0x01u8))
    } else if n == 1 {
        (seq![Seq::new(32, |i: int| 0x11u8)], Seq::new(64, |i: int| 0x02u8))
    } else if n == 2 {
        (seq![Seq::new(32, |i: int| 0x22u8), Seq::new(32, |i: int| 0x33u8)], Seq::new(32, |i: int| 0x03u8))
    } else if n == 3 {
        (seq![Seq::new(32, |i: int| 0x44u8), Seq::new(32, |i: int| 0x55u8), Seq::new(32, |i: int| 0x66u8)], Seq::new(32, |i: int| 0x04u8))
    } else {
        (seq![Seq::new(32, |i: int| 0x77u8), Seq::new(32, |i: int| 0x88u8), Seq::new(32, |i: int| 0x99u8), Seq::new(32, |i: int| 0xAAu8)], Seq::new(32, |i: int| 0x05u8))
    }
}

/// The topics and data of the `n`-th event test (`n` from 0 to 4).
pub fn event_for_test(n: usize) -> (r: (Vec<Vec<u8>>, Vec<u8>))
    requires
        n <= 4,
    ensures
        r.0@.map_values(|t: Vec<u8>| t@) == test_event(n as int).0,
        r.1@ == test_event(n as int).1,
{
    let topic_bytes: [u8; 4] = [0x11, 0x22, 0x44, 0x77];
    let mut topics: Vec<Vec<u8>> = Vec::new();
    let first: u8 = if n == 0 { 0 } else { topic_bytes[n - 1] };
    let mut i: usize = 0;
    while i < n
        invariant
            i <= n,
            n <= 4,
            first == (if n == 0 { 0u8 } else { topic_bytes@[n - 1] }),
            topic_bytes@ == seq![0x11u8, 0x22, 0x44, 0x77],
            topics@.len() == i,
            forall|j: int| 0 <= j < i ==> #[trigger] topics@[j]@ == Seq::new(32, |k: int| (first + 0x11 * j) as u8),
        decreases n - i,
    {
        topics.push(filled(((first as u64 + 0x11 * i as u64) % 256) as u8, 32));
        i = i + 1;
    }
    let data_byte: u8 = (n + 1) as u8;
    let data = if n == 1 {
        filled(0x02, 64)
    } else {
        filled(data_byte, 32)
    };
    proof {
        let t = test_event(n as int).0;
        assert(topics@.map_values(|t: Vec<u8>| t@) =~= t);
        assert(data@ =~= test_event(n as int).1);
    }
    (topics, data)
}

/// The event `test_log0_anonymous` emits (no topic); the test fails (status 1) when
/// the host refuses it.
pub fn test_log0_anonymous() -> (r: (Vec<Vec<u8>>, Vec<u8>))
    ensures
        r.0@.map_values(|t: Vec<u8>| t@) == test_event(0).0,
        r.1@ == test_event(0).1,
{
    event_for_test(0)
}

/// The event `test_log1_single_topic` emits (one topic); the test fails (status 1) when
/// the host refuses it.
pub fn test_log1_single_topic() -> (r: (Vec<Vec<u8>>, Vec<u8>))
    ensures
        r.0@.map_values(|t: Vec<u8>| t@) == test_event(1).0,
        r.1@ == test_event(1).1,
{
    event_for_test(1)
}

/// The event `test_log2_two_topics` emits (two topics); the test fails (status 1) when
/// the host refuses it.
pub fn test_log2_two_topics() -> (r: (Vec<Vec<u8>>, Vec<u8>))
    ensures
        r.0@.map_values(|t: Vec<u8>| t@) == test_event(2).0,
        r.1@ == test_event(2).1,
{
    event_for_test(2)
}

/// The event `test_log3_three_topics` emits (three topics); the test fails (status 1) when
/// the host refuses it.
pub fn test_log3_three_topics() -> (r: (Vec<Vec<u8>>, Vec<u8>))
    ensures
        r.0@.map_values(|t: Vec<u8>| t@) == test_event(3).0,
        r.1@ == test_event(3).1,
{
    event_for_test(3)
}

/// The event `test_log4_four_topics` emits (four topics); the test fails (status 1) when
/// the host refuses it.
pub fn test_log4_four_topics() -> (r: (Vec<Vec<u8>>, Vec<u8>))
    ensures
        r.0@.map_values(|t: Vec<u8>| t@) == test_event(4).0,
        r.1@ == test_event(4).1,
{
    event_for_test(4)
}

/// The contract's report, from the statuses of the tests run in turn (up to
/// the first failure).
pub fn entrypoint(statuses: &[u64]) -> (r: u64)
    requires
        statuses@.len() <= 5,
        forall|i: int| 0 <= i < statuses@.len() ==> #[trigger] statuses@[i] <= u64::MAX - 100 * (i + 1),
    ensures
        r == suite_status(hundreds(5), statuses@),
{
    hundreds_suite(statuses)
}

} // verus!

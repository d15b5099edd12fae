//! Cross-program invocation, what its contracts share: the storage they
//! use, the results the callees compute and the checks the callers make.
//! The contracts themselves are the `cpi_*` modules.
//!
//! Invoking another contract, reading the return data, hashing and
//! metering compute units are the host's work: a caller's entry point
//! answers the invocation to make, and what the host answers is passed on
//! to its second step.

use vstd::prelude::*;
use crate::bytes::{le_bytes, le_nat};
use crate::storage::Storage;
use crate::cells::{u64_cell, read_u64, lemma_u64_cell_roundtrip};
use crate::stablecoin::StorageMap;

verus! {

/// What the test callee computes from its default amount.
pub const TEST_AMOUNT: u64 = 42;
/// The sum the end-to-end caller expects back from the inputs 100, 200 and
/// 300 it stores.
pub const E2E_SUM: u64 = 600;

/// Why a caller or callee fails.
#[derive(PartialEq, Eq, Structural)]
pub enum CpiError {
    /// The invocation itself failed.
    InvokeFailed,
    /// The callee's answer is not what was expected.
    InvalidReturnData,
    /// An input the callee reads is missing.
    MissingInput,
}

/// `cpi_counter`
pub open spec fn key_cpi_counter() -> Seq<u8> {
    seq![0x63u8, 0x70u8, 0x69u8, 0x5fu8, 0x63u8, 0x6fu8, 0x75u8, 0x6eu8, 0x74u8, 0x65u8, 0x72u8]
}

pub(crate) fn key_cpi_counter_vec() -> (r: Vec<u8>)
    ensures
        r@ == key_cpi_counter(),
{
    let v = vec![0x63u8, 0x70u8, 0x69u8, 0x5fu8, 0x63u8, 0x6fu8, 0x75u8, 0x6eu8, 0x74u8, 0x65u8, 0x72u8];
    assert(v@ =~= key_cpi_counter());
    v
}

/// `invocation_counter`
pub open spec fn key_invocation_counter() -> Seq<u8> {
    seq![0x69u8, 0x6eu8, 0x76u8, 0x6fu8, 0x63u8, 0x61u8, 0x74u8, 0x69u8, 0x6fu8, 0x6eu8, 0x5fu8, 0x63u8, 0x6fu8, 0x75u8, 0x6eu8, 0x74u8, 0x65u8, 0x72u8]
}

pub(crate) fn key_invocation_counter_vec() -> (r: Vec<u8>)
    ensures
        r@ == key_invocation_counter(),
{
    let v = vec![0x69u8, 0x6eu8, 0x76u8, 0x6fu8, 0x63u8, 0x61u8, 0x74u8, 0x69u8, 0x6fu8, 0x6eu8, 0x5fu8, 0x63u8, 0x6fu8, 0x75u8, 0x6eu8, 0x74u8, 0x65u8, 0x72u8];
    assert(v@ =~= key_invocation_counter());
    v
}

/// `last_result`
pub open spec fn key_last_result() -> Seq<u8> {
    seq![0x6cu8, 0x61u8, 0x73u8, 0x74u8, 0x5fu8, 0x72u8, 0x65u8, 0x73u8, 0x75u8, 0x6cu8, 0x74u8]
}

pub(crate) fn key_last_result_vec() -> (r: Vec<u8>)
    ensures
        r@ == key_last_result(),
{
    let v = vec![0x6cu8, 0x61u8, 0x73u8, 0x74u8, 0x5fu8, 0x72u8, 0x65u8, 0x73u8, 0x75u8, 0x6cu8, 0x74u8];
    assert(v@ =~= key_last_result());
    v
}

/// `input_num1`
pub open spec fn key_input_num1() -> Seq<u8> {
    seq![0x69u8, 0x6eu8, 0x70u8, 0x75u8, 0x74u8, 0x5fu8, 0x6eu8, 0x75u8, 0x6du8, 0x31u8]
}

pub(crate) fn key_input_num1_vec() -> (r: Vec<u8>)
    ensures
        r@ == key_input_num1(),
{
    let v = vec![0x69u8, 0x6eu8, 0x70u8, 0x75u8, 0x74u8, 0x5fu8, 0x6eu8, 0x75u8, 0x6du8, 0x31u8];
    assert(v@ =~= key_input_num1());
    v
}

/// `input_num2`
pub open spec fn key_input_num2() -> Seq<u8> {
    seq![0x69u8, 0x6eu8, 0x70u8, 0x75u8, 0x74u8, 0x5fu8, 0x6eu8, 0x75u8, 0x6du8, 0x32u8]
}

pub(crate) fn key_input_num2_vec() -> (r: Vec<u8>)
    ensures
        r@ == key_input_num2(),
{
    let v = vec![0x69u8, 0x6eu8, 0x70u8, 0x75u8, 0x74u8, 0x5fu8, 0x6eu8, 0x75u8, 0x6du8, 0x32u8];
    assert(v@ =~= key_input_num2());
    v
}

/// `input_num3`
pub open spec fn key_input_num3() -> Seq<u8> {
    seq![0x69u8, 0x6eu8, 0x70u8, 0x75u8, 0x74u8, 0x5fu8, 0x6eu8, 0x75u8, 0x6du8, 0x33u8]
}

pub(crate) fn key_input_num3_vec() -> (r: Vec<u8>)
    ensures
        r@ == key_input_num3(),
{
    let v = vec![0x69u8, 0x6eu8, 0x70u8, 0x75u8, 0x74u8, 0x5fu8, 0x6eu8, 0x75u8, 0x6du8, 0x33u8];
    assert(v@ =~= key_input_num3());
    v
}

/// `result_sum`
pub open spec fn key_result_sum() -> Seq<u8> {
    seq![0x72u8, 0x65u8, 0x73u8, 0x75u8, 0x6cu8, 0x74u8, 0x5fu8, 0x73u8, 0x75u8, 0x6du8]
}

pub(crate) fn key_result_sum_vec() -> (r: Vec<u8>)
    ensures
        r@ == key_result_sum(),
{
    let v = vec![0x72u8, 0x65u8, 0x73u8, 0x75u8, 0x6cu8, 0x74u8, 0x5fu8, 0x73u8, 0x75u8, 0x6du8];
    assert(v@ =~= key_result_sum());
    v
}

/// `result_hash`
pub open spec fn key_result_hash() -> Seq<u8> {
    seq![0x72u8, 0x65u8, 0x73u8, 0x75u8, 0x6cu8, 0x74u8, 0x5fu8, 0x68u8, 0x61u8, 0x73u8, 0x68u8]
}

pub(crate) fn key_result_hash_vec() -> (r: Vec<u8>)
    ensures
        r@ == key_result_hash(),
{
    let v = vec![0x72u8, 0x65u8, 0x73u8, 0x75u8, 0x6cu8, 0x74u8, 0x5fu8, 0x68u8, 0x61u8, 0x73u8, 0x68u8];
    assert(v@ =~= key_result_hash());
    v
}

/// `last_cpi_compute_used`
pub open spec fn key_last_cpi_compute_used() -> Seq<u8> {
    seq![0x6cu8, 0x61u8, 0x73u8, 0x74u8, 0x5fu8, 0x63u8, 0x70u8, 0x69u8, 0x5fu8, 0x63u8, 0x6fu8, 0x6du8, 0x70u8, 0x75u8, 0x74u8, 0x65u8, 0x5fu8, 0x75u8, 0x73u8, 0x65u8, 0x64u8]
}

pub(crate) fn key_last_cpi_compute_used_vec() -> (r: Vec<u8>)
    ensures
        r@ == key_last_cpi_compute_used(),
{
    let v = vec![0x6cu8, 0x61u8, 0x73u8, 0x74u8, 0x5fu8, 0x63u8, 0x70u8, 0x69u8, 0x5fu8, 0x63u8, 0x6fu8, 0x6du8, 0x70u8, 0x75u8, 0x74u8, 0x65u8, 0x5fu8, 0x75u8, 0x73u8, 0x65u8, 0x64u8];
    assert(v@ =~= key_last_cpi_compute_used());
    v
}

/// A stored `u64`, 0 unless 8 bytes are stored.
pub open spec fn stored(m: StorageMap, k: Seq<u8>) -> u64 {
    match u64_cell(m.get(k)) {
        Some(v) => v,
        None => 0,
    }
}

/// `v + 1`, saturating.
pub open spec fn bumped(v: u64) -> u64 {
    if v == u64::MAX {
        v
    } else {
        (v + 1) as u64
    }
}

pub(crate) fn read_stored(st: &Storage, key: &[u8]) -> (r: u64)
    ensures
        r == stored(st@, key@),
{
    match read_u64(st, key) {
        Some(v) => v,
        None => 0,
    }
}

// ---------------------------------------------------------------------------
// What the callees compute
// ---------------------------------------------------------------------------


/// The test callee's return data: the result, the invocation count and
/// the compute units used, 8 bytes each.
pub open spec fn test_callee_data(result: u64, count: u64, used: u64) -> Seq<u8> {
    le_bytes(result as nat, 8) + le_bytes(count as nat, 8) + le_bytes(used as nat, 8)
}


/// The three inputs of the end-to-end callee, when each is stored in 8
/// bytes.
pub open spec fn e2e_inputs(m: StorageMap) -> Option<(u64, u64, u64)> {
    match (u64_cell(m.get(key_input_num1())), u64_cell(m.get(key_input_num2())), u64_cell(m.get(key_input_num3()))) {
        (Some(a), Some(b), Some(c)) => Some((a, b, c)),
        _ => None,
    }
}

/// `a + b + c`, saturating.
pub open spec fn saturated_sum(a: u64, b: u64, c: u64) -> u64 {
    let ab = if a + b > u64::MAX { u64::MAX } else { (a + b) as u64 };
    if ab + c > u64::MAX { u64::MAX } else { (ab + c) as u64 }
}



// ---------------------------------------------------------------------------
// What the callers check
// ---------------------------------------------------------------------------


/// The test caller's check of the callee's answer: the invocation
/// succeeded and the return data starts with twice the amount it sent;
/// then the compute units it used (from its meter before and after,
/// saturating at zero) are stored.
pub open spec fn test_caller_outcome(m: StorageMap, invoked: bool, data: Seq<u8>, before: u64, after: u64) -> (Result<(), CpiError>, StorageMap) {
    if !invoked {
        (Err(CpiError::InvokeFailed), m)
    } else if data.len() < 8 || le_nat(data.subrange(0, 8)) != 2 * TEST_AMOUNT {
        (Err(CpiError::InvalidReturnData), m)
    } else {
        let used = if before < after { 0 } else { (before - after) as u64 };
        (Ok(()), m.insert(key_last_cpi_compute_used(), le_bytes(used as nat, 8)))
    }
}



/// The end-to-end caller's check: the invocation succeeded and the callee
/// answered 40 bytes, the sum 600 followed by the host's hash of that sum
/// (`expected_hash`).
pub open spec fn e2e_caller_result(invoked: bool, data: Seq<u8>, expected_hash: Seq<u8>) -> Result<(), CpiError> {
    if !invoked {
        Err(CpiError::InvokeFailed)
    } else if data.len() != 40 || le_nat(data.subrange(0, 8)) != E2E_SUM || data.subrange(8, 40) != expected_hash {
        Err(CpiError::InvalidReturnData)
    } else {
        Ok(())
    }
}


/// The end-to-end pair agrees: the inputs the caller stores make the
/// callee sum to exactly what the caller expects.
pub proof fn law_e2e_sum_agrees(m: StorageMap)
    ensures
        ({
            let m2 = m.insert(key_input_num1(), le_bytes(100, 8)).insert(key_input_num2(), le_bytes(200, 8)).insert(
                key_input_num3(),
                le_bytes(300, 8),
            );
            e2e_inputs(m2) == Some((100u64, 200u64, 300u64)) && saturated_sum(100, 200, 300) == E2E_SUM
        }),
{
    lemma_u64_cell_roundtrip(100);
    lemma_u64_cell_roundtrip(200);
    lemma_u64_cell_roundtrip(300);
    assert(key_input_num1()[9] != key_input_num2()[9]);
    assert(key_input_num1()[9] != key_input_num3()[9]);
    assert(key_input_num2()[9] != key_input_num3()[9]);
}

} // verus!

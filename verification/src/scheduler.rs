//! Scheduled execution: a contract offers the host a call of one of its
//! entry points at a future topoheight (or at the end of the block), and
//! counts the executions when they come.  The cascading variant is
//! [`crate::scheduler_cascade`].
//!
//! Offering a call and drawing VRF output are the host's work: an entry
//! point answers either a status, or the request to make; the host's
//! answer is then handed back to finish it.

use vstd::prelude::*;
use crate::bytes::{le_bytes, le_nat, read_u16_at, read_u64_at, copy_range};
use crate::storage::{Storage, read_buffer};
use crate::cells::write_u64;
use crate::stablecoin::StorageMap;

verus! {

pub const SUCCESS: u64 = 0;
/// The entry point the scheduler has itself called back at.
pub const ENTRY_ON_SCHEDULED: u16 = 2;
/// The entry point a cascade calls on its target.
pub const ENTRY_ON_CASCADE: u16 = 1;
/// The gas each offered call may use.
pub const SCHEDULED_GAS: u64 = 50_000;
pub const CASCADE_GAS: u64 = 100_000;

/// Statuses of the entry points.
pub const ERR_SHORT_INPUT: u64 = 1;
pub const ERR_UNKNOWN_ENTRY: u64 = 2;
pub const ERR_SHORT_PARAMS: u64 = 3;
pub const ERR_NO_VRF: u64 = 10;

/// The most input bytes each contract reads.
pub const SCHEDULER_INPUT: usize = 64;
pub const CASCADE_INPUT: usize = 128;

/// `scheduled_handle`
pub open spec fn key_handle() -> Seq<u8> {
    seq![0x73u8, 0x63u8, 0x68u8, 0x65u8, 0x64u8, 0x75u8, 0x6cu8, 0x65u8, 0x64u8, 0x5fu8, 0x68u8, 0x61u8, 0x6eu8, 0x64u8, 0x6cu8, 0x65u8]
}

pub(crate) fn key_handle_vec() -> (r: Vec<u8>)
    ensures
        r@ == key_handle(),
{
    let v = vec![0x73u8, 0x63u8, 0x68u8, 0x65u8, 0x64u8, 0x75u8, 0x6cu8, 0x65u8, 0x64u8, 0x5fu8, 0x68u8, 0x61u8, 0x6eu8, 0x64u8, 0x6cu8, 0x65u8];
    assert(v@ =~= key_handle());
    v
}

/// `target_topoheight`
pub open spec fn key_target_topo() -> Seq<u8> {
    seq![0x74u8, 0x61u8, 0x72u8, 0x67u8, 0x65u8, 0x74u8, 0x5fu8, 0x74u8, 0x6fu8, 0x70u8, 0x6fu8, 0x68u8, 0x65u8, 0x69u8, 0x67u8, 0x68u8, 0x74u8]
}

pub(crate) fn key_target_topo_vec() -> (r: Vec<u8>)
    ensures
        r@ == key_target_topo(),
{
    let v = vec![0x74u8, 0x61u8, 0x72u8, 0x67u8, 0x65u8, 0x74u8, 0x5fu8, 0x74u8, 0x6fu8, 0x70u8, 0x6fu8, 0x68u8, 0x65u8, 0x69u8, 0x67u8, 0x68u8, 0x74u8];
    assert(v@ =~= key_target_topo());
    v
}

/// `execution_count`
pub open spec fn key_execution_count() -> Seq<u8> {
    seq![0x65u8, 0x78u8, 0x65u8, 0x63u8, 0x75u8, 0x74u8, 0x69u8, 0x6fu8, 0x6eu8, 0x5fu8, 0x63u8, 0x6fu8, 0x75u8, 0x6eu8, 0x74u8]
}

pub(crate) fn key_execution_count_vec() -> (r: Vec<u8>)
    ensures
        r@ == key_execution_count(),
{
    let v = vec![0x65u8, 0x78u8, 0x65u8, 0x63u8, 0x75u8, 0x74u8, 0x69u8, 0x6fu8, 0x6eu8, 0x5fu8, 0x63u8, 0x6fu8, 0x75u8, 0x6eu8, 0x74u8];
    assert(v@ =~= key_execution_count());
    v
}

/// `last_error`
pub open spec fn key_last_error() -> Seq<u8> {
    seq![0x6cu8, 0x61u8, 0x73u8, 0x74u8, 0x5fu8, 0x65u8, 0x72u8, 0x72u8, 0x6fu8, 0x72u8]
}

pub(crate) fn key_last_error_vec() -> (r: Vec<u8>)
    ensures
        r@ == key_last_error(),
{
    let v = vec![0x6cu8, 0x61u8, 0x73u8, 0x74u8, 0x5fu8, 0x65u8, 0x72u8, 0x72u8, 0x6fu8, 0x72u8];
    assert(v@ =~= key_last_error());
    v
}

/// `cascade_handle`
pub open spec fn key_cascade_handle() -> Seq<u8> {
    seq![0x63u8, 0x61u8, 0x73u8, 0x63u8, 0x61u8, 0x64u8, 0x65u8, 0x5fu8, 0x68u8, 0x61u8, 0x6eu8, 0x64u8, 0x6cu8, 0x65u8]
}

pub(crate) fn key_cascade_handle_vec() -> (r: Vec<u8>)
    ensures
        r@ == key_cascade_handle(),
{
    let v = vec![0x63u8, 0x61u8, 0x73u8, 0x63u8, 0x61u8, 0x64u8, 0x65u8, 0x5fu8, 0x68u8, 0x61u8, 0x6eu8, 0x64u8, 0x6cu8, 0x65u8];
    assert(v@ =~= key_cascade_handle());
    v
}

/// `scheduler_vrf`
pub open spec fn key_scheduler_vrf() -> Seq<u8> {
    seq![0x73u8, 0x63u8, 0x68u8, 0x65u8, 0x64u8, 0x75u8, 0x6cu8, 0x65u8, 0x72u8, 0x5fu8, 0x76u8, 0x72u8, 0x66u8]
}

pub(crate) fn key_scheduler_vrf_vec() -> (r: Vec<u8>)
    ensures
        r@ == key_scheduler_vrf(),
{
    let v = vec![0x73u8, 0x63u8, 0x68u8, 0x65u8, 0x64u8, 0x75u8, 0x6cu8, 0x65u8, 0x72u8, 0x5fu8, 0x76u8, 0x72u8, 0x66u8];
    assert(v@ =~= key_scheduler_vrf());
    v
}

/// `target_contract`
pub open spec fn key_target_contract() -> Seq<u8> {
    seq![0x74u8, 0x61u8, 0x72u8, 0x67u8, 0x65u8, 0x74u8, 0x5fu8, 0x63u8, 0x6fu8, 0x6eu8, 0x74u8, 0x72u8, 0x61u8, 0x63u8, 0x74u8]
}

pub(crate) fn key_target_contract_vec() -> (r: Vec<u8>)
    ensures
        r@ == key_target_contract(),
{
    let v = vec![0x74u8, 0x61u8, 0x72u8, 0x67u8, 0x65u8, 0x74u8, 0x5fu8, 0x63u8, 0x6fu8, 0x6eu8, 0x74u8, 0x72u8, 0x61u8, 0x63u8, 0x74u8];
    assert(v@ =~= key_target_contract());
    v
}

/// `target_topo`
pub open spec fn key_cascade_target_topo() -> Seq<u8> {
    seq![0x74u8, 0x61u8, 0x72u8, 0x67u8, 0x65u8, 0x74u8, 0x5fu8, 0x74u8, 0x6fu8, 0x70u8, 0x6fu8]
}

pub(crate) fn key_cascade_target_topo_vec() -> (r: Vec<u8>)
    ensures
        r@ == key_cascade_target_topo(),
{
    let v = vec![0x74u8, 0x61u8, 0x72u8, 0x67u8, 0x65u8, 0x74u8, 0x5fu8, 0x74u8, 0x6fu8, 0x70u8, 0x6fu8];
    assert(v@ =~= key_cascade_target_topo());
    v
}

/// `target_vrf`
pub open spec fn key_target_vrf() -> Seq<u8> {
    seq![0x74u8, 0x61u8, 0x72u8, 0x67u8, 0x65u8, 0x74u8, 0x5fu8, 0x76u8, 0x72u8, 0x66u8]
}

pub(crate) fn key_target_vrf_vec() -> (r: Vec<u8>)
    ensures
        r@ == key_target_vrf(),
{
    let v = vec![0x74u8, 0x61u8, 0x72u8, 0x67u8, 0x65u8, 0x74u8, 0x5fu8, 0x76u8, 0x72u8, 0x66u8];
    assert(v@ =~= key_target_vrf());
    v
}

/// `target_block_hash`
pub open spec fn key_target_block_hash() -> Seq<u8> {
    seq![0x74u8, 0x61u8, 0x72u8, 0x67u8, 0x65u8, 0x74u8, 0x5fu8, 0x62u8, 0x6cu8, 0x6fu8, 0x63u8, 0x6bu8, 0x5fu8, 0x68u8, 0x61u8, 0x73u8, 0x68u8]
}

pub(crate) fn key_target_block_hash_vec() -> (r: Vec<u8>)
    ensures
        r@ == key_target_block_hash(),
{
    let v = vec![0x74u8, 0x61u8, 0x72u8, 0x67u8, 0x65u8, 0x74u8, 0x5fu8, 0x62u8, 0x6cu8, 0x6fu8, 0x63u8, 0x6bu8, 0x5fu8, 0x68u8, 0x61u8, 0x73u8, 0x68u8];
    assert(v@ =~= key_target_block_hash());
    v
}

/// `cascade_exec_count`
pub open spec fn key_cascade_exec_count() -> Seq<u8> {
    seq![0x63u8, 0x61u8, 0x73u8, 0x63u8, 0x61u8, 0x64u8, 0x65u8, 0x5fu8, 0x65u8, 0x78u8, 0x65u8, 0x63u8, 0x5fu8, 0x63u8, 0x6fu8, 0x75u8, 0x6eu8, 0x74u8]
}

pub(crate) fn key_cascade_exec_count_vec() -> (r: Vec<u8>)
    ensures
        r@ == key_cascade_exec_count(),
{
    let v = vec![0x63u8, 0x61u8, 0x73u8, 0x63u8, 0x61u8, 0x64u8, 0x65u8, 0x5fu8, 0x65u8, 0x78u8, 0x65u8, 0x63u8, 0x5fu8, 0x63u8, 0x6fu8, 0x75u8, 0x6eu8, 0x74u8];
    assert(v@ =~= key_cascade_exec_count());
    v
}

/// `caller_vrf`
pub open spec fn key_caller_vrf() -> Seq<u8> {
    seq![0x63u8, 0x61u8, 0x6cu8, 0x6cu8, 0x65u8, 0x72u8, 0x5fu8, 0x76u8, 0x72u8, 0x66u8]
}

pub(crate) fn key_caller_vrf_vec() -> (r: Vec<u8>)
    ensures
        r@ == key_caller_vrf(),
{
    let v = vec![0x63u8, 0x61u8, 0x6cu8, 0x6cu8, 0x65u8, 0x72u8, 0x5fu8, 0x76u8, 0x72u8, 0x66u8];
    assert(v@ =~= key_caller_vrf());
    v
}

/// A count read through an 8-byte buffer: the little-endian value of what
/// was read, zero-padded; 0 when nothing is stored.
pub open spec fn padded_count(m: StorageMap, k: Seq<u8>) -> u64 {
    le_nat(read_buffer(m.get(k), 8)) as u64
}

pub(crate) fn read_padded_count(st: &Storage, key: &[u8]) -> (r: u64)
    ensures
        r == padded_count(st@, key@),
{
    let (buf, _) = st.read(key, 8);
    proof {
        assert(buf@.subrange(0, 8) =~= buf@);
    }
    read_u64_at(buf.as_slice(), 0)
}

/// A call the contract asks the host to schedule.
pub struct OfferRequest {
    /// The contract to call, when not the caller itself.
    pub target: Option<[u8; 32]>,
    pub entry_id: u16,
    pub input: Vec<u8>,
    pub max_gas: u64,
    pub offer_amount: u64,
    /// The topoheight to run at; `None` for the end of the current block.
    pub topoheight: Option<u64>,
}

/// What an entry point answers.
pub enum SchedulerStep {
    Done(u64),
    Offer(OfferRequest),
}

// ---------------------------------------------------------------------------
// The scheduler
// ---------------------------------------------------------------------------

/// The parameters of an entry point: the input after its two-byte entry id
/// (at most `cap` input bytes read).
pub open spec fn entry_params(input: Seq<u8>, cap: int) -> Seq<u8> {
    let i = if input.len() <= cap { input } else { input.take(cap) };
    i.subrange(2, i.len() as int)
}

pub open spec fn entry_id(input: Seq<u8>) -> nat {
    le_nat(input.subrange(0, 2))
}

/// The scheduler's entry points: `0` offers a call of entry `2` at the
/// topoheight in the first 8 parameter bytes (without them, records the
/// error text and answers 3); `1` offers it at the end of the block; `2`
/// counts an execution.
pub open spec fn scheduler_outcome(m: StorageMap, input: Seq<u8>) -> (Option<Option<u64>>, u64, StorageMap) {
    if input.len() < 2 {
        (None, ERR_SHORT_INPUT, m)
    } else {
        let params = entry_params(input, SCHEDULER_INPUT as int);
        let id = entry_id(input);
        if id == 0 {
            if params.len() < 8 {
                (None, ERR_SHORT_PARAMS, m.insert(key_last_error(), need_eight_bytes()))
            } else {
                (Some(Some(le_nat(params.subrange(0, 8)) as u64)), SUCCESS, m)
            }
        } else if id == 1 {
            (Some(None), SUCCESS, m)
        } else if id == 2 {
            (None, SUCCESS, executed(m, key_execution_count()))
        } else {
            (None, ERR_UNKNOWN_ENTRY, m)
        }
    }
}

/// `need 8 bytes`, the error recorded for short parameters.
pub open spec fn need_eight_bytes() -> Seq<u8> {
    seq![0x6eu8, 0x65u8, 0x65u8, 0x64u8, 0x20u8, 0x38u8, 0x20u8, 0x62u8, 0x79u8, 0x74u8, 0x65u8, 0x73u8]
}

/// An execution counted under `k` (saturating).
pub open spec fn executed(m: StorageMap, k: Seq<u8>) -> StorageMap {
    let c = padded_count(m, k);
    m.insert(k, le_bytes((if c == u64::MAX { c as int } else { c + 1 }) as nat, 8))
}

/// Counts one more execution under `key`.
pub(crate) fn count_execution(st: &mut Storage, key: &[u8])
    ensures
        final(st)@ == executed(old(st)@, key@),
{
    let count = read_padded_count(st, key);
    write_u64(st, key, count.saturating_add(1));
}

pub fn on_scheduled_execution(st: &mut Storage) -> (r: u64)
    ensures
        r == SUCCESS,
        final(st)@ == executed(old(st)@, key_execution_count()),
{
    count_execution(st, key_execution_count_vec().as_slice());
    SUCCESS
}

fn own_offer(topoheight: Option<u64>) -> (r: OfferRequest)
    ensures
        r.target is None,
        r.entry_id == ENTRY_ON_SCHEDULED,
        r.input@ == Seq::<u8>::empty(),
        r.max_gas == SCHEDULED_GAS,
        r.offer_amount == 0,
        r.topoheight == topoheight,
{
    OfferRequest {
        target: None,
        entry_id: ENTRY_ON_SCHEDULED,
        input: Vec::new(),
        max_gas: SCHEDULED_GAS,
        offer_amount: 0,
        topoheight,
    }
}

/// Runs the scheduler's entry point in `input`; an offer answered is made
/// by the host, whose answer then goes to [`offer_answered`].
pub fn entrypoint(st: &mut Storage, input: &[u8]) -> (r: SchedulerStep)
    ensures
        match r {
            SchedulerStep::Done(code) => scheduler_outcome(old(st)@, input@) == (None::<Option<u64>>, code, final(st)@),
            SchedulerStep::Offer(req) => {
                &&& scheduler_outcome(old(st)@, input@) == (Some(req.topoheight), SUCCESS, final(st)@)
                &&& req.target is None
                &&& req.entry_id == ENTRY_ON_SCHEDULED
                &&& req.input@ == Seq::<u8>::empty()
                &&& req.max_gas == SCHEDULED_GAS
                &&& req.offer_amount == 0
            },
        },
{
    let len = if input.len() <= SCHEDULER_INPUT {
        input.len()
    } else {
        SCHEDULER_INPUT
    };
    if len < 2 {
        return SchedulerStep::Done(ERR_SHORT_INPUT);
    }
    let data = copy_range(input, 0, len);
    let id = read_u16_at(data.as_slice(), 0);
    let params = copy_range(data.as_slice(), 2, len - 2);
    proof {
        let i = if input@.len() <= SCHEDULER_INPUT { input@ } else { input@.take(SCHEDULER_INPUT as int) };
        assert(data@ =~= i);
        assert(params@ =~= entry_params(input@, SCHEDULER_INPUT as int));
        assert(data@.subrange(0, 2) =~= input@.subrange(0, 2));
    }
    if id == 0 {
        if params.len() < 8 {
            let text = vec![0x6eu8, 0x65u8, 0x65u8, 0x64u8, 0x20u8, 0x38u8, 0x20u8, 0x62u8, 0x79u8, 0x74u8, 0x65u8, 0x73u8];
            assert(text@ =~= need_eight_bytes());
            st.write(key_last_error_vec().as_slice(), text.as_slice());
            return SchedulerStep::Done(ERR_SHORT_PARAMS);
        }
        let target_topo = read_u64_at(params.as_slice(), 0);
        SchedulerStep::Offer(own_offer(Some(target_topo)))
    } else if id == 1 {
        SchedulerStep::Offer(own_offer(None))
    } else if id == 2 {
        SchedulerStep::Done(on_scheduled_execution(st))
    } else {
        SchedulerStep::Done(ERR_UNKNOWN_ENTRY)
    }
}

/// The host's answer to the scheduler's offer: the handle is recorded
/// (with the topoheight, for a future call) and the entry point succeeds;
/// a refusal's code is recorded as the last error and answered.
pub open spec fn scheduler_answered(m: StorageMap, topoheight: Option<u64>, result: Result<u64, u64>) -> (u64, StorageMap) {
    match result {
        Ok(handle) => {
            let m1 = m.insert(key_handle(), le_bytes(handle as nat, 8));
            (SUCCESS, match topoheight {
                Some(t) => m1.insert(key_target_topo(), le_bytes(t as nat, 8)),
                None => m1,
            })
        },
        Err(code) => (code, m.insert(key_last_error(), le_bytes(code as nat, 8))),
    }
}

pub fn offer_answered(st: &mut Storage, topoheight: Option<u64>, result: Result<u64, u64>) -> (r: u64)
    ensures
        (r, final(st)@) == scheduler_answered(old(st)@, topoheight, result),
{
    match result {
        Ok(handle) => {
            write_u64(st, key_handle_vec().as_slice(), handle);
            match topoheight {
                Some(t) => write_u64(st, key_target_topo_vec().as_slice(), t),
                None => {},
            }
            SUCCESS
        },
        Err(code) => {
            write_u64(st, key_last_error_vec().as_slice(), code);
            code
        },
    }
}

/// Each execution is counted once, up to the saturation of the count.
pub proof fn law_execution_counted(m: StorageMap)
    requires
        padded_count(m, key_execution_count()) < u64::MAX,
    ensures
        padded_count(executed(m, key_execution_count()), key_execution_count())
            == padded_count(m, key_execution_count()) + 1,
{
    let c = padded_count(m, key_execution_count());
    crate::bytes::lemma_le_bytes_len((c + 1) as nat, 8);
    crate::bytes::lemma_pow256_values();
    crate::bytes::lemma_le_roundtrip((c + 1) as nat, 8);
    let m2 = executed(m, key_execution_count());
    assert(read_buffer(m2.get(key_execution_count()), 8) =~= le_bytes((c + 1) as nat, 8));
}

} // verus!

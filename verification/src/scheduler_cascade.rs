//! The cascading scheduler: a contract schedules a call of another
//! contract at a future topoheight, passing it the VRF output of the
//! current block, and the target records its own VRF output when the call
//! comes.
//!
//! Drawing VRF output and offering a call are the host's work: the entry
//! point takes the host's VRF output, answers either a status or the call
//! to offer, and the host's answer to the offer is handed back to finish
//! it.

use vstd::prelude::*;
use crate::bytes::{le_bytes, le_nat, read_u16_at, read_u64_at, address_at, copy_range};
use crate::storage::Storage;
use crate::cells::write_u64;
use crate::stablecoin::StorageMap;
use crate::scheduler::{
    SUCCESS, ENTRY_ON_CASCADE, CASCADE_GAS, ERR_SHORT_INPUT, ERR_UNKNOWN_ENTRY, ERR_SHORT_PARAMS, ERR_NO_VRF,
    CASCADE_INPUT, OfferRequest, SchedulerStep, entry_id, entry_params, executed, count_execution,
    key_cascade_handle, key_cascade_handle_vec, key_scheduler_vrf, key_scheduler_vrf_vec,
    key_target_contract, key_target_contract_vec, key_cascade_target_topo, key_cascade_target_topo_vec,
    key_target_vrf, key_target_vrf_vec, key_target_block_hash, key_target_block_hash_vec,
    key_cascade_exec_count, key_cascade_exec_count_vec, key_caller_vrf, key_caller_vrf_vec,
};

verus! {

/// The target and topoheight a cascade is scheduled with
/// (`[target:32][topoheight:8]`), when the parameters hold them.
pub open spec fn cascade_params(params: Seq<u8>) -> Option<(Seq<u8>, u64)> {
    if params.len() < 40 {
        None
    } else {
        Some((params.subrange(0, 32), le_nat(params.subrange(32, 40)) as u64))
    }
}

/// The cascade's entry point in `input` (at most 128 bytes read): its
/// entry id and parameters.
pub fn cascade_entry(input: &[u8]) -> (r: Option<(u16, Vec<u8>)>)
    ensures
        match r {
            None => input@.len() < 2,
            Some((id, params)) => input@.len() >= 2 && id == entry_id(input@) && params@ == entry_params(input@, CASCADE_INPUT as int),
        },
{
    let len = if input.len() <= CASCADE_INPUT {
        input.len()
    } else {
        CASCADE_INPUT
    };
    if len < 2 {
        return None;
    }
    let data = copy_range(input, 0, len);
    let id = read_u16_at(data.as_slice(), 0);
    let params = copy_range(data.as_slice(), 2, len - 2);
    proof {
        let i = if input@.len() <= CASCADE_INPUT { input@ } else { input@.take(CASCADE_INPUT as int) };
        assert(data@ =~= i);
        assert(params@ =~= entry_params(input@, CASCADE_INPUT as int));
        assert(data@.subrange(0, 2) =~= input@.subrange(0, 2));
    }
    Some((id, params))
}

/// Scheduling a cascade, once the host drew VRF output from the current
/// block hash: without it the status is 10; else the VRF output, the
/// target and the topoheight are recorded, and a call of the target's
/// entry `1`, passing the VRF output, is to be offered.
pub open spec fn cascade_scheduled(m: StorageMap, target: Seq<u8>, topoheight: u64, vrf: Result<Seq<u8>, u64>) -> (u64, StorageMap) {
    match vrf {
        Err(_) => (ERR_NO_VRF, m),
        Ok(random) => (SUCCESS, m.insert(key_scheduler_vrf(), random).insert(key_target_contract(), target).insert(
            key_cascade_target_topo(),
            le_bytes(topoheight as nat, 8),
        )),
    }
}

/// The host's VRF answer as handed in: `None` while no VRF output was
/// drawn yet.
pub open spec fn vrf_answer(vrf: Option<Result<[u8; 32], u64>>) -> Option<Result<Seq<u8>, u64>> {
    match vrf {
        Some(Ok(a)) => Some(Ok(a@)),
        Some(Err(e)) => Some(Err(e)),
        None => None,
    }
}

/// Schedules a cascade from `[target:32][topoheight:8]`: shorter parameters
/// answer 3 and change nothing, and no VRF output is drawn for them.
/// Otherwise the VRF output of the current block is needed: without it
/// (`vrf` is `None`) the answer is `None`, asking the host to draw it and
/// call again with its answer, and nothing changes; with it, as
/// [`cascade_scheduled`] says.
pub fn cascade_schedule(st: &mut Storage, params: &[u8], vrf: Option<Result<[u8; 32], u64>>) -> (r: Option<SchedulerStep>)
    ensures
        cascade_params(params@) is None ==> r == Some(SchedulerStep::Done(ERR_SHORT_PARAMS)) && final(st)@ == old(st)@,
        cascade_params(params@) is Some && vrf is None ==> r is None && final(st)@ == old(st)@,
        cascade_params(params@) is Some && vrf is Some ==> ({
            let (target, topo) = cascade_params(params@)->0;
            let vrf_view = vrf_answer(vrf)->0;
            let (code, m2) = cascade_scheduled(old(st)@, target, topo, vrf_view);
            &&& final(st)@ == m2
            &&& match r {
                None => false,
                Some(SchedulerStep::Done(c)) => c == code && code != SUCCESS,
                Some(SchedulerStep::Offer(req)) => {
                    &&& code == SUCCESS
                    &&& req.target matches Some(t) && t@ == target
                    &&& req.entry_id == ENTRY_ON_CASCADE
                    &&& vrf_view matches Ok(a) && req.input@ == a
                    &&& req.max_gas == CASCADE_GAS
                    &&& req.offer_amount == 0
                    &&& req.topoheight == Some(topo)
                },
            }
        }),
{
    if params.len() < 40 {
        return Some(SchedulerStep::Done(ERR_SHORT_PARAMS));
    }
    let target_contract = address_at(params, 0);
    let target_topo = read_u64_at(params, 32);
    let random = match vrf {
        None => return None,
        Some(Ok(r)) => r,
        Some(Err(_)) => return Some(SchedulerStep::Done(ERR_NO_VRF)),
    };
    st.write(key_scheduler_vrf_vec().as_slice(), random.as_slice());
    st.write(key_target_contract_vec().as_slice(), target_contract.as_slice());
    write_u64(st, key_cascade_target_topo_vec().as_slice(), target_topo);
    let input = copy_range(random.as_slice(), 0, 32);
    proof {
        assert(input@ =~= random@);
    }
    Some(SchedulerStep::Offer(OfferRequest {
        target: Some(target_contract),
        entry_id: ENTRY_ON_CASCADE,
        input,
        max_gas: CASCADE_GAS,
        offer_amount: 0,
        topoheight: Some(target_topo),
    }))
}

/// The host's answer to the cascade's offer: the handle is recorded and
/// the entry point succeeds; a refusal's code is answered.
pub fn offer_answered(st: &mut Storage, result: Result<u64, u64>) -> (r: u64)
    ensures
        match result {
            Ok(handle) => r == SUCCESS && final(st)@ == old(st)@.insert(key_cascade_handle(), le_bytes(handle as nat, 8)),
            Err(code) => r == code && final(st)@ == old(st)@,
        },
{
    match result {
        Ok(handle) => {
            write_u64(st, key_cascade_handle_vec().as_slice(), handle);
            SUCCESS
        },
        Err(code) => code,
    }
}

/// The target's side of a cascade: the caller's VRF output (the first 32
/// parameter bytes, when given) is recorded; then, with VRF output drawn
/// from the current block hash, that output and the block hash are
/// recorded and the execution counted; without it the status is 10.
pub open spec fn cascade_executed(m: StorageMap, params: Seq<u8>, block_hash: Seq<u8>, vrf: Result<Seq<u8>, u64>) -> (u64, StorageMap) {
    let m1 = if params.len() >= 32 {
        m.insert(key_caller_vrf(), params.subrange(0, 32))
    } else {
        m
    };
    match vrf {
        Err(_) => (ERR_NO_VRF, m1),
        Ok(random) => (SUCCESS, executed(
            m1.insert(key_target_vrf(), random).insert(key_target_block_hash(), block_hash),
            key_cascade_exec_count(),
        )),
    }
}

/// Records a cascade's execution, with the VRF output the host drew from
/// the current block hash; without it (`vrf` is `None`) the answer is
/// `None`, asking the host to draw it and call again, and nothing changes.
pub fn on_cascade_executed(st: &mut Storage, params: &[u8], block_hash: &[u8; 32], vrf: Option<Result<[u8; 32], u64>>) -> (r: Option<u64>)
    ensures
        vrf is None ==> r is None && final(st)@ == old(st)@,
        vrf is Some ==> r is Some && (r->0, final(st)@) == cascade_executed(old(st)@, params@, block_hash@, vrf_answer(vrf)->0),
{
    let answer = match vrf {
        None => return None,
        Some(v) => v,
    };
    if params.len() >= 32 {
        let caller_vrf = copy_range(params, 0, 32);
        st.write(key_caller_vrf_vec().as_slice(), caller_vrf.as_slice());
    }
    let random = match answer {
        Ok(r) => r,
        Err(_) => return Some(ERR_NO_VRF),
    };
    st.write(key_target_vrf_vec().as_slice(), random.as_slice());
    st.write(key_target_block_hash_vec().as_slice(), block_hash.as_slice());
    count_execution(st, key_cascade_exec_count_vec().as_slice());
    Some(SUCCESS)
}

/// What the cascade's entry points do (at most 128 input bytes read), given
/// the host's VRF output for the current block (used only where
/// [`needs_vrf`] holds): `0` schedules a cascade
/// (short parameters answer 3), answering the target, topoheight and input
/// of the call to offer; `1` records a cascade's execution; another entry
/// answers 2, and an input without an entry id 1.
pub open spec fn cascade_outcome(m: StorageMap, input: Seq<u8>, block_hash: Seq<u8>, vrf: Result<Seq<u8>, u64>) -> (Option<(Seq<u8>, u64, Seq<u8>)>, u64, StorageMap) {
    if input.len() < 2 {
        (None, ERR_SHORT_INPUT, m)
    } else {
        let id = entry_id(input);
        let params = entry_params(input, CASCADE_INPUT as int);
        if id == 0 {
            match cascade_params(params) {
                None => (None, ERR_SHORT_PARAMS, m),
                Some((target, topo)) => {
                    let (code, m2) = cascade_scheduled(m, target, topo, vrf);
                    match vrf {
                        Ok(random) => (Some((target, topo, random)), code, m2),
                        Err(_) => (None, code, m2),
                    }
                },
            }
        } else if id == 1 {
            let (code, m2) = cascade_executed(m, params, block_hash, vrf);
            (None, code, m2)
        } else {
            (None, ERR_UNKNOWN_ENTRY, m)
        }
    }
}

/// Whether the entry point in `input` needs VRF output of the current
/// block: scheduling a cascade with full parameters, or recording one.
pub open spec fn needs_vrf(input: Seq<u8>) -> bool {
    input.len() >= 2 && ((entry_id(input) == 0 && cascade_params(entry_params(input, CASCADE_INPUT as int))
        is Some) || entry_id(input) == 1)
}

/// Runs the cascade's entry point in `input`.  Where it needs VRF output
/// of the current block ([`needs_vrf`]) and `vrf` holds none yet, the
/// answer is `None`, asking the host to draw it from `block_hash` and call
/// again with its answer, and nothing changes; no VRF output is drawn for
/// other inputs.  An offer answered is made by the host, whose answer then
/// goes to [`offer_answered`].
pub fn entrypoint(st: &mut Storage, input: &[u8], block_hash: &[u8; 32], vrf: Option<Result<[u8; 32], u64>>) -> (r: Option<SchedulerStep>)
    ensures
        needs_vrf(input@) && vrf is None ==> r is None && final(st)@ == old(st)@,
        !(needs_vrf(input@) && vrf is None) ==> ({
            let vrf_view = match vrf_answer(vrf) {
                Some(v) => v,
                None => Err(0u64),
            };
            let (offer, code, m2) = cascade_outcome(old(st)@, input@, block_hash@, vrf_view);
            &&& final(st)@ == m2
            &&& match r {
                None => false,
                Some(SchedulerStep::Done(c)) => offer is None && c == code,
                Some(SchedulerStep::Offer(req)) => {
                    &&& code == SUCCESS
                    &&& offer matches Some((target, topo, data)) && req.target matches Some(t) && t@ == target
                        && req.topoheight == Some(topo) && req.input@ == data
                    &&& req.entry_id == ENTRY_ON_CASCADE
                    &&& req.max_gas == CASCADE_GAS
                    &&& req.offer_amount == 0
                },
            }
        }),
{
    match cascade_entry(input) {
        None => Some(SchedulerStep::Done(ERR_SHORT_INPUT)),
        Some((id, params)) => {
            if id == 0 {
                cascade_schedule(st, params.as_slice(), vrf)
            } else if id == 1 {
                match on_cascade_executed(st, params.as_slice(), block_hash, vrf) {
                    Some(code) => Some(SchedulerStep::Done(code)),
                    None => None,
                }
            } else {
                Some(SchedulerStep::Done(ERR_UNKNOWN_ENTRY))
            }
        },
    }
}

} // verus!

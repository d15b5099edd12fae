//! Reading the execution environment: who called, with what value, when,
//! on which chain; an owner set by the first caller; a record of the last
//! caller and of the number of calls; and checks built on them (owner only,
//! a minimum value, a time lock).

use vstd::prelude::*;
use crate::bytes::{le_bytes, bytes_eq};
use crate::storage::Storage;
use crate::cells::{u64_cell, address_cell, read_u64, write_u64, read_address, lemma_u64_cell_roundtrip};
use crate::stablecoin::StorageMap;

verus! {

pub const OP_SHOW_ENV: u8 = 0;
pub const OP_REQUIRE_OWNER: u8 = 1;
pub const OP_REQUIRE_VALUE: u8 = 2;
pub const OP_TIME_LOCK: u8 = 3;
pub const OP_CHAIN_SPECIFIC: u8 = 4;

/// The value `OP_REQUIRE_VALUE` asks for.
pub const MIN_VALUE: u64 = 1000;
/// How far in the future `OP_TIME_LOCK` sets its lock.
pub const LOCK_SECONDS: u64 = 3600;

pub const ERR_NOT_OWNER: u64 = 1;
pub const ERR_VALUE_TOO_LOW: u64 = 2;
pub const ERR_LOCKED: u64 = 3;

/// The most input bytes read.
pub const MAX_INPUT: usize = 256;

/// What the host tells a call about its environment.
pub struct CallEnv {
    pub caller: [u8; 32],
    pub value: u64,
    pub timestamp: u64,
    pub chain_id: u64,
}

/// `owner`
pub open spec fn key_owner() -> Seq<u8> {
    seq![0x6fu8, 0x77u8, 0x6eu8, 0x65u8, 0x72u8]
}

fn key_owner_vec() -> (r: Vec<u8>)
    ensures
        r@ == key_owner(),
{
    let v = vec![0x6fu8, 0x77u8, 0x6eu8, 0x65u8, 0x72u8];
    assert(v@ =~= key_owner());
    v
}

/// `last_caller`
pub open spec fn key_last_caller() -> Seq<u8> {
    seq![0x6cu8, 0x61u8, 0x73u8, 0x74u8, 0x5fu8, 0x63u8, 0x61u8, 0x6cu8, 0x6cu8, 0x65u8, 0x72u8]
}

fn key_last_caller_vec() -> (r: Vec<u8>)
    ensures
        r@ == key_last_caller(),
{
    let v = vec![0x6cu8, 0x61u8, 0x73u8, 0x74u8, 0x5fu8, 0x63u8, 0x61u8, 0x6cu8, 0x6cu8, 0x65u8, 0x72u8];
    assert(v@ =~= key_last_caller());
    v
}

/// `call_count`
pub open spec fn key_call_count() -> Seq<u8> {
    seq![0x63u8, 0x61u8, 0x6cu8, 0x6cu8, 0x5fu8, 0x63u8, 0x6fu8, 0x75u8, 0x6eu8, 0x74u8]
}

fn key_call_count_vec() -> (r: Vec<u8>)
    ensures
        r@ == key_call_count(),
{
    let v = vec![0x63u8, 0x61u8, 0x6cu8, 0x6cu8, 0x5fu8, 0x63u8, 0x6fu8, 0x75u8, 0x6eu8, 0x74u8];
    assert(v@ =~= key_call_count());
    v
}

proof fn lemma_keys_distinct()
    ensures
        key_owner() != key_last_caller(),
        key_owner() != key_call_count(),
        key_last_caller() != key_call_count(),
{
    assert(key_owner().len() != key_last_caller().len());
    assert(key_owner().len() != key_call_count().len());
    assert(key_last_caller().len() != key_call_count().len());
}

/// The owner, when 32 bytes are stored for it.
pub open spec fn owner(m: StorageMap) -> Option<Seq<u8>> {
    address_cell(m.get(key_owner()))
}

pub open spec fn call_count(m: StorageMap) -> u64 {
    match u64_cell(m.get(key_call_count())) {
        Some(v) => v,
        None => 0,
    }
}

pub fn read_owner(st: &Storage) -> (r: Option<[u8; 32]>)
    ensures
        match r {
            Some(a) => owner(st@) == Some(a@),
            None => owner(st@) is None,
        },
{
    read_address(st, key_owner_vec().as_slice())
}

/// The first caller becomes the owner.
pub open spec fn owner_initialized(m: StorageMap, caller: Seq<u8>) -> StorageMap {
    if owner(m) is None {
        m.insert(key_owner(), caller)
    } else {
        m
    }
}

pub fn initialize_owner(st: &mut Storage, caller: &[u8; 32])
    ensures
        final(st)@ == owner_initialized(old(st)@, caller@),
{
    if read_owner(st).is_none() {
        st.write(key_owner_vec().as_slice(), caller.as_slice());
    }
}

pub fn is_owner(st: &Storage, caller: &[u8; 32]) -> (r: bool)
    ensures
        r == (owner(st@) == Some(caller@)),
{
    match read_owner(st) {
        Some(owner) => bytes_eq(caller.as_slice(), owner.as_slice()),
        None => false,
    }
}

/// Recording a call: the caller becomes the last caller and the call count
/// grows by one.
pub open spec fn call_recorded(m: StorageMap, caller: Seq<u8>) -> StorageMap {
    let m1 = m.insert(key_last_caller(), caller);
    m1.insert(key_call_count(), le_bytes((call_count(m1) + 1) as nat, 8))
}

pub fn record_call_info(st: &mut Storage, env: &CallEnv)
    requires
        call_count(old(st)@) < u64::MAX,
    ensures
        final(st)@ == call_recorded(old(st)@, env.caller@),
{
    st.write(key_last_caller_vec().as_slice(), env.caller.as_slice());
    proof {
        lemma_keys_distinct();
    }
    let count = match read_u64(st, key_call_count_vec().as_slice()) {
        Some(v) => v,
        None => 0,
    };
    write_u64(st, key_call_count_vec().as_slice(), count + 1);
}

/// `show_environment` only reads the environment.
pub fn show_environment(env: &CallEnv) -> (r: u64)
    ensures
        r == 0,
{
    let _value = env.value;
    let _timestamp = env.timestamp;
    let _chain_id = env.chain_id;
    0
}

pub fn require_owner(st: &Storage, env: &CallEnv) -> (r: u64)
    ensures
        r == if owner(st@) == Some(env.caller@) { 0 } else { ERR_NOT_OWNER },
{
    if is_owner(st, &env.caller) {
        0
    } else {
        ERR_NOT_OWNER
    }
}

pub fn require_minimum_value(env: &CallEnv, min_value: u64) -> (r: u64)
    ensures
        r == if env.value >= min_value { 0 } else { ERR_VALUE_TOO_LOW },
{
    if env.value >= min_value {
        0
    } else {
        ERR_VALUE_TOO_LOW
    }
}

pub fn time_locked_function(env: &CallEnv, unlock_time: u64) -> (r: u64)
    ensures
        r == if env.timestamp >= unlock_time { 0 } else { ERR_LOCKED },
{
    if env.timestamp >= unlock_time {
        0
    } else {
        ERR_LOCKED
    }
}

/// The chain-specific branch succeeds on every chain.
pub fn chain_specific_logic(env: &CallEnv) -> (r: u64)
    ensures
        r == 0,
{
    let _chain_id = env.chain_id;
    0
}

/// An instruction (at most 256 bytes read), after the first caller became
/// the owner and the call was recorded: `1` requires the owner, `2` a value
/// of at least 1000, `3` a time lock an hour from now; an empty input, `0`,
/// `4` and other opcodes succeed.
pub open spec fn instruction_outcome(m: StorageMap, caller: Seq<u8>, value: u64, timestamp: u64, data: Seq<u8>) -> (u64, StorageMap) {
    let m1 = call_recorded(owner_initialized(m, caller), caller);
    if data.len() == 0 {
        (0, m1)
    } else if data[0] == OP_REQUIRE_OWNER {
        (if owner(m1) == Some(caller) { 0 } else { ERR_NOT_OWNER }, m1)
    } else if data[0] == OP_REQUIRE_VALUE {
        (if value >= MIN_VALUE { 0 } else { ERR_VALUE_TOO_LOW }, m1)
    } else if data[0] == OP_TIME_LOCK {
        (if timestamp >= timestamp + LOCK_SECONDS { 0 } else { ERR_LOCKED }, m1)
    } else {
        (0, m1)
    }
}

pub open spec fn instruction_completes(m: StorageMap, caller: Seq<u8>, timestamp: u64, data: Seq<u8>) -> bool {
    &&& call_count(owner_initialized(m, caller).insert(key_last_caller(), caller)) < u64::MAX
    &&& data.len() > 0 && data[0] == OP_TIME_LOCK ==> timestamp + LOCK_SECONDS <= u64::MAX
}

pub fn entrypoint(st: &mut Storage, env: &CallEnv, data: &[u8]) -> (r: u64)
    requires
        instruction_completes(old(st)@, env.caller@, env.timestamp, data@),
    ensures
        (r, final(st)@) == instruction_outcome(old(st)@, env.caller@, env.value, env.timestamp, data@),
{
    initialize_owner(st, &env.caller);
    proof {
        lemma_keys_distinct();
    }
    record_call_info(st, env);
    if data.len() == 0 {
        return show_environment(env);
    }
    let op = data[0];
    if op == OP_SHOW_ENV {
        show_environment(env)
    } else if op == OP_REQUIRE_OWNER {
        require_owner(st, env)
    } else if op == OP_REQUIRE_VALUE {
        require_minimum_value(env, MIN_VALUE)
    } else if op == OP_TIME_LOCK {
        let unlock_time = env.timestamp + LOCK_SECONDS;
        time_locked_function(env, unlock_time)
    } else if op == OP_CHAIN_SPECIFIC {
        chain_specific_logic(env)
    } else {
        show_environment(env)
    }
}

/// Within one call the timestamp does not move, so the time-lock
/// instruction, which locks until an hour after the call's own time, always
/// answers locked; and every call is counted.
pub proof fn law_time_lock_never_opens(m: StorageMap, caller: Seq<u8>, value: u64, timestamp: u64, data: Seq<u8>)
    requires
        data.len() > 0,
        data[0] == OP_TIME_LOCK,
        instruction_completes(m, caller, timestamp, data),
    ensures
        instruction_outcome(m, caller, value, timestamp, data).0 == ERR_LOCKED,
{
}

/// Every call is counted once and records its caller; the first caller
/// owns the contract from then on.
pub proof fn law_calls_counted(m: StorageMap, caller: Seq<u8>, value: u64, timestamp: u64, data: Seq<u8>)
    requires
        instruction_completes(m, caller, timestamp, data),
    ensures
        ({
            let m2 = instruction_outcome(m, caller, value, timestamp, data).1;
            &&& call_count(m2) == call_count(m) + 1
            &&& m2.get(key_last_caller()) == Some(caller)
            &&& owner(m) is Some ==> owner(m2) == owner(m)
        }),
{
    lemma_keys_distinct();
    let m0 = owner_initialized(m, caller);
    assert(call_count(m0.insert(key_last_caller(), caller)) == call_count(m));
    lemma_u64_cell_roundtrip((call_count(m) + 1) as u64);
}

} // verus!

//! An emergency stop in the OpenZeppelin style: the owner pauses and
//! unpauses the contract, and anyone may ask whether it is paused and who
//! owns it.
//!
//! Each instruction is `[opcode][params]` and answers a status code (0 for
//! success) and, for the queries, return data.

use vstd::prelude::*;
use crate::bytes::{address_at, copy_range, append_bytes, bytes_eq};
use crate::storage::Storage;
use crate::cells::{address_cell, read_address};
use crate::stablecoin::StorageMap;

verus! {

pub const OP_INITIALIZE: u8 = 0x00;
pub const OP_PAUSE: u8 = 0x01;
pub const OP_UNPAUSE: u8 = 0x02;
pub const OP_PAUSED: u8 = 0x10;
pub const OP_OWNER: u8 = 0x11;

pub const SUCCESS: u64 = 0;
pub const ERR_PAUSED: u64 = 1001;
pub const ERR_NOT_PAUSED: u64 = 1002;
pub const ERR_UNAUTHORIZED: u64 = 1003;
pub const ERR_ALREADY_INITIALIZED: u64 = 1004;
pub const ERR_NOT_INITIALIZED: u64 = 1005;
pub const ERR_INVALID_INSTRUCTION: u64 = 1006;
pub const ERR_INVALID_PARAMS: u64 = 1007;

/// The most input bytes an instruction is read from.
pub const MAX_INPUT: usize = 256;

// ---------------------------------------------------------------------------
// Storage
// ---------------------------------------------------------------------------

pub open spec fn key_initialized() -> Seq<u8> {
    seq![0x01u8]
}

pub open spec fn key_paused() -> Seq<u8> {
    seq![0x02u8]
}

pub open spec fn key_owner() -> Seq<u8> {
    seq![0x03u8]
}

fn byte_key(b: u8) -> (r: Vec<u8>)
    ensures
        r@ == seq![b],
{
    let v = vec![b];
    assert(v@ =~= seq![b]);
    v
}

/// A flag is set when its first stored byte is 1.
pub open spec fn flag(m: StorageMap, k: Seq<u8>) -> bool {
    match m.get(k) {
        Some(s) => s.len() > 0 && s[0] == 1,
        None => false,
    }
}

pub open spec fn initialized(m: StorageMap) -> bool {
    flag(m, key_initialized())
}

pub open spec fn paused(m: StorageMap) -> bool {
    flag(m, key_paused())
}

/// The owner, the zero address unless 32 bytes are stored.
pub open spec fn owner(m: StorageMap) -> Seq<u8> {
    match address_cell(m.get(key_owner())) {
        Some(a) => a,
        None => Seq::new(32, |i: int| 0u8),
    }
}

fn read_flag(st: &Storage, key: u8) -> (r: bool)
    ensures
        r == flag(st@, seq![key]),
{
    let (buf, len) = st.read(byte_key(key).as_slice(), 1);
    len > 0 && buf[0] == 1
}

pub fn is_initialized(st: &Storage) -> (r: bool)
    ensures
        r == initialized(st@),
{
    read_flag(st, 0x01)
}

pub fn is_paused(st: &Storage) -> (r: bool)
    ensures
        r == paused(st@),
{
    read_flag(st, 0x02)
}

pub fn set_paused(st: &mut Storage, paused: bool)
    ensures
        final(st)@ == old(st)@.insert(key_paused(), if paused { seq![1u8] } else { seq![0u8] }),
{
    let v = byte_key(if paused { 1 } else { 0 });
    st.write(byte_key(0x02).as_slice(), v.as_slice());
}

pub fn get_owner(st: &Storage) -> (r: [u8; 32])
    ensures
        r@ == owner(st@),
{
    match read_address(st, byte_key(0x03).as_slice()) {
        Some(a) => a,
        None => {
            let z = [0u8; 32];
            assert(z@ =~= Seq::new(32, |i: int| 0u8));
            z
        },
    }
}

/// The sender is the owner.
pub fn require_owner(st: &Storage, sender: &[u8; 32]) -> (r: Result<(), u64>)
    ensures
        r == (if sender@ == owner(st@) { Ok::<(), u64>(()) } else { Err(ERR_UNAUTHORIZED) }),
{
    let owner = get_owner(st);
    if !bytes_eq(sender.as_slice(), owner.as_slice()) {
        return Err(ERR_UNAUTHORIZED);
    }
    Ok(())
}

pub fn require_paused(st: &Storage) -> (r: Result<(), u64>)
    ensures
        r == (if paused(st@) { Ok::<(), u64>(()) } else { Err(ERR_NOT_PAUSED) }),
{
    if !is_paused(st) {
        return Err(ERR_NOT_PAUSED);
    }
    Ok(())
}

pub fn require_not_paused(st: &Storage) -> (r: Result<(), u64>)
    ensures
        r == (if paused(st@) { Err(ERR_PAUSED) } else { Ok::<(), u64>(()) }),
{
    if is_paused(st) {
        return Err(ERR_PAUSED);
    }
    Ok(())
}

// ---------------------------------------------------------------------------
// Operations
// ---------------------------------------------------------------------------

/// `INITIALIZE` (`[owner:32]`): stores the owner, unpaused, once.
pub open spec fn initialize_outcome(m: StorageMap, p: Seq<u8>) -> (u64, StorageMap) {
    if initialized(m) {
        (ERR_ALREADY_INITIALIZED, m)
    } else if p.len() < 32 {
        (ERR_INVALID_PARAMS, m)
    } else {
        (SUCCESS, m.insert(key_owner(), p.take(32)).insert(key_paused(), seq![0u8]).insert(key_initialized(), seq![1u8]))
    }
}

pub fn op_initialize(st: &mut Storage, params: &[u8]) -> (r: u64)
    ensures
        (r, final(st)@) == initialize_outcome(old(st)@, params@),
{
    if is_initialized(st) {
        return ERR_ALREADY_INITIALIZED;
    }
    if params.len() < 32 {
        return ERR_INVALID_PARAMS;
    }
    let owner = address_at(params, 0);
    st.write(byte_key(0x03).as_slice(), owner.as_slice());
    set_paused(st, false);
    st.write(byte_key(0x01).as_slice(), byte_key(1).as_slice());
    proof {
        assert(owner@ =~= params@.take(32));
    }
    SUCCESS
}

/// `PAUSE` (when `on`) or `UNPAUSE`: the owner moves an initialized
/// contract into the other state.
pub open spec fn pause_outcome(m: StorageMap, sender: Seq<u8>, on: bool) -> (u64, StorageMap) {
    if !initialized(m) {
        (ERR_NOT_INITIALIZED, m)
    } else if sender != owner(m) {
        (ERR_UNAUTHORIZED, m)
    } else if on && paused(m) {
        (ERR_PAUSED, m)
    } else if !on && !paused(m) {
        (ERR_NOT_PAUSED, m)
    } else {
        (SUCCESS, m.insert(key_paused(), if on { seq![1u8] } else { seq![0u8] }))
    }
}

pub fn op_pause(st: &mut Storage, sender: &[u8; 32]) -> (r: u64)
    ensures
        (r, final(st)@) == pause_outcome(old(st)@, sender@, true),
{
    if !is_initialized(st) {
        return ERR_NOT_INITIALIZED;
    }
    if let Err(e) = require_owner(st, sender) {
        return e;
    }
    if let Err(e) = require_not_paused(st) {
        return e;
    }
    set_paused(st, true);
    SUCCESS
}

pub fn op_unpause(st: &mut Storage, sender: &[u8; 32]) -> (r: u64)
    ensures
        (r, final(st)@) == pause_outcome(old(st)@, sender@, false),
{
    if !is_initialized(st) {
        return ERR_NOT_INITIALIZED;
    }
    if let Err(e) = require_owner(st, sender) {
        return e;
    }
    if let Err(e) = require_paused(st) {
        return e;
    }
    set_paused(st, false);
    SUCCESS
}

/// `PAUSED`: one byte, 1 when paused.
pub open spec fn paused_result(m: StorageMap) -> Result<Seq<u8>, u64> {
    if !initialized(m) {
        Err(ERR_NOT_INITIALIZED)
    } else {
        Ok(if paused(m) { seq![1u8] } else { seq![0u8] })
    }
}

pub fn op_query_paused(st: &Storage) -> (r: Result<Vec<u8>, u64>)
    ensures
        crate::usdt::answer(r) == paused_result(st@),
{
    if !is_initialized(st) {
        return Err(ERR_NOT_INITIALIZED);
    }
    Ok(byte_key(if is_paused(st) { 1 } else { 0 }))
}

/// `OWNER`: the owner's address.
pub open spec fn owner_result(m: StorageMap) -> Result<Seq<u8>, u64> {
    if !initialized(m) {
        Err(ERR_NOT_INITIALIZED)
    } else {
        Ok(owner(m))
    }
}

pub fn op_query_owner(st: &Storage) -> (r: Result<Vec<u8>, u64>)
    ensures
        crate::usdt::answer(r) == owner_result(st@),
{
    if !is_initialized(st) {
        return Err(ERR_NOT_INITIALIZED);
    }
    let owner = get_owner(st);
    let mut v = Vec::new();
    append_bytes(&mut v, owner.as_slice());
    proof {
        assert(v@ =~= owner@);
    }
    Ok(v)
}

// ---------------------------------------------------------------------------
// Entry point
// ---------------------------------------------------------------------------

/// Status and return data of a query answer.
pub open spec fn query_status(r: Result<Seq<u8>, u64>) -> (u64, Seq<u8>) {
    match r {
        Ok(d) => (SUCCESS, d),
        Err(e) => (e, Seq::empty()),
    }
}

/// Status, return data and storage after an instruction from `sender` (at
/// most 256 bytes are read).
pub open spec fn instruction_outcome(m: StorageMap, sender: Seq<u8>, data: Seq<u8>) -> (u64, Seq<u8>, StorageMap) {
    let input = if data.len() <= MAX_INPUT {
        data
    } else {
        data.take(MAX_INPUT as int)
    };
    if input.len() == 0 {
        (ERR_INVALID_INSTRUCTION, Seq::empty(), m)
    } else {
        let op = input[0];
        let p = input.subrange(1, input.len() as int);
        let w = |r: (u64, StorageMap)| (r.0, Seq::<u8>::empty(), r.1);
        let q = |r: Result<Seq<u8>, u64>| (query_status(r).0, query_status(r).1, m);
        if op == OP_INITIALIZE {
            w(initialize_outcome(m, p))
        } else if op == OP_PAUSE {
            w(pause_outcome(m, sender, true))
        } else if op == OP_UNPAUSE {
            w(pause_outcome(m, sender, false))
        } else if op == OP_PAUSED {
            q(paused_result(m))
        } else if op == OP_OWNER {
            q(owner_result(m))
        } else {
            (ERR_INVALID_INSTRUCTION, Seq::empty(), m)
        }
    }
}

fn query(r: Result<Vec<u8>, u64>) -> (out: (u64, Vec<u8>))
    ensures
        (out.0, out.1@) == query_status(crate::usdt::answer(r)),
{
    match r {
        Ok(d) => (SUCCESS, d),
        Err(e) => (e, Vec::new()),
    }
}

/// Runs one instruction from `sender`; answers the status and the return
/// data.
pub fn entrypoint(st: &mut Storage, sender: &[u8; 32], data: &[u8]) -> (r: (u64, Vec<u8>))
    ensures
        (r.0, r.1@, final(st)@) == instruction_outcome(old(st)@, sender@, data@),
{
    let len = if data.len() <= MAX_INPUT {
        data.len()
    } else {
        MAX_INPUT
    };
    if len == 0 {
        return (ERR_INVALID_INSTRUCTION, Vec::new());
    }
    let input = copy_range(data, 0, len);
    proof {
        assert(input@ =~= (if data@.len() <= MAX_INPUT { data@ } else { data@.take(MAX_INPUT as int) }));
    }
    let opcode = input[0];
    let params = copy_range(input.as_slice(), 1, len - 1);
    if opcode == OP_INITIALIZE {
        (op_initialize(st, params.as_slice()), Vec::new())
    } else if opcode == OP_PAUSE {
        (op_pause(st, sender), Vec::new())
    } else if opcode == OP_UNPAUSE {
        (op_unpause(st, sender), Vec::new())
    } else if opcode == OP_PAUSED {
        query(op_query_paused(st))
    } else if opcode == OP_OWNER {
        query(op_query_owner(st))
    } else {
        (ERR_INVALID_INSTRUCTION, Vec::new())
    }
}

// ---------------------------------------------------------------------------
// Laws
// ---------------------------------------------------------------------------

/// Only the owner pauses or unpauses; pausing sets the flag and unpausing
/// clears it, and neither can be repeated.
pub proof fn law_pause_unpause(m: StorageMap, sender: Seq<u8>, sender2: Seq<u8>)
    ensures
        pause_outcome(m, sender, true).0 == SUCCESS ==> {
            let m2 = pause_outcome(m, sender, true).1;
            &&& sender == owner(m)
            &&& paused(m2)
            &&& pause_outcome(m2, sender2, true).0 != SUCCESS
        },
        pause_outcome(m, sender, false).0 == SUCCESS ==> {
            let m2 = pause_outcome(m, sender, false).1;
            &&& sender == owner(m)
            &&& !paused(m2)
            &&& pause_outcome(m2, sender2, false).0 != SUCCESS
        },
{
}

/// A contract is initialized once: the first success records the owner,
/// unpaused, and every later initialization is refused.
pub proof fn law_initialize_once(m: StorageMap, p: Seq<u8>, p2: Seq<u8>)
    requires
        initialize_outcome(m, p).0 == SUCCESS,
    ensures
        ({
            let m2 = initialize_outcome(m, p).1;
            &&& owner(m2) == p.take(32)
            &&& !paused(m2)
            &&& initialize_outcome(m2, p2) == (ERR_ALREADY_INITIALIZED, m2)
        }),
{
    assert(key_owner()[0] != key_paused()[0]);
    assert(key_owner()[0] != key_initialized()[0]);
    assert(key_paused()[0] != key_initialized()[0]);
    assert(p.take(32).take(32) =~= p.take(32));
}

} // verus!

//! Single-owner access control in the OpenZeppelin style: an empty
//! instruction makes the sender the owner; the owner may hand ownership to
//! a non-zero address or renounce it, leaving the zero address.

use vstd::prelude::*;
use crate::bytes::{address_at, copy_range, append_bytes, bytes_eq, all_zero, is_zero_address};
use crate::storage::Storage;
use crate::cells::{address_cell, read_address};
use crate::stablecoin::StorageMap;

verus! {

pub const OP_TRANSFER_OWNERSHIP: u8 = 0x00;
pub const OP_RENOUNCE_OWNERSHIP: u8 = 0x01;
pub const OP_OWNER: u8 = 0x10;

pub const SUCCESS: u64 = 0;
pub const ERR_UNAUTHORIZED: u64 = 1001;
pub const ERR_ZERO_ADDRESS: u64 = 1002;
pub const ERR_INVALID_INSTRUCTION: u64 = 1003;
pub const ERR_INVALID_PARAMS: u64 = 1004;

/// The most input bytes an instruction is read from.
pub const MAX_INPUT: usize = 1024;

pub open spec fn key_owner() -> Seq<u8> {
    seq![0x01u8]
}

fn owner_key_vec() -> (r: Vec<u8>)
    ensures
        r@ == key_owner(),
{
    let v = vec![0x01u8];
    assert(v@ =~= key_owner());
    v
}

pub open spec fn zero_address() -> Seq<u8> {
    Seq::new(32, |i: int| 0u8)
}

/// The owner, the zero address unless 32 bytes are stored.
pub open spec fn owner(m: StorageMap) -> Seq<u8> {
    match address_cell(m.get(key_owner())) {
        Some(a) => a,
        None => zero_address(),
    }
}

pub fn get_owner(st: &Storage) -> (r: [u8; 32])
    ensures
        r@ == owner(st@),
{
    match read_address(st, owner_key_vec().as_slice()) {
        Some(a) => a,
        None => {
            let z = [0u8; 32];
            assert(z@ =~= zero_address());
            z
        },
    }
}

pub fn set_owner(st: &mut Storage, owner: &[u8; 32])
    ensures
        final(st)@ == old(st)@.insert(key_owner(), owner@),
{
    st.write(owner_key_vec().as_slice(), owner.as_slice());
}

pub fn is_owner(st: &Storage, sender: &[u8; 32]) -> (r: bool)
    ensures
        r == (sender@ == owner(st@)),
{
    let owner = get_owner(st);
    bytes_eq(sender.as_slice(), owner.as_slice())
}

/// `TRANSFER_OWNERSHIP` (`[new_owner:32]`): the owner hands ownership to a
/// non-zero address.
pub open spec fn transfer_outcome(m: StorageMap, sender: Seq<u8>, p: Seq<u8>) -> (u64, StorageMap) {
    if sender != owner(m) {
        (ERR_UNAUTHORIZED, m)
    } else if p.len() < 32 {
        (ERR_INVALID_PARAMS, m)
    } else if all_zero(p.take(32)) {
        (ERR_ZERO_ADDRESS, m)
    } else {
        (SUCCESS, m.insert(key_owner(), p.take(32)))
    }
}

pub fn op_transfer_ownership(st: &mut Storage, sender: &[u8; 32], params: &[u8]) -> (r: u64)
    ensures
        (r, final(st)@) == transfer_outcome(old(st)@, sender@, params@),
{
    if !is_owner(st, sender) {
        return ERR_UNAUTHORIZED;
    }
    if params.len() < 32 {
        return ERR_INVALID_PARAMS;
    }
    let new_owner = address_at(params, 0);
    proof {
        assert(new_owner@ =~= params@.take(32));
    }
    if is_zero_address(&new_owner) {
        return ERR_ZERO_ADDRESS;
    }
    set_owner(st, &new_owner);
    SUCCESS
}

/// `RENOUNCE_OWNERSHIP`: the owner leaves the zero address as owner.
pub open spec fn renounce_outcome(m: StorageMap, sender: Seq<u8>) -> (u64, StorageMap) {
    if sender != owner(m) {
        (ERR_UNAUTHORIZED, m)
    } else {
        (SUCCESS, m.insert(key_owner(), zero_address()))
    }
}

pub fn op_renounce_ownership(st: &mut Storage, sender: &[u8; 32]) -> (r: u64)
    ensures
        (r, final(st)@) == renounce_outcome(old(st)@, sender@),
{
    if !is_owner(st, sender) {
        return ERR_UNAUTHORIZED;
    }
    let zero = [0u8; 32];
    assert(zero@ =~= zero_address());
    set_owner(st, &zero);
    SUCCESS
}

pub fn op_owner(st: &Storage) -> (r: Vec<u8>)
    ensures
        r@ == owner(st@),
{
    let owner = get_owner(st);
    let mut v = Vec::new();
    append_bytes(&mut v, owner.as_slice());
    proof {
        assert(v@ =~= owner@);
    }
    v
}

/// Status, return data and storage after an instruction from `sender` (at
/// most 1024 bytes are read); an empty instruction makes the sender the
/// owner.
pub open spec fn instruction_outcome(m: StorageMap, sender: Seq<u8>, data: Seq<u8>) -> (u64, Seq<u8>, StorageMap) {
    let input = if data.len() <= MAX_INPUT {
        data
    } else {
        data.take(MAX_INPUT as int)
    };
    if input.len() == 0 {
        (SUCCESS, Seq::empty(), m.insert(key_owner(), sender))
    } else {
        let op = input[0];
        let p = input.subrange(1, input.len() as int);
        if op == OP_TRANSFER_OWNERSHIP {
            (transfer_outcome(m, sender, p).0, Seq::empty(), transfer_outcome(m, sender, p).1)
        } else if op == OP_RENOUNCE_OWNERSHIP {
            (renounce_outcome(m, sender).0, Seq::empty(), renounce_outcome(m, sender).1)
        } else if op == OP_OWNER {
            (SUCCESS, owner(m), m)
        } else {
            (ERR_INVALID_INSTRUCTION, Seq::empty(), m)
        }
    }
}

pub fn entrypoint(st: &mut Storage, sender: &[u8; 32], data: &[u8]) -> (r: (u64, Vec<u8>))
    ensures
        (r.0, r.1@, final(st)@) == instruction_outcome(old(st)@, sender@, data@),
{
    let len = if data.len() <= MAX_INPUT {
        data.len()
    } else {
        MAX_INPUT
    };
    if len == 0 {
        set_owner(st, sender);
        return (SUCCESS, Vec::new());
    }
    let input = copy_range(data, 0, len);
    proof {
        assert(input@ =~= (if data@.len() <= MAX_INPUT { data@ } else { data@.take(MAX_INPUT as int) }));
    }
    let opcode = input[0];
    let params = copy_range(input.as_slice(), 1, len - 1);
    if opcode == OP_TRANSFER_OWNERSHIP {
        (op_transfer_ownership(st, sender, params.as_slice()), Vec::new())
    } else if opcode == OP_RENOUNCE_OWNERSHIP {
        (op_renounce_ownership(st, sender), Vec::new())
    } else if opcode == OP_OWNER {
        (SUCCESS, op_owner(st))
    } else {
        (ERR_INVALID_INSTRUCTION, Vec::new())
    }
}

/// Only the owner changes ownership; a transfer hands it to the new
/// address, which alone may act as owner afterwards; after renouncing,
/// the owner is the zero address and no sender other than the zero address
/// is the owner.
pub proof fn law_ownership(m: StorageMap, sender: Seq<u8>, p: Seq<u8>, other: Seq<u8>)
    requires
        sender.len() == 32,
    ensures
        transfer_outcome(m, sender, p).0 == SUCCESS ==> {
            let m2 = transfer_outcome(m, sender, p).1;
            &&& sender == owner(m)
            &&& owner(m2) == p.take(32)
            &&& other != p.take(32) ==> transfer_outcome(m2, other, p).0 == ERR_UNAUTHORIZED
        },
        renounce_outcome(m, sender).0 == SUCCESS ==> {
            let m2 = renounce_outcome(m, sender).1;
            &&& sender == owner(m)
            &&& owner(m2) == zero_address()
            &&& other != zero_address() ==> renounce_outcome(m2, other).0 == ERR_UNAUTHORIZED
        },
{
    if p.len() >= 32 {
        assert(p.take(32).take(32) =~= p.take(32));
    }
    assert(zero_address().take(32) =~= zero_address());
}

} // verus!

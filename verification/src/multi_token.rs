//! A minimal ERC-1155 multi-token ledger: balances per account and token
//! id, operators approved for all of an owner's tokens, minting by the
//! contract owner, and a supply per token id.

use vstd::prelude::*;
use crate::bytes::{le_bytes, le_nat, append_bytes, bytes_eq, all_zero, is_zero_address, address_at,
    le_decode, le_encode, lemma_le_bytes_len, lemma_le_bytes_injective, lemma_pow256_values};
use crate::storage::Storage;
use crate::cells::{u128_cell, bool_cell, address_cell, read_u128, write_u128, read_bool, read_address,
    lemma_u128_cell_roundtrip};
use crate::stablecoin::StorageMap;

verus! {

pub const ERR_NOT_AUTHORIZED: u64 = 1101;
pub const ERR_ZERO_ADDRESS: u64 = 1102;
pub const ERR_INSUFFICIENT_BALANCE: u64 = 1103;
pub const ERR_SAME_ADDRESS: u64 = 1104;
pub const ERR_ONLY_OWNER: u64 = 1105;
pub const ERR_STORAGE: u64 = 1106;
pub const ERR_INVALID_INPUT: u64 = 1107;

// ---------------------------------------------------------------------------
// Storage
// ---------------------------------------------------------------------------

/// `owner`
pub open spec fn key_owner() -> Seq<u8> {
    seq![0x6fu8, 0x77u8, 0x6eu8, 0x65u8, 0x72u8]
}

fn key_owner_vec() -> (r: Vec<u8>)
    ensures
        r@ == key_owner(),
{
    let v = vec![0x6fu8, 0x77u8, 0x6eu8, 0x65u8, 0x72u8];
    assert(v@ =~= key_owner());
    v
}

/// `appr:`, the owner and the operator.
pub open spec fn approval_key(owner: Seq<u8>, operator: Seq<u8>) -> Seq<u8> {
    seq![0x61u8, 0x70u8, 0x70u8, 0x72u8, 0x3au8] + owner + operator
}

fn approval_key_vec(owner: &[u8; 32], operator: &[u8; 32]) -> (r: Vec<u8>)
    ensures
        r@ == approval_key(owner@, operator@),
{
    let mut v = vec![0x61u8, 0x70u8, 0x70u8, 0x72u8, 0x3au8];
    append_bytes(&mut v, owner.as_slice());
    append_bytes(&mut v, operator.as_slice());
    proof {
        assert(v@ =~= approval_key(owner@, operator@));
    }
    v
}

/// `bal:`, the account and the token id in 16 little-endian bytes.
pub open spec fn balance_key(account: Seq<u8>, token_id: u128) -> Seq<u8> {
    seq![0x62u8, 0x61u8, 0x6cu8, 0x3au8] + account + le_bytes(token_id as nat, 16)
}

pub fn make_balance_key(account: &[u8; 32], token_id: u128) -> (r: Vec<u8>)
    ensures
        r@ == balance_key(account@, token_id),
{
    let mut v = vec![0x62u8, 0x61u8, 0x6cu8, 0x3au8];
    append_bytes(&mut v, account.as_slice());
    append_bytes(&mut v, le_encode(token_id, 16).as_slice());
    proof {
        assert(v@ =~= balance_key(account@, token_id));
    }
    v
}

/// `sup:` and the token id in 16 little-endian bytes.
pub open spec fn supply_key(token_id: u128) -> Seq<u8> {
    seq![0x73u8, 0x75u8, 0x70u8, 0x3au8] + le_bytes(token_id as nat, 16)
}

pub fn make_supply_key(token_id: u128) -> (r: Vec<u8>)
    ensures
        r@ == supply_key(token_id),
{
    let mut v = vec![0x73u8, 0x75u8, 0x70u8, 0x3au8];
    append_bytes(&mut v, le_encode(token_id, 16).as_slice());
    proof {
        assert(v@ =~= supply_key(token_id));
    }
    v
}

/// Balance keys of different holdings differ, and differ from the other
/// keys.
pub proof fn lemma_keys_distinct(a: Seq<u8>, i: u128, b: Seq<u8>, j: u128)
    requires
        a.len() == 32,
        b.len() == 32,
    ensures
        (a != b || i != j) ==> balance_key(a, i) != balance_key(b, j),
        balance_key(a, i) != supply_key(j),
        balance_key(a, i) != key_owner(),
        supply_key(i) != key_owner(),
{
    lemma_le_bytes_len(i as nat, 16);
    lemma_le_bytes_len(j as nat, 16);
    assert(balance_key(a, i).len() == 52);
    assert(supply_key(j).len() == 20);
    if balance_key(a, i) == balance_key(b, j) {
        assert(balance_key(a, i).subrange(4, 36) =~= a);
        assert(balance_key(b, j).subrange(4, 36) =~= b);
        assert(balance_key(a, i).subrange(36, 52) =~= le_bytes(i as nat, 16));
        assert(balance_key(b, j).subrange(36, 52) =~= le_bytes(j as nat, 16));
        lemma_pow256_values();
        lemma_le_bytes_injective(i as nat, j as nat, 16);
    }
}

/// A stored `u128`: 0 unless at least 16 bytes are stored.
pub open spec fn stored(m: StorageMap, k: Seq<u8>) -> u128 {
    match u128_cell(m.get(k)) {
        Some(v) => v,
        None => 0,
    }
}

/// `m` with `v` stored under `k` in 16 little-endian bytes.
pub open spec fn put(m: StorageMap, k: Seq<u8>, v: u128) -> StorageMap {
    m.insert(k, le_bytes(v as nat, 16))
}

pub open spec fn balance(m: StorageMap, account: Seq<u8>, token_id: u128) -> u128 {
    stored(m, balance_key(account, token_id))
}

pub open spec fn supply(m: StorageMap, token_id: u128) -> u128 {
    stored(m, supply_key(token_id))
}

/// The contract owner, when 32 bytes are stored for it.
pub open spec fn owner(m: StorageMap) -> Option<Seq<u8>> {
    address_cell(m.get(key_owner()))
}

pub open spec fn approved_for_all(m: StorageMap, owner: Seq<u8>, operator: Seq<u8>) -> bool {
    bool_cell(m.get(approval_key(owner, operator)))
}

/// The caller may move the holder's tokens: it is the holder or one of its
/// operators.
pub open spec fn may_move(m: StorageMap, caller: Seq<u8>, from: Seq<u8>) -> bool {
    caller == from || approved_for_all(m, from, caller)
}

pub fn balance_of(st: &Storage, account: &[u8; 32], token_id: u128) -> (r: u128)
    ensures
        r == balance(st@, account@, token_id),
{
    match read_u128(st, make_balance_key(account, token_id).as_slice()) {
        Some(v) => v,
        None => 0,
    }
}

pub fn read_supply(st: &Storage, token_id: u128) -> (r: u128)
    ensures
        r == supply(st@, token_id),
{
    match read_u128(st, make_supply_key(token_id).as_slice()) {
        Some(v) => v,
        None => 0,
    }
}

pub fn read_owner(st: &Storage) -> (r: Result<[u8; 32], u64>)
    ensures
        match r {
            Ok(a) => owner(st@) == Some(a@),
            Err(e) => owner(st@) is None && e == ERR_STORAGE,
        },
{
    match read_address(st, key_owner_vec().as_slice()) {
        Some(a) => Ok(a),
        None => Err(ERR_STORAGE),
    }
}

pub fn is_approved_for_all(st: &Storage, owner: &[u8; 32], operator: &[u8; 32]) -> (r: bool)
    ensures
        r == approved_for_all(st@, owner@, operator@),
{
    read_bool(st, approval_key_vec(owner, operator).as_slice())
}

// ---------------------------------------------------------------------------
// Operations
// ---------------------------------------------------------------------------

pub fn init(st: &mut Storage, owner: &[u8; 32])
    ensures
        final(st)@ == old(st)@.insert(key_owner(), owner@),
{
    st.write(key_owner_vec().as_slice(), owner.as_slice());
}

/// `set_approval_for_all`: sets or clears an operator of the owner, who
/// must be someone else.
pub open spec fn set_approval_for_all_outcome(m: StorageMap, owner: Seq<u8>, operator: Seq<u8>, approved: bool) -> (Result<(), u64>, StorageMap) {
    if owner == operator {
        (Err(ERR_SAME_ADDRESS), m)
    } else {
        (Ok(()), m.insert(approval_key(owner, operator), if approved { seq![1u8] } else { seq![0u8] }))
    }
}

pub fn set_approval_for_all(st: &mut Storage, owner: &[u8; 32], operator: &[u8; 32], approved: bool) -> (r: Result<(), u64>)
    ensures
        (r, final(st)@) == set_approval_for_all_outcome(old(st)@, owner@, operator@, approved),
{
    if bytes_eq(owner.as_slice(), operator.as_slice()) {
        return Err(ERR_SAME_ADDRESS);
    }
    let value: Vec<u8> = if approved {
        vec![1u8]
    } else {
        vec![0u8]
    };
    proof {
        assert(value@ =~= if approved { seq![1u8] } else { seq![0u8] });
    }
    st.write(approval_key_vec(owner, operator).as_slice(), value.as_slice());
    Ok(())
}

/// The inputs on which a transfer runs to its end: the receiver's balance
/// does not overflow.
pub open spec fn transfer_completes(m: StorageMap, from: Seq<u8>, to: Seq<u8>, token_id: u128, amount: u128) -> bool {
    let m1 = put(m, balance_key(from, token_id), (balance(m, from, token_id) - amount) as u128);
    balance(m, from, token_id) >= amount ==> balance(m1, to, token_id) + amount <= u128::MAX
}

/// `safe_transfer_from`: the holder or its operator moves `amount` of a
/// token to a non-zero receiver, the holder having at least that much.
pub open spec fn transfer_outcome(m: StorageMap, caller: Seq<u8>, from: Seq<u8>, to: Seq<u8>, token_id: u128, amount: u128) -> (Result<(), u64>, StorageMap) {
    if !may_move(m, caller, from) {
        (Err(ERR_NOT_AUTHORIZED), m)
    } else if all_zero(to) {
        (Err(ERR_ZERO_ADDRESS), m)
    } else if balance(m, from, token_id) < amount {
        (Err(ERR_INSUFFICIENT_BALANCE), m)
    } else {
        let m1 = put(m, balance_key(from, token_id), (balance(m, from, token_id) - amount) as u128);
        (Ok(()), put(m1, balance_key(to, token_id), (balance(m1, to, token_id) + amount) as u128))
    }
}

pub fn safe_transfer_from(st: &mut Storage, caller: &[u8; 32], from: &[u8; 32], to: &[u8; 32], token_id: u128, amount: u128) -> (r: Result<(), u64>)
    requires
        transfer_completes(old(st)@, from@, to@, token_id, amount),
    ensures
        (r, final(st)@) == transfer_outcome(old(st)@, caller@, from@, to@, token_id, amount),
{
    if !bytes_eq(caller.as_slice(), from.as_slice()) && !is_approved_for_all(st, from, caller) {
        return Err(ERR_NOT_AUTHORIZED);
    }
    if is_zero_address(to) {
        return Err(ERR_ZERO_ADDRESS);
    }
    let from_balance = balance_of(st, from, token_id);
    if from_balance < amount {
        return Err(ERR_INSUFFICIENT_BALANCE);
    }
    write_u128(st, make_balance_key(from, token_id).as_slice(), from_balance - amount);
    let to_balance = balance_of(st, to, token_id);
    write_u128(st, make_balance_key(to, token_id).as_slice(), to_balance + amount);
    Ok(())
}

/// The inputs on which `mint` runs to its end: neither the balance nor the
/// supply overflows.
pub open spec fn mint_completes(m: StorageMap, to: Seq<u8>, token_id: u128, amount: u128) -> bool {
    balance(m, to, token_id) + amount <= u128::MAX && supply(m, token_id) + amount <= u128::MAX
}

/// `mint`: the contract owner credits `amount` of a token to a non-zero
/// receiver and to the token's supply.
pub open spec fn mint_outcome(m: StorageMap, caller: Seq<u8>, to: Seq<u8>, token_id: u128, amount: u128) -> (Result<(), u64>, StorageMap) {
    match owner(m) {
        None => (Err(ERR_STORAGE), m),
        Some(o) => if caller != o {
            (Err(ERR_ONLY_OWNER), m)
        } else if all_zero(to) {
            (Err(ERR_ZERO_ADDRESS), m)
        } else {
            let m1 = put(m, balance_key(to, token_id), (balance(m, to, token_id) + amount) as u128);
            (Ok(()), put(m1, supply_key(token_id), (supply(m, token_id) + amount) as u128))
        },
    }
}

pub fn mint(st: &mut Storage, caller: &[u8; 32], to: &[u8; 32], token_id: u128, amount: u128) -> (r: Result<(), u64>)
    requires
        mint_completes(old(st)@, to@, token_id, amount),
    ensures
        (r, final(st)@) == mint_outcome(old(st)@, caller@, to@, token_id, amount),
{
    let owner = match read_owner(st) {
        Ok(o) => o,
        Err(e) => return Err(e),
    };
    if !bytes_eq(caller.as_slice(), owner.as_slice()) {
        return Err(ERR_ONLY_OWNER);
    }
    if is_zero_address(to) {
        return Err(ERR_ZERO_ADDRESS);
    }
    proof {
        lemma_keys_distinct(to@, token_id, to@, token_id);
    }
    let balance = balance_of(st, to, token_id);
    write_u128(st, make_balance_key(to, token_id).as_slice(), balance + amount);
    let supply = read_supply(st, token_id);
    write_u128(st, make_supply_key(token_id).as_slice(), supply + amount);
    Ok(())
}

/// `burn`: the holder or its operator destroys `amount` of a token the
/// holder has; the supply drops by it, at least to zero.
pub open spec fn burn_outcome(m: StorageMap, caller: Seq<u8>, from: Seq<u8>, token_id: u128, amount: u128) -> (Result<(), u64>, StorageMap) {
    if !may_move(m, caller, from) {
        (Err(ERR_NOT_AUTHORIZED), m)
    } else if balance(m, from, token_id) < amount {
        (Err(ERR_INSUFFICIENT_BALANCE), m)
    } else {
        let m1 = put(m, balance_key(from, token_id), (balance(m, from, token_id) - amount) as u128);
        let s = supply(m, token_id);
        (Ok(()), put(m1, supply_key(token_id), if s < amount { 0 } else { (s - amount) as u128 }))
    }
}

pub fn burn(st: &mut Storage, caller: &[u8; 32], from: &[u8; 32], token_id: u128, amount: u128) -> (r: Result<(), u64>)
    ensures
        (r, final(st)@) == burn_outcome(old(st)@, caller@, from@, token_id, amount),
{
    if !bytes_eq(caller.as_slice(), from.as_slice()) && !is_approved_for_all(st, from, caller) {
        return Err(ERR_NOT_AUTHORIZED);
    }
    let balance = balance_of(st, from, token_id);
    if balance < amount {
        return Err(ERR_INSUFFICIENT_BALANCE);
    }
    proof {
        lemma_keys_distinct(from@, token_id, from@, token_id);
    }
    write_u128(st, make_balance_key(from, token_id).as_slice(), balance - amount);
    let supply = read_supply(st, token_id);
    write_u128(st, make_supply_key(token_id).as_slice(), supply.saturating_sub(amount));
    Ok(())
}


// ---------------------------------------------------------------------------
// Instructions
// ---------------------------------------------------------------------------

pub open spec fn amount_param(input: Seq<u8>, off: int) -> u128 {
    le_nat(input.subrange(off, off + 16)) as u128
}

pub open spec fn account(input: Seq<u8>, off: int) -> Seq<u8> {
    input.subrange(off, off + 32)
}

/// The inputs on which an instruction runs to its end.
pub open spec fn instruction_completes(m: StorageMap, input: Seq<u8>) -> bool {
    if input.len() == 0 {
        true
    } else if input[0] == 3 && input.len() >= 129 {
        transfer_completes(m, account(input, 33), account(input, 65), amount_param(input, 97), amount_param(input, 113))
    } else if input[0] == 4 && input.len() >= 97 {
        mint_completes(m, account(input, 33), amount_param(input, 65), amount_param(input, 81))
    } else {
        true
    }
}

/// An instruction: `0` initializes (`[owner:32]`), `1` answers a balance in
/// 16 bytes (`[account:32][id:16]`), `2` sets an operator (`[owner:32]
/// [operator:32][approved:1]`), `3` transfers (`[caller:32][from:32]
/// [to:32][id:16][amount:16]`), `4` mints (`[caller:32][to:32][id:16]
/// [amount:16]`), `5` burns (`[caller:32][from:32][id:16][amount:16]`); a
/// short input is invalid, an empty input or another opcode does nothing.
pub open spec fn instruction_outcome(m: StorageMap, input: Seq<u8>) -> (Result<Seq<u8>, u64>, StorageMap) {
    let unit = |o: (Result<(), u64>, StorageMap)|
        (match o.0 {
            Ok(_) => Ok(Seq::<u8>::empty()),
            Err(e) => Err(e),
        }, o.1);
    if input.len() == 0 {
        (Ok(Seq::empty()), m)
    } else if input[0] == 0 {
        if input.len() < 33 {
            (Err(ERR_INVALID_INPUT), m)
        } else {
            (Ok(Seq::empty()), m.insert(key_owner(), account(input, 1)))
        }
    } else if input[0] == 1 {
        if input.len() < 49 {
            (Err(ERR_INVALID_INPUT), m)
        } else {
            (Ok(le_bytes(balance(m, account(input, 1), amount_param(input, 33)) as nat, 16)), m)
        }
    } else if input[0] == 2 {
        if input.len() < 66 {
            (Err(ERR_INVALID_INPUT), m)
        } else {
            unit(set_approval_for_all_outcome(m, account(input, 1), account(input, 33), input[65] != 0))
        }
    } else if input[0] == 3 {
        if input.len() < 129 {
            (Err(ERR_INVALID_INPUT), m)
        } else {
            unit(transfer_outcome(m, account(input, 1), account(input, 33), account(input, 65), amount_param(input, 97), amount_param(input, 113)))
        }
    } else if input[0] == 4 || input[0] == 5 {
        if input.len() < 97 {
            (Err(ERR_INVALID_INPUT), m)
        } else if input[0] == 4 {
            unit(mint_outcome(m, account(input, 1), account(input, 33), amount_param(input, 65), amount_param(input, 81)))
        } else {
            unit(burn_outcome(m, account(input, 1), account(input, 33), amount_param(input, 65), amount_param(input, 81)))
        }
    } else {
        (Ok(Seq::empty()), m)
    }
}

fn no_data(r: Result<(), u64>) -> (o: Result<Vec<u8>, u64>)
    ensures
        match r {
            Ok(_) => o matches Ok(v) && v@ == Seq::<u8>::empty(),
            Err(e) => o == Err::<Vec<u8>, u64>(e),
        },
{
    match r {
        Ok(_) => Ok(Vec::new()),
        Err(e) => Err(e),
    }
}

fn u128_at(input: &[u8], off: usize) -> (r: u128)
    requires
        off + 16 <= input@.len(),
    ensures
        r == amount_param(input@, off as int),
{
    let v = le_decode(input, off, 16);
    proof {
        crate::bytes::lemma_le_nat_bound(input@.subrange(off as int, off + 16));
        lemma_pow256_values();
    }
    v
}

pub fn process_instruction(st: &mut Storage, input: &[u8]) -> (r: Result<Vec<u8>, u64>)
    requires
        instruction_completes(old(st)@, input@),
    ensures
        final(st)@ == instruction_outcome(old(st)@, input@).1,
        match r {
            Ok(v) => instruction_outcome(old(st)@, input@).0 == Ok::<Seq<u8>, u64>(v@),
            Err(e) => instruction_outcome(old(st)@, input@).0 == Err::<Seq<u8>, u64>(e),
        },
{
    if input.len() == 0 {
        return Ok(Vec::new());
    }
    match input[0] {
        0 => {
            if input.len() < 33 {
                return Err(ERR_INVALID_INPUT);
            }
            let owner = address_at(input, 1);
            init(st, &owner);
            Ok(Vec::new())
        },
        1 => {
            if input.len() < 49 {
                return Err(ERR_INVALID_INPUT);
            }
            let account = address_at(input, 1);
            let token_id = u128_at(input, 33);
            Ok(le_encode(balance_of(st, &account, token_id), 16))
        },
        2 => {
            if input.len() < 66 {
                return Err(ERR_INVALID_INPUT);
            }
            let owner = address_at(input, 1);
            let operator = address_at(input, 33);
            no_data(set_approval_for_all(st, &owner, &operator, input[65] != 0))
        },
        3 => {
            if input.len() < 129 {
                return Err(ERR_INVALID_INPUT);
            }
            let caller = address_at(input, 1);
            let from = address_at(input, 33);
            let to = address_at(input, 65);
            let token_id = u128_at(input, 97);
            let amount = u128_at(input, 113);
            no_data(safe_transfer_from(st, &caller, &from, &to, token_id, amount))
        },
        4 | 5 => {
            if input.len() < 97 {
                return Err(ERR_INVALID_INPUT);
            }
            let caller = address_at(input, 1);
            let holder = address_at(input, 33);
            let token_id = u128_at(input, 65);
            let amount = u128_at(input, 81);
            if input[0] == 4 {
                no_data(mint(st, &caller, &holder, token_id, amount))
            } else {
                no_data(burn(st, &caller, &holder, token_id, amount))
            }
        },
        _ => Ok(Vec::new()),
    }
}

// ---------------------------------------------------------------------------
// Laws
// ---------------------------------------------------------------------------

/// A transfer needs the holder or an operator, and between two different
/// accounts it keeps the sum of their balances and the supply.
pub proof fn law_transfer_conserves(m: StorageMap, caller: Seq<u8>, from: Seq<u8>, to: Seq<u8>, token_id: u128, amount: u128)
    requires
        from.len() == 32,
        to.len() == 32,
        from != to,
        transfer_completes(m, from, to, token_id, amount),
        transfer_outcome(m, caller, from, to, token_id, amount).0 is Ok,
    ensures
        ({
            let m2 = transfer_outcome(m, caller, from, to, token_id, amount).1;
            &&& may_move(m, caller, from)
            &&& balance(m2, from, token_id) == balance(m, from, token_id) - amount
            &&& balance(m2, to, token_id) == balance(m, to, token_id) + amount
            &&& supply(m2, token_id) == supply(m, token_id)
        }),
{
    lemma_keys_distinct(from, token_id, to, token_id);
    lemma_keys_distinct(to, token_id, from, token_id);
    lemma_u128_cell_roundtrip((balance(m, from, token_id) - amount) as u128);
    lemma_u128_cell_roundtrip((balance(m, to, token_id) + amount) as u128);
}

/// Only the contract owner mints, and minting credits the receiver and the
/// supply alike.
pub proof fn law_mint(m: StorageMap, caller: Seq<u8>, to: Seq<u8>, token_id: u128, amount: u128)
    requires
        to.len() == 32,
        mint_completes(m, to, token_id, amount),
        mint_outcome(m, caller, to, token_id, amount).0 is Ok,
    ensures
        ({
            let m2 = mint_outcome(m, caller, to, token_id, amount).1;
            &&& owner(m) == Some(caller)
            &&& balance(m2, to, token_id) == balance(m, to, token_id) + amount
            &&& supply(m2, token_id) == supply(m, token_id) + amount
        }),
{
    lemma_keys_distinct(to, token_id, to, token_id);
    lemma_u128_cell_roundtrip((balance(m, to, token_id) + amount) as u128);
    lemma_u128_cell_roundtrip((supply(m, token_id) + amount) as u128);
}

/// Burning debits the holder and the supply alike (the supply at least to
/// zero).
pub proof fn law_burn(m: StorageMap, caller: Seq<u8>, from: Seq<u8>, token_id: u128, amount: u128)
    requires
        from.len() == 32,
        burn_outcome(m, caller, from, token_id, amount).0 is Ok,
    ensures
        ({
            let m2 = burn_outcome(m, caller, from, token_id, amount).1;
            &&& may_move(m, caller, from)
            &&& balance(m2, from, token_id) == balance(m, from, token_id) - amount
            &&& supply(m2, token_id) == if supply(m, token_id) < amount { 0 } else { supply(m, token_id) - amount }
        }),
{
    lemma_keys_distinct(from, token_id, from, token_id);
    lemma_u128_cell_roundtrip((balance(m, from, token_id) - amount) as u128);
    lemma_u128_cell_roundtrip(0);
    if supply(m, token_id) >= amount {
        lemma_u128_cell_roundtrip((supply(m, token_id) - amount) as u128);
    }
}

} // verus!

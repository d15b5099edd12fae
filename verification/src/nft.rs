//! A minimal ERC-721 collection: tokens identified by a `u128` are minted
//! to an owner, transferred, approved singly or through operators, and
//! burned; balances and the total supply are counted.

use vstd::prelude::*;
use crate::bytes::{le_bytes, le_nat, append_bytes, bytes_eq, all_zero, is_zero_address, address_at,
    le_decode, le_encode, lemma_le_bytes_len};
use crate::storage::Storage;
use crate::cells::{u128_cell, bool_cell, address_cell, read_u128, write_u128, read_bool, read_address,
    lemma_u128_cell_roundtrip};
use crate::stablecoin::StorageMap;

verus! {

pub const ERR_ZERO_ADDRESS: u64 = 1201;
pub const ERR_TOKEN_NOT_EXISTS: u64 = 1202;
pub const ERR_TOKEN_ALREADY_MINTED: u64 = 1203;
pub const ERR_TRANSFER_FROM_INCORRECT_OWNER: u64 = 1204;
pub const ERR_SAME_ADDRESS: u64 = 1205;
pub const ERR_STORAGE: u64 = 1206;
pub const ERR_INVALID_INPUT: u64 = 1207;
pub const ERR_INSUFFICIENT_BALANCE: u64 = 1208;

// ---------------------------------------------------------------------------
// Storage
// ---------------------------------------------------------------------------

/// `supply`
pub open spec fn key_total_supply() -> Seq<u8> {
    seq![0x73u8, 0x75u8, 0x70u8, 0x70u8, 0x6cu8, 0x79u8]
}

fn key_total_supply_vec() -> (r: Vec<u8>)
    ensures
        r@ == key_total_supply(),
{
    let v = vec![0x73u8, 0x75u8, 0x70u8, 0x70u8, 0x6cu8, 0x79u8];
    assert(v@ =~= key_total_supply());
    v
}

/// `bal:` and the address.
pub open spec fn balance_key(owner: Seq<u8>) -> Seq<u8> {
    seq![0x62u8, 0x61u8, 0x6cu8, 0x3au8] + owner
}

fn balance_key_vec(owner: &[u8; 32]) -> (r: Vec<u8>)
    ensures
        r@ == balance_key(owner@),
{
    let mut v = vec![0x62u8, 0x61u8, 0x6cu8, 0x3au8];
    append_bytes(&mut v, owner.as_slice());
    proof {
        assert(v@ =~= balance_key(owner@));
    }
    v
}

/// `opr:`, the owner and the operator.
pub open spec fn operator_key(owner: Seq<u8>, operator: Seq<u8>) -> Seq<u8> {
    seq![0x6fu8, 0x70u8, 0x72u8, 0x3au8] + owner + operator
}

fn operator_key_vec(owner: &[u8; 32], operator: &[u8; 32]) -> (r: Vec<u8>)
    ensures
        r@ == operator_key(owner@, operator@),
{
    let mut v = vec![0x6fu8, 0x70u8, 0x72u8, 0x3au8];
    append_bytes(&mut v, owner.as_slice());
    append_bytes(&mut v, operator.as_slice());
    proof {
        assert(v@ =~= operator_key(owner@, operator@));
    }
    v
}

/// `own:` and the token id in 16 little-endian bytes.
pub open spec fn owner_key(token_id: u128) -> Seq<u8> {
    seq![0x6fu8, 0x77u8, 0x6eu8, 0x3au8] + le_bytes(token_id as nat, 16)
}

pub fn make_owner_key(token_id: u128) -> (r: Vec<u8>)
    ensures
        r@ == owner_key(token_id),
{
    let mut v = vec![0x6fu8, 0x77u8, 0x6eu8, 0x3au8];
    append_bytes(&mut v, le_encode(token_id, 16).as_slice());
    proof {
        assert(v@ =~= owner_key(token_id));
    }
    v
}

/// `apr:` and the token id in 16 little-endian bytes.
pub open spec fn approval_key(token_id: u128) -> Seq<u8> {
    seq![0x61u8, 0x70u8, 0x72u8, 0x3au8] + le_bytes(token_id as nat, 16)
}

pub fn make_approval_key(token_id: u128) -> (r: Vec<u8>)
    ensures
        r@ == approval_key(token_id),
{
    let mut v = vec![0x61u8, 0x70u8, 0x72u8, 0x3au8];
    append_bytes(&mut v, le_encode(token_id, 16).as_slice());
    proof {
        assert(v@ =~= approval_key(token_id));
    }
    v
}

/// The keys of the collection are pairwise distinct.
proof fn lemma_keys_distinct(id: u128, a: Seq<u8>, b: Seq<u8>)
    requires
        a.len() == 32,
        b.len() == 32,
    ensures
        owner_key(id) != approval_key(id),
        owner_key(id) != balance_key(a),
        owner_key(id) != key_total_supply(),
        approval_key(id) != balance_key(a),
        approval_key(id) != key_total_supply(),
        balance_key(a) != key_total_supply(),
        operator_key(a, b) != key_total_supply(),
        a != b ==> balance_key(a) != balance_key(b),
{
    lemma_le_bytes_len(id as nat, 16);
    assert(owner_key(id)[0] != approval_key(id)[0]);
    assert(owner_key(id).len() == 20);
    assert(approval_key(id).len() == 20);
    assert(balance_key(a).len() == 36);
    if a != b {
        assert(balance_key(a).subrange(4, 36) =~= a);
        assert(balance_key(b).subrange(4, 36) =~= b);
    }
}

/// A stored `u128`: 0 unless at least 16 bytes are stored.
pub open spec fn stored(m: StorageMap, k: Seq<u8>) -> u128 {
    match u128_cell(m.get(k)) {
        Some(v) => v,
        None => 0,
    }
}

pub open spec fn total_supply(m: StorageMap) -> u128 {
    stored(m, key_total_supply())
}

pub open spec fn balance(m: StorageMap, owner: Seq<u8>) -> u128 {
    stored(m, balance_key(owner))
}

/// The token's owner, when 32 bytes are stored for it.
pub open spec fn owner(m: StorageMap, token_id: u128) -> Option<Seq<u8>> {
    address_cell(m.get(owner_key(token_id)))
}

/// The operator may manage all of the owner's tokens.
pub open spec fn operator_approved(m: StorageMap, owner: Seq<u8>, operator: Seq<u8>) -> bool {
    bool_cell(m.get(operator_key(owner, operator)))
}

pub fn balance_of(st: &Storage, owner: &[u8; 32]) -> (r: u128)
    ensures
        r == balance(st@, owner@),
{
    match read_u128(st, balance_key_vec(owner).as_slice()) {
        Some(v) => v,
        None => 0,
    }
}

pub fn owner_of(st: &Storage, token_id: u128) -> (r: Result<[u8; 32], u64>)
    ensures
        match r {
            Ok(a) => owner(st@, token_id) == Some(a@),
            Err(e) => owner(st@, token_id) is None && e == ERR_TOKEN_NOT_EXISTS,
        },
{
    match read_address(st, make_owner_key(token_id).as_slice()) {
        Some(a) => Ok(a),
        None => Err(ERR_TOKEN_NOT_EXISTS),
    }
}

pub fn token_exists(st: &Storage, token_id: u128) -> (r: bool)
    ensures
        r == owner(st@, token_id) is Some,
{
    owner_of(st, token_id).is_ok()
}

pub fn is_approved_for_all(st: &Storage, owner: &[u8; 32], operator: &[u8; 32]) -> (r: bool)
    ensures
        r == operator_approved(st@, owner@, operator@),
{
    read_bool(st, operator_key_vec(owner, operator).as_slice())
}

fn total_supply_of(st: &Storage) -> (r: u128)
    ensures
        r == total_supply(st@),
{
    match read_u128(st, key_total_supply_vec().as_slice()) {
        Some(v) => v,
        None => 0,
    }
}

// ---------------------------------------------------------------------------
// Operations
// ---------------------------------------------------------------------------

/// `approve`: records `to` as approved for an existing token, unless it is
/// the token's owner.
pub open spec fn approve_outcome(m: StorageMap, to: Seq<u8>, token_id: u128) -> (Result<(), u64>, StorageMap) {
    match owner(m, token_id) {
        None => (Err(ERR_TOKEN_NOT_EXISTS), m),
        Some(o) => if to == o {
            (Err(ERR_SAME_ADDRESS), m)
        } else {
            (Ok(()), m.insert(approval_key(token_id), to))
        },
    }
}

pub fn approve(st: &mut Storage, to: &[u8; 32], token_id: u128) -> (r: Result<(), u64>)
    ensures
        (r, final(st)@) == approve_outcome(old(st)@, to@, token_id),
{
    let owner = match owner_of(st, token_id) {
        Ok(o) => o,
        Err(e) => return Err(e),
    };
    if bytes_eq(to.as_slice(), owner.as_slice()) {
        return Err(ERR_SAME_ADDRESS);
    }
    st.write(make_approval_key(token_id).as_slice(), to.as_slice());
    Ok(())
}

/// `set_approval_for_all`: sets or clears an operator of the owner, who
/// must be someone else.
pub open spec fn set_approval_for_all_outcome(m: StorageMap, owner: Seq<u8>, operator: Seq<u8>, approved: bool) -> (Result<(), u64>, StorageMap) {
    if owner == operator {
        (Err(ERR_SAME_ADDRESS), m)
    } else {
        (Ok(()), m.insert(operator_key(owner, operator), if approved { seq![1u8] } else { seq![0u8] }))
    }
}

pub fn set_approval_for_all(st: &mut Storage, owner: &[u8; 32], operator: &[u8; 32], approved: bool) -> (r: Result<(), u64>)
    ensures
        (r, final(st)@) == set_approval_for_all_outcome(old(st)@, owner@, operator@, approved),
{
    if bytes_eq(owner.as_slice(), operator.as_slice()) {
        return Err(ERR_SAME_ADDRESS);
    }
    let value: Vec<u8> = if approved {
        vec![1u8]
    } else {
        vec![0u8]
    };
    proof {
        assert(value@ =~= if approved { seq![1u8] } else { seq![0u8] });
    }
    st.write(operator_key_vec(owner, operator).as_slice(), value.as_slice());
    Ok(())
}

/// `m` with `v` stored under `k` in 16 little-endian bytes.
pub open spec fn put(m: StorageMap, k: Seq<u8>, v: u128) -> StorageMap {
    m.insert(k, le_bytes(v as nat, 16))
}

/// The inputs on which `transfer_from` runs to its end: the receiver's
/// balance does not overflow.
pub open spec fn transfer_completes(m: StorageMap, from: Seq<u8>, to: Seq<u8>, token_id: u128) -> bool {
    let m1 = m.remove(approval_key(token_id));
    let m2 = put(m1, balance_key(from), (balance(m1, from) - 1) as u128);
    balance(m1, from) > 0 ==> balance(m2, to) + 1 <= u128::MAX
}

/// `transfer_from`: moves an existing token of `from` to a non-zero `to`:
/// its single approval is cleared, `from`'s balance drops by one (refused,
/// after the clearing, when it is zero), `to`'s grows by one, and `to`
/// becomes the owner.
pub open spec fn transfer_outcome(m: StorageMap, from: Seq<u8>, to: Seq<u8>, token_id: u128) -> (Result<(), u64>, StorageMap) {
    if all_zero(to) {
        (Err(ERR_ZERO_ADDRESS), m)
    } else {
        match owner(m, token_id) {
            None => (Err(ERR_TOKEN_NOT_EXISTS), m),
            Some(o) => if from != o {
                (Err(ERR_TRANSFER_FROM_INCORRECT_OWNER), m)
            } else {
                let m1 = m.remove(approval_key(token_id));
                if balance(m1, from) == 0 {
                    (Err(ERR_INSUFFICIENT_BALANCE), m1)
                } else {
                    let m2 = put(m1, balance_key(from), (balance(m1, from) - 1) as u128);
                    let m3 = put(m2, balance_key(to), (balance(m2, to) + 1) as u128);
                    (Ok(()), m3.insert(owner_key(token_id), to))
                }
            },
        }
    }
}

pub fn transfer_from(st: &mut Storage, from: &[u8; 32], to: &[u8; 32], token_id: u128) -> (r: Result<(), u64>)
    requires
        transfer_completes(old(st)@, from@, to@, token_id),
    ensures
        (r, final(st)@) == transfer_outcome(old(st)@, from@, to@, token_id),
{
    if is_zero_address(to) {
        return Err(ERR_ZERO_ADDRESS);
    }
    let owner = match owner_of(st, token_id) {
        Ok(o) => o,
        Err(e) => return Err(e),
    };
    if !bytes_eq(from.as_slice(), owner.as_slice()) {
        return Err(ERR_TRANSFER_FROM_INCORRECT_OWNER);
    }
    st.delete(make_approval_key(token_id).as_slice());
    let from_balance = balance_of(st, from);
    if from_balance == 0 {
        return Err(ERR_INSUFFICIENT_BALANCE);
    }
    write_u128(st, balance_key_vec(from).as_slice(), from_balance - 1);
    let to_balance = balance_of(st, to);
    write_u128(st, balance_key_vec(to).as_slice(), to_balance + 1);
    st.write(make_owner_key(token_id).as_slice(), to.as_slice());
    Ok(())
}

/// The inputs on which `mint` runs to its end: neither the balance nor the
/// supply overflows.
pub open spec fn mint_completes(m: StorageMap, to: Seq<u8>) -> bool {
    balance(m, to) + 1 <= u128::MAX && total_supply(m) + 1 <= u128::MAX
}

/// `mint`: a token that does not exist is created for a non-zero `to`,
/// whose balance and the supply grow by one.
pub open spec fn mint_outcome(m: StorageMap, to: Seq<u8>, token_id: u128) -> (Result<(), u64>, StorageMap) {
    if all_zero(to) {
        (Err(ERR_ZERO_ADDRESS), m)
    } else if owner(m, token_id) is Some {
        (Err(ERR_TOKEN_ALREADY_MINTED), m)
    } else {
        let m1 = put(m, balance_key(to), (balance(m, to) + 1) as u128).insert(owner_key(token_id), to);
        (Ok(()), put(m1, key_total_supply(), (total_supply(m1) + 1) as u128))
    }
}

pub fn mint(st: &mut Storage, to: &[u8; 32], token_id: u128) -> (r: Result<(), u64>)
    requires
        mint_completes(old(st)@, to@),
    ensures
        (r, final(st)@) == mint_outcome(old(st)@, to@, token_id),
{
    if is_zero_address(to) {
        return Err(ERR_ZERO_ADDRESS);
    }
    if token_exists(st, token_id) {
        return Err(ERR_TOKEN_ALREADY_MINTED);
    }
    proof {
        lemma_keys_distinct(token_id, to@, to@);
    }
    let balance = balance_of(st, to);
    write_u128(st, balance_key_vec(to).as_slice(), balance + 1);
    st.write(make_owner_key(token_id).as_slice(), to.as_slice());
    let supply = total_supply_of(st);
    write_u128(st, key_total_supply_vec().as_slice(), supply + 1);
    Ok(())
}

/// `burn`: destroys an existing token: its approval is cleared, its
/// owner's balance drops by one (refused, after the clearing, when it is
/// zero), its owner is removed, and the supply drops by one (at least to
/// zero).
pub open spec fn burn_outcome(m: StorageMap, token_id: u128) -> (Result<(), u64>, StorageMap) {
    match owner(m, token_id) {
        None => (Err(ERR_TOKEN_NOT_EXISTS), m),
        Some(o) => {
            let m1 = m.remove(approval_key(token_id));
            if balance(m1, o) == 0 {
                (Err(ERR_INSUFFICIENT_BALANCE), m1)
            } else {
                let m2 = put(m1, balance_key(o), (balance(m1, o) - 1) as u128).remove(owner_key(token_id));
                let supply = total_supply(m2);
                (Ok(()), put(m2, key_total_supply(), if supply == 0 { 0 } else { (supply - 1) as u128 }))
            }
        },
    }
}

pub fn burn(st: &mut Storage, token_id: u128) -> (r: Result<(), u64>)
    ensures
        (r, final(st)@) == burn_outcome(old(st)@, token_id),
{
    let owner = match owner_of(st, token_id) {
        Ok(o) => o,
        Err(e) => return Err(e),
    };
    st.delete(make_approval_key(token_id).as_slice());
    let balance = balance_of(st, &owner);
    if balance == 0 {
        return Err(ERR_INSUFFICIENT_BALANCE);
    }
    write_u128(st, balance_key_vec(&owner).as_slice(), balance - 1);
    st.delete(make_owner_key(token_id).as_slice());
    let supply = total_supply_of(st);
    write_u128(st, key_total_supply_vec().as_slice(), supply.saturating_sub(1));
    Ok(())
}


// ---------------------------------------------------------------------------
// Instructions
// ---------------------------------------------------------------------------

pub open spec fn token_param(input: Seq<u8>, off: int) -> u128 {
    le_nat(input.subrange(off, off + 16)) as u128
}

pub open spec fn account(input: Seq<u8>, off: int) -> Seq<u8> {
    input.subrange(off, off + 32)
}

/// The inputs on which an instruction runs to its end.
pub open spec fn instruction_completes(m: StorageMap, input: Seq<u8>) -> bool {
    if input.len() == 0 {
        true
    } else if input[0] == 5 && input.len() >= 81 {
        transfer_completes(m, account(input, 1), account(input, 33), token_param(input, 65))
    } else if input[0] == 6 && input.len() >= 49 {
        mint_completes(m, account(input, 1))
    } else {
        true
    }
}

/// An instruction: `1` answers a balance in 16 bytes (`[owner:32]`), `2` a
/// token's owner (`[id:16]`), `3` approves (`[to:32][id:16]`), `4` sets an
/// operator (`[owner:32][operator:32][approved:1]`), `5` transfers
/// (`[from:32][to:32][id:16]`), `6` mints (`[to:32][id:16]`), `7` burns
/// (`[id:16]`); a short input is invalid, an empty input or another opcode
/// does nothing.
pub open spec fn instruction_outcome(m: StorageMap, input: Seq<u8>) -> (Result<Seq<u8>, u64>, StorageMap) {
    let unit = |o: (Result<(), u64>, StorageMap)|
        (match o.0 {
            Ok(_) => Ok(Seq::<u8>::empty()),
            Err(e) => Err(e),
        }, o.1);
    if input.len() == 0 {
        (Ok(Seq::empty()), m)
    } else if input[0] == 1 {
        if input.len() < 33 {
            (Err(ERR_INVALID_INPUT), m)
        } else {
            (Ok(le_bytes(balance(m, account(input, 1)) as nat, 16)), m)
        }
    } else if input[0] == 2 {
        if input.len() < 17 {
            (Err(ERR_INVALID_INPUT), m)
        } else {
            match owner(m, token_param(input, 1)) {
                Some(o) => (Ok(o), m),
                None => (Err(ERR_TOKEN_NOT_EXISTS), m),
            }
        }
    } else if input[0] == 3 {
        if input.len() < 49 {
            (Err(ERR_INVALID_INPUT), m)
        } else {
            unit(approve_outcome(m, account(input, 1), token_param(input, 33)))
        }
    } else if input[0] == 4 {
        if input.len() < 66 {
            (Err(ERR_INVALID_INPUT), m)
        } else {
            unit(set_approval_for_all_outcome(m, account(input, 1), account(input, 33), input[65] != 0))
        }
    } else if input[0] == 5 {
        if input.len() < 81 {
            (Err(ERR_INVALID_INPUT), m)
        } else {
            unit(transfer_outcome(m, account(input, 1), account(input, 33), token_param(input, 65)))
        }
    } else if input[0] == 6 {
        if input.len() < 49 {
            (Err(ERR_INVALID_INPUT), m)
        } else {
            unit(mint_outcome(m, account(input, 1), token_param(input, 33)))
        }
    } else if input[0] == 7 {
        if input.len() < 17 {
            (Err(ERR_INVALID_INPUT), m)
        } else {
            unit(burn_outcome(m, token_param(input, 1)))
        }
    } else {
        (Ok(Seq::empty()), m)
    }
}

fn no_data(r: Result<(), u64>) -> (o: Result<Vec<u8>, u64>)
    ensures
        match r {
            Ok(_) => o matches Ok(v) && v@ == Seq::<u8>::empty(),
            Err(e) => o == Err::<Vec<u8>, u64>(e),
        },
{
    match r {
        Ok(_) => Ok(Vec::new()),
        Err(e) => Err(e),
    }
}

fn token_at(input: &[u8], off: usize) -> (r: u128)
    requires
        off + 16 <= input@.len(),
    ensures
        r == token_param(input@, off as int),
{
    let v = le_decode(input, off, 16);
    proof {
        crate::bytes::lemma_le_nat_bound(input@.subrange(off as int, off + 16));
        crate::bytes::lemma_pow256_values();
    }
    v
}

pub fn process_instruction(st: &mut Storage, input: &[u8]) -> (r: Result<Vec<u8>, u64>)
    requires
        instruction_completes(old(st)@, input@),
    ensures
        final(st)@ == instruction_outcome(old(st)@, input@).1,
        match r {
            Ok(v) => instruction_outcome(old(st)@, input@).0 == Ok::<Seq<u8>, u64>(v@),
            Err(e) => instruction_outcome(old(st)@, input@).0 == Err::<Seq<u8>, u64>(e),
        },
{
    if input.len() == 0 {
        return Ok(Vec::new());
    }
    match input[0] {
        1 => {
            if input.len() < 33 {
                return Err(ERR_INVALID_INPUT);
            }
            let owner = address_at(input, 1);
            Ok(le_encode(balance_of(st, &owner), 16))
        },
        2 => {
            if input.len() < 17 {
                return Err(ERR_INVALID_INPUT);
            }
            let token_id = token_at(input, 1);
            match owner_of(st, token_id) {
                Ok(o) => {
                    let mut v = Vec::new();
                    append_bytes(&mut v, o.as_slice());
                    proof {
                        assert(v@ =~= o@);
                    }
                    Ok(v)
                },
                Err(e) => Err(e),
            }
        },
        3 => {
            if input.len() < 49 {
                return Err(ERR_INVALID_INPUT);
            }
            let to = address_at(input, 1);
            let token_id = token_at(input, 33);
            no_data(approve(st, &to, token_id))
        },
        4 => {
            if input.len() < 66 {
                return Err(ERR_INVALID_INPUT);
            }
            let owner = address_at(input, 1);
            let operator = address_at(input, 33);
            no_data(set_approval_for_all(st, &owner, &operator, input[65] != 0))
        },
        5 => {
            if input.len() < 81 {
                return Err(ERR_INVALID_INPUT);
            }
            let from = address_at(input, 1);
            let to = address_at(input, 33);
            let token_id = token_at(input, 65);
            no_data(transfer_from(st, &from, &to, token_id))
        },
        6 => {
            if input.len() < 49 {
                return Err(ERR_INVALID_INPUT);
            }
            let to = address_at(input, 1);
            let token_id = token_at(input, 33);
            no_data(mint(st, &to, token_id))
        },
        7 => {
            if input.len() < 17 {
                return Err(ERR_INVALID_INPUT);
            }
            let token_id = token_at(input, 1);
            no_data(burn(st, token_id))
        },
        _ => Ok(Vec::new()),
    }
}

// ---------------------------------------------------------------------------
// Laws
// ---------------------------------------------------------------------------

/// A minted token belongs to its receiver, whose balance and the supply
/// grow by one; it cannot be minted again.
pub proof fn law_mint(m: StorageMap, to: Seq<u8>, token_id: u128, to2: Seq<u8>)
    requires
        to.len() == 32,
        mint_completes(m, to),
        mint_outcome(m, to, token_id).0 is Ok,
    ensures
        ({
            let m2 = mint_outcome(m, to, token_id).1;
            &&& owner(m2, token_id) == Some(to)
            &&& balance(m2, to) == balance(m, to) + 1
            &&& total_supply(m2) == total_supply(m) + 1
            &&& !all_zero(to2) ==> mint_outcome(m2, to2, token_id).0 == Err::<(), u64>(ERR_TOKEN_ALREADY_MINTED)
        }),
{
    lemma_keys_distinct(token_id, to, to);
    lemma_u128_cell_roundtrip((balance(m, to) + 1) as u128);
    lemma_u128_cell_roundtrip((total_supply(m) + 1) as u128);
    assert(to.take(32) =~= to);
}

/// A transfer between two different holders hands the token to the
/// receiver, clears its approval, and moves one unit of balance.
pub proof fn law_transfer(m: StorageMap, from: Seq<u8>, to: Seq<u8>, token_id: u128)
    requires
        from.len() == 32,
        to.len() == 32,
        from != to,
        transfer_completes(m, from, to, token_id),
        transfer_outcome(m, from, to, token_id).0 is Ok,
    ensures
        ({
            let m2 = transfer_outcome(m, from, to, token_id).1;
            &&& owner(m2, token_id) == Some(to)
            &&& !m2.contains_key(approval_key(token_id))
            &&& balance(m2, from) == balance(m, from) - 1
            &&& balance(m2, to) == balance(m, to) + 1
            &&& total_supply(m2) == total_supply(m)
        }),
{
    lemma_keys_distinct(token_id, from, to);
    lemma_keys_distinct(token_id, to, from);
    lemma_u128_cell_roundtrip((balance(m, from) - 1) as u128);
    lemma_u128_cell_roundtrip((balance(m, to) + 1) as u128);
    assert(to.take(32) =~= to);
}

/// A burned token no longer exists, and the supply drops by one.
pub proof fn law_burn(m: StorageMap, token_id: u128)
    requires
        burn_outcome(m, token_id).0 is Ok,
    ensures
        ({
            let m2 = burn_outcome(m, token_id).1;
            &&& owner(m2, token_id) is None
            &&& !m2.contains_key(approval_key(token_id))
            &&& total_supply(m2) == if total_supply(m) == 0 { 0 } else { total_supply(m) - 1 }
        }),
{
    let o = owner(m, token_id)->0;
    assert(o.len() == 32);
    lemma_keys_distinct(token_id, o, o);
    lemma_u128_cell_roundtrip((balance(m, o) - 1) as u128);
    lemma_u128_cell_roundtrip(0);
    if total_supply(m) > 0 {
        lemma_u128_cell_roundtrip((total_supply(m) - 1) as u128);
    }
}

} // verus!

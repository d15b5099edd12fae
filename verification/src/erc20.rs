//! An ERC20 token in the OpenZeppelin style: balances, allowances, an owner
//! who mints, burning by holders, and metadata.
//!
//! Each operation takes the parameters after the opcode and answers a
//! status code (0 for success); queries also answer their return data.
//! Balance updates saturate instead of overflowing.

use vstd::prelude::*;
use crate::bytes::{
    le_bytes, le_nat, address_at, read_u16_at, read_u64_at, copy_range, u64_le, append_bytes,
    all_zero, is_zero_address, bytes_eq,
};
use crate::storage::Storage;
use crate::cells::{lemma_u64_cell_roundtrip, u64_cell, address_cell, bytes_cell, read_u64, write_u64, read_address,
    read_bytes};
use crate::stablecoin::StorageMap;

verus! {

pub const MAX_NAME_LENGTH: usize = 32;
pub const MAX_SYMBOL_LENGTH: usize = 8;

pub const OP_INITIALIZE: u8 = 0x00;
pub const OP_TRANSFER: u8 = 0x01;
pub const OP_APPROVE: u8 = 0x02;
pub const OP_TRANSFER_FROM: u8 = 0x03;
pub const OP_MINT: u8 = 0x04;
pub const OP_BURN: u8 = 0x05;
pub const OP_BALANCE_OF: u8 = 0x10;
pub const OP_ALLOWANCE: u8 = 0x11;
pub const OP_TOTAL_SUPPLY: u8 = 0x12;
pub const OP_NAME: u8 = 0x13;
pub const OP_SYMBOL: u8 = 0x14;
pub const OP_DECIMALS: u8 = 0x15;

pub const SUCCESS: u64 = 0;
pub const ERR_ALREADY_INITIALIZED: u64 = 1001;
pub const ERR_NOT_INITIALIZED: u64 = 1002;
pub const ERR_INVALID_INSTRUCTION: u64 = 1003;
pub const ERR_INVALID_PARAMS: u64 = 1004;
pub const ERR_INSUFFICIENT_BALANCE: u64 = 1005;
pub const ERR_INSUFFICIENT_ALLOWANCE: u64 = 1006;
pub const ERR_UNAUTHORIZED: u64 = 1007;
pub const ERR_INVALID_ADDRESS: u64 = 1008;

// ---------------------------------------------------------------------------
// Storage
// ---------------------------------------------------------------------------

pub open spec fn key_initialized() -> Seq<u8> {
    seq![0x01u8]
}

pub open spec fn key_total_supply() -> Seq<u8> {
    seq![0x02u8]
}

pub open spec fn key_name() -> Seq<u8> {
    seq![0x03u8]
}

pub open spec fn key_symbol() -> Seq<u8> {
    seq![0x04u8]
}

pub open spec fn key_decimals() -> Seq<u8> {
    seq![0x05u8]
}

pub open spec fn key_owner() -> Seq<u8> {
    seq![0x06u8]
}

/// `0x10` and the account.
pub open spec fn balance_key(account: Seq<u8>) -> Seq<u8> {
    seq![0x10u8] + account
}

/// `0x20`, the owner and the spender.
pub open spec fn allowance_key(owner: Seq<u8>, spender: Seq<u8>) -> Seq<u8> {
    seq![0x20u8] + owner + spender
}

fn byte_key(b: u8) -> (r: Vec<u8>)
    ensures
        r@ == seq![b],
{
    let v = vec![b];
    assert(v@ =~= seq![b]);
    v
}

fn balance_key_vec(account: &[u8; 32]) -> (r: Vec<u8>)
    ensures
        r@ == balance_key(account@),
{
    let mut k = byte_key(0x10);
    append_bytes(&mut k, account.as_slice());
    k
}

fn allowance_key_vec(owner: &[u8; 32], spender: &[u8; 32]) -> (r: Vec<u8>)
    ensures
        r@ == allowance_key(owner@, spender@),
{
    let mut k = byte_key(0x20);
    append_bytes(&mut k, owner.as_slice());
    append_bytes(&mut k, spender.as_slice());
    k
}

/// Initialized once the flag byte 1 is stored.
pub open spec fn initialized(m: StorageMap) -> bool {
    match m.get(key_initialized()) {
        Some(b) => b.len() > 0 && b[0] == 1,
        None => false,
    }
}

/// A stored `u64`, 0 unless at least 8 bytes are stored.
pub open spec fn stored_u64(m: StorageMap, k: Seq<u8>) -> u64 {
    match u64_cell(m.get(k)) {
        Some(v) => v,
        None => 0,
    }
}

pub open spec fn total_supply(m: StorageMap) -> u64 {
    stored_u64(m, key_total_supply())
}

pub open spec fn balance(m: StorageMap, account: Seq<u8>) -> u64 {
    stored_u64(m, balance_key(account))
}

pub open spec fn allowance(m: StorageMap, owner: Seq<u8>, spender: Seq<u8>) -> u64 {
    stored_u64(m, allowance_key(owner, spender))
}

/// The owner, the zero address unless 32 bytes are stored.
pub open spec fn owner(m: StorageMap) -> Seq<u8> {
    match address_cell(m.get(key_owner())) {
        Some(a) => a,
        None => Seq::new(32, |i: int| 0u8),
    }
}

pub fn is_initialized(st: &Storage) -> (r: bool)
    ensures
        r == initialized(st@),
{
    let (buf, len) = st.read(byte_key(0x01).as_slice(), 1);
    len > 0 && buf[0] == 1
}

pub fn set_initialized(st: &mut Storage)
    ensures
        final(st)@ == old(st)@.insert(key_initialized(), seq![1u8]),
{
    st.write(byte_key(0x01).as_slice(), byte_key(1).as_slice());
}

pub fn get_total_supply(st: &Storage) -> (r: u64)
    ensures
        r == total_supply(st@),
{
    match read_u64(st, byte_key(0x02).as_slice()) {
        Some(v) => v,
        None => 0,
    }
}

pub fn set_total_supply(st: &mut Storage, amount: u64)
    ensures
        final(st)@ == old(st)@.insert(key_total_supply(), le_bytes(amount as nat, 8)),
{
    write_u64(st, byte_key(0x02).as_slice(), amount);
}

pub fn get_balance(st: &Storage, account: &[u8; 32]) -> (r: u64)
    ensures
        r == balance(st@, account@),
{
    match read_u64(st, balance_key_vec(account).as_slice()) {
        Some(v) => v,
        None => 0,
    }
}

pub fn set_balance(st: &mut Storage, account: &[u8; 32], amount: u64)
    ensures
        final(st)@ == old(st)@.insert(balance_key(account@), le_bytes(amount as nat, 8)),
{
    write_u64(st, balance_key_vec(account).as_slice(), amount);
}

pub fn get_allowance(st: &Storage, owner: &[u8; 32], spender: &[u8; 32]) -> (r: u64)
    ensures
        r == allowance(st@, owner@, spender@),
{
    match read_u64(st, allowance_key_vec(owner, spender).as_slice()) {
        Some(v) => v,
        None => 0,
    }
}

pub fn set_allowance(st: &mut Storage, owner: &[u8; 32], spender: &[u8; 32], amount: u64)
    ensures
        final(st)@ == old(st)@.insert(allowance_key(owner@, spender@), le_bytes(amount as nat, 8)),
{
    write_u64(st, allowance_key_vec(owner, spender).as_slice(), amount);
}

pub fn get_owner(st: &Storage) -> (r: [u8; 32])
    ensures
        r@ == owner(st@),
{
    match read_address(st, byte_key(0x06).as_slice()) {
        Some(a) => a,
        None => {
            let z = [0u8; 32];
            assert(z@ =~= Seq::new(32, |i: int| 0u8));
            z
        },
    }
}

pub fn set_owner(st: &mut Storage, owner: &[u8; 32])
    ensures
        final(st)@ == old(st)@.insert(key_owner(), owner@),
{
    st.write(byte_key(0x06).as_slice(), owner.as_slice());
}

/// `a + b`, at most `u64::MAX`.
pub open spec fn sat_add(a: u64, b: u64) -> u64 {
    if a + b > u64::MAX {
        u64::MAX
    } else {
        (a + b) as u64
    }
}

/// `a - b`, at least 0.
pub open spec fn sat_sub(a: u64, b: u64) -> u64 {
    if a < b {
        0
    } else {
        (a - b) as u64
    }
}

// ---------------------------------------------------------------------------
// Operations
// ---------------------------------------------------------------------------

pub open spec fn addr(p: Seq<u8>, off: int) -> Seq<u8> {
    p.subrange(off, off + 32)
}

pub open spec fn u64_param(p: Seq<u8>, off: int) -> u64 {
    le_nat(p.subrange(off, off + 8)) as u64
}

pub open spec fn u16_param(p: Seq<u8>, off: int) -> nat {
    le_nat(p.subrange(off, off + 2))
}

/// Outcome of `INITIALIZE`: `[name_len:2][name][symbol_len:2][symbol]
/// [decimals:1][initial_supply:8]` (name at most 32 bytes, symbol at most
/// 8); the sender becomes owner and holds the initial supply.
pub open spec fn initialize_outcome(m: StorageMap, sender: Seq<u8>, p: Seq<u8>) -> (u64, StorageMap) {
    if initialized(m) {
        (ERR_ALREADY_INITIALIZED, m)
    } else if p.len() < 13 {
        (ERR_INVALID_PARAMS, m)
    } else {
        let nl = u16_param(p, 0) as int;
        if 2 + nl > p.len() || nl > MAX_NAME_LENGTH {
            (ERR_INVALID_PARAMS, m)
        } else if 2 + nl + 2 > p.len() {
            (ERR_INVALID_PARAMS, m)
        } else {
            let sl = u16_param(p, 2 + nl) as int;
            let s0 = 4 + nl;
            if s0 + sl > p.len() || sl > MAX_SYMBOL_LENGTH {
                (ERR_INVALID_PARAMS, m)
            } else if s0 + sl + 1 > p.len() {
                (ERR_INVALID_PARAMS, m)
            } else if s0 + sl + 1 + 8 > p.len() {
                (ERR_INVALID_PARAMS, m)
            } else {
                let supply = u64_param(p, s0 + sl + 1);
                let m1 = m.insert(key_name(), p.subrange(2, 2 + nl)).insert(
                    key_symbol(),
                    p.subrange(s0, s0 + sl),
                ).insert(key_decimals(), seq![p[s0 + sl]]).insert(key_owner(), sender).insert(
                    key_total_supply(),
                    le_bytes(supply as nat, 8),
                );
                let m2 = if supply > 0 {
                    m1.insert(balance_key(sender), le_bytes(supply as nat, 8))
                } else {
                    m1
                };
                (SUCCESS, m2.insert(key_initialized(), seq![1u8]))
            }
        }
    }
}

pub fn op_initialize(st: &mut Storage, sender: &[u8; 32], params: &[u8]) -> (r: u64)
    ensures
        (r, final(st)@) == initialize_outcome(old(st)@, sender@, params@),
{
    if is_initialized(st) {
        return ERR_ALREADY_INITIALIZED;
    }
    if params.len() < 13 {
        return ERR_INVALID_PARAMS;
    }
    let len = params.len();
    let mut offset: usize = 0;
    let name_len = read_u16_at(params, offset) as usize;
    offset = offset + 2;
    if len - offset < name_len || name_len > MAX_NAME_LENGTH {
        return ERR_INVALID_PARAMS;
    }
    let name = copy_range(params, offset, name_len);
    offset = offset + name_len;
    if len - offset < 2 {
        return ERR_INVALID_PARAMS;
    }
    let symbol_len = read_u16_at(params, offset) as usize;
    offset = offset + 2;
    if len - offset < symbol_len || symbol_len > MAX_SYMBOL_LENGTH {
        return ERR_INVALID_PARAMS;
    }
    let symbol = copy_range(params, offset, symbol_len);
    offset = offset + symbol_len;
    if len - offset < 1 {
        return ERR_INVALID_PARAMS;
    }
    let decimals = params[offset];
    offset = offset + 1;
    if len - offset < 8 {
        return ERR_INVALID_PARAMS;
    }
    let initial_supply = read_u64_at(params, offset);
    st.write(byte_key(0x03).as_slice(), name.as_slice());
    st.write(byte_key(0x04).as_slice(), symbol.as_slice());
    st.write(byte_key(0x05).as_slice(), byte_key(decimals).as_slice());
    set_owner(st, sender);
    set_total_supply(st, initial_supply);
    if initial_supply > 0 {
        set_balance(st, sender, initial_supply);
    }
    set_initialized(st);
    SUCCESS
}

/// The storage after moving `amount` from `from` to `to`: both balances
/// read first, the sender's debited, then the receiver's credited
/// (saturating).
pub open spec fn moved(m: StorageMap, from: Seq<u8>, to: Seq<u8>, amount: u64) -> StorageMap {
    m.insert(balance_key(from), le_bytes(sat_sub(balance(m, from), amount) as nat, 8)).insert(
        balance_key(to),
        le_bytes(sat_add(balance(m, to), amount) as nat, 8),
    )
}

/// Outcome of `TRANSFER` (`[to:32][amount:8]`) from the sender.
pub open spec fn transfer_outcome(m: StorageMap, sender: Seq<u8>, p: Seq<u8>) -> (u64, StorageMap) {
    if !initialized(m) {
        (ERR_NOT_INITIALIZED, m)
    } else if p.len() < 40 {
        (ERR_INVALID_PARAMS, m)
    } else if all_zero(addr(p, 0)) {
        (ERR_INVALID_ADDRESS, m)
    } else if balance(m, sender) < u64_param(p, 32) {
        (ERR_INSUFFICIENT_BALANCE, m)
    } else {
        (SUCCESS, moved(m, sender, addr(p, 0), u64_param(p, 32)))
    }
}

fn move_balance(st: &mut Storage, from: &[u8; 32], to: &[u8; 32], amount: u64)
    ensures
        final(st)@ == moved(old(st)@, from@, to@, amount),
{
    let from_balance = get_balance(st, from);
    let to_balance = get_balance(st, to);
    set_balance(st, from, from_balance.saturating_sub(amount));
    set_balance(st, to, to_balance.saturating_add(amount));
}

pub fn op_transfer(st: &mut Storage, sender: &[u8; 32], params: &[u8]) -> (r: u64)
    ensures
        (r, final(st)@) == transfer_outcome(old(st)@, sender@, params@),
{
    if !is_initialized(st) {
        return ERR_NOT_INITIALIZED;
    }
    if params.len() < 40 {
        return ERR_INVALID_PARAMS;
    }
    let to = address_at(params, 0);
    let amount = read_u64_at(params, 32);
    if is_zero_address(&to) {
        return ERR_INVALID_ADDRESS;
    }
    if get_balance(st, sender) < amount {
        return ERR_INSUFFICIENT_BALANCE;
    }
    move_balance(st, sender, &to, amount);
    SUCCESS
}

/// Outcome of `APPROVE` (`[spender:32][amount:8]`): sets the sender's
/// allowance for the spender.
pub open spec fn approve_outcome(m: StorageMap, sender: Seq<u8>, p: Seq<u8>) -> (u64, StorageMap) {
    if !initialized(m) {
        (ERR_NOT_INITIALIZED, m)
    } else if p.len() < 40 {
        (ERR_INVALID_PARAMS, m)
    } else if all_zero(addr(p, 0)) {
        (ERR_INVALID_ADDRESS, m)
    } else {
        (SUCCESS, m.insert(allowance_key(sender, addr(p, 0)), le_bytes(u64_param(p, 32) as nat, 8)))
    }
}

pub fn op_approve(st: &mut Storage, sender: &[u8; 32], params: &[u8]) -> (r: u64)
    ensures
        (r, final(st)@) == approve_outcome(old(st)@, sender@, params@),
{
    if !is_initialized(st) {
        return ERR_NOT_INITIALIZED;
    }
    if params.len() < 40 {
        return ERR_INVALID_PARAMS;
    }
    let spender = address_at(params, 0);
    let amount = read_u64_at(params, 32);
    if is_zero_address(&spender) {
        return ERR_INVALID_ADDRESS;
    }
    set_allowance(st, sender, &spender, amount);
    SUCCESS
}

/// Outcome of `TRANSFER_FROM` (`[from:32][to:32][amount:8]`), spending the
/// sender's allowance.
pub open spec fn transfer_from_outcome(m: StorageMap, sender: Seq<u8>, p: Seq<u8>) -> (u64, StorageMap) {
    if !initialized(m) {
        (ERR_NOT_INITIALIZED, m)
    } else if p.len() < 72 {
        (ERR_INVALID_PARAMS, m)
    } else {
        let from = addr(p, 0);
        let to = addr(p, 32);
        let amount = u64_param(p, 64);
        if all_zero(from) || all_zero(to) {
            (ERR_INVALID_ADDRESS, m)
        } else if allowance(m, from, sender) < amount {
            (ERR_INSUFFICIENT_ALLOWANCE, m)
        } else if balance(m, from) < amount {
            (ERR_INSUFFICIENT_BALANCE, m)
        } else {
            (
                SUCCESS,
                moved(m, from, to, amount).insert(
                    allowance_key(from, sender),
                    le_bytes(sat_sub(allowance(m, from, sender), amount) as nat, 8),
                ),
            )
        }
    }
}

pub fn op_transfer_from(st: &mut Storage, sender: &[u8; 32], params: &[u8]) -> (r: u64)
    ensures
        (r, final(st)@) == transfer_from_outcome(old(st)@, sender@, params@),
{
    if !is_initialized(st) {
        return ERR_NOT_INITIALIZED;
    }
    if params.len() < 72 {
        return ERR_INVALID_PARAMS;
    }
    let from = address_at(params, 0);
    let to = address_at(params, 32);
    let amount = read_u64_at(params, 64);
    if is_zero_address(&from) || is_zero_address(&to) {
        return ERR_INVALID_ADDRESS;
    }
    let allowance = get_allowance(st, &from, sender);
    if allowance < amount {
        return ERR_INSUFFICIENT_ALLOWANCE;
    }
    if get_balance(st, &from) < amount {
        return ERR_INSUFFICIENT_BALANCE;
    }
    move_balance(st, &from, &to, amount);
    set_allowance(st, &from, sender, allowance.saturating_sub(amount));
    SUCCESS
}

/// Outcome of `MINT` (`[to:32][amount:8]`), owner only; balance and supply
/// saturate.
pub open spec fn mint_outcome(m: StorageMap, sender: Seq<u8>, p: Seq<u8>) -> (u64, StorageMap) {
    if !initialized(m) {
        (ERR_NOT_INITIALIZED, m)
    } else if p.len() < 40 {
        (ERR_INVALID_PARAMS, m)
    } else if sender != owner(m) {
        (ERR_UNAUTHORIZED, m)
    } else if all_zero(addr(p, 0)) {
        (ERR_INVALID_ADDRESS, m)
    } else {
        let to = addr(p, 0);
        let amount = u64_param(p, 32);
        let m1 = m.insert(balance_key(to), le_bytes(sat_add(balance(m, to), amount) as nat, 8));
        (SUCCESS, m1.insert(key_total_supply(), le_bytes(sat_add(total_supply(m1), amount) as nat, 8)))
    }
}

pub fn op_mint(st: &mut Storage, sender: &[u8; 32], params: &[u8]) -> (r: u64)
    ensures
        (r, final(st)@) == mint_outcome(old(st)@, sender@, params@),
{
    if !is_initialized(st) {
        return ERR_NOT_INITIALIZED;
    }
    if params.len() < 40 {
        return ERR_INVALID_PARAMS;
    }
    let owner = get_owner(st);
    if !bytes_eq(sender.as_slice(), owner.as_slice()) {
        return ERR_UNAUTHORIZED;
    }
    let to = address_at(params, 0);
    let amount = read_u64_at(params, 32);
    if is_zero_address(&to) {
        return ERR_INVALID_ADDRESS;
    }
    let to_balance = get_balance(st, &to);
    set_balance(st, &to, to_balance.saturating_add(amount));
    let total = get_total_supply(st);
    set_total_supply(st, total.saturating_add(amount));
    SUCCESS
}

/// Outcome of `BURN` (`[amount:8]`) of the sender's tokens.
pub open spec fn burn_outcome(m: StorageMap, sender: Seq<u8>, p: Seq<u8>) -> (u64, StorageMap) {
    if !initialized(m) {
        (ERR_NOT_INITIALIZED, m)
    } else if p.len() < 8 {
        (ERR_INVALID_PARAMS, m)
    } else if balance(m, sender) < u64_param(p, 0) {
        (ERR_INSUFFICIENT_BALANCE, m)
    } else {
        let amount = u64_param(p, 0);
        let m1 = m.insert(
            balance_key(sender),
            le_bytes(sat_sub(balance(m, sender), amount) as nat, 8),
        );
        (SUCCESS, m1.insert(key_total_supply(), le_bytes(sat_sub(total_supply(m1), amount) as nat, 8)))
    }
}

pub fn op_burn(st: &mut Storage, sender: &[u8; 32], params: &[u8]) -> (r: u64)
    ensures
        (r, final(st)@) == burn_outcome(old(st)@, sender@, params@),
{
    if !is_initialized(st) {
        return ERR_NOT_INITIALIZED;
    }
    if params.len() < 8 {
        return ERR_INVALID_PARAMS;
    }
    let amount = read_u64_at(params, 0);
    let balance = get_balance(st, sender);
    if balance < amount {
        return ERR_INSUFFICIENT_BALANCE;
    }
    set_balance(st, sender, balance.saturating_sub(amount));
    let total = get_total_supply(st);
    set_total_supply(st, total.saturating_sub(amount));
    SUCCESS
}

// ---------------------------------------------------------------------------
// Queries
// ---------------------------------------------------------------------------

/// Answer of `BALANCE_OF` (`[account:32]`): the balance in 8 bytes.
pub open spec fn balance_of_result(m: StorageMap, p: Seq<u8>) -> Result<Seq<u8>, u64> {
    if !initialized(m) {
        Err(ERR_NOT_INITIALIZED)
    } else if p.len() < 32 {
        Err(ERR_INVALID_PARAMS)
    } else {
        Ok(le_bytes(balance(m, addr(p, 0)) as nat, 8))
    }
}

pub fn op_balance_of(st: &Storage, params: &[u8]) -> (r: Result<Vec<u8>, u64>)
    ensures
        crate::usdt::answer(r) == balance_of_result(st@, params@),
{
    if !is_initialized(st) {
        return Err(ERR_NOT_INITIALIZED);
    }
    if params.len() < 32 {
        return Err(ERR_INVALID_PARAMS);
    }
    let account = address_at(params, 0);
    Ok(u64_le(get_balance(st, &account)))
}

/// Answer of `ALLOWANCE` (`[owner:32][spender:32]`).
pub open spec fn allowance_result(m: StorageMap, p: Seq<u8>) -> Result<Seq<u8>, u64> {
    if !initialized(m) {
        Err(ERR_NOT_INITIALIZED)
    } else if p.len() < 64 {
        Err(ERR_INVALID_PARAMS)
    } else {
        Ok(le_bytes(allowance(m, addr(p, 0), addr(p, 32)) as nat, 8))
    }
}

pub fn op_allowance(st: &Storage, params: &[u8]) -> (r: Result<Vec<u8>, u64>)
    ensures
        crate::usdt::answer(r) == allowance_result(st@, params@),
{
    if !is_initialized(st) {
        return Err(ERR_NOT_INITIALIZED);
    }
    if params.len() < 64 {
        return Err(ERR_INVALID_PARAMS);
    }
    let owner = address_at(params, 0);
    let spender = address_at(params, 32);
    Ok(u64_le(get_allowance(st, &owner, &spender)))
}

/// Answer of `TOTAL_SUPPLY`.
pub open spec fn total_supply_result(m: StorageMap) -> Result<Seq<u8>, u64> {
    if !initialized(m) {
        Err(ERR_NOT_INITIALIZED)
    } else {
        Ok(le_bytes(total_supply(m) as nat, 8))
    }
}

pub fn op_total_supply(st: &Storage) -> (r: Result<Vec<u8>, u64>)
    ensures
        crate::usdt::answer(r) == total_supply_result(st@),
{
    if !is_initialized(st) {
        return Err(ERR_NOT_INITIALIZED);
    }
    Ok(u64_le(get_total_supply(st)))
}

/// Answer of a metadata query: the bytes read through a buffer of `cap`
/// bytes, refused when none are stored.
pub open spec fn metadata_result(m: StorageMap, k: Seq<u8>, cap: nat) -> Result<Seq<u8>, u64> {
    if !initialized(m) {
        Err(ERR_NOT_INITIALIZED)
    } else {
        match bytes_cell(m.get(k), cap) {
            Some(b) => Ok(b),
            None => Err(ERR_INVALID_PARAMS),
        }
    }
}

fn metadata(st: &Storage, key: u8, cap: usize) -> (r: Result<Vec<u8>, u64>)
    ensures
        crate::usdt::answer(r) == metadata_result(st@, seq![key], cap as nat),
{
    if !is_initialized(st) {
        return Err(ERR_NOT_INITIALIZED);
    }
    match read_bytes(st, byte_key(key).as_slice(), cap) {
        Some(b) => Ok(b),
        None => Err(ERR_INVALID_PARAMS),
    }
}

/// `NAME`: at most the first 32 stored bytes.
pub fn op_name(st: &Storage) -> (r: Result<Vec<u8>, u64>)
    ensures
        crate::usdt::answer(r) == metadata_result(st@, key_name(), MAX_NAME_LENGTH as nat),
{
    metadata(st, 0x03, MAX_NAME_LENGTH)
}

/// `SYMBOL`: at most the first 8 stored bytes.
pub fn op_symbol(st: &Storage) -> (r: Result<Vec<u8>, u64>)
    ensures
        crate::usdt::answer(r) == metadata_result(st@, key_symbol(), MAX_SYMBOL_LENGTH as nat),
{
    metadata(st, 0x04, MAX_SYMBOL_LENGTH)
}

/// `DECIMALS`: the first stored byte.
pub fn op_decimals(st: &Storage) -> (r: Result<Vec<u8>, u64>)
    ensures
        crate::usdt::answer(r) == metadata_result(st@, key_decimals(), 1),
{
    metadata(st, 0x05, 1)
}

// ---------------------------------------------------------------------------
// Entry point
// ---------------------------------------------------------------------------

/// Status and return data of a query answer.
pub open spec fn query_status(r: Result<Seq<u8>, u64>) -> (u64, Seq<u8>) {
    match r {
        Ok(d) => (SUCCESS, d),
        Err(e) => (e, Seq::empty()),
    }
}

/// Status, return data and storage after an instruction `[opcode][params]`
/// (at most 1024 bytes are read).
pub open spec fn instruction_outcome(m: StorageMap, sender: Seq<u8>, data: Seq<u8>) -> (u64, Seq<u8>, StorageMap) {
    let input = if data.len() <= 1024 {
        data
    } else {
        data.take(1024)
    };
    if input.len() == 0 {
        (ERR_INVALID_INSTRUCTION, Seq::empty(), m)
    } else {
        let op = input[0];
        let p = input.subrange(1, input.len() as int);
        let w = |r: (u64, StorageMap)| (r.0, Seq::<u8>::empty(), r.1);
        let q = |r: Result<Seq<u8>, u64>| (query_status(r).0, query_status(r).1, m);
        if op == OP_INITIALIZE {
            w(initialize_outcome(m, sender, p))
        } else if op == OP_TRANSFER {
            w(transfer_outcome(m, sender, p))
        } else if op == OP_APPROVE {
            w(approve_outcome(m, sender, p))
        } else if op == OP_TRANSFER_FROM {
            w(transfer_from_outcome(m, sender, p))
        } else if op == OP_MINT {
            w(mint_outcome(m, sender, p))
        } else if op == OP_BURN {
            w(burn_outcome(m, sender, p))
        } else if op == OP_BALANCE_OF {
            q(balance_of_result(m, p))
        } else if op == OP_ALLOWANCE {
            q(allowance_result(m, p))
        } else if op == OP_TOTAL_SUPPLY {
            q(total_supply_result(m))
        } else if op == OP_NAME {
            q(metadata_result(m, key_name(), 32))
        } else if op == OP_SYMBOL {
            q(metadata_result(m, key_symbol(), 8))
        } else if op == OP_DECIMALS {
            q(metadata_result(m, key_decimals(), 1))
        } else {
            (ERR_INVALID_INSTRUCTION, Seq::empty(), m)
        }
    }
}

fn query(r: Result<Vec<u8>, u64>) -> (out: (u64, Vec<u8>))
    ensures
        (out.0, out.1@) == query_status(crate::usdt::answer(r)),
{
    match r {
        Ok(d) => (SUCCESS, d),
        Err(e) => (e, Vec::new()),
    }
}

/// Runs one instruction from `sender`; answers the status and the return
/// data.
pub fn entrypoint(st: &mut Storage, sender: &[u8; 32], data: &[u8]) -> (r: (u64, Vec<u8>))
    ensures
        (r.0, r.1@, final(st)@) == instruction_outcome(old(st)@, sender@, data@),
{
    let len = if data.len() <= 1024 {
        data.len()
    } else {
        1024
    };
    if len == 0 {
        return (ERR_INVALID_INSTRUCTION, Vec::new());
    }
    let input = copy_range(data, 0, len);
    proof {
        assert(input@ =~= (if data@.len() <= 1024 { data@ } else { data@.take(1024) }));
    }
    let opcode = input[0];
    let params = copy_range(input.as_slice(), 1, len - 1);
    let p = params.as_slice();
    if opcode == OP_INITIALIZE {
        (op_initialize(st, sender, p), Vec::new())
    } else if opcode == OP_TRANSFER {
        (op_transfer(st, sender, p), Vec::new())
    } else if opcode == OP_APPROVE {
        (op_approve(st, sender, p), Vec::new())
    } else if opcode == OP_TRANSFER_FROM {
        (op_transfer_from(st, sender, p), Vec::new())
    } else if opcode == OP_MINT {
        (op_mint(st, sender, p), Vec::new())
    } else if opcode == OP_BURN {
        (op_burn(st, sender, p), Vec::new())
    } else if opcode == OP_BALANCE_OF {
        query(op_balance_of(st, p))
    } else if opcode == OP_ALLOWANCE {
        query(op_allowance(st, p))
    } else if opcode == OP_TOTAL_SUPPLY {
        query(op_total_supply(st))
    } else if opcode == OP_NAME {
        query(op_name(st))
    } else if opcode == OP_SYMBOL {
        query(op_symbol(st))
    } else if opcode == OP_DECIMALS {
        query(op_decimals(st))
    } else {
        (ERR_INVALID_INSTRUCTION, Vec::new())
    }
}

// ---------------------------------------------------------------------------
// Laws
// ---------------------------------------------------------------------------

/// A transfer between two different accounts that does not overflow the
/// receiver moves exactly the amount: the sum of the two balances is kept.
pub proof fn law_transfer_conserves(m: StorageMap, sender: Seq<u8>, p: Seq<u8>)
    requires
        transfer_outcome(m, sender, p).0 == SUCCESS,
        sender.len() == 32,
        sender != addr(p, 0),
        balance(m, addr(p, 0)) + u64_param(p, 32) <= u64::MAX,
    ensures
        ({
            let m2 = transfer_outcome(m, sender, p).1;
            &&& balance(m2, sender) == balance(m, sender) - u64_param(p, 32)
            &&& balance(m2, addr(p, 0)) == balance(m, addr(p, 0)) + u64_param(p, 32)
        }),
{
    let to = addr(p, 0);
    let amount = u64_param(p, 32);
    lemma_u64_cell_roundtrip(sat_sub(balance(m, sender), amount));
    lemma_u64_cell_roundtrip(sat_add(balance(m, to), amount));
    assert(balance_key(sender).subrange(1, 33) =~= sender);
    assert(balance_key(to).subrange(1, 33) =~= to);
}

/// An approval reads back as set.
pub proof fn law_approve_reads_back(m: StorageMap, sender: Seq<u8>, p: Seq<u8>)
    requires
        approve_outcome(m, sender, p).0 == SUCCESS,
    ensures
        allowance(approve_outcome(m, sender, p).1, sender, addr(p, 0)) == u64_param(p, 32),
{
    lemma_u64_cell_roundtrip(u64_param(p, 32));
}

/// Only the owner mints: any other sender is refused and nothing changes.
pub proof fn law_mint_owner_only(m: StorageMap, sender: Seq<u8>, p: Seq<u8>)
    requires
        initialized(m),
        p.len() >= 40,
        sender != owner(m),
    ensures
        mint_outcome(m, sender, p) == (ERR_UNAUTHORIZED, m),
{
}

/// A spender never moves more than its allowance, and the allowance falls
/// by what it moved.
pub proof fn law_allowance_spent(m: StorageMap, sender: Seq<u8>, p: Seq<u8>)
    requires
        transfer_from_outcome(m, sender, p).0 == SUCCESS,
    ensures
        u64_param(p, 64) <= allowance(m, addr(p, 0), sender),
        allowance(transfer_from_outcome(m, sender, p).1, addr(p, 0), sender) == allowance(
            m,
            addr(p, 0),
            sender,
        ) - u64_param(p, 64),
{
    lemma_u64_cell_roundtrip(sat_sub(allowance(m, addr(p, 0), sender), u64_param(p, 64)));
}

/// A successful `TRANSFER_FROM` of `x` from `from` to another account `to`
/// moves exactly `x` (when the receiver's balance does not saturate): the
/// holder's balance falls by `x`, the receiver's rises by `x`, so their sum
/// is kept, and the spender's allowance falls by `x`.
pub proof fn law_transfer_from_moves_amount(m: StorageMap, sender: Seq<u8>, p: Seq<u8>)
    requires
        transfer_from_outcome(m, sender, p).0 == SUCCESS,
        sender.len() == 32,
        addr(p, 0) != addr(p, 32),
        balance(m, addr(p, 32)) + u64_param(p, 64) <= u64::MAX,
    ensures
        ({
            let from = addr(p, 0);
            let to = addr(p, 32);
            let x = u64_param(p, 64);
            let m2 = transfer_from_outcome(m, sender, p).1;
            &&& balance(m2, from) == balance(m, from) - x
            &&& balance(m2, to) == balance(m, to) + x
            &&& balance(m2, from) + balance(m2, to) == balance(m, from) + balance(m, to)
            &&& allowance(m2, from, sender) == allowance(m, from, sender) - x
        }),
{
    let from = addr(p, 0);
    let to = addr(p, 32);
    let x = u64_param(p, 64);
    lemma_u64_cell_roundtrip(sat_sub(balance(m, from), x));
    lemma_u64_cell_roundtrip(sat_add(balance(m, to), x));
    lemma_u64_cell_roundtrip(sat_sub(allowance(m, from, sender), x));
    assert(balance_key(from).subrange(1, 33) =~= from);
    assert(balance_key(to).subrange(1, 33) =~= to);
    assert(allowance_key(from, sender)[0] != balance_key(from)[0]);
    assert(allowance_key(from, sender)[0] != balance_key(to)[0]);
}

/// A successful `MINT` of `x` to `to` raises the receiver's balance and
/// the total supply by `x` (when neither saturates).
pub proof fn law_mint_credits(m: StorageMap, sender: Seq<u8>, p: Seq<u8>)
    requires
        mint_outcome(m, sender, p).0 == SUCCESS,
        balance(m, addr(p, 0)) + u64_param(p, 32) <= u64::MAX,
        total_supply(m) + u64_param(p, 32) <= u64::MAX,
    ensures
        balance(mint_outcome(m, sender, p).1, addr(p, 0)) == balance(m, addr(p, 0)) + u64_param(p, 32),
        total_supply(mint_outcome(m, sender, p).1) == total_supply(m) + u64_param(p, 32),
{
    let to = addr(p, 0);
    let x = u64_param(p, 32);
    assert(balance_key(to)[0] != key_total_supply()[0]);
    lemma_u64_cell_roundtrip(sat_add(balance(m, to), x));
    let m1 = m.insert(balance_key(to), le_bytes(sat_add(balance(m, to), x) as nat, 8));
    assert(total_supply(m1) == total_supply(m));
    lemma_u64_cell_roundtrip(sat_add(total_supply(m1), x));
}

/// A successful `BURN` of `x` lowers the sender's balance and (when it
/// does not saturate at 0) the total supply by `x`.
pub proof fn law_burn_debits(m: StorageMap, sender: Seq<u8>, p: Seq<u8>)
    requires
        burn_outcome(m, sender, p).0 == SUCCESS,
        u64_param(p, 0) <= total_supply(m),
    ensures
        balance(burn_outcome(m, sender, p).1, sender) == balance(m, sender) - u64_param(p, 0),
        total_supply(burn_outcome(m, sender, p).1) == total_supply(m) - u64_param(p, 0),
{
    let x = u64_param(p, 0);
    assert(balance_key(sender)[0] != key_total_supply()[0]);
    lemma_u64_cell_roundtrip(sat_sub(balance(m, sender), x));
    let m1 = m.insert(balance_key(sender), le_bytes(sat_sub(balance(m, sender), x) as nat, 8));
    assert(total_supply(m1) == total_supply(m));
    lemma_u64_cell_roundtrip(sat_sub(total_supply(m1), x));
}

} // verus!

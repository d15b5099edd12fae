//! A Circle-style stablecoin: transfers and allowances, minters configured by
//! a master minter, separate owner, pauser and blacklister roles.
//!
//! Each instruction is a function of the storage, the caller and the
//! instruction bytes; it answers `Ok(return data)` or `Err(code)`.
//!
//! A minter mints up to the allowance the master minter configured for
//! it; each mint lowers that allowance.

use vstd::prelude::*;
use crate::bytes::{
    le_bytes, le_nat, address_at, read_u32_at, read_u64_at, bytes_eq, copy_range, u64_le, append_bytes,
    lemma_le_bytes_len,
};
use crate::storage::Storage;
use crate::stablecoin::{
    StorageMap, key_name, key_symbol, key_decimals, key_total_supply, key_owner, key_paused,
    balance_key, allowance_key, blacklist_key, stored, flag, balance, allowance, blacklisted,
    paused, put_amount, get_storage, set_storage, read_flag, get_balance, set_balance,
    get_allowance, set_allowance, is_blacklisted, is_paused, key_name_vec, key_symbol_vec,
    key_decimals_vec, key_total_supply_vec, key_owner_vec, key_paused_vec, blacklist_key_vec,
    lemma_key_lengths, write_amount, lemma_amount_roundtrip, lemma_balance_key_injective,
};
use crate::usdt::{address_from_slice, answer, done, u64_arg, u32_arg, account_arg, total_supply, well_formed};

verus! {

/// The roles of the contract.
#[derive(Clone, Copy, PartialEq, Eq, Structural, Debug)]
pub enum Role {
    Owner,
    MasterMinter,
    Minter,
    Pauser,
    Blacklister,
}

/// Contract instructions, numbered as on the wire (see [`Instruction::to_u8`]).
#[derive(Clone, Copy, PartialEq, Eq, Structural, Debug)]
pub enum Instruction {
    Initialize,
    Transfer,
    Approve,
    TransferFrom,
    ConfigureMinter,
    RemoveMinter,
    Mint,
    Burn,
    UpdateMasterMinter,
    UpdatePauser,
    UpdateBlacklister,
    TransferOwnership,
    Pause,
    Unpause,
    Blacklist,
    UnBlacklist,
    BalanceOf,
    Allowance,
    TotalSupply,
    MinterAllowance,
    IsMinter,
    IsBlacklisted,
    IsPaused,
}

/// The wire number of each instruction.
pub open spec fn instruction_code(i: Instruction) -> u8 {
    match i {
        Instruction::Initialize => 0,
        Instruction::Transfer => 1,
        Instruction::Approve => 2,
        Instruction::TransferFrom => 3,
        Instruction::ConfigureMinter => 10,
        Instruction::RemoveMinter => 11,
        Instruction::Mint => 12,
        Instruction::Burn => 13,
        Instruction::UpdateMasterMinter => 20,
        Instruction::UpdatePauser => 21,
        Instruction::UpdateBlacklister => 22,
        Instruction::TransferOwnership => 23,
        Instruction::Pause => 30,
        Instruction::Unpause => 31,
        Instruction::Blacklist => 40,
        Instruction::UnBlacklist => 41,
        Instruction::BalanceOf => 100,
        Instruction::Allowance => 101,
        Instruction::TotalSupply => 102,
        Instruction::MinterAllowance => 103,
        Instruction::IsMinter => 104,
        Instruction::IsBlacklisted => 105,
        Instruction::IsPaused => 106,
    }
}

/// The wire numbers that name an instruction.
pub open spec fn is_instruction_code(v: u8) -> bool {
    v <= 3 || (10 <= v <= 13) || (20 <= v <= 23) || v == 30 || v == 31 || v == 40 || v == 41 || (
    100 <= v <= 106)
}

impl Instruction {
    /// Decodes a wire number.
    pub fn from_u8(value: u8) -> (r: Option<Instruction>)
        ensures
            match r {
                Some(i) => instruction_code(i) == value,
                None => forall|i: Instruction| instruction_code(i) != value,
            },
            r is Some <==> is_instruction_code(value),
    {
        match value {
            0 => Some(Instruction::Initialize),
            1 => Some(Instruction::Transfer),
            2 => Some(Instruction::Approve),
            3 => Some(Instruction::TransferFrom),
            10 => Some(Instruction::ConfigureMinter),
            11 => Some(Instruction::RemoveMinter),
            12 => Some(Instruction::Mint),
            13 => Some(Instruction::Burn),
            20 => Some(Instruction::UpdateMasterMinter),
            21 => Some(Instruction::UpdatePauser),
            22 => Some(Instruction::UpdateBlacklister),
            23 => Some(Instruction::TransferOwnership),
            30 => Some(Instruction::Pause),
            31 => Some(Instruction::Unpause),
            40 => Some(Instruction::Blacklist),
            41 => Some(Instruction::UnBlacklist),
            100 => Some(Instruction::BalanceOf),
            101 => Some(Instruction::Allowance),
            102 => Some(Instruction::TotalSupply),
            103 => Some(Instruction::MinterAllowance),
            104 => Some(Instruction::IsMinter),
            105 => Some(Instruction::IsBlacklisted),
            106 => Some(Instruction::IsPaused),
            _ => None,
        }
    }

    /// The wire number.
    pub fn to_u8(&self) -> (r: u8)
        ensures
            r == instruction_code(*self),
    {
        match self {
            Instruction::Initialize => 0,
            Instruction::Transfer => 1,
            Instruction::Approve => 2,
            Instruction::TransferFrom => 3,
            Instruction::ConfigureMinter => 10,
            Instruction::RemoveMinter => 11,
            Instruction::Mint => 12,
            Instruction::Burn => 13,
            Instruction::UpdateMasterMinter => 20,
            Instruction::UpdatePauser => 21,
            Instruction::UpdateBlacklister => 22,
            Instruction::TransferOwnership => 23,
            Instruction::Pause => 30,
            Instruction::Unpause => 31,
            Instruction::Blacklist => 40,
            Instruction::UnBlacklist => 41,
            Instruction::BalanceOf => 100,
            Instruction::Allowance => 101,
            Instruction::TotalSupply => 102,
            Instruction::MinterAllowance => 103,
            Instruction::IsMinter => 104,
            Instruction::IsBlacklisted => 105,
            Instruction::IsPaused => 106,
        }
    }
}

/// Contract errors.
#[derive(Clone, Copy, PartialEq, Eq, Structural, Debug)]
pub enum UsdcError {
    InvalidInstruction,
    Unauthorized,
    InsufficientBalance,
    InsufficientAllowance,
    InsufficientMinterAllowance,
    Paused,
    NotPaused,
    Blacklisted,
    InvalidAccount,
    NotMinter,
    Overflow,
    Underflow,
}

/// The status code of each error.
pub open spec fn error_code(e: UsdcError) -> u64 {
    match e {
        UsdcError::InvalidInstruction => 1,
        UsdcError::Unauthorized => 2,
        UsdcError::InsufficientBalance => 3,
        UsdcError::InsufficientAllowance => 4,
        UsdcError::InsufficientMinterAllowance => 5,
        UsdcError::Paused => 6,
        UsdcError::NotPaused => 7,
        UsdcError::Blacklisted => 8,
        UsdcError::InvalidAccount => 9,
        UsdcError::NotMinter => 10,
        UsdcError::Overflow => 11,
        UsdcError::Underflow => 12,
    }
}

impl UsdcError {
    /// The status code the contract answers with.
    pub fn code(&self) -> (r: u64)
        ensures
            r == error_code(*self),
    {
        match self {
            UsdcError::InvalidInstruction => 1,
            UsdcError::Unauthorized => 2,
            UsdcError::InsufficientBalance => 3,
            UsdcError::InsufficientAllowance => 4,
            UsdcError::InsufficientMinterAllowance => 5,
            UsdcError::Paused => 6,
            UsdcError::NotPaused => 7,
            UsdcError::Blacklisted => 8,
            UsdcError::InvalidAccount => 9,
            UsdcError::NotMinter => 10,
            UsdcError::Overflow => 11,
            UsdcError::Underflow => 12,
        }
    }
}

/// Emitted when the contract is paused.
pub struct Pause {
    pub timestamp: u64,
}

/// Emitted when the contract is unpaused.
pub struct Unpause {
    pub timestamp: u64,
}

pub const ERR_INVALID_INPUT: u64 = 1;
pub const ERR_UNAUTHORIZED: u64 = 2;
pub const ERR_INSUFFICIENT_BALANCE: u64 = 3;
pub const ERR_INSUFFICIENT_ALLOWANCE: u64 = 4;
pub const ERR_INSUFFICIENT_MINTER_ALLOWANCE: u64 = 5;
pub const ERR_PAUSED: u64 = 6;
pub const ERR_BLACKLISTED: u64 = 8;
pub const ERR_OVERFLOW: u64 = 11;
pub const ERR_UNDERFLOW: u64 = 12;
pub const ERR_ALREADY_INITIALIZED: u64 = 999;

pub type Outcome = (Result<Seq<u8>, u64>, StorageMap);

/// `master_minter`
pub open spec fn key_master_minter() -> Seq<u8> {
    seq![109u8, 97, 115, 116, 101, 114, 95, 109, 105, 110, 116, 101, 114]
}

/// `pauser`
pub open spec fn key_pauser() -> Seq<u8> {
    seq![112u8, 97, 117, 115, 101, 114]
}

/// `blacklister`
pub open spec fn key_blacklister() -> Seq<u8> {
    seq![98u8, 108, 97, 99, 107, 108, 105, 115, 116, 101, 114]
}

/// `is_minter_{account}`
pub open spec fn is_minter_key(account: Seq<u8>) -> Seq<u8> {
    seq![105u8, 115, 95, 109, 105, 110, 116, 101, 114, 95] + account
}

/// `minter_allow_`, two zero bytes, then the minter (47 bytes in all).
pub open spec fn minter_allowance_key(minter: Seq<u8>) -> Seq<u8> {
    seq![109u8, 105, 110, 116, 101, 114, 95, 97, 108, 108, 111, 119, 95, 0, 0] + minter
}

fn minter_allowance_key_vec(minter: &[u8; 32]) -> (r: Vec<u8>)
    ensures
        r@ == minter_allowance_key(minter@),
{
    let mut v = vec![109u8, 105, 110, 116, 101, 114, 95, 97, 108, 108, 111, 119, 95, 0, 0];
    append_bytes(&mut v, minter.as_slice());
    assert(v@ =~= minter_allowance_key(minter@));
    v
}

fn key_master_minter_vec() -> (r: Vec<u8>)
    ensures
        r@ == key_master_minter(),
{
    let v = vec![109u8, 97, 115, 116, 101, 114, 95, 109, 105, 110, 116, 101, 114];
    assert(v@ =~= key_master_minter());
    v
}

fn key_pauser_vec() -> (r: Vec<u8>)
    ensures
        r@ == key_pauser(),
{
    let v = vec![112u8, 97, 117, 115, 101, 114];
    assert(v@ =~= key_pauser());
    v
}

fn key_blacklister_vec() -> (r: Vec<u8>)
    ensures
        r@ == key_blacklister(),
{
    let v = vec![98u8, 108, 97, 99, 107, 108, 105, 115, 116, 101, 114];
    assert(v@ =~= key_blacklister());
    v
}

fn is_minter_key_vec(account: &[u8; 32]) -> (r: Vec<u8>)
    ensures
        r@ == is_minter_key(account@),
{
    let mut v = vec![105u8, 115, 95, 109, 105, 110, 116, 101, 114, 95];
    append_bytes(&mut v, account.as_slice());
    assert(v@ =~= is_minter_key(account@));
    v
}

/// The key under which a single-account role is stored.
pub open spec fn role_account_key(role: Role) -> Seq<u8> {
    match role {
        Role::Owner => key_owner(),
        Role::MasterMinter => key_master_minter(),
        Role::Pauser => key_pauser(),
        Role::Blacklister => key_blacklister(),
        Role::Minter => Seq::empty(),
    }
}

/// Whether the caller holds the role: minters are flagged per account,
/// the other roles name one account (its first 32 stored bytes).
pub open spec fn holds_role(m: StorageMap, caller: Seq<u8>, role: Role) -> bool {
    match role {
        Role::Minter => flag(m, is_minter_key(caller)),
        _ => match stored(m, role_account_key(role)) {
            Some(b) => b.len() >= 32 && caller == b.take(32),
            None => false,
        },
    }
}

pub fn has_role(st: &Storage, caller: &[u8; 32], role: Role) -> (r: bool)
    ensures
        r == holds_role(st@, caller@, role),
{
    let key = match role {
        Role::Owner => key_owner_vec(),
        Role::MasterMinter => key_master_minter_vec(),
        Role::Pauser => key_pauser_vec(),
        Role::Blacklister => key_blacklister_vec(),
        Role::Minter => {
            let k = is_minter_key_vec(caller);
            return read_flag(st, k.as_slice());
        },
    };
    let role_bytes = match get_storage(st, key.as_slice()) {
        Ok(b) => b,
        Err(_) => return false,
    };
    if role_bytes.len() < 32 {
        return false;
    }
    let role_account = address_at(role_bytes.as_slice(), 0);
    assert(role_bytes@.subrange(0, 32) =~= role_bytes@.take(32));
    bytes_eq(caller.as_slice(), role_account.as_slice())
}

pub fn require_role(st: &Storage, caller: &[u8; 32], role: Role) -> (r: Result<(), u64>)
    ensures
        r == (if holds_role(st@, caller@, role) {
            Ok::<(), u64>(())
        } else {
            Err(ERR_UNAUTHORIZED)
        }),
{
    if !has_role(st, caller, role) {
        return Err(ERR_UNAUTHORIZED);
    }
    Ok(())
}

pub fn require_not_paused(st: &Storage) -> (r: Result<(), u64>)
    ensures
        r == (if paused(st@) {
            Err::<(), u64>(ERR_PAUSED)
        } else {
            Ok(())
        }),
{
    if is_paused(st) {
        return Err(ERR_PAUSED);
    }
    Ok(())
}

pub fn require_not_blacklisted(st: &Storage, account: &[u8; 32]) -> (r: Result<(), u64>)
    ensures
        r == (if blacklisted(st@, account@) {
            Err::<(), u64>(ERR_BLACKLISTED)
        } else {
            Ok(())
        }),
{
    if is_blacklisted(st, account) {
        return Err(ERR_BLACKLISTED);
    }
    Ok(())
}

fn done_vec() -> (r: Vec<u8>)
    ensures
        Ok::<Seq<u8>, u64>(r@) == done(),
{
    let v = vec![1u8];
    assert(v@ =~= seq![1u8]);
    v
}

/// The metadata fields of `INITIALIZE` lie within the arguments:
/// `[name_len:4][name][symbol_len:4][symbol][decimals:1]`.
pub open spec fn init_in_bounds(p: Seq<u8>) -> bool {
    let nl = u32_arg(p, 0) as int;
    p.len() >= 8 + nl && p.len() > 8 + nl + u32_arg(p, 4 + nl) as int
}

/// Writes of `INITIALIZE`: metadata, a zero supply, the caller in every
/// single-account role, unpaused.
pub open spec fn init_writes(m: StorageMap, caller: Seq<u8>, p: Seq<u8>) -> StorageMap {
    let nl = u32_arg(p, 0) as int;
    let sl = u32_arg(p, 4 + nl) as int;
    m.insert(key_name(), p.subrange(4, 4 + nl)).insert(
        key_symbol(),
        p.subrange(8 + nl, 8 + nl + sl),
    ).insert(key_decimals(), seq![p[8 + nl + sl]]).insert(
        key_total_supply(),
        le_bytes(0, 8),
    ).insert(key_owner(), caller).insert(key_master_minter(), caller).insert(
        key_pauser(),
        caller,
    ).insert(key_blacklister(), caller).insert(key_paused(), seq![0u8])
}

/// Outcome of `INITIALIZE`.
pub open spec fn initialize_outcome(m: StorageMap, caller: Seq<u8>, p: Seq<u8>) -> Outcome {
    if stored(m, key_owner()) is Some {
        (Err(ERR_ALREADY_INITIALIZED), m)
    } else if p.len() < 17 {
        (Err(ERR_INVALID_INPUT), m)
    } else {
        (done(), init_writes(m, caller, p))
    }
}

/// `INITIALIZE` reads its fields without checking their bounds: it aborts
/// unless they lie within the arguments.
pub open spec fn initialize_completes(m: StorageMap, p: Seq<u8>) -> bool {
    stored(m, key_owner()) is None && p.len() >= 17 ==> init_in_bounds(p)
}

pub fn initialize(st: &mut Storage, caller: &[u8; 32], input: &[u8]) -> (r: Result<Vec<u8>, u64>)
    requires
        initialize_completes(old(st)@, input@),
    ensures
        (answer(r), final(st)@) == initialize_outcome(old(st)@, caller@, input@),
{
    let ko = key_owner_vec();
    if get_storage(st, ko.as_slice()).is_ok() {
        return Err(ERR_ALREADY_INITIALIZED);
    }
    if input.len() < 17 {
        return Err(ERR_INVALID_INPUT);
    }
    let name_len = read_u32_at(input, 0) as usize;
    let name = copy_range(input, 4, name_len);
    let offset = 4 + name_len;
    let symbol_len = read_u32_at(input, offset) as usize;
    let s0 = offset + 4;
    let symbol = copy_range(input, s0, symbol_len);
    let d = s0 + symbol_len;
    let decimals = input[d];
    let kn = key_name_vec();
    set_storage(st, kn.as_slice(), name.as_slice());
    let ks = key_symbol_vec();
    set_storage(st, ks.as_slice(), symbol.as_slice());
    let kd = key_decimals_vec();
    let dv = vec![decimals];
    assert(dv@ =~= seq![decimals]);
    set_storage(st, kd.as_slice(), dv.as_slice());
    let kt = key_total_supply_vec();
    write_amount(st, kt.as_slice(), 0);
    set_storage(st, ko.as_slice(), caller.as_slice());
    let km = key_master_minter_vec();
    set_storage(st, km.as_slice(), caller.as_slice());
    let kpa = key_pauser_vec();
    set_storage(st, kpa.as_slice(), caller.as_slice());
    let kb = key_blacklister_vec();
    set_storage(st, kb.as_slice(), caller.as_slice());
    let kp = key_paused_vec();
    let pv = vec![0u8];
    assert(pv@ =~= seq![0u8]);
    set_storage(st, kp.as_slice(), pv.as_slice());
    Ok(done_vec())
}

/// Moves `amount` from `from` to `to` after the checks (a self-transfer
/// leaves the balance as it was).
pub open spec fn move_funds(m: StorageMap, from: Seq<u8>, to: Seq<u8>, amount: u64) -> Outcome {
    let fb = balance(m, from);
    if fb < amount {
        (Err(ERR_INSUFFICIENT_BALANCE), m)
    } else {
        let m1 = put_amount(m, balance_key(from), (fb - amount) as u64);
        let tb = balance(m1, to);
        if tb + amount > u64::MAX {
            (Err(ERR_OVERFLOW), m1)
        } else {
            (done(), put_amount(m1, balance_key(to), (tb + amount) as u64))
        }
    }
}

fn move_funds_exec(st: &mut Storage, from: &[u8; 32], to: &[u8; 32], amount: u64) -> (r: Result<
    Vec<u8>,
    u64,
>)
    ensures
        (answer(r), final(st)@) == move_funds(old(st)@, from@, to@, amount),
{
    let from_balance = get_balance(st, from);
    if from_balance < amount {
        return Err(ERR_INSUFFICIENT_BALANCE);
    }
    set_balance(st, from, from_balance - amount);
    let to_balance = get_balance(st, to);
    let new_to_balance = match to_balance.checked_add(amount) {
        Some(b) => b,
        None => return Err(ERR_OVERFLOW),
    };
    set_balance(st, to, new_to_balance);
    Ok(done_vec())
}

/// Outcome of `TRANSFER`: `[to:32][amount:8]` from the caller.
pub open spec fn transfer_outcome(m: StorageMap, caller: Seq<u8>, p: Seq<u8>) -> Outcome {
    if paused(m) {
        (Err(ERR_PAUSED), m)
    } else if p.len() < 40 {
        (Err(ERR_INVALID_INPUT), m)
    } else if blacklisted(m, caller) || blacklisted(m, account_arg(p, 0)) {
        (Err(ERR_BLACKLISTED), m)
    } else {
        move_funds(m, caller, account_arg(p, 0), u64_arg(p, 32))
    }
}

pub fn transfer(st: &mut Storage, caller: &[u8; 32], input: &[u8]) -> (r: Result<Vec<u8>, u64>)
    ensures
        (answer(r), final(st)@) == transfer_outcome(old(st)@, caller@, input@),
{
    require_not_paused(st)?;
    if input.len() < 40 {
        return Err(ERR_INVALID_INPUT);
    }
    let to = address_at(input, 0);
    let amount = read_u64_at(input, 32);
    require_not_blacklisted(st, caller)?;
    require_not_blacklisted(st, &to)?;
    move_funds_exec(st, caller, &to, amount)
}

/// Outcome of `APPROVE`: `[spender:32][amount:8]`.
pub open spec fn approve_outcome(m: StorageMap, caller: Seq<u8>, p: Seq<u8>) -> Outcome {
    if paused(m) {
        (Err(ERR_PAUSED), m)
    } else if p.len() < 40 {
        (Err(ERR_INVALID_INPUT), m)
    } else if blacklisted(m, caller) || blacklisted(m, account_arg(p, 0)) {
        (Err(ERR_BLACKLISTED), m)
    } else {
        (done(), put_amount(m, allowance_key(caller, account_arg(p, 0)), u64_arg(p, 32)))
    }
}

pub fn approve(st: &mut Storage, caller: &[u8; 32], input: &[u8]) -> (r: Result<Vec<u8>, u64>)
    ensures
        (answer(r), final(st)@) == approve_outcome(old(st)@, caller@, input@),
{
    require_not_paused(st)?;
    if input.len() < 40 {
        return Err(ERR_INVALID_INPUT);
    }
    let spender = address_at(input, 0);
    let amount = read_u64_at(input, 32);
    require_not_blacklisted(st, caller)?;
    require_not_blacklisted(st, &spender)?;
    set_allowance(st, caller, &spender, amount);
    Ok(done_vec())
}

/// Outcome of `TRANSFER_FROM`: `[from:32][to:32][amount:8]`.
pub open spec fn transfer_from_outcome(m: StorageMap, caller: Seq<u8>, p: Seq<u8>) -> Outcome {
    if paused(m) {
        (Err(ERR_PAUSED), m)
    } else if p.len() < 72 {
        (Err(ERR_INVALID_INPUT), m)
    } else {
        let from = account_arg(p, 0);
        let to = account_arg(p, 32);
        let amount = u64_arg(p, 64);
        if blacklisted(m, from) || blacklisted(m, to) || blacklisted(m, caller) {
            (Err(ERR_BLACKLISTED), m)
        } else if allowance(m, from, caller) < amount {
            (Err(ERR_INSUFFICIENT_ALLOWANCE), m)
        } else if balance(m, from) < amount {
            (Err(ERR_INSUFFICIENT_BALANCE), m)
        } else {
            move_funds(
                put_amount(
                    m,
                    allowance_key(from, caller),
                    (allowance(m, from, caller) - amount) as u64,
                ),
                from,
                to,
                amount,
            )
        }
    }
}

pub fn transfer_from(st: &mut Storage, caller: &[u8; 32], input: &[u8]) -> (r: Result<
    Vec<u8>,
    u64,
>)
    ensures
        (answer(r), final(st)@) == transfer_from_outcome(old(st)@, caller@, input@),
{
    require_not_paused(st)?;
    if input.len() < 72 {
        return Err(ERR_INVALID_INPUT);
    }
    let from = address_at(input, 0);
    let to = address_at(input, 32);
    let amount = read_u64_at(input, 64);
    require_not_blacklisted(st, &from)?;
    require_not_blacklisted(st, &to)?;
    require_not_blacklisted(st, caller)?;
    let allowance = get_allowance(st, &from, caller);
    if allowance < amount {
        return Err(ERR_INSUFFICIENT_ALLOWANCE);
    }
    let from_balance = get_balance(st, &from);
    if from_balance < amount {
        return Err(ERR_INSUFFICIENT_BALANCE);
    }
    proof {
        lemma_key_lengths(from@, caller@);
    }
    set_allowance(st, &from, caller, allowance - amount);
    move_funds_exec(st, &from, &to, amount)
}

/// Outcome of `CONFIGURE_MINTER`: `[minter:32][allowance:8]`, by the master
/// minter; flags the account as a minter and sets its minting allowance.
pub open spec fn configure_minter_outcome(m: StorageMap, caller: Seq<u8>, p: Seq<u8>) -> Outcome {
    if !holds_role(m, caller, Role::MasterMinter) {
        (Err(ERR_UNAUTHORIZED), m)
    } else if p.len() < 40 {
        (Err(ERR_INVALID_INPUT), m)
    } else {
        (
            done(),
            put_amount(
                m.insert(is_minter_key(account_arg(p, 0)), seq![1u8]),
                minter_allowance_key(account_arg(p, 0)),
                u64_arg(p, 32),
            ),
        )
    }
}

pub fn configure_minter(st: &mut Storage, caller: &[u8; 32], input: &[u8]) -> (r: Result<
    Vec<u8>,
    u64,
>)
    ensures
        (answer(r), final(st)@) == configure_minter_outcome(old(st)@, caller@, input@),
{
    require_role(st, caller, Role::MasterMinter)?;
    if input.len() < 40 {
        return Err(ERR_INVALID_INPUT);
    }
    let minter = address_at(input, 0);
    let allowance = read_u64_at(input, 32);
    let one = vec![1u8];
    assert(one@ =~= seq![1u8]);
    set_storage(st, is_minter_key_vec(&minter).as_slice(), one.as_slice());
    write_amount(st, minter_allowance_key_vec(&minter).as_slice(), allowance);
    Ok(done_vec())
}

/// Outcome of `REMOVE_MINTER`: `[minter:32]`, by the master minter; clears
/// the minter flag and zeroes its allowance.
pub open spec fn remove_minter_outcome(m: StorageMap, caller: Seq<u8>, p: Seq<u8>) -> Outcome {
    if !holds_role(m, caller, Role::MasterMinter) {
        (Err(ERR_UNAUTHORIZED), m)
    } else if p.len() < 32 {
        (Err(ERR_INVALID_INPUT), m)
    } else {
        (
            done(),
            put_amount(
                m.insert(is_minter_key(account_arg(p, 0)), seq![0u8]),
                minter_allowance_key(account_arg(p, 0)),
                0,
            ),
        )
    }
}

pub fn remove_minter(st: &mut Storage, caller: &[u8; 32], input: &[u8]) -> (r: Result<
    Vec<u8>,
    u64,
>)
    ensures
        (answer(r), final(st)@) == remove_minter_outcome(old(st)@, caller@, input@),
{
    require_role(st, caller, Role::MasterMinter)?;
    if input.len() < 32 {
        return Err(ERR_INVALID_INPUT);
    }
    let minter = address_at(input, 0);
    let zero = vec![0u8];
    assert(zero@ =~= seq![0u8]);
    set_storage(st, is_minter_key_vec(&minter).as_slice(), zero.as_slice());
    write_amount(st, minter_allowance_key_vec(&minter).as_slice(), 0);
    Ok(done_vec())
}

/// A minter's allowance as stored: its first 8 bytes, little-endian.
pub open spec fn minter_allowance(m: StorageMap, minter: Seq<u8>) -> Option<u64> {
    match stored(m, minter_allowance_key(minter)) {
        Some(b) => Some(le_nat(b.take(8)) as u64),
        None => None,
    }
}

/// The mint gets past its checks of role, arguments and receiver.
pub open spec fn mint_reaches_allowance(m: StorageMap, caller: Seq<u8>, p: Seq<u8>) -> bool {
    !paused(m) && holds_role(m, caller, Role::Minter) && p.len() >= 40 && !blacklisted(m, account_arg(p, 0))
}

/// A stored minter allowance that a mint reads holds 8 bytes.
pub open spec fn mint_completes(m: StorageMap, caller: Seq<u8>, p: Seq<u8>) -> bool {
    mint_reaches_allowance(m, caller, p) ==> match stored(m, minter_allowance_key(caller)) {
        Some(b) => b.len() >= 8,
        None => true,
    }
}

/// Outcome of `MINT`: `[to:32][amount:8]`, by a minter, to a receiver not
/// blacklisted, within the minter's allowance; lowers the allowance and
/// raises the total supply and the receiver's balance.  A refusal for
/// overflow keeps the writes made before it.
pub open spec fn mint_outcome(m: StorageMap, caller: Seq<u8>, p: Seq<u8>) -> Outcome {
    if paused(m) {
        (Err(ERR_PAUSED), m)
    } else if !holds_role(m, caller, Role::Minter) {
        (Err(ERR_UNAUTHORIZED), m)
    } else if p.len() < 40 {
        (Err(ERR_INVALID_INPUT), m)
    } else if blacklisted(m, account_arg(p, 0)) {
        (Err(ERR_BLACKLISTED), m)
    } else {
        let to = account_arg(p, 0);
        let amount = u64_arg(p, 32);
        match minter_allowance(m, caller) {
            None => (Err(ERR_INVALID_INPUT), m),
            Some(al) => if al < amount {
                (Err(ERR_INSUFFICIENT_MINTER_ALLOWANCE), m)
            } else {
                let m1 = put_amount(m, minter_allowance_key(caller), (al - amount) as u64);
                match total_supply(m1) {
                    None => (Err(ERR_INVALID_INPUT), m1),
                    Some(t) => if t + amount > u64::MAX {
                        (Err(ERR_OVERFLOW), m1)
                    } else {
                        let m2 = put_amount(m1, key_total_supply(), (t + amount) as u64);
                        let b = balance(m2, to);
                        if b + amount > u64::MAX {
                            (Err(ERR_OVERFLOW), m2)
                        } else {
                            (done(), put_amount(m2, balance_key(to), (b + amount) as u64))
                        }
                    },
                }
            },
        }
    }
}

pub fn mint(st: &mut Storage, caller: &[u8; 32], input: &[u8]) -> (r: Result<Vec<u8>, u64>)
    requires
        well_formed(old(st)@),
        mint_completes(old(st)@, caller@, input@),
    ensures
        (answer(r), final(st)@) == mint_outcome(old(st)@, caller@, input@),
{
    require_not_paused(st)?;
    require_role(st, caller, Role::Minter)?;
    if input.len() < 40 {
        return Err(ERR_INVALID_INPUT);
    }
    let to = address_at(input, 0);
    let amount = read_u64_at(input, 32);
    require_not_blacklisted(st, &to)?;
    let ak = minter_allowance_key_vec(caller);
    let allowance_bytes = get_storage(st, ak.as_slice())?;
    let allowance = read_u64_at(allowance_bytes.as_slice(), 0);
    assert(allowance_bytes@.subrange(0, 8) =~= allowance_bytes@.take(8));
    if allowance < amount {
        return Err(ERR_INSUFFICIENT_MINTER_ALLOWANCE);
    }
    proof {
        lemma_key_lengths(caller@, caller@);
        assert(minter_allowance_key(caller@).len() == 47);
    }
    write_amount(st, ak.as_slice(), allowance - amount);
    let total = read_total_supply(st)?;
    let new_total = match total.checked_add(amount) {
        Some(t) => t,
        None => return Err(ERR_OVERFLOW),
    };
    write_amount(st, key_total_supply_vec().as_slice(), new_total);
    let balance = get_balance(st, &to);
    let new_balance = match balance.checked_add(amount) {
        Some(b) => b,
        None => return Err(ERR_OVERFLOW),
    };
    set_balance(st, &to, new_balance);
    Ok(done_vec())
}

/// Outcome of `BURN`: `[from:32][amount:8]`, minters only; lowers the
/// holder's balance and the total supply.
pub open spec fn burn_outcome(m: StorageMap, caller: Seq<u8>, p: Seq<u8>) -> Outcome {
    if paused(m) {
        (Err(ERR_PAUSED), m)
    } else if !holds_role(m, caller, Role::Minter) {
        (Err(ERR_UNAUTHORIZED), m)
    } else if p.len() < 40 {
        (Err(ERR_INVALID_INPUT), m)
    } else {
        let from = account_arg(p, 0);
        let amount = u64_arg(p, 32);
        let b = balance(m, from);
        if b < amount {
            (Err(ERR_INSUFFICIENT_BALANCE), m)
        } else {
            match total_supply(m) {
                None => (Err(ERR_INVALID_INPUT), m),
                Some(t) => if t < amount {
                    (Err(ERR_UNDERFLOW), m)
                } else {
                    (
                        done(),
                        put_amount(
                            put_amount(m, key_total_supply(), (t - amount) as u64),
                            balance_key(from),
                            (b - amount) as u64,
                        ),
                    )
                },
            }
        }
    }
}

fn read_total_supply(st: &Storage) -> (r: Result<u64, u64>)
    requires
        well_formed(st@),
    ensures
        match r {
            Ok(t) => total_supply(st@) == Some(t),
            Err(e) => e == ERR_INVALID_INPUT && total_supply(st@) is None,
        },
{
    let k = key_total_supply_vec();
    let b = get_storage(st, k.as_slice())?;
    let t = read_u64_at(b.as_slice(), 0);
    assert(b@.subrange(0, 8) =~= b@.take(8));
    Ok(t)
}

pub fn burn(st: &mut Storage, caller: &[u8; 32], input: &[u8]) -> (r: Result<Vec<u8>, u64>)
    requires
        well_formed(old(st)@),
    ensures
        (answer(r), final(st)@) == burn_outcome(old(st)@, caller@, input@),
{
    require_not_paused(st)?;
    require_role(st, caller, Role::Minter)?;
    if input.len() < 40 {
        return Err(ERR_INVALID_INPUT);
    }
    let from = address_at(input, 0);
    let amount = read_u64_at(input, 32);
    let balance = get_balance(st, &from);
    if balance < amount {
        return Err(ERR_INSUFFICIENT_BALANCE);
    }
    let total = read_total_supply(st)?;
    let new_total = match total.checked_sub(amount) {
        Some(t) => t,
        None => return Err(ERR_UNDERFLOW),
    };
    let kt = key_total_supply_vec();
    write_amount(st, kt.as_slice(), new_total);
    proof {
        lemma_key_lengths(from@, from@);
    }
    set_balance(st, &from, balance - amount);
    Ok(done_vec())
}

/// Outcome of the role updates (`UPDATE_MASTER_MINTER`, `UPDATE_PAUSER`,
/// `UPDATE_BLACKLISTER`, `TRANSFER_OWNERSHIP`): `[account:32]`, owner only;
/// the account takes over the role stored under `key`.
pub open spec fn update_role_outcome(m: StorageMap, caller: Seq<u8>, p: Seq<u8>, key: Seq<u8>) -> Outcome {
    if !holds_role(m, caller, Role::Owner) {
        (Err(ERR_UNAUTHORIZED), m)
    } else if p.len() < 32 {
        (Err(ERR_INVALID_INPUT), m)
    } else {
        (done(), m.insert(key, account_arg(p, 0)))
    }
}

fn update_role(st: &mut Storage, caller: &[u8; 32], input: &[u8], key: &[u8]) -> (r: Result<
    Vec<u8>,
    u64,
>)
    ensures
        (answer(r), final(st)@) == update_role_outcome(old(st)@, caller@, input@, key@),
{
    require_role(st, caller, Role::Owner)?;
    if input.len() < 32 {
        return Err(ERR_INVALID_INPUT);
    }
    let account = match address_from_slice(copy_range(input, 0, 32).as_slice()) {
        Some(a) => a,
        None => return Err(ERR_INVALID_INPUT),
    };
    set_storage(st, key, account.as_slice());
    Ok(done_vec())
}

pub fn update_master_minter(st: &mut Storage, caller: &[u8; 32], input: &[u8]) -> (r: Result<
    Vec<u8>,
    u64,
>)
    ensures
        (answer(r), final(st)@) == update_role_outcome(
            old(st)@,
            caller@,
            input@,
            key_master_minter(),
        ),
{
    let k = key_master_minter_vec();
    update_role(st, caller, input, k.as_slice())
}

pub fn update_pauser(st: &mut Storage, caller: &[u8; 32], input: &[u8]) -> (r: Result<Vec<u8>, u64>)
    ensures
        (answer(r), final(st)@) == update_role_outcome(old(st)@, caller@, input@, key_pauser()),
{
    let k = key_pauser_vec();
    update_role(st, caller, input, k.as_slice())
}

pub fn update_blacklister(st: &mut Storage, caller: &[u8; 32], input: &[u8]) -> (r: Result<
    Vec<u8>,
    u64,
>)
    ensures
        (answer(r), final(st)@) == update_role_outcome(
            old(st)@,
            caller@,
            input@,
            key_blacklister(),
        ),
{
    let k = key_blacklister_vec();
    update_role(st, caller, input, k.as_slice())
}

pub fn transfer_ownership(st: &mut Storage, caller: &[u8; 32], input: &[u8]) -> (r: Result<
    Vec<u8>,
    u64,
>)
    ensures
        (answer(r), final(st)@) == update_role_outcome(old(st)@, caller@, input@, key_owner()),
{
    let k = key_owner_vec();
    update_role(st, caller, input, k.as_slice())
}

/// Outcome of `PAUSE` (`on`) and `UNPAUSE`: pauser only.
pub open spec fn pause_outcome(m: StorageMap, caller: Seq<u8>, on: bool) -> Outcome {
    if !holds_role(m, caller, Role::Pauser) {
        (Err(ERR_UNAUTHORIZED), m)
    } else {
        (
            done(),
            m.insert(
                key_paused(),
                if on {
                    seq![1u8]
                } else {
                    seq![0u8]
                },
            ),
        )
    }
}

pub fn pause(st: &mut Storage, caller: &[u8; 32]) -> (r: Result<Vec<u8>, u64>)
    ensures
        (answer(r), final(st)@) == pause_outcome(old(st)@, caller@, true),
{
    require_role(st, caller, Role::Pauser)?;
    let k = key_paused_vec();
    let v = vec![1u8];
    assert(v@ =~= seq![1u8]);
    set_storage(st, k.as_slice(), v.as_slice());
    Ok(done_vec())
}

pub fn unpause(st: &mut Storage, caller: &[u8; 32]) -> (r: Result<Vec<u8>, u64>)
    ensures
        (answer(r), final(st)@) == pause_outcome(old(st)@, caller@, false),
{
    require_role(st, caller, Role::Pauser)?;
    let k = key_paused_vec();
    let v = vec![0u8];
    assert(v@ =~= seq![0u8]);
    set_storage(st, k.as_slice(), v.as_slice());
    Ok(done_vec())
}

/// Outcome of `BLACKLIST` (`listed`) and `UNBLACKLIST`: `[account:32]`,
/// blacklister only.
pub open spec fn blacklist_outcome(m: StorageMap, caller: Seq<u8>, p: Seq<u8>, listed: bool) -> Outcome {
    if !holds_role(m, caller, Role::Blacklister) {
        (Err(ERR_UNAUTHORIZED), m)
    } else if p.len() < 32 {
        (Err(ERR_INVALID_INPUT), m)
    } else {
        (
            done(),
            m.insert(
                blacklist_key(account_arg(p, 0)),
                if listed {
                    seq![1u8]
                } else {
                    seq![0u8]
                },
            ),
        )
    }
}

pub fn blacklist(st: &mut Storage, caller: &[u8; 32], input: &[u8]) -> (r: Result<Vec<u8>, u64>)
    ensures
        (answer(r), final(st)@) == blacklist_outcome(old(st)@, caller@, input@, true),
{
    require_role(st, caller, Role::Blacklister)?;
    if input.len() < 32 {
        return Err(ERR_INVALID_INPUT);
    }
    let account = address_at(input, 0);
    let k = blacklist_key_vec(&account);
    let v = vec![1u8];
    assert(v@ =~= seq![1u8]);
    set_storage(st, k.as_slice(), v.as_slice());
    Ok(done_vec())
}

pub fn unblacklist(st: &mut Storage, caller: &[u8; 32], input: &[u8]) -> (r: Result<Vec<u8>, u64>)
    ensures
        (answer(r), final(st)@) == blacklist_outcome(old(st)@, caller@, input@, false),
{
    require_role(st, caller, Role::Blacklister)?;
    if input.len() < 32 {
        return Err(ERR_INVALID_INPUT);
    }
    let account = address_at(input, 0);
    let k = blacklist_key_vec(&account);
    let v = vec![0u8];
    assert(v@ =~= seq![0u8]);
    set_storage(st, k.as_slice(), v.as_slice());
    Ok(done_vec())
}

/// The one-byte answer of a yes/no query.
pub open spec fn flag_answer(b: bool) -> Seq<u8> {
    if b {
        seq![1u8]
    } else {
        seq![0u8]
    }
}

fn flag_vec(b: bool) -> (r: Vec<u8>)
    ensures
        r@ == flag_answer(b),
{
    let v = if b {
        vec![1u8]
    } else {
        vec![0u8]
    };
    assert(v@ =~= flag_answer(b));
    v
}

/// Outcome of the read-only queries.
pub open spec fn query_outcome(m: StorageMap, op: u8, p: Seq<u8>) -> Result<Seq<u8>, u64> {
    if op == 100 {
        if p.len() < 32 {
            Err(ERR_INVALID_INPUT)
        } else {
            Ok(le_bytes(balance(m, account_arg(p, 0)) as nat, 8))
        }
    } else if op == 101 {
        if p.len() < 64 {
            Err(ERR_INVALID_INPUT)
        } else {
            Ok(le_bytes(allowance(m, account_arg(p, 0), account_arg(p, 32)) as nat, 8))
        }
    } else if op == 102 {
        match stored(m, key_total_supply()) {
            Some(b) => Ok(b),
            None => Err(ERR_INVALID_INPUT),
        }
    } else if op == 103 {
        if p.len() < 32 {
            Err(ERR_INVALID_INPUT)
        } else {
            match stored(m, minter_allowance_key(account_arg(p, 0))) {
                Some(b) => Ok(b),
                None => Ok(le_bytes(0, 8)),
            }
        }
    } else if op == 104 {
        if p.len() < 32 {
            Err(ERR_INVALID_INPUT)
        } else {
            Ok(flag_answer(flag(m, is_minter_key(account_arg(p, 0)))))
        }
    } else if op == 105 {
        if p.len() < 32 {
            Err(ERR_INVALID_INPUT)
        } else {
            Ok(flag_answer(blacklisted(m, account_arg(p, 0))))
        }
    } else {
        Ok(flag_answer(paused(m)))
    }
}

pub fn balance_of(st: &Storage, input: &[u8]) -> (r: Result<Vec<u8>, u64>)
    ensures
        answer(r) == query_outcome(st@, 100, input@),
{
    if input.len() < 32 {
        return Err(ERR_INVALID_INPUT);
    }
    let account = address_at(input, 0);
    let balance = get_balance(st, &account);
    Ok(u64_le(balance))
}

pub fn query_allowance(st: &Storage, input: &[u8]) -> (r: Result<Vec<u8>, u64>)
    ensures
        answer(r) == query_outcome(st@, 101, input@),
{
    if input.len() < 64 {
        return Err(ERR_INVALID_INPUT);
    }
    let owner = address_at(input, 0);
    let spender = address_at(input, 32);
    let a = get_allowance(st, &owner, &spender);
    Ok(u64_le(a))
}

pub fn query_total_supply(st: &Storage, input: &[u8]) -> (r: Result<Vec<u8>, u64>)
    ensures
        answer(r) == query_outcome(st@, 102, input@),
{
    let k = key_total_supply_vec();
    get_storage(st, k.as_slice())
}

pub fn query_minter_allowance(st: &Storage, input: &[u8]) -> (r: Result<Vec<u8>, u64>)
    ensures
        answer(r) == query_outcome(st@, 103, input@),
{
    if input.len() < 32 {
        return Err(ERR_INVALID_INPUT);
    }
    let minter = address_at(input, 0);
    match get_storage(st, minter_allowance_key_vec(&minter).as_slice()) {
        Ok(b) => Ok(b),
        Err(_) => {
            let z = u64_le(0);
            proof {
                lemma_le_bytes_len(0, 8);
            }
            Ok(z)
        },
    }
}

pub fn query_is_minter(st: &Storage, input: &[u8]) -> (r: Result<Vec<u8>, u64>)
    ensures
        answer(r) == query_outcome(st@, 104, input@),
{
    if input.len() < 32 {
        return Err(ERR_INVALID_INPUT);
    }
    let account = address_at(input, 0);
    let k = is_minter_key_vec(&account);
    let is_minter = read_flag(st, k.as_slice());
    Ok(flag_vec(is_minter))
}

pub fn query_is_blacklisted(st: &Storage, input: &[u8]) -> (r: Result<Vec<u8>, u64>)
    ensures
        answer(r) == query_outcome(st@, 105, input@),
{
    if input.len() < 32 {
        return Err(ERR_INVALID_INPUT);
    }
    let account = address_at(input, 0);
    let b = is_blacklisted(st, &account);
    Ok(flag_vec(b))
}

pub fn query_is_paused(st: &Storage, input: &[u8]) -> (r: Result<Vec<u8>, u64>)
    ensures
        answer(r) == query_outcome(st@, 106, input@),
{
    let p = is_paused(st);
    Ok(flag_vec(p))
}

/// A minter allowance a mint reads holds 8 bytes.
pub open spec fn instruction_completes(m: StorageMap, caller: Seq<u8>, input: Seq<u8>) -> bool {
    input.len() > 0 ==> {
        let a = input.subrange(1, input.len() as int);
        let op = input[0];
        &&& op == 0 ==> initialize_completes(m, a)
        &&& op == 12 ==> mint_completes(m, caller, a)
    }
}

/// Outcome of a whole instruction `[opcode:1][args]`.
pub open spec fn instruction_outcome(m: StorageMap, caller: Seq<u8>, input: Seq<u8>) -> Outcome {
    if input.len() == 0 {
        (Err(ERR_INVALID_INPUT), m)
    } else {
        let a = input.subrange(1, input.len() as int);
        let op = input[0];
        if op == 0 {
            initialize_outcome(m, caller, a)
        } else if op == 1 {
            transfer_outcome(m, caller, a)
        } else if op == 2 {
            approve_outcome(m, caller, a)
        } else if op == 3 {
            transfer_from_outcome(m, caller, a)
        } else if op == 10 {
            configure_minter_outcome(m, caller, a)
        } else if op == 11 {
            remove_minter_outcome(m, caller, a)
        } else if op == 12 {
            mint_outcome(m, caller, a)
        } else if op == 13 {
            burn_outcome(m, caller, a)
        } else if op == 20 {
            update_role_outcome(m, caller, a, key_master_minter())
        } else if op == 21 {
            update_role_outcome(m, caller, a, key_pauser())
        } else if op == 22 {
            update_role_outcome(m, caller, a, key_blacklister())
        } else if op == 23 {
            update_role_outcome(m, caller, a, key_owner())
        } else if op == 30 {
            pause_outcome(m, caller, true)
        } else if op == 31 {
            pause_outcome(m, caller, false)
        } else if op == 40 {
            blacklist_outcome(m, caller, a, true)
        } else if op == 41 {
            blacklist_outcome(m, caller, a, false)
        } else if 100 <= op <= 106 {
            (query_outcome(m, op, a), m)
        } else {
            (Err(ERR_INVALID_INPUT), m)
        }
    }
}

/// Runs one instruction from `caller` and answers its return data or error
/// code.
pub fn process_instruction(st: &mut Storage, caller: &[u8; 32], input: &[u8]) -> (r: Result<
    Vec<u8>,
    u64,
>)
    requires
        well_formed(old(st)@),
        instruction_completes(old(st)@, caller@, input@),
    ensures
        (answer(r), final(st)@) == instruction_outcome(old(st)@, caller@, input@),
{
    if input.len() == 0 {
        return Err(ERR_INVALID_INPUT);
    }
    let instruction = match Instruction::from_u8(input[0]) {
        Some(i) => i,
        None => return Err(ERR_INVALID_INPUT),
    };
    let args = copy_range(input, 1, input.len() - 1);
    let a = args.as_slice();
    match instruction {
        Instruction::Initialize => initialize(st, caller, a),
        Instruction::Transfer => transfer(st, caller, a),
        Instruction::Approve => approve(st, caller, a),
        Instruction::TransferFrom => transfer_from(st, caller, a),
        Instruction::ConfigureMinter => configure_minter(st, caller, a),
        Instruction::RemoveMinter => remove_minter(st, caller, a),
        Instruction::Mint => mint(st, caller, a),
        Instruction::Burn => burn(st, caller, a),
        Instruction::UpdateMasterMinter => update_master_minter(st, caller, a),
        Instruction::UpdatePauser => update_pauser(st, caller, a),
        Instruction::UpdateBlacklister => update_blacklister(st, caller, a),
        Instruction::TransferOwnership => transfer_ownership(st, caller, a),
        Instruction::Pause => pause(st, caller),
        Instruction::Unpause => unpause(st, caller),
        Instruction::Blacklist => blacklist(st, caller, a),
        Instruction::UnBlacklist => unblacklist(st, caller, a),
        Instruction::BalanceOf => balance_of(st, a),
        Instruction::Allowance => query_allowance(st, a),
        Instruction::TotalSupply => query_total_supply(st, a),
        Instruction::MinterAllowance => query_minter_allowance(st, a),
        Instruction::IsMinter => query_is_minter(st, a),
        Instruction::IsBlacklisted => query_is_blacklisted(st, a),
        Instruction::IsPaused => query_is_paused(st, a),
    }
}

/// The kinds of event the contract emits.
#[derive(Clone, Copy, PartialEq, Eq, Structural, Debug)]
pub enum EventKind {
    Transfer,
    Approval,
    Mint,
    Burn,
    MinterConfigured,
    MinterRemoved,
    MasterMinterChanged,
    PauserChanged,
    BlacklisterChanged,
    OwnershipTransferred,
    Pause,
    Unpause,
    Blacklisted,
    UnBlacklisted,
}

/// An event: its kind, up to two accounts and an amount.  A mint names the
/// minter then the receiver, a burn its burner; the zero address stands for
/// minting's sender and burning's receiver.
#[derive(Debug)]
pub struct UsdcEvent {
    pub kind: EventKind,
    pub first: [u8; 32],
    pub second: [u8; 32],
    pub amount: u64,
}

/// An event as its kind, accounts and amount; an account the event does
/// not have is zero, as is the amount of an event without one (`Pause` and
/// `Unpause` carry a timestamp of 0).
pub open spec fn event_view(e: UsdcEvent) -> (EventKind, Seq<u8>, Seq<u8>, u64) {
    (e.kind, e.first@, e.second@, e.amount)
}

/// The zero address.
pub open spec fn zero_account() -> Seq<u8> {
    Seq::new(32, |i: int| 0u8)
}

/// The events a successful instruction `[opcode:1][args]` from `caller`
/// emits, in order.
pub open spec fn instruction_events(caller: Seq<u8>, input: Seq<u8>) -> Seq<(EventKind, Seq<u8>, Seq<u8>, u64)> {
    let z = zero_account();
    if input.len() == 0 {
        Seq::empty()
    } else {
        let a = input.subrange(1, input.len() as int);
        let op = input[0];
        let acct = account_arg(a, 0);
        if op == 1 {
            seq![(EventKind::Transfer, caller, acct, u64_arg(a, 32))]
        } else if op == 2 {
            seq![(EventKind::Approval, caller, acct, u64_arg(a, 32))]
        } else if op == 3 {
            seq![(EventKind::Transfer, acct, account_arg(a, 32), u64_arg(a, 64))]
        } else if op == 10 {
            seq![(EventKind::MinterConfigured, acct, z, u64_arg(a, 32))]
        } else if op == 11 {
            seq![(EventKind::MinterRemoved, acct, z, 0u64)]
        } else if op == 12 {
            seq![(EventKind::Transfer, z, acct, u64_arg(a, 32)), (EventKind::Mint, caller, acct, u64_arg(a, 32))]
        } else if op == 13 {
            seq![(EventKind::Transfer, acct, z, u64_arg(a, 32)), (EventKind::Burn, caller, z, u64_arg(a, 32))]
        } else if op == 20 {
            seq![(EventKind::MasterMinterChanged, acct, z, 0u64)]
        } else if op == 21 {
            seq![(EventKind::PauserChanged, acct, z, 0u64)]
        } else if op == 22 {
            seq![(EventKind::BlacklisterChanged, acct, z, 0u64)]
        } else if op == 23 {
            seq![(EventKind::OwnershipTransferred, caller, acct, 0u64)]
        } else if op == 30 {
            seq![(EventKind::Pause, z, z, 0u64)]
        } else if op == 31 {
            seq![(EventKind::Unpause, z, z, 0u64)]
        } else if op == 40 {
            seq![(EventKind::Blacklisted, acct, z, 0u64)]
        } else if op == 41 {
            seq![(EventKind::UnBlacklisted, acct, z, 0u64)]
        } else {
            Seq::empty()
        }
    }
}

fn event(kind: EventKind, first: [u8; 32], second: [u8; 32], amount: u64) -> (r: UsdcEvent)
    ensures
        event_view(r) == (kind, first@, second@, amount),
{
    UsdcEvent { kind, first, second, amount }
}

/// Runs one instruction from `caller` as [`process_instruction`] does, and
/// answers the events it emits: those of [`instruction_events`] when it
/// succeeded, none when it failed.  (The previous owner an ownership
/// transfer names is the caller, whom the owner check admitted.)
pub fn execute(st: &mut Storage, caller: &[u8; 32], input: &[u8]) -> (r: (Result<Vec<u8>, u64>, Vec<UsdcEvent>))
    requires
        well_formed(old(st)@),
        instruction_completes(old(st)@, caller@, input@),
    ensures
        (answer(r.0), final(st)@) == instruction_outcome(old(st)@, caller@, input@),
        r.1@.map_values(|e: UsdcEvent| event_view(e)) == (if r.0 is Ok {
            instruction_events(caller@, input@)
        } else {
            Seq::empty()
        }),
{
    let z = [0u8; 32];
    assert(z@ =~= zero_account());
    let first = if input.len() >= 33 { address_at(input, 1) } else { z };
    let second = if input.len() >= 65 { address_at(input, 33) } else { z };
    let amount32 = if input.len() >= 41 { read_u64_at(input, 33) } else { 0 };
    let amount64 = if input.len() >= 73 { read_u64_at(input, 65) } else { 0 };
    let r = process_instruction(st, caller, input);
    let mut events: Vec<UsdcEvent> = Vec::new();
    if r.is_err() || input.len() == 0 {
        proof {
            assert(events@.map_values(|e: UsdcEvent| event_view(e)) =~= Seq::empty());
        }
        return (r, events);
    }
    let op = input[0];
    let ghost a = input@.subrange(1, input@.len() as int);
    proof {
        if input@.len() >= 33 {
            assert(first@ =~= account_arg(a, 0));
        }
        if input@.len() >= 65 {
            assert(second@ =~= account_arg(a, 32));
        }
        if input@.len() >= 41 {
            assert(input@.subrange(33, 41) =~= a.subrange(32, 40));
        }
        if input@.len() >= 73 {
            assert(input@.subrange(65, 73) =~= a.subrange(64, 72));
        }
    }
    if op == 1 {
        events.push(event(EventKind::Transfer, *caller, first, amount32));
    } else if op == 2 {
        events.push(event(EventKind::Approval, *caller, first, amount32));
    } else if op == 3 {
        events.push(event(EventKind::Transfer, first, second, amount64));
    } else if op == 10 {
        events.push(event(EventKind::MinterConfigured, first, z, amount32));
    } else if op == 11 {
        events.push(event(EventKind::MinterRemoved, first, z, 0));
    } else if op == 12 {
        events.push(event(EventKind::Transfer, z, first, amount32));
        events.push(event(EventKind::Mint, *caller, first, amount32));
    } else if op == 13 {
        events.push(event(EventKind::Transfer, first, z, amount32));
        events.push(event(EventKind::Burn, *caller, z, amount32));
    } else if op == 20 {
        events.push(event(EventKind::MasterMinterChanged, first, z, 0));
    } else if op == 21 {
        events.push(event(EventKind::PauserChanged, first, z, 0));
    } else if op == 22 {
        events.push(event(EventKind::BlacklisterChanged, first, z, 0));
    } else if op == 23 {
        events.push(event(EventKind::OwnershipTransferred, *caller, first, 0));
    } else if op == 30 {
        events.push(event(EventKind::Pause, z, z, 0));
    } else if op == 31 {
        events.push(event(EventKind::Unpause, z, z, 0));
    } else if op == 40 {
        events.push(event(EventKind::Blacklisted, first, z, 0));
    } else if op == 41 {
        events.push(event(EventKind::UnBlacklisted, first, z, 0));
    }
    proof {
        assert(events@.map_values(|e: UsdcEvent| event_view(e)) =~= instruction_events(caller@, input@));
    }
    (r, events)
}

/// The contract's status code for an instruction, of which at most the
/// first 128 bytes are read: 0 on success, else the error code.
pub fn entrypoint(st: &mut Storage, caller: &[u8; 32], input: &[u8]) -> (r: u64)
    requires
        well_formed(old(st)@),
        instruction_completes(old(st)@, caller@, crate::aave::entry_input(input@)),
    ensures
        r == (match instruction_outcome(old(st)@, caller@, crate::aave::entry_input(input@)).0 {
            Ok(_) => 0,
            Err(e) => e,
        }),
        final(st)@ == instruction_outcome(old(st)@, caller@, crate::aave::entry_input(input@)).1,
{
    let len = if input.len() <= 128 {
        input.len()
    } else {
        128
    };
    let data = copy_range(input, 0, len);
    proof {
        assert(data@ =~= crate::aave::entry_input(input@));
    }
    match process_instruction(st, caller, data.as_slice()) {
        Ok(_) => 0,
        Err(e) => e,
    }
}

// ---------------------------------------------------------------------------
// Laws
// ---------------------------------------------------------------------------

/// While paused, transfers, approvals, transfers from an allowance, mints
/// and burns are refused with `Paused` and change nothing.
pub proof fn law_paused_blocks_movement(m: StorageMap, caller: Seq<u8>, p: Seq<u8>)
    requires
        paused(m),
    ensures
        transfer_outcome(m, caller, p) == (Err::<Seq<u8>, u64>(ERR_PAUSED), m),
        approve_outcome(m, caller, p) == (Err::<Seq<u8>, u64>(ERR_PAUSED), m),
        transfer_from_outcome(m, caller, p) == (Err::<Seq<u8>, u64>(ERR_PAUSED), m),
        mint_outcome(m, caller, p) == (Err::<Seq<u8>, u64>(ERR_PAUSED), m),
        burn_outcome(m, caller, p) == (Err::<Seq<u8>, u64>(ERR_PAUSED), m),
{
}

/// Each administrative instruction from an account without its role
/// changes nothing.
pub proof fn law_roles_guard_administration(m: StorageMap, caller: Seq<u8>, p: Seq<u8>, key: Seq<u8>)
    ensures
        !holds_role(m, caller, Role::Owner) ==> update_role_outcome(m, caller, p, key).1 == m,
        !holds_role(m, caller, Role::Pauser) ==> pause_outcome(m, caller, true).1 == m
            && pause_outcome(m, caller, false).1 == m,
        !holds_role(m, caller, Role::Blacklister) ==> blacklist_outcome(m, caller, p, true).1 == m
            && blacklist_outcome(m, caller, p, false).1 == m,
        !holds_role(m, caller, Role::Minter) ==> burn_outcome(m, caller, p).1 == m,
{
}

/// A successful ownership transfer hands the owner role to the new account
/// and takes it from the old one.
pub proof fn law_ownership_moves(m: StorageMap, caller: Seq<u8>, p: Seq<u8>)
    requires
        update_role_outcome(m, caller, p, key_owner()).0 is Ok,
        caller.len() == 32,
    ensures
        holds_role(update_role_outcome(m, caller, p, key_owner()).1, account_arg(p, 0), Role::Owner),
        caller != account_arg(p, 0) ==> !holds_role(
            update_role_outcome(m, caller, p, key_owner()).1,
            caller,
            Role::Owner,
        ),
{
    let a = account_arg(p, 0);
    lemma_bytes_cell_whole(a);
}

/// A 32-byte value reads back whole through the 256-byte buffer.
proof fn lemma_bytes_cell_whole(a: Seq<u8>)
    requires
        a.len() == 32,
    ensures
        crate::cells::bytes_cell(Some(a), 256) == Some(a),
{
    assert(a.take(32) =~= a);
}

/// A write to one key leaves the balance of every account whose balance
/// key is another unchanged.
proof fn lemma_balance_elsewhere(m: StorageMap, k: Seq<u8>, v: u64, a: Seq<u8>)
    requires
        balance_key(a) != k,
    ensures
        balance(put_amount(m, k, v), a) == balance(m, a),
{
    assert(put_amount(m, k, v).get(balance_key(a)) == m.get(balance_key(a)));
}

/// A successful `TRANSFER` of `x` from `caller` to another account moves
/// exactly `x`: the sender's balance falls by `x`, the receiver's rises by
/// `x` (so their sum is kept), and every other balance is unchanged; a
/// transfer to oneself changes no balance.
pub proof fn law_transfer_moves_amount(m: StorageMap, caller: Seq<u8>, p: Seq<u8>, other: Seq<u8>)
    requires
        caller.len() == 32,
        other.len() == 32,
        transfer_outcome(m, caller, p).0 is Ok,
    ensures
        p.len() >= 40,
        ({
            let to = account_arg(p, 0);
            let x = u64_arg(p, 32);
            let m2 = transfer_outcome(m, caller, p).1;
            &&& caller != to ==> balance(m2, caller) == balance(m, caller) - x
                && balance(m2, to) == balance(m, to) + x
                && balance(m2, caller) + balance(m2, to) == balance(m, caller) + balance(m, to)
            &&& caller == to ==> balance(m2, caller) == balance(m, caller)
            &&& (other != caller && other != to) ==> balance(m2, other) == balance(m, other)
        }),
{
    let to = account_arg(p, 0);
    let x = u64_arg(p, 32);
    let fb = balance(m, caller);
    let m1 = put_amount(m, balance_key(caller), (fb - x) as u64);
    let tb = balance(m1, to);
    let m2 = put_amount(m1, balance_key(to), (tb + x) as u64);
    assert(transfer_outcome(m, caller, p).1 == m2);
    lemma_amount_roundtrip(m, balance_key(caller), (fb - x) as u64);
    lemma_amount_roundtrip(m1, balance_key(to), (tb + x) as u64);
    if caller != to {
        if balance_key(caller) == balance_key(to) {
            lemma_balance_key_injective(caller, to);
        }
        lemma_balance_elsewhere(m, balance_key(caller), (fb - x) as u64, to);
        lemma_balance_elsewhere(m1, balance_key(to), (tb + x) as u64, caller);
    }
    if other != caller && other != to {
        if balance_key(other) == balance_key(caller) {
            lemma_balance_key_injective(other, caller);
        }
        if balance_key(other) == balance_key(to) {
            lemma_balance_key_injective(other, to);
        }
        lemma_balance_elsewhere(m, balance_key(caller), (fb - x) as u64, other);
        lemma_balance_elsewhere(m1, balance_key(to), (tb + x) as u64, other);
    }
}

/// A successful `BURN` of `x` from an account lowers both that account's
/// balance and the total supply by `x`.
pub proof fn law_burn_lowers_balance_and_supply(m: StorageMap, caller: Seq<u8>, p: Seq<u8>)
    requires
        burn_outcome(m, caller, p).0 is Ok,
    ensures
        p.len() >= 40,
        total_supply(m) is Some,
        ({
            let from = account_arg(p, 0);
            let x = u64_arg(p, 32);
            let m2 = burn_outcome(m, caller, p).1;
            &&& balance(m2, from) == balance(m, from) - x
            &&& total_supply(m2) == Some((total_supply(m)->0 - x) as u64)
        }),
{
    let from = account_arg(p, 0);
    let x = u64_arg(p, 32);
    let t = total_supply(m)->0;
    let b = balance(m, from);
    let m1 = put_amount(m, key_total_supply(), (t - x) as u64);
    let m2 = put_amount(m1, balance_key(from), (b - x) as u64);
    assert(burn_outcome(m, caller, p).1 == m2);
    lemma_key_lengths(from, from);
    lemma_balance_elsewhere(m, key_total_supply(), (t - x) as u64, from);
    lemma_amount_roundtrip(m1, balance_key(from), (b - x) as u64);
    let v = le_bytes((t - x) as nat, 8);
    lemma_le_bytes_len((t - x) as nat, 8);
    crate::bytes::lemma_pow256_values();
    crate::bytes::lemma_le_roundtrip((t - x) as nat, 8);
    assert(v.take(8) =~= v);
    assert(m2.get(key_total_supply()) == Some(v));
}

/// A successful `TRANSFER_FROM` of `x` by `caller` from `from` to another
/// account `to` moves exactly `x` (the two balances keep their sum) and
/// lowers the caller's allowance from `from` by `x`.
pub proof fn law_transfer_from_moves_amount(m: StorageMap, caller: Seq<u8>, p: Seq<u8>)
    requires
        caller.len() == 32,
        transfer_from_outcome(m, caller, p).0 is Ok,
    ensures
        p.len() >= 72,
        ({
            let from = account_arg(p, 0);
            let to = account_arg(p, 32);
            let x = u64_arg(p, 64);
            let m2 = transfer_from_outcome(m, caller, p).1;
            &&& from != to ==> balance(m2, from) == balance(m, from) - x
                && balance(m2, to) == balance(m, to) + x
                && balance(m2, from) + balance(m2, to) == balance(m, from) + balance(m, to)
            &&& allowance(m2, from, caller) == allowance(m, from, caller) - x
        }),
{
    let from = account_arg(p, 0);
    let to = account_arg(p, 32);
    let x = u64_arg(p, 64);
    let ak = allowance_key(from, caller);
    lemma_key_lengths(from, caller);
    lemma_key_lengths(to, caller);
    let m0 = put_amount(m, ak, (allowance(m, from, caller) - x) as u64);
    lemma_amount_roundtrip(m, ak, (allowance(m, from, caller) - x) as u64);
    lemma_balance_elsewhere(m, ak, (allowance(m, from, caller) - x) as u64, from);
    lemma_balance_elsewhere(m, ak, (allowance(m, from, caller) - x) as u64, to);
    let fb = balance(m0, from);
    let m1 = put_amount(m0, balance_key(from), (fb - x) as u64);
    let tb = balance(m1, to);
    let m2 = put_amount(m1, balance_key(to), (tb + x) as u64);
    assert(transfer_from_outcome(m, caller, p).1 == m2);
    lemma_amount_roundtrip(m0, balance_key(from), (fb - x) as u64);
    lemma_amount_roundtrip(m1, balance_key(to), (tb + x) as u64);
    assert(m2.get(ak) == m0.get(ak));
    if from != to {
        if balance_key(from) == balance_key(to) {
            lemma_balance_key_injective(from, to);
        }
        lemma_balance_elsewhere(m0, balance_key(from), (fb - x) as u64, to);
        lemma_balance_elsewhere(m1, balance_key(to), (tb + x) as u64, from);
    }
}

/// A successful `MINT` of `x` to `to` by minter `caller` raises the
/// receiver's balance and the total supply by `x` and lowers the minter's
/// allowance by `x`.
pub proof fn law_mint_credits(m: StorageMap, caller: Seq<u8>, p: Seq<u8>)
    requires
        caller.len() == 32,
        mint_outcome(m, caller, p).0 is Ok,
    ensures
        p.len() >= 40,
        total_supply(m) is Some,
        minter_allowance(m, caller) is Some,
        ({
            let to = account_arg(p, 0);
            let x = u64_arg(p, 32);
            let m2 = mint_outcome(m, caller, p).1;
            &&& balance(m2, to) == balance(m, to) + x
            &&& total_supply(m2) == Some((total_supply(m)->0 + x) as u64)
            &&& minter_allowance(m2, caller) == Some((minter_allowance(m, caller)->0 - x) as u64)
        }),
{
    let to = account_arg(p, 0);
    let x = u64_arg(p, 32);
    let mk = minter_allowance_key(caller);
    let al = minter_allowance(m, caller)->0;
    lemma_key_lengths(to, to);
    assert(mk.len() == 47);
    let m1 = put_amount(m, mk, (al - x) as u64);
    lemma_balance_elsewhere(m, mk, (al - x) as u64, to);
    assert(m1.get(key_total_supply()) == m.get(key_total_supply()));
    let t = total_supply(m1)->0;
    let m2 = put_amount(m1, key_total_supply(), (t + x) as u64);
    lemma_balance_elsewhere(m1, key_total_supply(), (t + x) as u64, to);
    let b = balance(m2, to);
    let m3 = put_amount(m2, balance_key(to), (b + x) as u64);
    assert(mint_outcome(m, caller, p).1 == m3);
    lemma_amount_roundtrip(m2, balance_key(to), (b + x) as u64);
    crate::bytes::lemma_pow256_values();
    lemma_le_bytes_len((t + x) as nat, 8);
    crate::bytes::lemma_le_roundtrip((t + x) as nat, 8);
    lemma_le_bytes_len((al - x) as nat, 8);
    crate::bytes::lemma_le_roundtrip((al - x) as nat, 8);
    assert(le_bytes((t + x) as nat, 8).take(8) =~= le_bytes((t + x) as nat, 8));
    assert(le_bytes((al - x) as nat, 8).take(8) =~= le_bytes((al - x) as nat, 8));
    assert(m3.get(key_total_supply()) == Some(le_bytes((t + x) as nat, 8)));
    assert(m3.get(mk) == Some(le_bytes((al - x) as nat, 8)));
}

/// A successful `APPROVE` sets the caller's allowance for the spender to
/// the amount and moves no balance.
pub proof fn law_approve_sets_allowance(m: StorageMap, caller: Seq<u8>, p: Seq<u8>, holder: Seq<u8>)
    requires
        caller.len() == 32,
        holder.len() == 32,
        approve_outcome(m, caller, p).0 is Ok,
    ensures
        p.len() >= 40,
        allowance(approve_outcome(m, caller, p).1, caller, account_arg(p, 0)) == u64_arg(p, 32),
        balance(approve_outcome(m, caller, p).1, holder) == balance(m, holder),
{
    let spender = account_arg(p, 0);
    let ak = allowance_key(caller, spender);
    lemma_key_lengths(holder, spender);
    lemma_key_lengths(caller, spender);
    lemma_amount_roundtrip(m, ak, u64_arg(p, 32));
    lemma_balance_elsewhere(m, ak, u64_arg(p, 32), holder);
}

} // verus!

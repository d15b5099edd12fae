//! A Tether-style stablecoin: transfers and allowances, owner-only minting
//! and burning, a pause switch and a blacklist whose funds the owner can
//! destroy.
//!
//! Each instruction is a function of the storage, the caller and the
//! instruction bytes; it answers `Ok(return data)` or `Err(code)`.  Failed
//! instructions may keep the writes made before the failure.

use vstd::prelude::*;
use crate::bytes::{le_bytes, le_nat, address_at, read_u32_at, read_u64_at, bytes_eq, copy_range, u64_le};
use crate::storage::Storage;
use crate::stablecoin::{
    StorageMap, key_name, key_symbol, key_decimals, key_total_supply, key_owner, key_paused,
    balance_key, allowance_key, blacklist_key, stored, balance, allowance, blacklisted, paused,
    put_amount, get_storage, set_storage, get_balance, set_balance, get_allowance, set_allowance,
    is_blacklisted, is_paused, key_name_vec, key_symbol_vec, key_decimals_vec,
    key_total_supply_vec, key_owner_vec, key_paused_vec, blacklist_key_vec, lemma_key_lengths,
    lemma_balance_key_injective, lemma_amount_roundtrip, write_amount,
};

verus! {

/// Contract instructions, numbered as on the wire (see [`Instruction::to_u8`]).
#[derive(Clone, Copy, PartialEq, Eq, Structural, Debug)]
pub enum Instruction {
    Initialize,
    Transfer,
    Approve,
    TransferFrom,
    Mint,
    Burn,
    Pause,
    Unpause,
    AddBlacklist,
    RemoveBlacklist,
    DestroyBlacklistedFunds,
    BalanceOf,
    Allowance,
    TotalSupply,
    IsPaused,
    IsBlacklisted,
}

/// The wire number of each instruction.
pub open spec fn instruction_code(i: Instruction) -> u8 {
    match i {
        Instruction::Initialize => 0,
        Instruction::Transfer => 1,
        Instruction::Approve => 2,
        Instruction::TransferFrom => 3,
        Instruction::Mint => 4,
        Instruction::Burn => 5,
        Instruction::Pause => 6,
        Instruction::Unpause => 7,
        Instruction::AddBlacklist => 8,
        Instruction::RemoveBlacklist => 9,
        Instruction::DestroyBlacklistedFunds => 10,
        Instruction::BalanceOf => 100,
        Instruction::Allowance => 101,
        Instruction::TotalSupply => 102,
        Instruction::IsPaused => 103,
        Instruction::IsBlacklisted => 104,
    }
}

impl Instruction {
    /// Decodes a wire number.
    pub fn from_u8(value: u8) -> (r: Option<Instruction>)
        ensures
            match r {
                Some(i) => instruction_code(i) == value,
                None => forall|i: Instruction| instruction_code(i) != value,
            },
            r is None <==> !(value <= 10 || (100 <= value <= 104)),
    {
        match value {
            0 => Some(Instruction::Initialize),
            1 => Some(Instruction::Transfer),
            2 => Some(Instruction::Approve),
            3 => Some(Instruction::TransferFrom),
            4 => Some(Instruction::Mint),
            5 => Some(Instruction::Burn),
            6 => Some(Instruction::Pause),
            7 => Some(Instruction::Unpause),
            8 => Some(Instruction::AddBlacklist),
            9 => Some(Instruction::RemoveBlacklist),
            10 => Some(Instruction::DestroyBlacklistedFunds),
            100 => Some(Instruction::BalanceOf),
            101 => Some(Instruction::Allowance),
            102 => Some(Instruction::TotalSupply),
            103 => Some(Instruction::IsPaused),
            104 => Some(Instruction::IsBlacklisted),
            _ => None,
        }
    }

    /// The wire number.
    pub fn to_u8(&self) -> (r: u8)
        ensures
            r == instruction_code(*self),
    {
        match self {
            Instruction::Initialize => 0,
            Instruction::Transfer => 1,
            Instruction::Approve => 2,
            Instruction::TransferFrom => 3,
            Instruction::Mint => 4,
            Instruction::Burn => 5,
            Instruction::Pause => 6,
            Instruction::Unpause => 7,
            Instruction::AddBlacklist => 8,
            Instruction::RemoveBlacklist => 9,
            Instruction::DestroyBlacklistedFunds => 10,
            Instruction::BalanceOf => 100,
            Instruction::Allowance => 101,
            Instruction::TotalSupply => 102,
            Instruction::IsPaused => 103,
            Instruction::IsBlacklisted => 104,
        }
    }
}

/// Contract errors.
#[derive(Clone, Copy, PartialEq, Eq, Structural, Debug)]
pub enum UsdtError {
    InvalidInstruction,
    Unauthorized,
    InsufficientBalance,
    InsufficientAllowance,
    Paused,
    NotPaused,
    Blacklisted,
    InvalidAccount,
    Overflow,
    Underflow,
}

/// The status code of each error.
pub open spec fn error_code(e: UsdtError) -> u64 {
    match e {
        UsdtError::InvalidInstruction => 1,
        UsdtError::Unauthorized => 2,
        UsdtError::InsufficientBalance => 3,
        UsdtError::InsufficientAllowance => 4,
        UsdtError::Paused => 5,
        UsdtError::NotPaused => 6,
        UsdtError::Blacklisted => 7,
        UsdtError::InvalidAccount => 8,
        UsdtError::Overflow => 9,
        UsdtError::Underflow => 10,
    }
}

impl UsdtError {
    /// The status code the contract answers with.
    pub fn code(&self) -> (r: u64)
        ensures
            r == error_code(*self),
    {
        match self {
            UsdtError::InvalidInstruction => 1,
            UsdtError::Unauthorized => 2,
            UsdtError::InsufficientBalance => 3,
            UsdtError::InsufficientAllowance => 4,
            UsdtError::Paused => 5,
            UsdtError::NotPaused => 6,
            UsdtError::Blacklisted => 7,
            UsdtError::InvalidAccount => 8,
            UsdtError::Overflow => 9,
            UsdtError::Underflow => 10,
        }
    }
}

/// Emitted when the contract is paused.
pub struct Pause {
    pub timestamp: u64,
}

/// Emitted when the contract is unpaused.
pub struct Unpause {
    pub timestamp: u64,
}

pub const ERR_INVALID_INPUT: u64 = 1;
pub const ERR_UNAUTHORIZED: u64 = 2;
pub const ERR_INSUFFICIENT_BALANCE: u64 = 3;
pub const ERR_INSUFFICIENT_ALLOWANCE: u64 = 4;
pub const ERR_PAUSED: u64 = 5;
pub const ERR_BLACKLISTED: u64 = 7;
pub const ERR_INVALID_ACCOUNT: u64 = 8;
pub const ERR_OVERFLOW: u64 = 9;
pub const ERR_UNDERFLOW: u64 = 10;
pub const ERR_ALREADY_INITIALIZED: u64 = 999;

pub type Outcome = (Result<Seq<u8>, u64>, StorageMap);

/// The view of an exec answer.
pub open spec fn answer(r: Result<Vec<u8>, u64>) -> Result<Seq<u8>, u64> {
    match r {
        Ok(v) => Ok(v@),
        Err(e) => Err(e),
    }
}

/// The success answer `[1]`.
pub open spec fn done() -> Result<Seq<u8>, u64> {
    Ok(seq![1u8])
}

fn done_vec() -> (r: Vec<u8>)
    ensures
        Ok::<Seq<u8>, u64>(r@) == done(),
{
    let v = vec![1u8];
    assert(v@ =~= seq![1u8]);
    v
}

/// The storage is well formed when a stored total supply, if read at all,
/// has at least 8 bytes.
pub open spec fn well_formed(m: StorageMap) -> bool {
    match stored(m, key_total_supply()) {
        Some(b) => b.len() >= 8,
        None => true,
    }
}

/// The total supply, when stored.
pub open spec fn total_supply(m: StorageMap) -> Option<u64> {
    match stored(m, key_total_supply()) {
        Some(b) => Some(le_nat(b.take(8)) as u64),
        None => None,
    }
}

/// An address from a byte string: exactly 32 bytes.
pub fn address_from_slice(s: &[u8]) -> (r: Option<[u8; 32]>)
    ensures
        match r {
            Some(a) => s@.len() == 32 && a@ == s@,
            None => s@.len() != 32,
        },
{
    if s.len() != 32 {
        return None;
    }
    let a = address_at(s, 0);
    assert(a@ =~= s@);
    Some(a)
}

/// The caller must be the stored owner.
pub open spec fn owner_check(m: StorageMap, caller: Seq<u8>) -> Result<(), u64> {
    match stored(m, key_owner()) {
        None => Err(ERR_INVALID_INPUT),
        Some(o) => if o.len() != 32 {
            Err(ERR_INVALID_ACCOUNT)
        } else if caller != o {
            Err(ERR_UNAUTHORIZED)
        } else {
            Ok(())
        },
    }
}

pub fn require_owner(st: &Storage, caller: &[u8; 32]) -> (r: Result<(), u64>)
    ensures
        r == owner_check(st@, caller@),
{
    let k = key_owner_vec();
    let owner_bytes = get_storage(st, k.as_slice())?;
    let owner = match address_from_slice(owner_bytes.as_slice()) {
        Some(o) => o,
        None => return Err(ERR_INVALID_ACCOUNT),
    };
    if !bytes_eq(caller.as_slice(), owner.as_slice()) {
        return Err(ERR_UNAUTHORIZED);
    }
    Ok(())
}

pub fn require_not_paused(st: &Storage) -> (r: Result<(), u64>)
    ensures
        r == (if paused(st@) {
            Err::<(), u64>(ERR_PAUSED)
        } else {
            Ok(())
        }),
{
    if is_paused(st) {
        return Err(ERR_PAUSED);
    }
    Ok(())
}

pub fn require_not_blacklisted(st: &Storage, account: &[u8; 32]) -> (r: Result<(), u64>)
    ensures
        r == (if blacklisted(st@, account@) {
            Err::<(), u64>(ERR_BLACKLISTED)
        } else {
            Ok(())
        }),
{
    if is_blacklisted(st, account) {
        return Err(ERR_BLACKLISTED);
    }
    Ok(())
}

/// The `u64` at `offset` of the arguments.
pub open spec fn u64_arg(p: Seq<u8>, offset: int) -> u64 {
    le_nat(p.subrange(offset, offset + 8)) as u64
}

/// The `u32` at `offset` of the arguments.
pub open spec fn u32_arg(p: Seq<u8>, offset: int) -> u32 {
    le_nat(p.subrange(offset, offset + 4)) as u32
}

/// The 32-byte account at `offset` of the arguments.
pub open spec fn account_arg(p: Seq<u8>, offset: int) -> Seq<u8> {
    p.subrange(offset, offset + 32)
}

/// Writes of `INITIALIZE`, given the metadata.
pub open spec fn init_writes(
    m: StorageMap,
    caller: Seq<u8>,
    name: Seq<u8>,
    symbol: Seq<u8>,
    decimals: u8,
    supply: u64,
) -> StorageMap {
    put_amount(
        put_amount(
            m.insert(key_name(), name).insert(key_symbol(), symbol).insert(
                key_decimals(),
                seq![decimals],
            ),
            key_total_supply(),
            supply,
        ).insert(key_owner(), caller),
        balance_key(caller),
        supply,
    ).insert(key_paused(), seq![0u8])
}

/// Outcome of `INITIALIZE`:
/// `[name_len:4][name][symbol_len:4][symbol][decimals:1][initial_supply:8]`;
/// the caller becomes owner and holds the initial supply.
pub open spec fn initialize_outcome(m: StorageMap, caller: Seq<u8>, p: Seq<u8>) -> Outcome {
    if stored(m, key_owner()) is Some {
        (Err(ERR_ALREADY_INITIALIZED), m)
    } else if p.len() < 17 {
        (Err(ERR_INVALID_INPUT), m)
    } else {
        let name_len = u32_arg(p, 0) as int;
        if p.len() < 4 + name_len {
            (Err(ERR_INVALID_INPUT), m)
        } else if p.len() < 4 + name_len + 4 {
            (Err(ERR_INVALID_INPUT), m)
        } else {
            let symbol_len = u32_arg(p, 4 + name_len) as int;
            let s0 = 8 + name_len;
            if p.len() < s0 + symbol_len {
                (Err(ERR_INVALID_INPUT), m)
            } else if p.len() < s0 + symbol_len + 9 {
                (Err(ERR_INVALID_INPUT), m)
            } else {
                let d = s0 + symbol_len;
                (
                    done(),
                    init_writes(
                        m,
                        caller,
                        p.subrange(4, 4 + name_len),
                        p.subrange(s0, d),
                        p[d],
                        u64_arg(p, d + 1),
                    ),
                )
            }
        }
    }
}

pub fn initialize(st: &mut Storage, caller: &[u8; 32], input: &[u8]) -> (r: Result<Vec<u8>, u64>)
    ensures
        (answer(r), final(st)@) == initialize_outcome(old(st)@, caller@, input@),
{
    let ko = key_owner_vec();
    if get_storage(st, ko.as_slice()).is_ok() {
        return Err(ERR_ALREADY_INITIALIZED);
    }
    if input.len() < 17 {
        return Err(ERR_INVALID_INPUT);
    }
    let len = input.len() as u64;
    let name_len = read_u32_at(input, 0);
    if len < 4 + (name_len as u64) {
        return Err(ERR_INVALID_INPUT);
    }
    let name = copy_range(input, 4, name_len as usize);
    let offset: usize = 4 + name_len as usize;
    if len < (offset as u64) + 4 {
        return Err(ERR_INVALID_INPUT);
    }
    let symbol_len = read_u32_at(input, offset);
    let s0: usize = offset + 4;
    if len < (s0 as u64) + (symbol_len as u64) {
        return Err(ERR_INVALID_INPUT);
    }
    let symbol = copy_range(input, s0, symbol_len as usize);
    let d: usize = s0 + symbol_len as usize;
    if len < (d as u64) + 9 {
        return Err(ERR_INVALID_INPUT);
    }
    let decimals = input[d];
    let initial_supply = read_u64_at(input, d + 1);
    let kn = key_name_vec();
    set_storage(st, kn.as_slice(), name.as_slice());
    let ks = key_symbol_vec();
    set_storage(st, ks.as_slice(), symbol.as_slice());
    let kd = key_decimals_vec();
    let dv = vec![decimals];
    assert(dv@ =~= seq![decimals]);
    set_storage(st, kd.as_slice(), dv.as_slice());
    let kt = key_total_supply_vec();
    write_amount(st, kt.as_slice(), initial_supply);
    set_storage(st, ko.as_slice(), caller.as_slice());
    set_balance(st, caller, initial_supply);
    let kp = key_paused_vec();
    let pv = vec![0u8];
    assert(pv@ =~= seq![0u8]);
    set_storage(st, kp.as_slice(), pv.as_slice());
    Ok(done_vec())
}

/// Moves `amount` from `from` to `to` after the checks: the receiver's
/// balance is read after the sender's is written, so a self-transfer leaves
/// the balance as it was.
pub open spec fn move_funds(m: StorageMap, from: Seq<u8>, to: Seq<u8>, amount: u64) -> Outcome {
    let fb = balance(m, from);
    if fb < amount {
        (Err(ERR_INSUFFICIENT_BALANCE), m)
    } else {
        let m1 = put_amount(m, balance_key(from), (fb - amount) as u64);
        let tb = balance(m1, to);
        if tb + amount > u64::MAX {
            (Err(ERR_OVERFLOW), m1)
        } else {
            (done(), put_amount(m1, balance_key(to), (tb + amount) as u64))
        }
    }
}

fn move_funds_exec(st: &mut Storage, from: &[u8; 32], to: &[u8; 32], amount: u64) -> (r: Result<
    Vec<u8>,
    u64,
>)
    ensures
        (answer(r), final(st)@) == move_funds(old(st)@, from@, to@, amount),
{
    let from_balance = get_balance(st, from);
    if from_balance < amount {
        return Err(ERR_INSUFFICIENT_BALANCE);
    }
    set_balance(st, from, from_balance - amount);
    let to_balance = get_balance(st, to);
    let new_to_balance = match to_balance.checked_add(amount) {
        Some(b) => b,
        None => return Err(ERR_OVERFLOW),
    };
    set_balance(st, to, new_to_balance);
    Ok(done_vec())
}

/// Outcome of `TRANSFER`: `[to:32][amount:8]` from the caller.
pub open spec fn transfer_outcome(m: StorageMap, caller: Seq<u8>, p: Seq<u8>) -> Outcome {
    if paused(m) {
        (Err(ERR_PAUSED), m)
    } else if p.len() < 40 {
        (Err(ERR_INVALID_INPUT), m)
    } else if blacklisted(m, caller) || blacklisted(m, account_arg(p, 0)) {
        (Err(ERR_BLACKLISTED), m)
    } else {
        move_funds(m, caller, account_arg(p, 0), u64_arg(p, 32))
    }
}

pub fn transfer(st: &mut Storage, caller: &[u8; 32], input: &[u8]) -> (r: Result<Vec<u8>, u64>)
    ensures
        (answer(r), final(st)@) == transfer_outcome(old(st)@, caller@, input@),
{
    require_not_paused(st)?;
    if input.len() < 40 {
        return Err(ERR_INVALID_INPUT);
    }
    let to = address_at(input, 0);
    let amount = read_u64_at(input, 32);
    require_not_blacklisted(st, caller)?;
    require_not_blacklisted(st, &to)?;
    move_funds_exec(st, caller, &to, amount)
}

/// Outcome of `APPROVE`: `[spender:32][amount:8]`; sets the caller's
/// allowance for the spender.
pub open spec fn approve_outcome(m: StorageMap, caller: Seq<u8>, p: Seq<u8>) -> Outcome {
    if paused(m) {
        (Err(ERR_PAUSED), m)
    } else if p.len() < 40 {
        (Err(ERR_INVALID_INPUT), m)
    } else if blacklisted(m, caller) || blacklisted(m, account_arg(p, 0)) {
        (Err(ERR_BLACKLISTED), m)
    } else {
        (done(), put_amount(m, allowance_key(caller, account_arg(p, 0)), u64_arg(p, 32)))
    }
}

pub fn approve(st: &mut Storage, caller: &[u8; 32], input: &[u8]) -> (r: Result<Vec<u8>, u64>)
    ensures
        (answer(r), final(st)@) == approve_outcome(old(st)@, caller@, input@),
{
    require_not_paused(st)?;
    if input.len() < 40 {
        return Err(ERR_INVALID_INPUT);
    }
    let spender = address_at(input, 0);
    let amount = read_u64_at(input, 32);
    require_not_blacklisted(st, caller)?;
    require_not_blacklisted(st, &spender)?;
    set_allowance(st, caller, &spender, amount);
    Ok(done_vec())
}

/// Outcome of `TRANSFER_FROM`: `[from:32][to:32][amount:8]`, spending the
/// caller's allowance from `from`.
pub open spec fn transfer_from_outcome(m: StorageMap, caller: Seq<u8>, p: Seq<u8>) -> Outcome {
    if paused(m) {
        (Err(ERR_PAUSED), m)
    } else if p.len() < 72 {
        (Err(ERR_INVALID_INPUT), m)
    } else {
        let from = account_arg(p, 0);
        let to = account_arg(p, 32);
        let amount = u64_arg(p, 64);
        if blacklisted(m, from) || blacklisted(m, to) || blacklisted(m, caller) {
            (Err(ERR_BLACKLISTED), m)
        } else if allowance(m, from, caller) < amount {
            (Err(ERR_INSUFFICIENT_ALLOWANCE), m)
        } else if balance(m, from) < amount {
            (Err(ERR_INSUFFICIENT_BALANCE), m)
        } else {
            move_funds(
                put_amount(
                    m,
                    allowance_key(from, caller),
                    (allowance(m, from, caller) - amount) as u64,
                ),
                from,
                to,
                amount,
            )
        }
    }
}

pub fn transfer_from(st: &mut Storage, caller: &[u8; 32], input: &[u8]) -> (r: Result<
    Vec<u8>,
    u64,
>)
    ensures
        (answer(r), final(st)@) == transfer_from_outcome(old(st)@, caller@, input@),
{
    require_not_paused(st)?;
    if input.len() < 72 {
        return Err(ERR_INVALID_INPUT);
    }
    let from = address_at(input, 0);
    let to = address_at(input, 32);
    let amount = read_u64_at(input, 64);
    require_not_blacklisted(st, &from)?;
    require_not_blacklisted(st, &to)?;
    require_not_blacklisted(st, caller)?;
    let allowance = get_allowance(st, &from, caller);
    if allowance < amount {
        return Err(ERR_INSUFFICIENT_ALLOWANCE);
    }
    let from_balance = get_balance(st, &from);
    if from_balance < amount {
        return Err(ERR_INSUFFICIENT_BALANCE);
    }
    proof {
        lemma_key_lengths(from@, caller@);
    }
    set_allowance(st, &from, caller, allowance - amount);
    move_funds_exec(st, &from, &to, amount)
}

/// Outcome of `MINT`: `[to:32][amount:8]`, owner only; raises the total
/// supply and the receiver's balance.
pub open spec fn mint_outcome(m: StorageMap, caller: Seq<u8>, p: Seq<u8>) -> Outcome {
    if owner_check(m, caller) is Err {
        (Err(owner_check(m, caller)->Err_0), m)
    } else if paused(m) {
        (Err(ERR_PAUSED), m)
    } else if p.len() < 40 {
        (Err(ERR_INVALID_INPUT), m)
    } else {
        let to = account_arg(p, 0);
        let amount = u64_arg(p, 32);
        if blacklisted(m, to) {
            (Err(ERR_BLACKLISTED), m)
        } else {
            match total_supply(m) {
                None => (Err(ERR_INVALID_INPUT), m),
                Some(t) => if t + amount > u64::MAX {
                    (Err(ERR_OVERFLOW), m)
                } else {
                    let m1 = put_amount(m, key_total_supply(), (t + amount) as u64);
                    let b = balance(m1, to);
                    if b + amount > u64::MAX {
                        (Err(ERR_OVERFLOW), m1)
                    } else {
                        (done(), put_amount(m1, balance_key(to), (b + amount) as u64))
                    }
                },
            }
        }
    }
}

/// The stored total supply (`Err(1)` when none is stored).
fn read_total_supply(st: &Storage) -> (r: Result<u64, u64>)
    requires
        well_formed(st@),
    ensures
        match r {
            Ok(t) => total_supply(st@) == Some(t),
            Err(e) => e == ERR_INVALID_INPUT && total_supply(st@) is None,
        },
{
    let k = key_total_supply_vec();
    let b = get_storage(st, k.as_slice())?;
    let t = read_u64_at(b.as_slice(), 0);
    assert(b@.subrange(0, 8) =~= b@.take(8));
    Ok(t)
}

pub fn mint(st: &mut Storage, caller: &[u8; 32], input: &[u8]) -> (r: Result<Vec<u8>, u64>)
    requires
        well_formed(old(st)@),
    ensures
        (answer(r), final(st)@) == mint_outcome(old(st)@, caller@, input@),
{
    require_owner(st, caller)?;
    require_not_paused(st)?;
    if input.len() < 40 {
        return Err(ERR_INVALID_INPUT);
    }
    let to = address_at(input, 0);
    let amount = read_u64_at(input, 32);
    require_not_blacklisted(st, &to)?;
    let total = read_total_supply(st)?;
    let new_total = match total.checked_add(amount) {
        Some(t) => t,
        None => return Err(ERR_OVERFLOW),
    };
    let kt = key_total_supply_vec();
    write_amount(st, kt.as_slice(), new_total);
    let balance = get_balance(st, &to);
    let new_balance = match balance.checked_add(amount) {
        Some(b) => b,
        None => return Err(ERR_OVERFLOW),
    };
    set_balance(st, &to, new_balance);
    Ok(done_vec())
}

/// Outcome of `BURN`: `[from:32][amount:8]`, owner only; lowers the total
/// supply and the holder's balance.
pub open spec fn burn_outcome(m: StorageMap, caller: Seq<u8>, p: Seq<u8>) -> Outcome {
    if owner_check(m, caller) is Err {
        (Err(owner_check(m, caller)->Err_0), m)
    } else if paused(m) {
        (Err(ERR_PAUSED), m)
    } else if p.len() < 40 {
        (Err(ERR_INVALID_INPUT), m)
    } else {
        let from = account_arg(p, 0);
        let amount = u64_arg(p, 32);
        let b = balance(m, from);
        if b < amount {
            (Err(ERR_INSUFFICIENT_BALANCE), m)
        } else {
            match total_supply(m) {
                None => (Err(ERR_INVALID_INPUT), m),
                Some(t) => if t < amount {
                    (Err(ERR_UNDERFLOW), m)
                } else {
                    (
                        done(),
                        put_amount(
                            put_amount(m, key_total_supply(), (t - amount) as u64),
                            balance_key(from),
                            (b - amount) as u64,
                        ),
                    )
                },
            }
        }
    }
}

pub fn burn(st: &mut Storage, caller: &[u8; 32], input: &[u8]) -> (r: Result<Vec<u8>, u64>)
    requires
        well_formed(old(st)@),
    ensures
        (answer(r), final(st)@) == burn_outcome(old(st)@, caller@, input@),
{
    require_owner(st, caller)?;
    require_not_paused(st)?;
    if input.len() < 40 {
        return Err(ERR_INVALID_INPUT);
    }
    let from = address_at(input, 0);
    let amount = read_u64_at(input, 32);
    let balance = get_balance(st, &from);
    if balance < amount {
        return Err(ERR_INSUFFICIENT_BALANCE);
    }
    let total = read_total_supply(st)?;
    let new_total = match total.checked_sub(amount) {
        Some(t) => t,
        None => return Err(ERR_UNDERFLOW),
    };
    let kt = key_total_supply_vec();
    write_amount(st, kt.as_slice(), new_total);
    proof {
        lemma_key_lengths(from@, from@);
    }
    set_balance(st, &from, balance - amount);
    Ok(done_vec())
}

/// Outcome of `PAUSE`: owner only; refused when already paused.
pub open spec fn pause_outcome(m: StorageMap, caller: Seq<u8>) -> Outcome {
    if owner_check(m, caller) is Err {
        (Err(owner_check(m, caller)->Err_0), m)
    } else if paused(m) {
        (Err(ERR_PAUSED), m)
    } else {
        (done(), m.insert(key_paused(), seq![1u8]))
    }
}

pub fn pause(st: &mut Storage, caller: &[u8; 32]) -> (r: Result<Vec<u8>, u64>)
    ensures
        (answer(r), final(st)@) == pause_outcome(old(st)@, caller@),
{
    require_owner(st, caller)?;
    if is_paused(st) {
        return Err(ERR_PAUSED);
    }
    let k = key_paused_vec();
    let v = vec![1u8];
    assert(v@ =~= seq![1u8]);
    set_storage(st, k.as_slice(), v.as_slice());
    Ok(done_vec())
}

/// Outcome of `UNPAUSE`: owner only.
pub open spec fn unpause_outcome(m: StorageMap, caller: Seq<u8>) -> Outcome {
    if owner_check(m, caller) is Err {
        (Err(owner_check(m, caller)->Err_0), m)
    } else {
        (done(), m.insert(key_paused(), seq![0u8]))
    }
}

pub fn unpause(st: &mut Storage, caller: &[u8; 32]) -> (r: Result<Vec<u8>, u64>)
    ensures
        (answer(r), final(st)@) == unpause_outcome(old(st)@, caller@),
{
    require_owner(st, caller)?;
    let k = key_paused_vec();
    let v = vec![0u8];
    assert(v@ =~= seq![0u8]);
    set_storage(st, k.as_slice(), v.as_slice());
    Ok(done_vec())
}

/// Outcome of `ADD_BLACKLIST` (`listed`) and `REMOVE_BLACKLIST`:
/// `[account:32]`, owner only.
pub open spec fn blacklist_outcome(m: StorageMap, caller: Seq<u8>, p: Seq<u8>, listed: bool) -> Outcome {
    if owner_check(m, caller) is Err {
        (Err(owner_check(m, caller)->Err_0), m)
    } else if p.len() < 32 {
        (Err(ERR_INVALID_INPUT), m)
    } else {
        (
            done(),
            m.insert(
                blacklist_key(account_arg(p, 0)),
                if listed {
                    seq![1u8]
                } else {
                    seq![0u8]
                },
            ),
        )
    }
}

pub fn add_blacklist(st: &mut Storage, caller: &[u8; 32], input: &[u8]) -> (r: Result<
    Vec<u8>,
    u64,
>)
    ensures
        (answer(r), final(st)@) == blacklist_outcome(old(st)@, caller@, input@, true),
{
    require_owner(st, caller)?;
    if input.len() < 32 {
        return Err(ERR_INVALID_INPUT);
    }
    let account = address_at(input, 0);
    let k = blacklist_key_vec(&account);
    let v = vec![1u8];
    assert(v@ =~= seq![1u8]);
    set_storage(st, k.as_slice(), v.as_slice());
    Ok(done_vec())
}

pub fn remove_blacklist(st: &mut Storage, caller: &[u8; 32], input: &[u8]) -> (r: Result<
    Vec<u8>,
    u64,
>)
    ensures
        (answer(r), final(st)@) == blacklist_outcome(old(st)@, caller@, input@, false),
{
    require_owner(st, caller)?;
    if input.len() < 32 {
        return Err(ERR_INVALID_INPUT);
    }
    let account = address_at(input, 0);
    let k = blacklist_key_vec(&account);
    let v = vec![0u8];
    assert(v@ =~= seq![0u8]);
    set_storage(st, k.as_slice(), v.as_slice());
    Ok(done_vec())
}

/// Outcome of `DESTROY_BLACKLISTED_FUNDS`: `[account:32]`, owner only; the
/// account must be blacklisted; its whole balance leaves the supply.
pub open spec fn destroy_outcome(m: StorageMap, caller: Seq<u8>, p: Seq<u8>) -> Outcome {
    if owner_check(m, caller) is Err {
        (Err(owner_check(m, caller)->Err_0), m)
    } else if p.len() < 32 {
        (Err(ERR_INVALID_INPUT), m)
    } else {
        let account = account_arg(p, 0);
        let b = balance(m, account);
        if !blacklisted(m, account) {
            (Err(ERR_UNAUTHORIZED), m)
        } else if b == 0 {
            (done(), m)
        } else {
            match total_supply(m) {
                None => (Err(ERR_INVALID_INPUT), m),
                Some(t) => if t < b {
                    (Err(ERR_UNDERFLOW), m)
                } else {
                    (
                        done(),
                        put_amount(
                            put_amount(m, key_total_supply(), (t - b) as u64),
                            balance_key(account),
                            0,
                        ),
                    )
                },
            }
        }
    }
}

pub fn destroy_blacklisted_funds(st: &mut Storage, caller: &[u8; 32], input: &[u8]) -> (r: Result<
    Vec<u8>,
    u64,
>)
    requires
        well_formed(old(st)@),
    ensures
        (answer(r), final(st)@) == destroy_outcome(old(st)@, caller@, input@),
{
    require_owner(st, caller)?;
    if input.len() < 32 {
        return Err(ERR_INVALID_INPUT);
    }
    let account = address_at(input, 0);
    if !is_blacklisted(st, &account) {
        return Err(ERR_UNAUTHORIZED);
    }
    let balance = get_balance(st, &account);
    if balance > 0 {
        let total = read_total_supply(st)?;
        let new_total = match total.checked_sub(balance) {
            Some(t) => t,
            None => return Err(ERR_UNDERFLOW),
        };
        let kt = key_total_supply_vec();
        write_amount(st, kt.as_slice(), new_total);
        set_balance(st, &account, 0);
    }
    Ok(done_vec())
}

/// Outcome of `BALANCE_OF`: `[account:32]`; answers the balance in 8
/// little-endian bytes.
pub open spec fn balance_of_outcome(m: StorageMap, p: Seq<u8>) -> Outcome {
    if p.len() < 32 {
        (Err(ERR_INVALID_INPUT), m)
    } else {
        (Ok(le_bytes(balance(m, account_arg(p, 0)) as nat, 8)), m)
    }
}

pub fn balance_of(st: &Storage, input: &[u8]) -> (r: Result<Vec<u8>, u64>)
    ensures
        (answer(r), st@) == balance_of_outcome(st@, input@),
{
    if input.len() < 32 {
        return Err(ERR_INVALID_INPUT);
    }
    let account = address_at(input, 0);
    let balance = get_balance(st, &account);
    Ok(u64_le(balance))
}

/// Outcome of `ALLOWANCE`: `[owner:32][spender:32]`.
pub open spec fn allowance_outcome(m: StorageMap, p: Seq<u8>) -> Outcome {
    if p.len() < 64 {
        (Err(ERR_INVALID_INPUT), m)
    } else {
        (Ok(le_bytes(allowance(m, account_arg(p, 0), account_arg(p, 32)) as nat, 8)), m)
    }
}

pub fn query_allowance(st: &Storage, input: &[u8]) -> (r: Result<Vec<u8>, u64>)
    ensures
        (answer(r), st@) == allowance_outcome(st@, input@),
{
    if input.len() < 64 {
        return Err(ERR_INVALID_INPUT);
    }
    let owner = address_at(input, 0);
    let spender = address_at(input, 32);
    let a = get_allowance(st, &owner, &spender);
    Ok(u64_le(a))
}

/// Outcome of `TOTAL_SUPPLY`: the total supply as 8 little-endian bytes;
/// refused while none is stored.
pub open spec fn total_supply_outcome(m: StorageMap) -> Outcome {
    match total_supply(m) {
        Some(t) => (Ok(le_bytes(t as nat, 8)), m),
        None => (Err(ERR_INVALID_INPUT), m),
    }
}

pub fn query_total_supply(st: &Storage) -> (r: Result<Vec<u8>, u64>)
    requires
        well_formed(st@),
    ensures
        (answer(r), st@) == total_supply_outcome(st@),
{
    let t = read_total_supply(st)?;
    Ok(u64_le(t))
}

/// A flag as one byte.
pub open spec fn flag_byte(b: bool) -> Seq<u8> {
    if b {
        seq![1u8]
    } else {
        seq![0u8]
    }
}

fn flag_vec(b: bool) -> (r: Vec<u8>)
    ensures
        r@ == flag_byte(b),
{
    let v = if b {
        vec![1u8]
    } else {
        vec![0u8]
    };
    assert(v@ =~= flag_byte(b));
    v
}

/// Outcome of `IS_PAUSED`: `[1]` while paused, else `[0]`.
pub open spec fn is_paused_outcome(m: StorageMap) -> Outcome {
    (Ok(flag_byte(paused(m))), m)
}

pub fn query_is_paused(st: &Storage) -> (r: Result<Vec<u8>, u64>)
    ensures
        (answer(r), st@) == is_paused_outcome(st@),
{
    Ok(flag_vec(is_paused(st)))
}

/// Outcome of `IS_BLACKLISTED`: `[account:32]`; `[1]` when the account is
/// blacklisted, else `[0]`.
pub open spec fn is_blacklisted_outcome(m: StorageMap, p: Seq<u8>) -> Outcome {
    if p.len() < 32 {
        (Err(ERR_INVALID_INPUT), m)
    } else {
        (Ok(flag_byte(blacklisted(m, account_arg(p, 0)))), m)
    }
}

pub fn query_is_blacklisted(st: &Storage, input: &[u8]) -> (r: Result<Vec<u8>, u64>)
    ensures
        (answer(r), st@) == is_blacklisted_outcome(st@, input@),
{
    if input.len() < 32 {
        return Err(ERR_INVALID_INPUT);
    }
    let account = address_at(input, 0);
    Ok(flag_vec(is_blacklisted(st, &account)))
}

/// Outcome of a whole instruction `[opcode:1][args]`.
pub open spec fn instruction_outcome(m: StorageMap, caller: Seq<u8>, input: Seq<u8>) -> Outcome {
    if input.len() == 0 {
        (Err(ERR_INVALID_INPUT), m)
    } else {
        let a = input.subrange(1, input.len() as int);
        let op = input[0];
        if op == 0 {
            initialize_outcome(m, caller, a)
        } else if op == 1 {
            transfer_outcome(m, caller, a)
        } else if op == 2 {
            approve_outcome(m, caller, a)
        } else if op == 3 {
            transfer_from_outcome(m, caller, a)
        } else if op == 4 {
            mint_outcome(m, caller, a)
        } else if op == 5 {
            burn_outcome(m, caller, a)
        } else if op == 6 {
            pause_outcome(m, caller)
        } else if op == 7 {
            unpause_outcome(m, caller)
        } else if op == 8 {
            blacklist_outcome(m, caller, a, true)
        } else if op == 9 {
            blacklist_outcome(m, caller, a, false)
        } else if op == 10 {
            destroy_outcome(m, caller, a)
        } else if op == 100 {
            balance_of_outcome(m, a)
        } else if op == 101 {
            allowance_outcome(m, a)
        } else if op == 102 {
            total_supply_outcome(m)
        } else if op == 103 {
            is_paused_outcome(m)
        } else if op == 104 {
            is_blacklisted_outcome(m, a)
        } else {
            (Err(ERR_INVALID_INPUT), m)
        }
    }
}

/// Runs one instruction from `caller` and answers its return data or error
/// code.
pub fn process_instruction(st: &mut Storage, caller: &[u8; 32], input: &[u8]) -> (r: Result<
    Vec<u8>,
    u64,
>)
    requires
        well_formed(old(st)@),
    ensures
        (answer(r), final(st)@) == instruction_outcome(old(st)@, caller@, input@),
{
    if input.len() == 0 {
        return Err(ERR_INVALID_INPUT);
    }
    let instruction = match Instruction::from_u8(input[0]) {
        Some(i) => i,
        None => return Err(ERR_INVALID_INPUT),
    };
    let args = copy_range(input, 1, input.len() - 1);
    let a = args.as_slice();
    match instruction {
        Instruction::Initialize => initialize(st, caller, a),
        Instruction::Transfer => transfer(st, caller, a),
        Instruction::Approve => approve(st, caller, a),
        Instruction::TransferFrom => transfer_from(st, caller, a),
        Instruction::Mint => mint(st, caller, a),
        Instruction::Burn => burn(st, caller, a),
        Instruction::Pause => pause(st, caller),
        Instruction::Unpause => unpause(st, caller),
        Instruction::AddBlacklist => add_blacklist(st, caller, a),
        Instruction::RemoveBlacklist => remove_blacklist(st, caller, a),
        Instruction::DestroyBlacklistedFunds => destroy_blacklisted_funds(st, caller, a),
        Instruction::BalanceOf => balance_of(st, a),
        Instruction::Allowance => query_allowance(st, a),
        Instruction::TotalSupply => query_total_supply(st),
        Instruction::IsPaused => query_is_paused(st),
        Instruction::IsBlacklisted => query_is_blacklisted(st, a),
    }
}

/// The kinds of event the contract emits.
#[derive(Clone, Copy, PartialEq, Eq, Structural, Debug)]
pub enum EventKind {
    Transfer,
    Approval,
    Mint,
    Burn,
    Pause,
    Unpause,
    Blacklist,
    UnBlacklist,
    DestroyBlacklistedFunds,
}

/// An event: its kind, up to two accounts (the zero address stands for
/// minting's sender and burning's receiver) and an amount.
#[derive(Debug)]
pub struct UsdtEvent {
    pub kind: EventKind,
    pub first: [u8; 32],
    pub second: [u8; 32],
    pub amount: u64,
}

/// An event as its kind, accounts and amount; an account the event does
/// not have is zero, as is the amount of an event without one (`Pause` and
/// `Unpause` carry a timestamp of 0).
pub open spec fn event_view(e: UsdtEvent) -> (EventKind, Seq<u8>, Seq<u8>, u64) {
    (e.kind, e.first@, e.second@, e.amount)
}

/// The zero address.
pub open spec fn zero_account() -> Seq<u8> {
    Seq::new(32, |i: int| 0u8)
}

/// The events a successful instruction `[opcode:1][args]` from `caller`
/// emits on storage `m`, in order: transfers, approvals, mints and burns
/// (each with its ERC-20 `Transfer`), pauses, blacklist changes, and the
/// destruction of a non-zero blacklisted balance.
pub open spec fn instruction_events(m: StorageMap, caller: Seq<u8>, input: Seq<u8>) -> Seq<(EventKind, Seq<u8>, Seq<u8>, u64)> {
    let z = zero_account();
    if input.len() == 0 {
        Seq::empty()
    } else {
        let a = input.subrange(1, input.len() as int);
        let op = input[0];
        if op == 1 {
            seq![(EventKind::Transfer, caller, account_arg(a, 0), u64_arg(a, 32))]
        } else if op == 2 {
            seq![(EventKind::Approval, caller, account_arg(a, 0), u64_arg(a, 32))]
        } else if op == 3 {
            seq![(EventKind::Transfer, account_arg(a, 0), account_arg(a, 32), u64_arg(a, 64))]
        } else if op == 4 {
            seq![
                (EventKind::Transfer, z, account_arg(a, 0), u64_arg(a, 32)),
                (EventKind::Mint, account_arg(a, 0), z, u64_arg(a, 32)),
            ]
        } else if op == 5 {
            seq![
                (EventKind::Transfer, account_arg(a, 0), z, u64_arg(a, 32)),
                (EventKind::Burn, account_arg(a, 0), z, u64_arg(a, 32)),
            ]
        } else if op == 6 {
            seq![(EventKind::Pause, z, z, 0u64)]
        } else if op == 7 {
            seq![(EventKind::Unpause, z, z, 0u64)]
        } else if op == 8 {
            seq![(EventKind::Blacklist, account_arg(a, 0), z, 0u64)]
        } else if op == 9 {
            seq![(EventKind::UnBlacklist, account_arg(a, 0), z, 0u64)]
        } else if op == 10 && balance(m, account_arg(a, 0)) > 0 {
            seq![(EventKind::DestroyBlacklistedFunds, account_arg(a, 0), z, balance(m, account_arg(a, 0)))]
        } else {
            Seq::empty()
        }
    }
}

fn event(kind: EventKind, first: [u8; 32], second: [u8; 32], amount: u64) -> (r: UsdtEvent)
    ensures
        event_view(r) == (kind, first@, second@, amount),
{
    UsdtEvent { kind, first, second, amount }
}

/// Runs one instruction from `caller` as [`process_instruction`] does, and
/// answers the events it emits: those of [`instruction_events`] when it
/// succeeded, none when it failed.
pub fn execute(st: &mut Storage, caller: &[u8; 32], input: &[u8]) -> (r: (Result<Vec<u8>, u64>, Vec<UsdtEvent>))
    requires
        well_formed(old(st)@),
    ensures
        (answer(r.0), final(st)@) == instruction_outcome(old(st)@, caller@, input@),
        r.1@.map_values(|e: UsdtEvent| event_view(e)) == (if r.0 is Ok {
            instruction_events(old(st)@, caller@, input@)
        } else {
            Seq::empty()
        }),
{
    let ghost m = st@;
    let z = [0u8; 32];
    assert(z@ =~= zero_account());
    let has_args = input.len() >= 1 + 72;
    let first = if input.len() >= 33 { address_at(input, 1) } else { z };
    let second = if input.len() >= 65 { address_at(input, 33) } else { z };
    let amount32 = if input.len() >= 41 { read_u64_at(input, 33) } else { 0 };
    let amount64 = if has_args { read_u64_at(input, 65) } else { 0 };
    let held = get_balance(st, &first);
    let r = process_instruction(st, caller, input);
    let mut events: Vec<UsdtEvent> = Vec::new();
    if r.is_err() || input.len() == 0 {
        proof {
            assert(events@.map_values(|e: UsdtEvent| event_view(e)) =~= Seq::empty());
        }
        return (r, events);
    }
    let op = input[0];
    let ghost a = input@.subrange(1, input@.len() as int);
    proof {
        if input@.len() >= 33 {
            assert(first@ =~= account_arg(a, 0));
        }
        if input@.len() >= 65 {
            assert(second@ =~= account_arg(a, 32));
        }
        if input@.len() >= 41 {
            assert(input@.subrange(33, 41) =~= a.subrange(32, 40));
        }
        if input@.len() >= 73 {
            assert(input@.subrange(65, 73) =~= a.subrange(64, 72));
        }
    }
    if op == 1 || op == 2 {
        let kind = if op == 1 { EventKind::Transfer } else { EventKind::Approval };
        events.push(event(kind, *caller, first, amount32));
    } else if op == 3 {
        events.push(event(EventKind::Transfer, first, second, amount64));
    } else if op == 4 {
        events.push(event(EventKind::Transfer, z, first, amount32));
        events.push(event(EventKind::Mint, first, z, amount32));
    } else if op == 5 {
        events.push(event(EventKind::Transfer, first, z, amount32));
        events.push(event(EventKind::Burn, first, z, amount32));
    } else if op == 6 {
        events.push(event(EventKind::Pause, z, z, 0));
    } else if op == 7 {
        events.push(event(EventKind::Unpause, z, z, 0));
    } else if op == 8 {
        events.push(event(EventKind::Blacklist, first, z, 0));
    } else if op == 9 {
        events.push(event(EventKind::UnBlacklist, first, z, 0));
    } else if op == 10 && held > 0 {
        events.push(event(EventKind::DestroyBlacklistedFunds, first, z, held));
    }
    proof {
        assert(events@.map_values(|e: UsdtEvent| event_view(e)) =~= instruction_events(m, caller@, input@));
    }
    (r, events)
}

/// The contract's status code for an instruction, of which at most the
/// first 128 bytes are read: 0 on success, else the error code.
pub fn entrypoint(st: &mut Storage, caller: &[u8; 32], input: &[u8]) -> (r: u64)
    requires
        well_formed(old(st)@),
    ensures
        r == (match instruction_outcome(old(st)@, caller@, crate::aave::entry_input(input@)).0 {
            Ok(_) => 0,
            Err(e) => e,
        }),
        final(st)@ == instruction_outcome(old(st)@, caller@, crate::aave::entry_input(input@)).1,
{
    let len = if input.len() <= 128 {
        input.len()
    } else {
        128
    };
    let data = copy_range(input, 0, len);
    proof {
        assert(data@ =~= crate::aave::entry_input(input@));
    }
    match process_instruction(st, caller, data.as_slice()) {
        Ok(_) => 0,
        Err(e) => e,
    }
}


// ---------------------------------------------------------------------------
// Laws
// ---------------------------------------------------------------------------

/// While paused, no tokens move: transfers, approvals and transfers from an
/// allowance are refused with `Paused` and change nothing, and so are the
/// owner's mints and burns.
pub proof fn law_paused_blocks_movement(m: StorageMap, caller: Seq<u8>, p: Seq<u8>)
    requires
        paused(m),
    ensures
        transfer_outcome(m, caller, p) == (Err::<Seq<u8>, u64>(ERR_PAUSED), m),
        approve_outcome(m, caller, p) == (Err::<Seq<u8>, u64>(ERR_PAUSED), m),
        transfer_from_outcome(m, caller, p) == (Err::<Seq<u8>, u64>(ERR_PAUSED), m),
        owner_check(m, caller) is Ok ==> mint_outcome(m, caller, p) == (Err::<Seq<u8>, u64>(
            ERR_PAUSED,
        ), m),
        owner_check(m, caller) is Ok ==> burn_outcome(m, caller, p) == (Err::<Seq<u8>, u64>(
            ERR_PAUSED,
        ), m),
{
}

/// A blacklisted account can neither send nor receive: the transfer is
/// refused with `Blacklisted` and changes nothing.
pub proof fn law_blacklisted_cannot_transfer(m: StorageMap, caller: Seq<u8>, p: Seq<u8>)
    requires
        !paused(m),
        p.len() >= 40,
        blacklisted(m, caller) || blacklisted(m, account_arg(p, 0)),
    ensures
        transfer_outcome(m, caller, p) == (Err::<Seq<u8>, u64>(ERR_BLACKLISTED), m),
{
}

/// Owner-only instructions from anyone else change nothing.
pub proof fn law_owner_only(m: StorageMap, caller: Seq<u8>, p: Seq<u8>)
    requires
        owner_check(m, caller) is Err,
    ensures
        mint_outcome(m, caller, p).1 == m,
        burn_outcome(m, caller, p).1 == m,
        pause_outcome(m, caller).1 == m,
        unpause_outcome(m, caller).1 == m,
        blacklist_outcome(m, caller, p, true).1 == m,
        blacklist_outcome(m, caller, p, false).1 == m,
        destroy_outcome(m, caller, p).1 == m,
{
}

/// A successful transfer between two accounts moves the amount from the
/// sender to the receiver and leaves every other balance as it was.
pub proof fn law_transfer_conserves(m: StorageMap, caller: Seq<u8>, p: Seq<u8>, other: Seq<u8>)
    requires
        transfer_outcome(m, caller, p).0 is Ok,
        caller.len() == 32,
        other.len() == 32,
        caller != account_arg(p, 0),
    ensures
        ({
            let m2 = transfer_outcome(m, caller, p).1;
            let to = account_arg(p, 0);
            let amount = u64_arg(p, 32);
            &&& balance(m2, caller) == balance(m, caller) - amount
            &&& balance(m2, to) == balance(m, to) + amount
            &&& other != caller && other != to ==> balance(m2, other) == balance(m, other)
        }),
{
    let to = account_arg(p, 0);
    let amount = u64_arg(p, 32);
    let fb = balance(m, caller);
    let m1 = put_amount(m, balance_key(caller), (fb - amount) as u64);
    lemma_amount_roundtrip(m, balance_key(caller), (fb - amount) as u64);
    if balance_key(caller) == balance_key(to) {
        lemma_balance_key_injective(caller, to);
    }
    let tb = balance(m1, to);
    assert(tb == balance(m, to));
    lemma_amount_roundtrip(m1, balance_key(to), (tb + amount) as u64);
    if balance_key(other) == balance_key(to) {
        lemma_balance_key_injective(other, to);
    }
    if balance_key(other) == balance_key(caller) {
        lemma_balance_key_injective(other, caller);
    }
}

/// A successful mint raises the total supply and the receiver's balance by
/// the minted amount.
pub proof fn law_mint_raises_supply(m: StorageMap, caller: Seq<u8>, p: Seq<u8>)
    requires
        mint_outcome(m, caller, p).0 is Ok,
    ensures
        total_supply(mint_outcome(m, caller, p).1) == Some(
            (total_supply(m)->0 + u64_arg(p, 32)) as u64,
        ),
        balance(mint_outcome(m, caller, p).1, account_arg(p, 0)) == balance(m, account_arg(p, 0))
            + u64_arg(p, 32),
{
    let to = account_arg(p, 0);
    let amount = u64_arg(p, 32);
    let t = total_supply(m)->0;
    let m1 = put_amount(m, key_total_supply(), (t + amount) as u64);
    lemma_key_lengths(to, to);
    lemma_amount_roundtrip(m, key_total_supply(), (t + amount) as u64);
    crate::bytes::lemma_le_bytes_len((t + amount) as nat, 8);
    let b = balance(m1, to);
    lemma_amount_roundtrip(m1, balance_key(to), (b + amount) as u64);
    let m2 = put_amount(m1, balance_key(to), (b + amount) as u64);
    assert(stored(m2, key_total_supply()) == stored(m1, key_total_supply()));
    let v = le_bytes((t + amount) as nat, 8);
    assert(stored(m1, key_total_supply()) == Some(v.take(8)));
    assert(v.take(8) =~= v);
    crate::bytes::lemma_pow256_values();
    crate::bytes::lemma_le_roundtrip((t + amount) as nat, 8);
}

/// Every instruction keeps the storage well formed, so the next one can
/// run.
pub proof fn law_well_formed_kept(m: StorageMap, caller: Seq<u8>, input: Seq<u8>)
    requires
        well_formed(m),
        caller.len() == 32,
    ensures
        well_formed(instruction_outcome(m, caller, input).1),
{
    if input.len() > 0 {
        let a = input.subrange(1, input.len() as int);
        if a.len() >= 72 {
            lemma_key_lengths(account_arg(a, 0), account_arg(a, 32));
            lemma_key_lengths(account_arg(a, 0), caller);
            lemma_key_lengths(caller, account_arg(a, 0));
        } else if a.len() >= 32 {
            lemma_key_lengths(account_arg(a, 0), caller);
            lemma_key_lengths(caller, account_arg(a, 0));
        } else {
            lemma_key_lengths(caller, caller);
        }
        crate::bytes::lemma_le_bytes_len(0, 8);
        assert forall|v: u64| #[trigger] le_bytes(v as nat, 8).len() == 8 by {
            crate::bytes::lemma_le_bytes_len(v as nat, 8);
        }
    }
}

/// A write to one key leaves the balance of every account whose balance
/// key is another unchanged.
proof fn lemma_balance_elsewhere(m: StorageMap, k: Seq<u8>, v: u64, a: Seq<u8>)
    requires
        balance_key(a) != k,
    ensures
        balance(put_amount(m, k, v), a) == balance(m, a),
{
    assert(put_amount(m, k, v).get(balance_key(a)) == m.get(balance_key(a)));
}

/// The total supply as stored after it is written reads back.
proof fn lemma_supply_reads_back(m: StorageMap, v: u64)
    ensures
        total_supply(put_amount(m, key_total_supply(), v)) == Some(v),
{
    let b = le_bytes(v as nat, 8);
    crate::bytes::lemma_le_bytes_len(v as nat, 8);
    crate::bytes::lemma_pow256_values();
    crate::bytes::lemma_le_roundtrip(v as nat, 8);
    assert(b.take(8) =~= b);
}

/// A successful `TRANSFER_FROM` of `x` by `caller` from `from` to another
/// account `to` moves exactly `x` (the two balances keep their sum) and
/// lowers the caller's allowance from `from` by `x`.
pub proof fn law_transfer_from_moves_amount(m: StorageMap, caller: Seq<u8>, p: Seq<u8>)
    requires
        caller.len() == 32,
        transfer_from_outcome(m, caller, p).0 is Ok,
    ensures
        p.len() >= 72,
        ({
            let from = account_arg(p, 0);
            let to = account_arg(p, 32);
            let x = u64_arg(p, 64);
            let m2 = transfer_from_outcome(m, caller, p).1;
            &&& from != to ==> balance(m2, from) == balance(m, from) - x
                && balance(m2, to) == balance(m, to) + x
                && balance(m2, from) + balance(m2, to) == balance(m, from) + balance(m, to)
            &&& allowance(m2, from, caller) == allowance(m, from, caller) - x
        }),
{
    let from = account_arg(p, 0);
    let to = account_arg(p, 32);
    let x = u64_arg(p, 64);
    let ak = allowance_key(from, caller);
    lemma_key_lengths(from, caller);
    lemma_key_lengths(to, caller);
    let m0 = put_amount(m, ak, (allowance(m, from, caller) - x) as u64);
    lemma_amount_roundtrip(m, ak, (allowance(m, from, caller) - x) as u64);
    lemma_balance_elsewhere(m, ak, (allowance(m, from, caller) - x) as u64, from);
    lemma_balance_elsewhere(m, ak, (allowance(m, from, caller) - x) as u64, to);
    let fb = balance(m0, from);
    let m1 = put_amount(m0, balance_key(from), (fb - x) as u64);
    let tb = balance(m1, to);
    let m2 = put_amount(m1, balance_key(to), (tb + x) as u64);
    assert(transfer_from_outcome(m, caller, p).1 == m2);
    lemma_amount_roundtrip(m0, balance_key(from), (fb - x) as u64);
    lemma_amount_roundtrip(m1, balance_key(to), (tb + x) as u64);
    assert(m2.get(ak) == m0.get(ak));
    if from != to {
        if balance_key(from) == balance_key(to) {
            lemma_balance_key_injective(from, to);
        }
        lemma_balance_elsewhere(m0, balance_key(from), (fb - x) as u64, to);
        lemma_balance_elsewhere(m1, balance_key(to), (tb + x) as u64, from);
    }
}

/// A successful `BURN` of `x` from an account lowers both that account's
/// balance and the total supply by `x`.
pub proof fn law_burn_lowers_balance_and_supply(m: StorageMap, caller: Seq<u8>, p: Seq<u8>)
    requires
        burn_outcome(m, caller, p).0 is Ok,
    ensures
        p.len() >= 40,
        total_supply(m) is Some,
        ({
            let from = account_arg(p, 0);
            let x = u64_arg(p, 32);
            let m2 = burn_outcome(m, caller, p).1;
            &&& balance(m2, from) == balance(m, from) - x
            &&& total_supply(m2) == Some((total_supply(m)->0 - x) as u64)
        }),
{
    let from = account_arg(p, 0);
    let x = u64_arg(p, 32);
    let t = total_supply(m)->0;
    let b = balance(m, from);
    let m1 = put_amount(m, key_total_supply(), (t - x) as u64);
    let m2 = put_amount(m1, balance_key(from), (b - x) as u64);
    assert(burn_outcome(m, caller, p).1 == m2);
    lemma_key_lengths(from, from);
    lemma_balance_elsewhere(m, key_total_supply(), (t - x) as u64, from);
    lemma_amount_roundtrip(m1, balance_key(from), (b - x) as u64);
    lemma_supply_reads_back(m, (t - x) as u64);
    assert(m2.get(key_total_supply()) == m1.get(key_total_supply()));
}

/// A successful destruction of a blacklisted account's funds empties the
/// account and lowers the total supply by what it held.
pub proof fn law_destroy_empties_account(m: StorageMap, caller: Seq<u8>, p: Seq<u8>)
    requires
        destroy_outcome(m, caller, p).0 is Ok,
    ensures
        p.len() >= 32,
        blacklisted(m, account_arg(p, 0)),
        ({
            let a = account_arg(p, 0);
            let m2 = destroy_outcome(m, caller, p).1;
            &&& balance(m2, a) == 0
            &&& balance(m, a) > 0 ==> total_supply(m) is Some && total_supply(m2) == Some(
                (total_supply(m)->0 - balance(m, a)) as u64,
            )
        }),
{
    let a = account_arg(p, 0);
    let b = balance(m, a);
    if b > 0 {
        let t = total_supply(m)->0;
        let m1 = put_amount(m, key_total_supply(), (t - b) as u64);
        let m2 = put_amount(m1, balance_key(a), 0);
        assert(destroy_outcome(m, caller, p).1 == m2);
        lemma_key_lengths(a, a);
        lemma_amount_roundtrip(m1, balance_key(a), 0);
        lemma_supply_reads_back(m, (t - b) as u64);
        assert(m2.get(key_total_supply()) == m1.get(key_total_supply()));
    }
}

/// A successful `APPROVE` sets the caller's allowance for the spender to
/// the amount and moves no balance.
pub proof fn law_approve_sets_allowance(m: StorageMap, caller: Seq<u8>, p: Seq<u8>, holder: Seq<u8>)
    requires
        caller.len() == 32,
        holder.len() == 32,
        approve_outcome(m, caller, p).0 is Ok,
    ensures
        p.len() >= 40,
        allowance(approve_outcome(m, caller, p).1, caller, account_arg(p, 0)) == u64_arg(p, 32),
        balance(approve_outcome(m, caller, p).1, holder) == balance(m, holder),
{
    let spender = account_arg(p, 0);
    let ak = allowance_key(caller, spender);
    lemma_key_lengths(holder, spender);
    lemma_key_lengths(caller, spender);
    lemma_amount_roundtrip(m, ak, u64_arg(p, 32));
    lemma_balance_elsewhere(m, ak, u64_arg(p, 32), holder);
}

} // verus!

//! An Aave-style lending pool: reserves with interest indices, supply and
//! borrow positions per user and asset, a multi-asset health factor and
//! liquidation of unhealthy positions.
//!
//! Each instruction is a function of the storage, the caller and the
//! instruction bytes; it answers `Ok(return data)` or `Err(code)`.  Failed
//! instructions may keep the writes made before the failure.
//!
//! Values are read back through a 256-byte buffer, as they were written.
//! Where an instruction would index a stored value shorter than it expects
//! (one the pool never writes), or copy a longer one into a 64-byte
//! record, the contract aborts, and the functions below exclude those
//! states in `requires`.

use vstd::prelude::*;
use vstd::arithmetic::div_mod::lemma_div_is_ordered;
use vstd::arithmetic::mul::lemma_mul_inequality;
use crate::bytes::{
    le_bytes, le_nat, address_at, read_u64_at, copy_range, u64_le, append_bytes,
    lemma_le_bytes_len, lemma_le_roundtrip, lemma_pow256_values,
};
use crate::storage::Storage;
use crate::cells::{bytes_cell, read_bytes};
use crate::stablecoin::{StorageMap, set_storage};
use crate::usdt::{Outcome, answer, done, u64_arg, account_arg};

verus! {

/// Ray precision of indices and prices (`10^9`).
pub const RAY: u64 = 1_000_000_000;

/// 100% in basis points.
pub const BASIS_POINTS: u64 = 10000;

/// Loan-to-value of a reserve that has no configuration (75%).
pub const DEFAULT_LTV_BPS: u64 = 7500;

/// Liquidation threshold of a reserve that has no configuration (80%).
pub const DEFAULT_LIQUIDATION_THRESHOLD_BPS: u64 = 8000;

/// Share of a debt that one liquidation may cover (50%).
pub const CLOSE_FACTOR_BPS: u64 = 5000;

/// Collateral bonus paid to a liquidator (5%).
pub const LIQUIDATION_BONUS_BPS: u64 = 500;

/// Borrow rate at zero utilization (2%).
pub const BASE_RATE: u64 = 200;

/// Borrow-rate slope up to the optimal utilization (4%).
pub const RATE_SLOPE: u64 = 400;

/// Utilization above which the rate rises twice as steeply (80%).
pub const OPTIMAL_UTILIZATION: u64 = 8000;

/// The pool's clock: the time every reserve update is stamped with.
pub const CURRENT_TIME: u64 = 1700000000;

/// Seconds in a 365-day year.
pub const SECONDS_PER_YEAR: u64 = 31_536_000;

/// Errors of the pool, with their codes (see [`TakoError::code`]).
#[derive(Clone, Copy, PartialEq, Eq, Structural, Debug)]
pub enum TakoError {
    StorageError,
    InvalidInput,
    Unauthorized,
    AlreadyExists,
    NotFound,
    CustomError(u64),
}

/// The code of an error.
pub open spec fn error_code(e: TakoError) -> u64 {
    match e {
        TakoError::StorageError => 1,
        TakoError::InvalidInput => 2,
        TakoError::Unauthorized => 3,
        TakoError::AlreadyExists => 4,
        TakoError::NotFound => 5,
        TakoError::CustomError(c) => c,
    }
}

impl TakoError {
    pub fn code(&self) -> (r: u64)
        ensures
            r == error_code(*self),
    {
        match self {
            TakoError::StorageError => 1,
            TakoError::InvalidInput => 2,
            TakoError::Unauthorized => 3,
            TakoError::AlreadyExists => 4,
            TakoError::NotFound => 5,
            TakoError::CustomError(c) => *c,
        }
    }
}

/// Contract instructions.
#[derive(Clone, Copy, PartialEq, Eq, Structural, Debug)]
pub enum Instruction {
    Initialize,
    InitReserve,
    SetReserveConfiguration,
    Supply,
    Withdraw,
    Borrow,
    Repay,
    Liquidate,
    SetUserCollateral,
    GetUserSupply,
    GetUserBorrow,
    GetHealthFactor,
    GetReserveData,
    GetUserAccountData,
}

/// The instruction a byte names, if any.
pub open spec fn instruction_of(value: u8) -> Option<Instruction> {
    if value == 0 {
        Some(Instruction::Initialize)
    } else if value == 1 {
        Some(Instruction::InitReserve)
    } else if value == 2 {
        Some(Instruction::SetReserveConfiguration)
    } else if value == 10 {
        Some(Instruction::Supply)
    } else if value == 11 {
        Some(Instruction::Withdraw)
    } else if value == 12 {
        Some(Instruction::Borrow)
    } else if value == 13 {
        Some(Instruction::Repay)
    } else if value == 14 {
        Some(Instruction::Liquidate)
    } else if value == 20 {
        Some(Instruction::SetUserCollateral)
    } else if value == 100 {
        Some(Instruction::GetUserSupply)
    } else if value == 101 {
        Some(Instruction::GetUserBorrow)
    } else if value == 102 {
        Some(Instruction::GetHealthFactor)
    } else if value == 103 {
        Some(Instruction::GetReserveData)
    } else if value == 104 {
        Some(Instruction::GetUserAccountData)
    } else {
        None
    }
}

impl Instruction {
    pub fn from_u8(value: u8) -> (r: Option<Instruction>)
        ensures
            r == instruction_of(value),
            r is None <==> !(value <= 2 || (10 <= value <= 14) || value == 20 || (100 <= value
                <= 104)),
    {
        match value {
            0 => Some(Instruction::Initialize),
            1 => Some(Instruction::InitReserve),
            2 => Some(Instruction::SetReserveConfiguration),
            10 => Some(Instruction::Supply),
            11 => Some(Instruction::Withdraw),
            12 => Some(Instruction::Borrow),
            13 => Some(Instruction::Repay),
            14 => Some(Instruction::Liquidate),
            20 => Some(Instruction::SetUserCollateral),
            100 => Some(Instruction::GetUserSupply),
            101 => Some(Instruction::GetUserBorrow),
            102 => Some(Instruction::GetHealthFactor),
            103 => Some(Instruction::GetReserveData),
            104 => Some(Instruction::GetUserAccountData),
            _ => None,
        }
    }
}

// ---------------------------------------------------------------------------
// Storage keys
// ---------------------------------------------------------------------------

pub open spec fn reserve_prefix() -> Seq<u8> {
    seq![114u8, 101, 115, 101, 114, 118, 101]
}

/// `"reserve_count"`.
pub open spec fn key_reserve_count() -> Seq<u8> {
    reserve_prefix() + seq![95u8, 99, 111, 117, 110, 116]
}

/// `"protocol_fee"`.
pub open spec fn key_protocol_fee() -> Seq<u8> {
    seq![112u8, 114, 111, 116, 111, 99, 111, 108, 95, 102, 101, 101]
}

/// `"reserve" ++ asset`.
pub open spec fn reserve_key(asset: Seq<u8>) -> Seq<u8> {
    reserve_prefix() + asset
}

/// `"supply_" ++ user ++ asset`.
pub open spec fn supply_key(user: Seq<u8>, asset: Seq<u8>) -> Seq<u8> {
    seq![115u8, 117, 112, 112, 108, 121, 95] + user + asset
}

/// `"borrow_" ++ user ++ asset`.
pub open spec fn borrow_key(user: Seq<u8>, asset: Seq<u8>) -> Seq<u8> {
    seq![98u8, 111, 114, 114, 111, 119, 95] + user + asset
}

/// `"collateral_enbld" ++ user ++ asset`.
pub open spec fn collateral_key(user: Seq<u8>, asset: Seq<u8>) -> Seq<u8> {
    seq![99u8, 111, 108, 108, 97, 116, 101, 114, 97, 108, 95, 101, 110, 98, 108, 100] + user
        + asset
}

/// `"reserve_cfg" ++ asset`.
pub open spec fn config_key(asset: Seq<u8>) -> Seq<u8> {
    reserve_prefix() + seq![95u8, 99, 102, 103] + asset
}

/// `"reserve_list" ++ index` (little-endian), the `index`-th listed asset.
pub open spec fn list_key(index: nat) -> Seq<u8> {
    reserve_prefix() + seq![95u8, 108, 105, 115, 116] + le_bytes(index, 8)
}

fn reserve_prefix_vec() -> (r: Vec<u8>)
    ensures
        r@ == reserve_prefix(),
{
    let v = vec![114u8, 101, 115, 101, 114, 118, 101];
    assert(v@ =~= reserve_prefix());
    v
}

fn key_reserve_count_vec() -> (r: Vec<u8>)
    ensures
        r@ == key_reserve_count(),
{
    let mut v = reserve_prefix_vec();
    let t = vec![95u8, 99, 111, 117, 110, 116];
    append_bytes(&mut v, t.as_slice());
    assert(v@ =~= key_reserve_count());
    v
}

fn key_protocol_fee_vec() -> (r: Vec<u8>)
    ensures
        r@ == key_protocol_fee(),
{
    let v = vec![112u8, 114, 111, 116, 111, 99, 111, 108, 95, 102, 101, 101];
    assert(v@ =~= key_protocol_fee());
    v
}

pub fn reserve_key_vec(asset: &[u8; 32]) -> (r: Vec<u8>)
    ensures
        r@ == reserve_key(asset@),
{
    let mut v = reserve_prefix_vec();
    append_bytes(&mut v, asset.as_slice());
    v
}

pub fn supply_key_vec(user: &[u8; 32], asset: &[u8; 32]) -> (r: Vec<u8>)
    ensures
        r@ == supply_key(user@, asset@),
{
    let mut v = vec![115u8, 117, 112, 112, 108, 121, 95];
    append_bytes(&mut v, user.as_slice());
    append_bytes(&mut v, asset.as_slice());
    assert(v@ =~= supply_key(user@, asset@));
    v
}

pub fn borrow_key_vec(user: &[u8; 32], asset: &[u8; 32]) -> (r: Vec<u8>)
    ensures
        r@ == borrow_key(user@, asset@),
{
    let mut v = vec![98u8, 111, 114, 114, 111, 119, 95];
    append_bytes(&mut v, user.as_slice());
    append_bytes(&mut v, asset.as_slice());
    assert(v@ =~= borrow_key(user@, asset@));
    v
}

pub fn collateral_key_vec(user: &[u8; 32], asset: &[u8; 32]) -> (r: Vec<u8>)
    ensures
        r@ == collateral_key(user@, asset@),
{
    let mut v = vec![99u8, 111, 108, 108, 97, 116, 101, 114, 97, 108, 95, 101, 110, 98, 108, 100];
    append_bytes(&mut v, user.as_slice());
    append_bytes(&mut v, asset.as_slice());
    assert(v@ =~= collateral_key(user@, asset@));
    v
}

pub fn config_key_vec(asset: &[u8; 32]) -> (r: Vec<u8>)
    ensures
        r@ == config_key(asset@),
{
    let mut v = reserve_prefix_vec();
    let t = vec![95u8, 99, 102, 103];
    append_bytes(&mut v, t.as_slice());
    append_bytes(&mut v, asset.as_slice());
    assert(v@ =~= config_key(asset@));
    v
}

pub fn reserve_list_entry_key(index: u64) -> (r: Vec<u8>)
    ensures
        r@ == list_key(index as nat),
{
    let mut v = reserve_prefix_vec();
    let t = vec![95u8, 108, 105, 115, 116];
    append_bytes(&mut v, t.as_slice());
    let b = u64_le(index);
    append_bytes(&mut v, b.as_slice());
    assert(v@ =~= list_key(index as nat));
    v
}

// ---------------------------------------------------------------------------
// Reading values back
// ---------------------------------------------------------------------------

/// What a read of `k` gives: the stored bytes (at most 256 of them, the
/// buffer's size), or nothing when no byte was read.
pub open spec fn fetched(m: StorageMap, k: Seq<u8>) -> Option<Seq<u8>> {
    bytes_cell(m.get(k), 256)
}

/// A read that falls back to no bytes.
pub open spec fn fetched_or_empty(m: StorageMap, k: Seq<u8>) -> Seq<u8> {
    match fetched(m, k) {
        Some(b) => b,
        None => Seq::empty(),
    }
}

/// The little-endian `u64` at `off`, or `default` when `b` is too short.
pub open spec fn u64_or(b: Seq<u8>, off: int, default: u64) -> u64 {
    if b.len() >= off + 8 {
        le_nat(b.subrange(off, off + 8)) as u64
    } else {
        default
    }
}

/// Reads `key` through a 256-byte buffer: the bytes read, `NotFound`
/// when nothing is read.
pub fn get_storage(st: &Storage, key: &[u8]) -> (r: Result<Vec<u8>, u64>)
    ensures
        match r {
            Ok(v) => fetched(st@, key@) == Some(v@),
            Err(e) => e == 5 && fetched(st@, key@) is None,
        },
{
    match read_bytes(st, key, 256) {
        Some(b) => Ok(b),
        None => Err(TakoError::NotFound.code()),
    }
}

/// Reads `key`, falling back to no bytes.
pub(crate) fn get_or_empty(st: &Storage, key: &[u8]) -> (r: Vec<u8>)
    ensures
        r@ == fetched_or_empty(st@, key@),
{
    match get_storage(st, key) {
        Ok(b) => b,
        Err(_) => Vec::new(),
    }
}

/// The `u64` at offset `off` of `b`, or `default` when `b` is too short.
pub(crate) fn read_u64_or(b: &Vec<u8>, off: usize, default: u64) -> (r: u64)
    requires
        off <= 64,
    ensures
        r == u64_or(b@, off as int, default),
{
    if b.len() >= off + 8 {
        read_u64_at(b.as_slice(), off)
    } else {
        default
    }
}

/// `b` with the eight bytes at `off` replaced by the little-endian `v`.
pub open spec fn put_u64(b: Seq<u8>, off: int, v: u64) -> Seq<u8> {
    b.subrange(0, off) + le_bytes(v as nat, 8) + b.subrange(off + 8, b.len() as int)
}

fn overwrite_u64(b: &mut Vec<u8>, off: usize, v: u64)
    requires
        off + 8 <= old(b)@.len(),
    ensures
        final(b)@ == put_u64(old(b)@, off as int, v),
        final(b)@.len() == old(b)@.len(),
{
    let bytes = u64_le(v);
    let n = b.len();
    let mut j: usize = 0;
    while j < 8
        invariant
            j <= 8,
            off + 8 <= b@.len(),
            b@.len() == n,
            bytes@.len() == 8,
            b@.len() == old(b)@.len(),
            forall|k: int|
                0 <= k < b@.len() ==> b@[k] == (if off <= k < off + j {
                    bytes@[k - off]
                } else {
                    old(b)@[k]
                }),
        decreases 8 - j,
    {
        b.set(off + j, bytes[j]);
        j = j + 1;
    }
    proof {
        assert(b@ =~= put_u64(old(b)@, off as int, v));
    }
}

/// The mock oracle price of an asset: 1.0 in ray precision.
pub open spec fn asset_price(asset: Seq<u8>) -> u64 {
    RAY
}

pub fn get_asset_price(asset: &[u8; 32]) -> (r: u64)
    ensures
        r == asset_price(asset@),
{
    RAY
}

// ---------------------------------------------------------------------------
// Interest rates and index accrual
// ---------------------------------------------------------------------------

/// `x` truncated to 64 bits, as an `as u64` cast does.
pub open spec fn wrap64(x: int) -> u64 {
    (x % 0x1_0000_0000_0000_0000) as u64
}

/// Utilization in basis points: debt over liquidity.
pub open spec fn utilization(total_liquidity: u64, total_debt: u64) -> u64 {
    if total_debt == 0 {
        0
    } else {
        wrap64(total_debt * BASIS_POINTS / total_liquidity as int)
    }
}

/// The borrow rate at a utilization: linear up to the optimum, twice as
/// steep above it.
pub open spec fn borrow_rate_at(util: u64) -> int {
    if util <= OPTIMAL_UTILIZATION {
        BASE_RATE + util * RATE_SLOPE / OPTIMAL_UTILIZATION as int
    } else {
        BASE_RATE + RATE_SLOPE + (util - OPTIMAL_UTILIZATION) * RATE_SLOPE * 2 / (BASIS_POINTS
            - OPTIMAL_UTILIZATION) as int
    }
}

/// The supply rate: the borrow rate times utilization, less a 5% reserve
/// factor.
pub open spec fn supply_rate_at(borrow_rate: u64, util: u64) -> u64 {
    wrap64(borrow_rate * util * 9500 / BASIS_POINTS as int / BASIS_POINTS as int)
}

/// `(borrow rate, supply rate)` of a reserve; both zero without liquidity.
pub open spec fn interest_rates(total_liquidity: u64, total_debt: u64) -> (u64, u64) {
    if total_liquidity == 0 {
        (0, 0)
    } else {
        let util = utilization(total_liquidity, total_debt);
        let br = borrow_rate_at(util) as u64;
        (br, supply_rate_at(br, util))
    }
}

/// The rate computation stays within its integer types (the contract aborts
/// otherwise).
pub open spec fn rates_fit(total_liquidity: u64, total_debt: u64) -> bool {
    total_liquidity == 0 || {
        let util = utilization(total_liquidity, total_debt);
        &&& (util <= OPTIMAL_UTILIZATION || (util - OPTIMAL_UTILIZATION) * RATE_SLOPE * 2
            <= u64::MAX)
        &&& borrow_rate_at(util) * util * 9500 <= u128::MAX
    }
}

/// Borrow and supply rates for a reserve's liquidity and debt.
pub fn calculate_interest_rates(total_liquidity: u64, total_debt: u64) -> (r: (u64, u64))
    requires
        rates_fit(total_liquidity, total_debt),
    ensures
        r == interest_rates(total_liquidity, total_debt),
{
    if total_liquidity == 0 {
        return (0, 0);
    }
    let utilization: u64 = if total_debt == 0 {
        0
    } else {
        let q: u128 = total_debt as u128 * BASIS_POINTS as u128 / total_liquidity as u128;
        (q % 0x1_0000_0000_0000_0000u128) as u64
    };
    let borrow_rate: u64 = if utilization <= OPTIMAL_UTILIZATION {
        BASE_RATE + (utilization * RATE_SLOPE / OPTIMAL_UTILIZATION)
    } else {
        let excess_utilization = utilization - OPTIMAL_UTILIZATION;
        BASE_RATE + RATE_SLOPE + (excess_utilization * RATE_SLOPE * 2 / (BASIS_POINTS
            - OPTIMAL_UTILIZATION))
    };
    proof {
        assert(borrow_rate as int == borrow_rate_at(utilization));
    }
    let p: u128 = borrow_rate as u128 * utilization as u128 * 9500;
    let q: u128 = p / BASIS_POINTS as u128 / BASIS_POINTS as u128;
    let supply_rate: u64 = (q % 0x1_0000_0000_0000_0000u128) as u64;
    (borrow_rate, supply_rate)
}

/// The growth of an index over `delta` seconds at `rate` basis points a
/// year, in ray precision.
pub open spec fn index_delta(rate: u64, delta: u64) -> int {
    rate * delta * RAY / SECONDS_PER_YEAR as int / BASIS_POINTS as int
}

/// An index compounded by `d`.
pub open spec fn accrued(index: u64, d: int) -> u64 {
    wrap64(index * (RAY + d) / RAY as int)
}

fn index_delta_exec(rate: u64, delta: u64) -> (r: u128)
    requires
        delta <= CURRENT_TIME,
    ensures
        r as int == index_delta(rate, delta),
        r as int <= u64::MAX * RAY,
{
    proof {
        assert(rate * delta <= u64::MAX * CURRENT_TIME) by (nonlinear_arith)
            requires
                rate <= u64::MAX,
                delta <= CURRENT_TIME,
        ;
        assert(rate * delta * RAY <= u64::MAX * CURRENT_TIME * RAY) by (nonlinear_arith)
            requires
                rate * delta <= u64::MAX * CURRENT_TIME,
        ;
        assert(rate * delta * RAY / SECONDS_PER_YEAR as int / BASIS_POINTS as int <= u64::MAX
            * RAY) by (nonlinear_arith)
            requires
                rate * delta * RAY <= u64::MAX * CURRENT_TIME * RAY,
                rate * delta * RAY >= 0,
        ;
    }
    let a: u128 = rate as u128 * delta as u128;
    let b: u128 = a * RAY as u128;
    b / SECONDS_PER_YEAR as u128 / BASIS_POINTS as u128
}

fn accrue_exec(index: u64, d: u128) -> (r: u64)
    requires
        index * (RAY + d) <= u128::MAX,
        d <= u64::MAX * RAY,
    ensures
        r == accrued(index, d as int),
{
    let grown: u128 = index as u128 * (RAY as u128 + d);
    let q: u128 = grown / RAY as u128;
    (q % 0x1_0000_0000_0000_0000u128) as u64
}

/// The 8-byte field at `off` of a reserve record.
pub open spec fn field(b: Seq<u8>, off: int) -> u64 {
    le_nat(b.subrange(off, off + 8)) as u64
}

/// Seconds since the reserve's last update (0 on its first update).
pub open spec fn elapsed(b: Seq<u8>) -> u64 {
    let last = field(b, 48);
    if last > 0 && CURRENT_TIME > last {
        (CURRENT_TIME - last) as u64
    } else {
        0
    }
}

/// The reserve record after an update: indices accrued over the elapsed
/// time at the current rates, new rates, and the update time.
///
/// Record layout: liquidity index, borrow index, total liquidity, total
/// debt, borrow rate, supply rate, last update, reserved (8 bytes each).
pub open spec fn updated_record(b: Seq<u8>) -> Seq<u8> {
    let rates = interest_rates(field(b, 16), field(b, 24));
    let delta = elapsed(b);
    let li = if delta > 0 {
        accrued(field(b, 0), index_delta(rates.1, delta))
    } else {
        field(b, 0)
    };
    let bi = if delta > 0 {
        accrued(field(b, 8), index_delta(rates.0, delta))
    } else {
        field(b, 8)
    };
    put_u64(put_u64(put_u64(put_u64(put_u64(b, 0, li), 8, bi), 32, rates.0), 40, rates.1), 48, CURRENT_TIME)
}

/// The update stays within its integer types.
pub open spec fn update_fits(b: Seq<u8>) -> bool {
    let rates = interest_rates(field(b, 16), field(b, 24));
    let delta = elapsed(b);
    &&& rates_fit(field(b, 16), field(b, 24))
    &&& delta > 0 ==> field(b, 0) * (RAY + index_delta(rates.1, delta)) <= u128::MAX
    &&& delta > 0 ==> field(b, 8) * (RAY + index_delta(rates.0, delta)) <= u128::MAX
}

/// The record of `asset` reads back as a well-sized record (exactly 64
/// bytes) whose update fits, whenever it reads back with at least 64.
pub open spec fn update_completes(m: StorageMap, asset: Seq<u8>) -> bool {
    match fetched(m, reserve_key(asset)) {
        Some(b) => b.len() >= 64 ==> b.len() == 64 && update_fits(b),
        None => true,
    }
}

/// Outcome of updating a reserve's rates and indices.
pub open spec fn update_outcome(m: StorageMap, asset: Seq<u8>) -> (Result<(), u64>, StorageMap) {
    match fetched(m, reserve_key(asset)) {
        None => (Err(5), m),
        Some(b) => if b.len() < 64 {
            (Err(12), m)
        } else {
            (Ok(()), m.insert(reserve_key(asset), updated_record(b)))
        },
    }
}

/// Accrues interest on a reserve and stores its new rates and update time.
pub fn update_reserve_state(st: &mut Storage, asset: &[u8; 32]) -> (r: Result<(), u64>)
    requires
        update_completes(old(st)@, asset@),
    ensures
        (r, final(st)@) == update_outcome(old(st)@, asset@),
{
    let reserve_k = reserve_key_vec(asset);
    let reserve_data = get_storage(st, reserve_k.as_slice())?;
    if reserve_data.len() < 64 {
        return Err(TakoError::CustomError(12).code());
    }
    let ghost b = reserve_data@;
    let liquidity_index = read_u64_at(reserve_data.as_slice(), 0);
    let borrow_index = read_u64_at(reserve_data.as_slice(), 8);
    let total_liquidity = read_u64_at(reserve_data.as_slice(), 16);
    let total_debt = read_u64_at(reserve_data.as_slice(), 24);
    let last_update = read_u64_at(reserve_data.as_slice(), 48);
    let current_time = CURRENT_TIME;
    let time_delta: u64 = if last_update > 0 && current_time > last_update {
        current_time - last_update
    } else {
        0
    };
    let (borrow_rate, supply_rate) = calculate_interest_rates(total_liquidity, total_debt);
    let (new_liquidity_index, new_borrow_index) = if time_delta > 0 {
        let liquidity_delta = index_delta_exec(supply_rate, time_delta);
        let borrow_delta = index_delta_exec(borrow_rate, time_delta);
        (accrue_exec(liquidity_index, liquidity_delta), accrue_exec(borrow_index, borrow_delta))
    } else {
        (liquidity_index, borrow_index)
    };
    let mut record = copy_range(reserve_data.as_slice(), 0, 64);
    proof {
        assert(record@ =~= b);
    }
    overwrite_u64(&mut record, 0, new_liquidity_index);
    overwrite_u64(&mut record, 8, new_borrow_index);
    overwrite_u64(&mut record, 32, borrow_rate);
    overwrite_u64(&mut record, 40, supply_rate);
    overwrite_u64(&mut record, 48, current_time);
    set_storage(st, reserve_k.as_slice(), record.as_slice());
    Ok(())
}

// ---------------------------------------------------------------------------
// Positions and the health factor
// ---------------------------------------------------------------------------

/// The asset listed at `i`, when its list entry reads back with 32 bytes.
pub open spec fn listed_asset(m: StorageMap, i: nat) -> Option<Seq<u8>> {
    let b = fetched_or_empty(m, list_key(i));
    if b.len() >= 32 {
        Some(b.take(32))
    } else {
        None
    }
}

/// The user's supply (aToken) balance of `asset`.
pub open spec fn supplied(m: StorageMap, user: Seq<u8>, asset: Seq<u8>) -> u64 {
    u64_or(fetched_or_empty(m, supply_key(user, asset)), 0, 0)
}

/// The user's debt in `asset`.
pub open spec fn borrowed(m: StorageMap, user: Seq<u8>, asset: Seq<u8>) -> u64 {
    u64_or(fetched_or_empty(m, borrow_key(user, asset)), 0, 0)
}

/// Whether the user's supply of `asset` counts as collateral.
pub open spec fn collateral_enabled(m: StorageMap, user: Seq<u8>, asset: Seq<u8>) -> bool {
    let b = fetched_or_empty(m, collateral_key(user, asset));
    b.len() > 0 && b[0] == 1
}

/// The reserve's liquidation threshold (basis points).
pub open spec fn liquidation_threshold(m: StorageMap, asset: Seq<u8>) -> u64 {
    u64_or(fetched_or_empty(m, config_key(asset)), 8, DEFAULT_LIQUIDATION_THRESHOLD_BPS)
}

/// The reserve's loan-to-value (basis points).
pub open spec fn loan_to_value(m: StorageMap, asset: Seq<u8>) -> u64 {
    u64_or(fetched_or_empty(m, config_key(asset)), 0, DEFAULT_LTV_BPS)
}

/// Value of the user's collateral in `asset`, in the base currency.
pub open spec fn collateral_value(m: StorageMap, user: Seq<u8>, asset: Seq<u8>) -> int {
    if collateral_enabled(m, user, asset) && supplied(m, user, asset) > 0 {
        supplied(m, user, asset) * asset_price(asset) / RAY as int
    } else {
        0
    }
}

/// Value of the user's debt in `asset`, in the base currency.
pub open spec fn debt_value(m: StorageMap, user: Seq<u8>, asset: Seq<u8>) -> int {
    borrowed(m, user, asset) * asset_price(asset) / RAY as int
}

/// The weight of a reserve's collateral: its loan-to-value, or its
/// liquidation threshold.
pub open spec fn weight(m: StorageMap, asset: Seq<u8>, by_ltv: bool) -> u64 {
    if by_ltv {
        loan_to_value(m, asset)
    } else {
        liquidation_threshold(m, asset)
    }
}

/// Over the first `n` listed reserves: total collateral, collateral times
/// its weight, and total debt.
pub open spec fn position_totals(m: StorageMap, user: Seq<u8>, n: nat, by_ltv: bool) -> (
    int,
    int,
    int,
)
    decreases n,
{
    if n == 0 {
        (0, 0, 0)
    } else {
        let t = position_totals(m, user, (n - 1) as nat, by_ltv);
        match listed_asset(m, (n - 1) as nat) {
            None => t,
            Some(a) => {
                let v = collateral_value(m, user, a);
                (
                    t.0 + v,
                    t.1 + v * weight(m, a, by_ltv) / BASIS_POINTS as int,
                    t.2 + debt_value(m, user, a),
                )
            },
        }
    }
}

/// The reserve count's bytes as read back.
pub open spec fn count_bytes(m: StorageMap) -> Seq<u8> {
    fetched_or_empty(m, key_reserve_count())
}

/// The number of listed reserves.
pub open spec fn reserve_count(m: StorageMap) -> nat {
    u64_or(count_bytes(m), 0, 0) as nat
}

/// Totals over every listed reserve.
pub open spec fn totals(m: StorageMap, user: Seq<u8>, by_ltv: bool) -> (int, int, int) {
    position_totals(m, user, reserve_count(m), by_ltv)
}

/// Health factor (ray precision): collateral weighted by liquidation
/// threshold over debt; `u64::MAX` without debt or without a readable
/// reserve count.
pub open spec fn health_factor(m: StorageMap, user: Seq<u8>) -> u64 {
    if count_bytes(m).len() < 8 {
        u64::MAX
    } else {
        let t = totals(m, user, false);
        if t.2 == 0 {
            u64::MAX
        } else {
            wrap64(t.1 * RAY / t.2)
        }
    }
}

/// The sums of a totals computation fit in `u128`.
pub open spec fn totals_fit(t: (int, int, int)) -> bool {
    t.0 <= u128::MAX && t.1 <= u128::MAX && t.2 <= u128::MAX
}

/// The health-factor computation stays within its integer types.
pub open spec fn health_fits(m: StorageMap, user: Seq<u8>) -> bool {
    count_bytes(m).len() < 8 || (totals_fit(totals(m, user, false)) && totals(m, user, false).1
        * RAY <= u128::MAX)
}

proof fn lemma_values_bounded(m: StorageMap, user: Seq<u8>, a: Seq<u8>, by_ltv: bool)
    ensures
        0 <= collateral_value(m, user, a) <= supplied(m, user, a),
        0 <= debt_value(m, user, a) <= borrowed(m, user, a),
        0 <= collateral_value(m, user, a) * weight(m, a, by_ltv),
{
    let s = supplied(m, user, a) as int;
    let d = borrowed(m, user, a) as int;
    assert(s * RAY / RAY as int == s) by (nonlinear_arith);
    assert(d * RAY / RAY as int == d) by (nonlinear_arith);
    let v = collateral_value(m, user, a);
    let w = weight(m, a, by_ltv) as int;
    assert(v * w >= 0) by (nonlinear_arith)
        requires
            v >= 0,
            w >= 0,
    ;
}

/// Partial totals grow with the number of reserves counted.
pub proof fn lemma_totals_grow(m: StorageMap, user: Seq<u8>, i: nat, j: nat, by_ltv: bool)
    requires
        i <= j,
    ensures
        0 <= position_totals(m, user, i, by_ltv).0 <= position_totals(m, user, j, by_ltv).0,
        0 <= position_totals(m, user, i, by_ltv).1 <= position_totals(m, user, j, by_ltv).1,
        0 <= position_totals(m, user, i, by_ltv).2 <= position_totals(m, user, j, by_ltv).2,
    decreases j,
{
    if j > 0 {
        let k: nat = if i < j {
            i
        } else {
            (j - 1) as nat
        };
        lemma_totals_grow(m, user, k, (j - 1) as nat, by_ltv);
        match listed_asset(m, (j - 1) as nat) {
            None => {},
            Some(a) => {
                lemma_values_bounded(m, user, a, by_ltv);
            },
        }
    }
}

/// The asset listed at `i`.
fn listed_asset_at(st: &Storage, i: u64) -> (r: Option<[u8; 32]>)
    ensures
        match r {
            Some(a) => listed_asset(st@, i as nat) == Some(a@),
            None => listed_asset(st@, i as nat) is None,
        },
{
    let b = get_or_empty(st, reserve_list_entry_key(i).as_slice());
    if b.len() < 32 {
        return None;
    }
    let a = address_at(b.as_slice(), 0);
    assert(a@ =~= b@.take(32));
    Some(a)
}

/// The user's supply, debt and collateral switch for `asset`.
fn position_in(st: &Storage, user: &[u8; 32], asset: &[u8; 32]) -> (r: (u64, u64, bool))
    ensures
        r.0 == supplied(st@, user@, asset@),
        r.1 == borrowed(st@, user@, asset@),
        r.2 == collateral_enabled(st@, user@, asset@),
{
    let s = get_or_empty(st, supply_key_vec(user, asset).as_slice());
    let d = get_or_empty(st, borrow_key_vec(user, asset).as_slice());
    let c = get_or_empty(st, collateral_key_vec(user, asset).as_slice());
    let enabled = c.len() > 0 && c[0] == 1;
    (read_u64_or(&s, 0, 0), read_u64_or(&d, 0, 0), enabled)
}

/// The reserve's weight (loan-to-value or liquidation threshold).
fn weight_of(st: &Storage, asset: &[u8; 32], by_ltv: bool) -> (r: u64)
    ensures
        r == weight(st@, asset@, by_ltv),
{
    let c = get_or_empty(st, config_key_vec(asset).as_slice());
    if by_ltv {
        read_u64_or(&c, 0, DEFAULT_LTV_BPS)
    } else {
        read_u64_or(&c, 8, DEFAULT_LIQUIDATION_THRESHOLD_BPS)
    }
}

/// The reserve count, when it reads back with 8 bytes.
fn read_reserve_count(st: &Storage) -> (r: Option<u64>)
    ensures
        match r {
            Some(c) => count_bytes(st@).len() >= 8 && c as nat == reserve_count(st@),
            None => count_bytes(st@).len() < 8,
        },
{
    let b = get_or_empty(st, key_reserve_count_vec().as_slice());
    if b.len() < 8 {
        return None;
    }
    Some(read_u64_at(b.as_slice(), 0))
}

/// Totals over the first `count` listed reserves, as the contract sums them.
fn sum_positions(st: &Storage, user: &[u8; 32], count: u64, by_ltv: bool) -> (r: (u128, u128, u128))
    requires
        totals_fit(position_totals(st@, user@, count as nat, by_ltv)),
    ensures
        (r.0 as int, r.1 as int, r.2 as int) == position_totals(st@, user@, count as nat, by_ltv),
{
    let mut total_collateral: u128 = 0;
    let mut weighted: u128 = 0;
    let mut total_debt: u128 = 0;
    let mut i: u64 = 0;
    while i < count
        invariant
            i <= count,
            totals_fit(position_totals(st@, user@, count as nat, by_ltv)),
            (total_collateral as int, weighted as int, total_debt as int) == position_totals(
                st@,
                user@,
                i as nat,
                by_ltv,
            ),
        decreases count - i,
    {
        proof {
            lemma_totals_grow(st@, user@, (i + 1) as nat, count as nat, by_ltv);
        }
        match listed_asset_at(st, i) {
            None => {},
            Some(asset) => {
                proof {
                    lemma_values_bounded(st@, user@, asset@, by_ltv);
                }
                let price = get_asset_price(&asset) as u128;
                let w = weight_of(st, &asset, by_ltv) as u128;
                let (supply, debt, enabled) = position_in(st, user, &asset);
                if enabled && supply > 0 {
                    let value: u128 = supply as u128 * price / RAY as u128;
                    proof {
                        assert(value * w <= u64::MAX * u64::MAX) by (nonlinear_arith)
                            requires
                                value <= u64::MAX,
                                w <= u64::MAX,
                        ;
                    }
                    total_collateral = total_collateral + value;
                    weighted = weighted + value * w / BASIS_POINTS as u128;
                }
                if debt > 0 {
                    total_debt = total_debt + debt as u128 * price / RAY as u128;
                }
                proof {
                    let t = position_totals(st@, user@, i as nat, by_ltv);
                    assert(position_totals(st@, user@, (i + 1) as nat, by_ltv) == (
                        t.0 + collateral_value(st@, user@, asset@),
                        t.1 + collateral_value(st@, user@, asset@) * weight(st@, asset@, by_ltv)
                            / BASIS_POINTS as int,
                        t.2 + debt_value(st@, user@, asset@),
                    ));
                }
            },
        }
        i = i + 1;
    }
    (total_collateral, weighted, total_debt)
}

/// The user's health factor (see [`health_factor`]).
pub fn calculate_health_factor(st: &Storage, user: &[u8; 32]) -> (r: u64)
    requires
        health_fits(st@, user@),
    ensures
        r == health_factor(st@, user@),
{
    let reserve_count = match read_reserve_count(st) {
        Some(c) => c,
        None => return u64::MAX,
    };
    let (_collateral, weighted, total_debt) = sum_positions(st, user, reserve_count, false);
    if total_debt == 0 {
        return u64::MAX;
    }
    let q: u128 = weighted * RAY as u128 / total_debt;
    (q % 0x1_0000_0000_0000_0000u128) as u64
}

// ---------------------------------------------------------------------------
// Records
// ---------------------------------------------------------------------------

/// `n` zero bytes.
pub open spec fn zeros(n: nat) -> Seq<u8> {
    Seq::new(n, |i: int| 0u8)
}

fn zeros_vec(n: usize) -> (r: Vec<u8>)
    ensures
        r@ == zeros(n as nat),
{
    let mut v: Vec<u8> = Vec::new();
    let mut i: usize = 0;
    while i < n
        invariant
            i <= n,
            v@ == zeros(i as nat),
        decreases n - i,
    {
        v.push(0u8);
        i = i + 1;
        proof {
            assert(v@ =~= zeros(i as nat));
        }
    }
    v
}

/// A new reserve: both indices at 1.0, everything else zero.
pub open spec fn initial_record() -> Seq<u8> {
    le_bytes(RAY as nat, 8) + le_bytes(RAY as nat, 8) + zeros(48)
}

/// A reserve configuration: loan-to-value, liquidation threshold and
/// liquidation bonus, then 8 reserved bytes.
pub open spec fn config_record(ltv: u64, threshold: u64, bonus: u64) -> Seq<u8> {
    le_bytes(ltv as nat, 8) + le_bytes(threshold as nat, 8) + le_bytes(bonus as nat, 8) + zeros(8)
}

fn initial_record_vec() -> (r: Vec<u8>)
    ensures
        r@ == initial_record(),
{
    let mut v = u64_le(RAY);
    append_bytes(&mut v, u64_le(RAY).as_slice());
    append_bytes(&mut v, zeros_vec(48).as_slice());
    v
}

fn config_record_vec(ltv: u64, threshold: u64, bonus: u64) -> (r: Vec<u8>)
    ensures
        r@ == config_record(ltv, threshold, bonus),
{
    let mut v = u64_le(ltv);
    append_bytes(&mut v, u64_le(threshold).as_slice());
    append_bytes(&mut v, u64_le(bonus).as_slice());
    append_bytes(&mut v, zeros_vec(8).as_slice());
    v
}

fn done_vec() -> (r: Vec<u8>)
    ensures
        Ok::<Seq<u8>, u64>(r@) == done(),
{
    let v = vec![1u8];
    assert(v@ =~= seq![1u8]);
    v
}

/// `Ok(())` becomes `ok`, an error stays.
pub open spec fn then_answer(r: Result<(), u64>, ok: Result<Seq<u8>, u64>) -> Result<Seq<u8>, u64> {
    match r {
        Ok(_) => ok,
        Err(e) => Err(e),
    }
}

// ---------------------------------------------------------------------------
// Administration
// ---------------------------------------------------------------------------

/// Outcome of `INITIALIZE`: refused once a reserve count is stored; else
/// stores a zero count and a 5% protocol fee.
pub open spec fn initialize_outcome(m: StorageMap) -> Outcome {
    if fetched(m, key_reserve_count()) is Some {
        (Err(999), m)
    } else {
        (
            done(),
            m.insert(key_reserve_count(), zeros(8)).insert(
                key_protocol_fee(),
                le_bytes(500, 8),
            ),
        )
    }
}

pub fn initialize(st: &mut Storage, input: &[u8]) -> (r: Result<Vec<u8>, u64>)
    ensures
        (answer(r), final(st)@) == initialize_outcome(old(st)@),
{
    let count_k = key_reserve_count_vec();
    if get_storage(st, count_k.as_slice()).is_ok() {
        return Err(TakoError::CustomError(999).code());
    }
    set_storage(st, count_k.as_slice(), zeros_vec(8).as_slice());
    set_storage(st, key_protocol_fee_vec().as_slice(), u64_le(500).as_slice());
    Ok(done_vec())
}

/// The storage of `INIT_RESERVE` once the reserve and its default
/// configuration are written.
pub open spec fn init_reserve_written(m: StorageMap, asset: Seq<u8>) -> StorageMap {
    m.insert(reserve_key(asset), initial_record()).insert(
        config_key(asset),
        config_record(DEFAULT_LTV_BPS, DEFAULT_LIQUIDATION_THRESHOLD_BPS, LIQUIDATION_BONUS_BPS),
    )
}

/// `INIT_RESERVE` completes unless, after writing the reserve, the reserve
/// count reads back with fewer than 8 bytes or is already `u64::MAX`.
pub open spec fn init_reserve_completes(m: StorageMap, p: Seq<u8>) -> bool {
    p.len() >= 32 && fetched(m, reserve_key(account_arg(p, 0))) is None ==> match fetched(
        init_reserve_written(m, account_arg(p, 0)),
        key_reserve_count(),
    ) {
        Some(c) => c.len() >= 8 && u64_or(c, 0, 0) < u64::MAX,
        None => true,
    }
}

/// Outcome of `INIT_RESERVE`: `[asset:32]`.  Writes the reserve with both
/// indices at 1.0 and the default configuration, then lists the asset at
/// the current count and increments the count.
pub open spec fn init_reserve_outcome(m: StorageMap, p: Seq<u8>) -> Outcome {
    if p.len() < 32 {
        (Err(2), m)
    } else {
        let asset = account_arg(p, 0);
        if fetched(m, reserve_key(asset)) is Some {
            (Err(2), m)
        } else {
            let m1 = init_reserve_written(m, asset);
            match fetched(m1, key_reserve_count()) {
                None => (Err(5), m1),
                Some(c) => {
                    let count = u64_or(c, 0, 0);
                    (
                        done(),
                        m1.insert(list_key(count as nat), asset).insert(
                            key_reserve_count(),
                            le_bytes((count + 1) as nat, 8),
                        ),
                    )
                },
            }
        }
    }
}

pub fn init_reserve(st: &mut Storage, input: &[u8]) -> (r: Result<Vec<u8>, u64>)
    requires
        init_reserve_completes(old(st)@, input@),
    ensures
        (answer(r), final(st)@) == init_reserve_outcome(old(st)@, input@),
{
    if input.len() < 32 {
        return Err(TakoError::InvalidInput.code());
    }
    let asset = address_at(input, 0);
    let key = reserve_key_vec(&asset);
    if get_storage(st, key.as_slice()).is_ok() {
        return Err(TakoError::CustomError(2).code());
    }
    set_storage(st, key.as_slice(), initial_record_vec().as_slice());
    let config = config_record_vec(DEFAULT_LTV_BPS, DEFAULT_LIQUIDATION_THRESHOLD_BPS, LIQUIDATION_BONUS_BPS);
    set_storage(st, config_key_vec(&asset).as_slice(), config.as_slice());
    let count_k = key_reserve_count_vec();
    let count_bytes = get_storage(st, count_k.as_slice())?;
    let count = read_u64_at(count_bytes.as_slice(), 0);
    set_storage(st, reserve_list_entry_key(count).as_slice(), asset.as_slice());
    set_storage(st, count_k.as_slice(), u64_le(count + 1).as_slice());
    Ok(done_vec())
}

/// Outcome of `SET_RESERVE_CONFIGURATION`: `[asset:32][ltv:8][threshold:8]
/// [bonus:8]`.  The loan-to-value may not exceed the threshold, the
/// threshold 100%, nor the bonus 20%; the reserve must exist.
pub open spec fn set_configuration_outcome(m: StorageMap, p: Seq<u8>) -> Outcome {
    if p.len() < 56 {
        (Err(2), m)
    } else {
        let asset = account_arg(p, 0);
        let ltv = u64_arg(p, 32);
        let threshold = u64_arg(p, 40);
        let bonus = u64_arg(p, 48);
        if ltv > threshold || threshold > BASIS_POINTS {
            (Err(10), m)
        } else if bonus > 2000 {
            (Err(10), m)
        } else if fetched(m, reserve_key(asset)) is None {
            (Err(11), m)
        } else {
            (done(), m.insert(config_key(asset), config_record(ltv, threshold, bonus)))
        }
    }
}

pub fn set_reserve_configuration(st: &mut Storage, input: &[u8]) -> (r: Result<Vec<u8>, u64>)
    ensures
        (answer(r), final(st)@) == set_configuration_outcome(old(st)@, input@),
{
    if input.len() < 56 {
        return Err(TakoError::InvalidInput.code());
    }
    let asset = address_at(input, 0);
    let ltv = read_u64_at(input, 32);
    let liquidation_threshold = read_u64_at(input, 40);
    let liquidation_bonus = read_u64_at(input, 48);
    if ltv > liquidation_threshold || liquidation_threshold > BASIS_POINTS {
        return Err(TakoError::CustomError(10).code());
    }
    if liquidation_bonus > 2000 {
        return Err(TakoError::CustomError(10).code());
    }
    if get_storage(st, reserve_key_vec(&asset).as_slice()).is_err() {
        return Err(TakoError::CustomError(11).code());
    }
    let config = config_record_vec(ltv, liquidation_threshold, liquidation_bonus);
    set_storage(st, config_key_vec(&asset).as_slice(), config.as_slice());
    Ok(done_vec())
}

// ---------------------------------------------------------------------------
// Supply and withdraw
// ---------------------------------------------------------------------------

/// A `u64` as it is stored.
pub open spec fn u64_value(v: u64) -> Seq<u8> {
    le_bytes(v as nat, 8)
}

/// The storage of `SUPPLY` before the reserve update, when nothing
/// overflows: the position credited and the reserve's liquidity raised.
pub open spec fn supply_written(m: StorageMap, p: Seq<u8>, b: Seq<u8>) -> StorageMap {
    let asset = account_arg(p, 0);
    let amount = u64_arg(p, 32);
    let on_behalf_of = account_arg(p, 40);
    m.insert(
        supply_key(on_behalf_of, asset),
        u64_value((supplied(m, on_behalf_of, asset) + amount) as u64),
    ).insert(reserve_key(asset), put_u64(b, 16, (field(b, 16) + amount) as u64))
}

/// `SUPPLY` completes unless the reserve record, once it reads back with
/// at least 64 bytes and nothing overflows, is longer than 64 bytes or its
/// update does not fit.
pub open spec fn supply_completes(m: StorageMap, p: Seq<u8>) -> bool {
    p.len() >= 72 ==> match fetched(m, reserve_key(account_arg(p, 0))) {
        Some(b) => (b.len() >= 64 && supplied(m, account_arg(p, 40), account_arg(p, 0)) + u64_arg(
            p,
            32,
        ) <= u64::MAX && field(b, 16) + u64_arg(p, 32) <= u64::MAX) ==> b.len() == 64
            && update_completes(supply_written(m, p, b), account_arg(p, 0)),
        None => true,
    }
}

/// Outcome of `SUPPLY`: `[asset:32][amount:8][on_behalf_of:32]`.  Credits
/// the position, raises the reserve's liquidity, then updates the reserve.
pub open spec fn supply_outcome(m: StorageMap, p: Seq<u8>) -> Outcome {
    if p.len() < 72 {
        (Err(2), m)
    } else {
        let asset = account_arg(p, 0);
        let amount = u64_arg(p, 32);
        let on_behalf_of = account_arg(p, 40);
        match fetched(m, reserve_key(asset)) {
            None => (Err(5), m),
            Some(b) => if b.len() < 64 {
                (Err(12), m)
            } else if supplied(m, on_behalf_of, asset) + amount > u64::MAX {
                (Err(3), m)
            } else if field(b, 16) + amount > u64::MAX {
                (
                    Err(3),
                    m.insert(
                        supply_key(on_behalf_of, asset),
                        u64_value((supplied(m, on_behalf_of, asset) + amount) as u64),
                    ),
                )
            } else {
                let u = update_outcome(supply_written(m, p, b), asset);
                (then_answer(u.0, done()), u.1)
            },
        }
    }
}

pub fn supply(st: &mut Storage, input: &[u8]) -> (r: Result<Vec<u8>, u64>)
    requires
        supply_completes(old(st)@, input@),
    ensures
        (answer(r), final(st)@) == supply_outcome(old(st)@, input@),
{
    if input.len() < 72 {
        return Err(TakoError::InvalidInput.code());
    }
    let asset = address_at(input, 0);
    let amount = read_u64_at(input, 32);
    let on_behalf_of = address_at(input, 40);
    let reserve_k = reserve_key_vec(&asset);
    let reserve_data = get_storage(st, reserve_k.as_slice())?;
    if reserve_data.len() < 64 {
        return Err(TakoError::CustomError(12).code());
    }
    let supply_k = supply_key_vec(&on_behalf_of, &asset);
    let existing = get_or_empty(st, supply_k.as_slice());
    let existing_balance = read_u64_or(&existing, 0, 0);
    let new_balance = match existing_balance.checked_add(amount) {
        Some(v) => v,
        None => return Err(TakoError::CustomError(3).code()),
    };
    set_storage(st, supply_k.as_slice(), u64_le(new_balance).as_slice());
    let total_liquidity = read_u64_at(reserve_data.as_slice(), 16);
    let new_total_liquidity = match total_liquidity.checked_add(amount) {
        Some(v) => v,
        None => return Err(TakoError::CustomError(3).code()),
    };
    let mut record = copy_range(reserve_data.as_slice(), 0, 64);
    proof {
        assert(record@ =~= reserve_data@);
    }
    overwrite_u64(&mut record, 16, new_total_liquidity);
    set_storage(st, reserve_k.as_slice(), record.as_slice());
    update_reserve_state(st, &asset)?;
    Ok(done_vec())
}

/// The storage of `WITHDRAW` once the position is debited and the
/// reserve's liquidity lowered.
pub open spec fn withdraw_written(m: StorageMap, caller: Seq<u8>, p: Seq<u8>, balance: u64, b: Seq<u8>) -> StorageMap {
    let asset = account_arg(p, 0);
    let amount = u64_arg(p, 32);
    m.insert(supply_key(caller, asset), u64_value((balance - amount) as u64)).insert(
        reserve_key(asset),
        put_u64(b, 16, (field(b, 16) - amount) as u64),
    )
}

/// `WITHDRAW` completes unless the position reads back with fewer than 8
/// bytes, or, further on, the reserve record is longer than 64 bytes, the
/// health factor or the reserve update does not fit.
pub open spec fn withdraw_completes(m: StorageMap, caller: Seq<u8>, p: Seq<u8>) -> bool {
    p.len() >= 40 ==> match fetched(m, supply_key(caller, account_arg(p, 0))) {
        None => true,
        Some(sb) => sb.len() >= 8 && (field(sb, 0) >= u64_arg(p, 32) ==> match fetched(
            m,
            reserve_key(account_arg(p, 0)),
        ) {
            None => true,
            Some(b) => (b.len() >= 64 && field(b, 16) >= u64_arg(p, 32)) ==> {
                let m2 = withdraw_written(m, caller, p, field(sb, 0), b);
                &&& b.len() == 64
                &&& health_fits(m2, caller)
                &&& (health_factor(m2, caller) >= RAY ==> update_completes(m2, account_arg(p, 0)))
            },
        }),
    }
}

/// Outcome of `WITHDRAW` by `caller`: `[asset:32][amount:8]`.  Debits the
/// position and the reserve's liquidity; refused when the health factor
/// falls below 1.0; answers the amount.
pub open spec fn withdraw_outcome(m: StorageMap, caller: Seq<u8>, p: Seq<u8>) -> Outcome {
    if p.len() < 40 {
        (Err(2), m)
    } else {
        let asset = account_arg(p, 0);
        let amount = u64_arg(p, 32);
        match fetched(m, supply_key(caller, asset)) {
            None => (Err(5), m),
            Some(sb) => {
                let balance = field(sb, 0);
                if balance < amount {
                    (Err(13), m)
                } else {
                    match fetched(m, reserve_key(asset)) {
                        None => (Err(5), m),
                        Some(b) => if b.len() < 64 {
                            (Err(12), m)
                        } else if field(b, 16) < amount {
                            (
                                Err(14),
                                m.insert(
                                    supply_key(caller, asset),
                                    u64_value((balance - amount) as u64),
                                ),
                            )
                        } else {
                            let m2 = withdraw_written(m, caller, p, balance, b);
                            if health_factor(m2, caller) < RAY {
                                (Err(15), m2)
                            } else {
                                let u = update_outcome(m2, asset);
                                (then_answer(u.0, Ok(u64_value(amount))), u.1)
                            }
                        },
                    }
                }
            },
        }
    }
}

pub fn withdraw(st: &mut Storage, caller: &[u8; 32], input: &[u8]) -> (r: Result<Vec<u8>, u64>)
    requires
        withdraw_completes(old(st)@, caller@, input@),
    ensures
        (answer(r), final(st)@) == withdraw_outcome(old(st)@, caller@, input@),
{
    if input.len() < 40 {
        return Err(TakoError::InvalidInput.code());
    }
    let asset = address_at(input, 0);
    let amount = read_u64_at(input, 32);
    let supply_k = supply_key_vec(caller, &asset);
    let supply_bytes = get_storage(st, supply_k.as_slice())?;
    let supply_balance = read_u64_at(supply_bytes.as_slice(), 0);
    if supply_balance < amount {
        return Err(TakoError::CustomError(13).code());
    }
    let reserve_k = reserve_key_vec(&asset);
    let reserve_data = get_storage(st, reserve_k.as_slice())?;
    if reserve_data.len() < 64 {
        return Err(TakoError::CustomError(12).code());
    }
    set_storage(st, supply_k.as_slice(), u64_le(supply_balance - amount).as_slice());
    let total_liquidity = read_u64_at(reserve_data.as_slice(), 16);
    let new_total_liquidity = match total_liquidity.checked_sub(amount) {
        Some(v) => v,
        None => return Err(TakoError::CustomError(14).code()),
    };
    let mut record = copy_range(reserve_data.as_slice(), 0, 64);
    proof {
        assert(record@ =~= reserve_data@);
    }
    overwrite_u64(&mut record, 16, new_total_liquidity);
    set_storage(st, reserve_k.as_slice(), record.as_slice());
    let health_factor = calculate_health_factor(st, caller);
    if health_factor < RAY {
        return Err(TakoError::CustomError(15).code());
    }
    update_reserve_state(st, &asset)?;
    Ok(u64_le(amount))
}

// ---------------------------------------------------------------------------
// Borrow and repay
// ---------------------------------------------------------------------------

/// The storage of `BORROW` once the debt is recorded on the position and
/// the reserve.
pub open spec fn borrow_written(m: StorageMap, caller: Seq<u8>, p: Seq<u8>, b: Seq<u8>) -> StorageMap {
    let asset = account_arg(p, 0);
    let amount = u64_arg(p, 32);
    m.insert(
        borrow_key(caller, asset),
        u64_value((borrowed(m, caller, asset) + amount) as u64),
    ).insert(reserve_key(asset), put_u64(b, 24, (field(b, 24) + amount) as u64))
}

/// `BORROW` completes unless, once the debt is recorded, the reserve record
/// is longer than 64 bytes, or the health factor or the reserve update does
/// not fit.
pub open spec fn borrow_completes(m: StorageMap, caller: Seq<u8>, p: Seq<u8>) -> bool {
    p.len() >= 40 ==> match fetched(m, reserve_key(account_arg(p, 0))) {
        None => true,
        Some(b) => {
            let amount = u64_arg(p, 32);
            (b.len() >= 64 && field(b, 16) >= field(b, 24) && field(b, 16) - field(b, 24)
                >= amount && borrowed(m, caller, account_arg(p, 0)) + amount <= u64::MAX
                && field(b, 24) + amount <= u64::MAX) ==> {
                let m2 = borrow_written(m, caller, p, b);
                &&& b.len() == 64
                &&& health_fits(m2, caller)
                &&& (health_factor(m2, caller) >= RAY ==> update_completes(m2, account_arg(p, 0)))
            }
        },
    }
}

/// Outcome of `BORROW` by `caller`: `[asset:32][amount:8]`.  Refused when
/// the reserve lacks available liquidity or the health factor after the
/// borrow is below 1.0.
pub open spec fn borrow_outcome(m: StorageMap, caller: Seq<u8>, p: Seq<u8>) -> Outcome {
    if p.len() < 40 {
        (Err(2), m)
    } else {
        let asset = account_arg(p, 0);
        let amount = u64_arg(p, 32);
        match fetched(m, reserve_key(asset)) {
            None => (Err(5), m),
            Some(b) => if b.len() < 64 {
                (Err(12), m)
            } else if field(b, 16) < field(b, 24) || field(b, 16) - field(b, 24) < amount {
                (Err(5), m)
            } else if borrowed(m, caller, asset) + amount > u64::MAX {
                (Err(3), m)
            } else if field(b, 24) + amount > u64::MAX {
                (
                    Err(3),
                    m.insert(
                        borrow_key(caller, asset),
                        u64_value((borrowed(m, caller, asset) + amount) as u64),
                    ),
                )
            } else {
                let m2 = borrow_written(m, caller, p, b);
                if health_factor(m2, caller) < RAY {
                    (Err(16), m2)
                } else {
                    let u = update_outcome(m2, asset);
                    (then_answer(u.0, done()), u.1)
                }
            },
        }
    }
}

pub fn borrow(st: &mut Storage, caller: &[u8; 32], input: &[u8]) -> (r: Result<Vec<u8>, u64>)
    requires
        borrow_completes(old(st)@, caller@, input@),
    ensures
        (answer(r), final(st)@) == borrow_outcome(old(st)@, caller@, input@),
{
    if input.len() < 40 {
        return Err(TakoError::InvalidInput.code());
    }
    let asset = address_at(input, 0);
    let amount = read_u64_at(input, 32);
    let reserve_k = reserve_key_vec(&asset);
    let reserve_data = get_storage(st, reserve_k.as_slice())?;
    if reserve_data.len() < 64 {
        return Err(TakoError::CustomError(12).code());
    }
    let total_liquidity = read_u64_at(reserve_data.as_slice(), 16);
    let total_debt = read_u64_at(reserve_data.as_slice(), 24);
    let available_liquidity = match total_liquidity.checked_sub(total_debt) {
        Some(v) => v,
        None => return Err(TakoError::CustomError(5).code()),
    };
    if available_liquidity < amount {
        return Err(TakoError::CustomError(5).code());
    }
    let borrow_k = borrow_key_vec(caller, &asset);
    let existing = get_or_empty(st, borrow_k.as_slice());
    let existing_debt = read_u64_or(&existing, 0, 0);
    let new_debt = match existing_debt.checked_add(amount) {
        Some(v) => v,
        None => return Err(TakoError::CustomError(3).code()),
    };
    set_storage(st, borrow_k.as_slice(), u64_le(new_debt).as_slice());
    let new_total_debt = match total_debt.checked_add(amount) {
        Some(v) => v,
        None => return Err(TakoError::CustomError(3).code()),
    };
    let mut record = copy_range(reserve_data.as_slice(), 0, 64);
    proof {
        assert(record@ =~= reserve_data@);
    }
    overwrite_u64(&mut record, 24, new_total_debt);
    set_storage(st, reserve_k.as_slice(), record.as_slice());
    let health_factor = calculate_health_factor(st, caller);
    if health_factor < RAY {
        return Err(TakoError::CustomError(16).code());
    }
    update_reserve_state(st, &asset)?;
    Ok(done_vec())
}

/// `REPAY` completes unless the debt reads back with fewer than 8 bytes,
/// or, once repaid, the reserve record is longer than 64 bytes or its
/// update does not fit.
pub open spec fn repay_completes(m: StorageMap, p: Seq<u8>) -> bool {
    p.len() >= 72 ==> match fetched(m, borrow_key(account_arg(p, 40), account_arg(p, 0))) {
        None => true,
        Some(bb) => bb.len() >= 8 && {
            let asset = account_arg(p, 0);
            let debt = field(bb, 0);
            let amount = u64_arg(p, 32);
            let actual = if amount < debt { amount } else { debt };
            let m1 = m.insert(borrow_key(account_arg(p, 40), asset), u64_value((debt - actual) as u64));
            actual > 0 ==> match fetched(m1, reserve_key(asset)) {
                None => true,
                Some(b) => (b.len() >= 64 && field(b, 24) >= actual) ==> b.len() == 64
                    && update_completes(
                    m1.insert(reserve_key(asset), put_u64(b, 24, (field(b, 24) - actual) as u64)),
                    asset,
                ),
            }
        },
    }
}

/// Outcome of `REPAY`: `[asset:32][amount:8][on_behalf_of:32]`.  Repays at
/// most the debt, lowers the reserve's debt, updates the reserve and
/// answers the amount repaid.
pub open spec fn repay_outcome(m: StorageMap, p: Seq<u8>) -> Outcome {
    if p.len() < 72 {
        (Err(2), m)
    } else {
        let asset = account_arg(p, 0);
        let amount = u64_arg(p, 32);
        let on_behalf_of = account_arg(p, 40);
        match fetched(m, borrow_key(on_behalf_of, asset)) {
            None => (Err(5), m),
            Some(bb) => {
                let debt = field(bb, 0);
                let actual = if amount < debt { amount } else { debt };
                if actual == 0 {
                    (Err(17), m)
                } else {
                    let m1 = m.insert(borrow_key(on_behalf_of, asset), u64_value((debt - actual) as u64));
                    match fetched(m1, reserve_key(asset)) {
                        None => (Err(5), m1),
                        Some(b) => if b.len() < 64 {
                            (Err(12), m1)
                        } else if field(b, 24) < actual {
                            (Err(14), m1)
                        } else {
                            let u = update_outcome(
                                m1.insert(reserve_key(asset), put_u64(b, 24, (field(b, 24) - actual) as u64)),
                                asset,
                            );
                            (then_answer(u.0, Ok(u64_value(actual))), u.1)
                        },
                    }
                }
            },
        }
    }
}

pub fn repay(st: &mut Storage, input: &[u8]) -> (r: Result<Vec<u8>, u64>)
    requires
        repay_completes(old(st)@, input@),
    ensures
        (answer(r), final(st)@) == repay_outcome(old(st)@, input@),
{
    if input.len() < 72 {
        return Err(TakoError::InvalidInput.code());
    }
    let asset = address_at(input, 0);
    let amount = read_u64_at(input, 32);
    let on_behalf_of = address_at(input, 40);
    let borrow_k = borrow_key_vec(&on_behalf_of, &asset);
    let borrow_bytes = get_storage(st, borrow_k.as_slice())?;
    let debt_balance = read_u64_at(borrow_bytes.as_slice(), 0);
    let actual_repay = if amount < debt_balance {
        amount
    } else {
        debt_balance
    };
    if actual_repay == 0 {
        return Err(TakoError::CustomError(17).code());
    }
    set_storage(st, borrow_k.as_slice(), u64_le(debt_balance - actual_repay).as_slice());
    let reserve_k = reserve_key_vec(&asset);
    let reserve_data = get_storage(st, reserve_k.as_slice())?;
    if reserve_data.len() < 64 {
        return Err(TakoError::CustomError(12).code());
    }
    let total_debt = read_u64_at(reserve_data.as_slice(), 24);
    let new_total_debt = match total_debt.checked_sub(actual_repay) {
        Some(v) => v,
        None => return Err(TakoError::CustomError(14).code()),
    };
    let mut record = copy_range(reserve_data.as_slice(), 0, 64);
    proof {
        assert(record@ =~= reserve_data@);
    }
    overwrite_u64(&mut record, 24, new_total_debt);
    set_storage(st, reserve_k.as_slice(), record.as_slice());
    update_reserve_state(st, &asset)?;
    Ok(u64_le(actual_repay))
}

// ---------------------------------------------------------------------------
// Liquidation
// ---------------------------------------------------------------------------

/// The most debt one liquidation may cover: half of it.
pub open spec fn max_liquidatable(debt: u64) -> int {
    debt * CLOSE_FACTOR_BPS / BASIS_POINTS as int
}

/// The debt covered: the amount asked, at most the close factor.
pub open spec fn debt_covered(debt: u64, asked: u64) -> u64 {
    if asked < max_liquidatable(debt) {
        asked
    } else {
        max_liquidatable(debt) as u64
    }
}

/// The collateral seized for covering `covered`: the covered amount plus
/// the liquidation bonus.
pub open spec fn collateral_seized(covered: u64) -> int {
    covered * (BASIS_POINTS + LIQUIDATION_BONUS_BPS) / BASIS_POINTS as int
}

/// `LIQUIDATE` completes unless it needs the health factor and that does
/// not fit, or a balance it reads reads back with fewer than 8 bytes.
pub open spec fn liquidate_completes(m: StorageMap, p: Seq<u8>) -> bool {
    p.len() >= 104 ==> {
        let user = account_arg(p, 64);
        &&& health_fits(m, user)
        &&& health_factor(m, user) < RAY ==> match fetched(m, borrow_key(user, account_arg(p, 32))) {
            None => true,
            Some(bb) => bb.len() >= 8 && match fetched(m, supply_key(user, account_arg(p, 0))) {
                None => true,
                Some(sb) => sb.len() >= 8,
            },
        }
    }
}

/// Outcome of `LIQUIDATE`: `[collateral_asset:32][debt_asset:32][user:32]
/// [debt_to_cover:8]`.  Only a position whose health factor is below 1.0
/// can be liquidated; at most half the debt is covered, and the collateral
/// seized carries a 5% bonus.  Answers the debt covered and the collateral
/// seized.
pub open spec fn liquidate_outcome(m: StorageMap, p: Seq<u8>) -> Outcome {
    if p.len() < 104 {
        (Err(2), m)
    } else {
        let collateral_asset = account_arg(p, 0);
        let debt_asset = account_arg(p, 32);
        let user = account_arg(p, 64);
        let asked = u64_arg(p, 96);
        if health_factor(m, user) >= RAY {
            (Err(7), m)
        } else {
            match fetched(m, borrow_key(user, debt_asset)) {
                None => (Err(5), m),
                Some(bb) => match fetched(m, supply_key(user, collateral_asset)) {
                    None => (Err(5), m),
                    Some(sb) => {
                        let debt = field(bb, 0);
                        let collateral = field(sb, 0);
                        if debt * CLOSE_FACTOR_BPS > u64::MAX {
                            (Err(3), m)
                        } else {
                            let covered = debt_covered(debt, asked);
                            if covered * (BASIS_POINTS + LIQUIDATION_BONUS_BPS) > u64::MAX {
                                (Err(3), m)
                            } else {
                                let seized = collateral_seized(covered);
                                let m1 = m.insert(
                                    borrow_key(user, debt_asset),
                                    u64_value((debt - covered) as u64),
                                );
                                if collateral < seized {
                                    (Err(8), m1)
                                } else {
                                    (
                                        Ok(u64_value(covered) + u64_value(seized as u64)),
                                        m1.insert(
                                            supply_key(user, collateral_asset),
                                            u64_value((collateral - seized) as u64),
                                        ),
                                    )
                                }
                            }
                        }
                    },
                },
            }
        }
    }
}

pub fn liquidate(st: &mut Storage, input: &[u8]) -> (r: Result<Vec<u8>, u64>)
    requires
        liquidate_completes(old(st)@, input@),
    ensures
        (answer(r), final(st)@) == liquidate_outcome(old(st)@, input@),
{
    if input.len() < 104 {
        return Err(TakoError::InvalidInput.code());
    }
    let collateral_asset = address_at(input, 0);
    let debt_asset = address_at(input, 32);
    let user = address_at(input, 64);
    let debt_to_cover = read_u64_at(input, 96);
    let health_factor = calculate_health_factor(st, &user);
    if health_factor >= RAY {
        return Err(TakoError::CustomError(7).code());
    }
    let borrow_k = borrow_key_vec(&user, &debt_asset);
    let borrow_bytes = get_storage(st, borrow_k.as_slice())?;
    let debt_balance = read_u64_at(borrow_bytes.as_slice(), 0);
    let supply_k = supply_key_vec(&user, &collateral_asset);
    let supply_bytes = get_storage(st, supply_k.as_slice())?;
    let collateral_balance = read_u64_at(supply_bytes.as_slice(), 0);
    let max_liquidatable = match debt_balance.checked_mul(CLOSE_FACTOR_BPS) {
        Some(v) => v / BASIS_POINTS,
        None => return Err(TakoError::CustomError(3).code()),
    };
    let actual_debt_to_cover = if debt_to_cover < max_liquidatable {
        debt_to_cover
    } else {
        max_liquidatable
    };
    let collateral_to_seize = match actual_debt_to_cover.checked_mul(
        BASIS_POINTS + LIQUIDATION_BONUS_BPS,
    ) {
        Some(v) => v / BASIS_POINTS,
        None => return Err(TakoError::CustomError(3).code()),
    };
    let new_debt = match debt_balance.checked_sub(actual_debt_to_cover) {
        Some(v) => v,
        None => return Err(TakoError::CustomError(8).code()),
    };
    set_storage(st, borrow_k.as_slice(), u64_le(new_debt).as_slice());
    let new_collateral = match collateral_balance.checked_sub(collateral_to_seize) {
        Some(v) => v,
        None => return Err(TakoError::CustomError(8).code()),
    };
    set_storage(st, supply_k.as_slice(), u64_le(new_collateral).as_slice());
    let mut result = u64_le(actual_debt_to_cover);
    append_bytes(&mut result, u64_le(collateral_to_seize).as_slice());
    Ok(result)
}

// ---------------------------------------------------------------------------
// Collateral switch and queries
// ---------------------------------------------------------------------------

/// Outcome of `SET_USER_COLLATERAL` by `caller`: `[asset:32][enabled:1]`;
/// the byte 1 enables, any other disables.
pub open spec fn set_collateral_outcome(m: StorageMap, caller: Seq<u8>, p: Seq<u8>) -> Outcome {
    if p.len() < 33 {
        (Err(2), m)
    } else {
        let flag: u8 = if p[32] == 1 { 1 } else { 0 };
        (done(), m.insert(collateral_key(caller, account_arg(p, 0)), seq![flag]))
    }
}

pub fn set_user_collateral(st: &mut Storage, caller: &[u8; 32], input: &[u8]) -> (r: Result<Vec<u8>, u64>)
    ensures
        (answer(r), final(st)@) == set_collateral_outcome(old(st)@, caller@, input@),
{
    if input.len() < 33 {
        return Err(TakoError::InvalidInput.code());
    }
    let asset = address_at(input, 0);
    let enabled = input[32] == 1;
    let flag: u8 = if enabled { 1 } else { 0 };
    let value = vec![flag];
    assert(value@ =~= seq![flag]);
    set_storage(st, collateral_key_vec(caller, &asset).as_slice(), value.as_slice());
    Ok(done_vec())
}

/// Outcome of `GET_RESERVE_DATA`: `[asset:32]`; answers the reserve record.
pub open spec fn reserve_data_outcome(m: StorageMap, p: Seq<u8>) -> Outcome {
    if p.len() < 32 {
        (Err(2), m)
    } else {
        match fetched(m, reserve_key(account_arg(p, 0))) {
            None => (Err(5), m),
            Some(b) => if b.len() < 64 {
                (Err(12), m)
            } else {
                (Ok(b), m)
            },
        }
    }
}

pub fn get_reserve_data(st: &Storage, input: &[u8]) -> (r: Result<Vec<u8>, u64>)
    ensures
        (answer(r), st@) == reserve_data_outcome(st@, input@),
{
    if input.len() < 32 {
        return Err(TakoError::InvalidInput.code());
    }
    let asset = address_at(input, 0);
    let reserve_data = get_storage(st, reserve_key_vec(&asset).as_slice())?;
    if reserve_data.len() < 64 {
        return Err(TakoError::CustomError(12).code());
    }
    Ok(reserve_data)
}

/// The account queried: the 32-byte argument, else the caller.
pub open spec fn queried_user(caller: Seq<u8>, p: Seq<u8>) -> Seq<u8> {
    if p.len() >= 32 {
        account_arg(p, 0)
    } else {
        caller
    }
}

/// The account summary: total collateral, total debt, what may still be
/// borrowed (collateral at loan-to-value, less the debt, at least 0), the
/// current loan-to-value and the health factor, 8 bytes each.
pub open spec fn account_summary(m: StorageMap, user: Seq<u8>) -> Seq<u8> {
    let t = totals(m, user, true);
    let available = if t.1 > t.2 { t.1 - t.2 } else { 0 };
    let current_ltv: u64 = if t.0 > 0 { wrap64(t.1 * BASIS_POINTS / t.0) } else { 0 };
    u64_value(wrap64(t.0)) + u64_value(wrap64(t.2)) + u64_value(wrap64(available)) + u64_value(
        current_ltv,
    ) + u64_value(health_factor(m, user))
}

/// The summary's computation stays within its integer types.
pub open spec fn account_data_fits(m: StorageMap, user: Seq<u8>) -> bool {
    count_bytes(m).len() < 8 || (totals_fit(totals(m, user, true)) && totals(m, user, true).1
        * BASIS_POINTS <= u128::MAX && health_fits(m, user))
}

/// Outcome of `GET_USER_ACCOUNT_DATA`: `[user:32]` or nothing for the
/// caller; refused while no reserve count is readable.
pub open spec fn account_data_outcome(m: StorageMap, caller: Seq<u8>, p: Seq<u8>) -> Outcome {
    if count_bytes(m).len() < 8 {
        (Err(18), m)
    } else {
        (Ok(account_summary(m, queried_user(caller, p))), m)
    }
}

pub fn get_user_account_data(st: &Storage, caller: &[u8; 32], input: &[u8]) -> (r: Result<Vec<u8>, u64>)
    requires
        account_data_fits(st@, queried_user(caller@, input@)),
    ensures
        (answer(r), st@) == account_data_outcome(st@, caller@, input@),
{
    let user = if input.len() >= 32 {
        address_at(input, 0)
    } else {
        *caller
    };
    let reserve_count = match read_reserve_count(st) {
        Some(c) => c,
        None => return Err(TakoError::CustomError(18).code()),
    };
    let (total_collateral, available_borrow, total_debt) = sum_positions(st, &user, reserve_count, true);
    let health_factor = calculate_health_factor(st, &user);
    let current_ltv: u64 = if total_collateral > 0 {
        let q: u128 = available_borrow * BASIS_POINTS as u128 / total_collateral;
        (q % 0x1_0000_0000_0000_0000u128) as u64
    } else {
        0
    };
    let available: u128 = if available_borrow > total_debt {
        available_borrow - total_debt
    } else {
        0
    };
    let mut result = u64_le((total_collateral % 0x1_0000_0000_0000_0000u128) as u64);
    append_bytes(&mut result, u64_le((total_debt % 0x1_0000_0000_0000_0000u128) as u64).as_slice());
    append_bytes(&mut result, u64_le((available % 0x1_0000_0000_0000_0000u128) as u64).as_slice());
    append_bytes(&mut result, u64_le(current_ltv).as_slice());
    append_bytes(&mut result, u64_le(health_factor).as_slice());
    Ok(result)
}

// ---------------------------------------------------------------------------
// Dispatch
// ---------------------------------------------------------------------------

/// What an instruction needs to complete (see the `*_completes` and
/// `*_fits` conditions of each).
pub open spec fn instruction_completes(m: StorageMap, caller: Seq<u8>, input: Seq<u8>) -> bool {
    input.len() > 0 ==> {
        let p = input.subrange(1, input.len() as int);
        match instruction_of(input[0]) {
            Some(Instruction::InitReserve) => init_reserve_completes(m, p),
            Some(Instruction::Supply) => supply_completes(m, p),
            Some(Instruction::Withdraw) => withdraw_completes(m, caller, p),
            Some(Instruction::Borrow) => borrow_completes(m, caller, p),
            Some(Instruction::Repay) => repay_completes(m, p),
            Some(Instruction::Liquidate) => liquidate_completes(m, p),
            Some(Instruction::GetUserAccountData) => account_data_fits(m, queried_user(caller, p)),
            _ => true,
        }
    }
}

/// Outcome of an instruction: its first byte selects it, the rest are its
/// arguments.  An unknown byte answers 0; the per-user queries that the
/// pool does not serve answer `CustomError(0)`.
pub open spec fn instruction_outcome(m: StorageMap, caller: Seq<u8>, input: Seq<u8>) -> Outcome {
    if input.len() == 0 {
        (Err(2), m)
    } else {
        let p = input.subrange(1, input.len() as int);
        match instruction_of(input[0]) {
            None => (Err(0), m),
            Some(Instruction::Initialize) => initialize_outcome(m),
            Some(Instruction::InitReserve) => init_reserve_outcome(m, p),
            Some(Instruction::SetReserveConfiguration) => set_configuration_outcome(m, p),
            Some(Instruction::Supply) => supply_outcome(m, p),
            Some(Instruction::Withdraw) => withdraw_outcome(m, caller, p),
            Some(Instruction::Borrow) => borrow_outcome(m, caller, p),
            Some(Instruction::Repay) => repay_outcome(m, p),
            Some(Instruction::Liquidate) => liquidate_outcome(m, p),
            Some(Instruction::SetUserCollateral) => set_collateral_outcome(m, caller, p),
            Some(Instruction::GetReserveData) => reserve_data_outcome(m, p),
            Some(Instruction::GetUserAccountData) => account_data_outcome(m, caller, p),
            Some(_) => (Err(0), m),
        }
    }
}

pub fn process_instruction(st: &mut Storage, caller: &[u8; 32], input: &[u8]) -> (r: Result<Vec<u8>, u64>)
    requires
        instruction_completes(old(st)@, caller@, input@),
    ensures
        (answer(r), final(st)@) == instruction_outcome(old(st)@, caller@, input@),
{
    if input.len() == 0 {
        return Err(TakoError::InvalidInput.code());
    }
    let instruction = match Instruction::from_u8(input[0]) {
        Some(i) => i,
        None => return Err(0u64),
    };
    let args = copy_range(input, 1, input.len() - 1);
    let a = args.as_slice();
    match instruction {
        Instruction::Initialize => initialize(st, a),
        Instruction::InitReserve => init_reserve(st, a),
        Instruction::SetReserveConfiguration => set_reserve_configuration(st, a),
        Instruction::Supply => supply(st, a),
        Instruction::Withdraw => withdraw(st, caller, a),
        Instruction::Borrow => borrow(st, caller, a),
        Instruction::Repay => repay(st, a),
        Instruction::Liquidate => liquidate(st, a),
        Instruction::SetUserCollateral => set_user_collateral(st, caller, a),
        Instruction::GetReserveData => get_reserve_data(st, a),
        Instruction::GetUserAccountData => get_user_account_data(st, caller, a),
        _ => Err(TakoError::CustomError(0).code()),
    }
}

/// Largest input the entrypoint reads.
pub const MAX_INPUT_SIZE: usize = 128;

/// The input as the entrypoint reads it: at most its first 128 bytes.
pub open spec fn entry_input(input: Seq<u8>) -> Seq<u8> {
    if input.len() <= MAX_INPUT_SIZE {
        input
    } else {
        input.take(MAX_INPUT_SIZE as int)
    }
}

/// The kinds of event the pool emits.
#[derive(Clone, Copy, PartialEq, Eq, Structural, Debug)]
pub enum EventKind {
    Supply,
    Withdraw,
    Borrow,
    Repay,
    LiquidationCall,
}

/// An event.  `reserve` is the asset (the collateral asset of a
/// liquidation, whose debt asset is `debt_asset`); `user` the position's
/// account; `counterparty` the supplier's beneficiary, the receiver of a
/// withdrawal, the borrower's beneficiary, the repayer or the liquidator;
/// `amount` the amount moved (the debt covered by a liquidation); `extra`
/// the borrow rate after a borrow or the collateral a liquidation seized.
/// Fields an event lacks are zero.
#[derive(Debug)]
pub struct AaveEvent {
    pub kind: EventKind,
    pub reserve: [u8; 32],
    pub user: [u8; 32],
    pub counterparty: [u8; 32],
    pub debt_asset: [u8; 32],
    pub amount: u64,
    pub extra: u64,
}

/// An event as its fields.
pub open spec fn event_view(e: AaveEvent) -> (EventKind, Seq<u8>, Seq<u8>, Seq<u8>, Seq<u8>, u64, u64) {
    (e.kind, e.reserve@, e.user@, e.counterparty@, e.debt_asset@, e.amount, e.extra)
}

/// The zero address.
pub open spec fn zero_account() -> Seq<u8> {
    Seq::new(32, |i: int| 0u8)
}

/// The events a successful instruction `[opcode:1][args]` from `caller`
/// emits, given the storage after it (`after`) and its return data: one
/// each for a supply, withdrawal, borrow (with the borrow rate then
/// stored), repayment (of the amount actually repaid) and liquidation.
pub open spec fn instruction_events(after: StorageMap, caller: Seq<u8>, input: Seq<u8>, ret: Seq<u8>) -> Seq<
    (EventKind, Seq<u8>, Seq<u8>, Seq<u8>, Seq<u8>, u64, u64),
> {
    let z = zero_account();
    if input.len() == 0 {
        Seq::empty()
    } else {
        let a = input.subrange(1, input.len() as int);
        let op = input[0];
        let asset = account_arg(a, 0);
        if op == 10 {
            seq![(EventKind::Supply, asset, caller, account_arg(a, 40), z, u64_arg(a, 32), 0u64)]
        } else if op == 11 {
            seq![(EventKind::Withdraw, asset, caller, caller, z, u64_arg(a, 32), 0u64)]
        } else if op == 12 {
            seq![(EventKind::Borrow, asset, caller, caller, z, u64_arg(a, 32), u64_or(fetched_or_empty(after, reserve_key(asset)), 32, 0))]
        } else if op == 13 {
            seq![(EventKind::Repay, asset, account_arg(a, 40), caller, z, u64_or(ret, 0, 0), 0u64)]
        } else if op == 14 {
            seq![(EventKind::LiquidationCall, asset, account_arg(a, 64), caller, account_arg(a, 32), u64_or(ret, 0, 0), u64_or(ret, 8, 0))]
        } else {
            Seq::empty()
        }
    }
}

fn event(kind: EventKind, reserve: [u8; 32], user: [u8; 32], counterparty: [u8; 32], debt_asset: [u8; 32], amount: u64, extra: u64) -> (r: AaveEvent)
    ensures
        event_view(r) == (kind, reserve@, user@, counterparty@, debt_asset@, amount, extra),
{
    AaveEvent { kind, reserve, user, counterparty, debt_asset, amount, extra }
}

/// Runs one instruction from `caller` as [`process_instruction`] does, and
/// answers the events it emits: those of [`instruction_events`] when it
/// succeeded, none when it failed.
pub fn execute(st: &mut Storage, caller: &[u8; 32], input: &[u8]) -> (r: (Result<Vec<u8>, u64>, Vec<AaveEvent>))
    requires
        instruction_completes(old(st)@, caller@, input@),
    ensures
        (answer(r.0), final(st)@) == instruction_outcome(old(st)@, caller@, input@),
        r.1@.map_values(|e: AaveEvent| event_view(e)) == (match r.0 {
            Ok(ret) => instruction_events(final(st)@, caller@, input@, ret@),
            Err(_) => Seq::empty(),
        }),
{
    let z = [0u8; 32];
    assert(z@ =~= zero_account());
    let asset = if input.len() >= 33 { address_at(input, 1) } else { z };
    let second = if input.len() >= 65 { address_at(input, 33) } else { z };
    let third = if input.len() >= 97 { address_at(input, 65) } else { z };
    let behalf = if input.len() >= 73 { address_at(input, 41) } else { z };
    let amount = if input.len() >= 41 { read_u64_at(input, 33) } else { 0 };
    let r = process_instruction(st, caller, input);
    let mut events: Vec<AaveEvent> = Vec::new();
    let ret = match &r {
        Ok(v) => v,
        Err(_) => {
            proof {
                assert(events@.map_values(|e: AaveEvent| event_view(e)) =~= Seq::empty());
            }
            return (r, events);
        },
    };
    if input.len() == 0 {
        proof {
            assert(events@.map_values(|e: AaveEvent| event_view(e)) =~= Seq::empty());
        }
        return (r, events);
    }
    let op = input[0];
    let ghost a = input@.subrange(1, input@.len() as int);
    proof {
        if input@.len() >= 33 {
            assert(asset@ =~= account_arg(a, 0));
        }
        if input@.len() >= 65 {
            assert(second@ =~= account_arg(a, 32));
        }
        if input@.len() >= 97 {
            assert(third@ =~= account_arg(a, 64));
        }
        if input@.len() >= 73 {
            assert(behalf@ =~= account_arg(a, 40));
        }
        if input@.len() >= 41 {
            assert(input@.subrange(33, 41) =~= a.subrange(32, 40));
        }
    }
    if op == 10 {
        events.push(event(EventKind::Supply, asset, *caller, behalf, z, amount, 0));
    } else if op == 11 {
        events.push(event(EventKind::Withdraw, asset, *caller, *caller, z, amount, 0));
    } else if op == 12 {
        let record = get_or_empty(st, reserve_key_vec(&asset).as_slice());
        let rate = read_u64_or(&record, 32, 0);
        events.push(event(EventKind::Borrow, asset, *caller, *caller, z, amount, rate));
    } else if op == 13 {
        let repaid = read_u64_or(ret, 0, 0);
        events.push(event(EventKind::Repay, asset, behalf, *caller, z, repaid, 0));
    } else if op == 14 {
        let covered = read_u64_or(ret, 0, 0);
        let seized = read_u64_or(ret, 8, 0);
        events.push(event(EventKind::LiquidationCall, asset, third, *caller, second, covered, seized));
    }
    proof {
        assert(events@.map_values(|e: AaveEvent| event_view(e)) =~= instruction_events(st@, caller@, input@, ret@));
    }
    (r, events)
}

/// Runs the instruction in `input` (read through a 128-byte buffer) and
/// returns its status: 0 on success, else the error code.
pub fn entrypoint(st: &mut Storage, caller: &[u8; 32], input: &[u8]) -> (r: u64)
    requires
        instruction_completes(old(st)@, caller@, entry_input(input@)),
    ensures
        r == (match instruction_outcome(old(st)@, caller@, entry_input(input@)).0 {
            Ok(_) => 0,
            Err(e) => e,
        }),
        final(st)@ == instruction_outcome(old(st)@, caller@, entry_input(input@)).1,
{
    let len = if input.len() <= MAX_INPUT_SIZE {
        input.len()
    } else {
        MAX_INPUT_SIZE
    };
    let data = copy_range(input, 0, len);
    proof {
        assert(data@ =~= entry_input(input@));
    }
    match process_instruction(st, caller, data.as_slice()) {
        Ok(_) => 0,
        Err(e) => e,
    }
}

// ---------------------------------------------------------------------------
// Laws
// ---------------------------------------------------------------------------

/// While debt does not exceed liquidity, the rate computation never aborts,
/// the borrow rate lies between the base rate (2%) and 14%, and the supply
/// rate never exceeds the borrow rate.
pub proof fn law_rates_bounded(total_liquidity: u64, total_debt: u64)
    requires
        total_liquidity > 0,
        total_debt <= total_liquidity,
    ensures
        rates_fit(total_liquidity, total_debt),
        BASE_RATE <= interest_rates(total_liquidity, total_debt).0 <= 1400,
        interest_rates(total_liquidity, total_debt).1 <= interest_rates(total_liquidity, total_debt).0,
{
    let tl = total_liquidity as int;
    let td = total_debt as int;
    if td > 0 {
        lemma_mul_inequality(td, tl, 10000);
        lemma_div_is_ordered(td * 10000, tl * 10000, tl);
        assert((tl * 10000) / tl == 10000) by (nonlinear_arith)
            requires
                tl > 0,
        ;
    }
    let util = utilization(total_liquidity, total_debt);
    assert(util <= 10000);
    let br = borrow_rate_at(util);
    if util <= OPTIMAL_UTILIZATION {
        lemma_mul_inequality(util as int, 8000, 400);
        lemma_div_is_ordered(util * 400, 3200000int, 8000);
    } else {
        lemma_mul_inequality((util - 8000) as int, 2000, 800);
        lemma_div_is_ordered((util - 8000) * 400 * 2, 1600000int, 2000);
    }
    assert(200 <= br <= 1400);
    assert(br * util * 9500 <= 1400 * 10000 * 9500) by (nonlinear_arith)
        requires
            0 <= br <= 1400,
            0 <= util <= 10000,
    ;
    assert(br * util * 9500 / 10000 / 10000 <= br) by (nonlinear_arith)
        requires
            0 <= br <= 1400,
            0 <= util <= 10000,
    ;
}

/// More debt against the same liquidity never lowers the borrow rate.
pub proof fn law_borrow_rate_monotone(total_liquidity: u64, debt1: u64, debt2: u64)
    requires
        total_liquidity > 0,
        debt1 <= debt2 <= total_liquidity,
    ensures
        interest_rates(total_liquidity, debt1).0 <= interest_rates(total_liquidity, debt2).0,
{
    law_rates_bounded(total_liquidity, debt1);
    law_rates_bounded(total_liquidity, debt2);
    lemma_utilization_monotone(total_liquidity, debt1, debt2);
    lemma_borrow_rate_monotone(
        utilization(total_liquidity, debt1),
        utilization(total_liquidity, debt2),
    );
}

proof fn lemma_utilization_monotone(total_liquidity: u64, debt1: u64, debt2: u64)
    requires
        total_liquidity > 0,
        debt1 <= debt2 <= total_liquidity,
    ensures
        utilization(total_liquidity, debt1) <= utilization(total_liquidity, debt2) <= 10000,
{
    let tl = total_liquidity as int;
    lemma_mul_inequality(debt2 as int, tl, 10000);
    lemma_div_is_ordered(debt2 * 10000, tl * 10000, tl);
    assert((tl * 10000) / tl == 10000) by (nonlinear_arith)
        requires
            tl > 0,
    ;
    if debt1 > 0 {
        lemma_mul_inequality(debt1 as int, debt2 as int, 10000);
        lemma_div_is_ordered(debt1 * 10000, debt2 * 10000, tl);
    }
}

proof fn lemma_borrow_rate_monotone(u1: u64, u2: u64)
    requires
        u1 <= u2 <= 10000,
    ensures
        borrow_rate_at(u1) <= borrow_rate_at(u2),
{
    if u1 <= OPTIMAL_UTILIZATION && u2 <= OPTIMAL_UTILIZATION {
        lemma_mul_inequality(u1 as int, u2 as int, 400);
        lemma_div_is_ordered(u1 * 400, u2 * 400, 8000);
    } else if u1 > OPTIMAL_UTILIZATION {
        lemma_mul_inequality((u1 - 8000) as int, (u2 - 8000) as int, 800);
        lemma_div_is_ordered((u1 - 8000) * 400 * 2, (u2 - 8000) * 400 * 2, 2000);
    } else {
        lemma_mul_inequality(u1 as int, 8000, 400);
        lemma_div_is_ordered(u1 * 400, 3200000int, 8000);
    }
}

/// Writing a key of a reserve record's length (39 bytes) leaves every
/// position total unchanged.
proof fn lemma_totals_ignore_reserve(m: StorageMap, k: Seq<u8>, v: Seq<u8>, user: Seq<u8>, n: nat, by_ltv: bool)
    requires
        k.len() == 39,
        user.len() == 32,
    ensures
        position_totals(m.insert(k, v), user, n, by_ltv) == position_totals(m, user, n, by_ltv),
        count_bytes(m.insert(k, v)) == count_bytes(m),
    decreases n,
{
    let m2 = m.insert(k, v);
    assert(key_reserve_count().len() == 13);
    assert(m2.get(key_reserve_count()) == m.get(key_reserve_count()));
    if n > 0 {
        lemma_totals_ignore_reserve(m, k, v, user, (n - 1) as nat, by_ltv);
        let i = (n - 1) as nat;
        lemma_le_bytes_len(i, 8);
        assert(list_key(i).len() == 20);
        assert(m2.get(list_key(i)) == m.get(list_key(i)));
        match listed_asset(m, i) {
            None => {},
            Some(a) => {
                assert(a.len() == 32);
                assert(supply_key(user, a).len() == 71);
                assert(borrow_key(user, a).len() == 71);
                assert(collateral_key(user, a).len() == 80);
                assert(config_key(a).len() == 43);
                assert(m2.get(supply_key(user, a)) == m.get(supply_key(user, a)));
                assert(m2.get(borrow_key(user, a)) == m.get(borrow_key(user, a)));
                assert(m2.get(collateral_key(user, a)) == m.get(collateral_key(user, a)));
                assert(m2.get(config_key(a)) == m.get(config_key(a)));
            },
        }
    }
}

/// A successful borrow leaves the borrower's health factor at 1.0 or more.
pub proof fn law_borrow_keeps_health(m: StorageMap, caller: Seq<u8>, p: Seq<u8>)
    requires
        caller.len() == 32,
        borrow_outcome(m, caller, p).0 is Ok,
    ensures
        health_factor(borrow_outcome(m, caller, p).1, caller) >= RAY,
{
    let asset = account_arg(p, 0);
    let b = fetched(m, reserve_key(asset))->0;
    let m2 = borrow_written(m, caller, p, b);
    let b2 = fetched(m2, reserve_key(asset))->0;
    lemma_totals_ignore_reserve(m2, reserve_key(asset), updated_record(b2), caller, reserve_count(m2), false);
}

/// A successful withdrawal leaves the withdrawer's health factor at 1.0 or
/// more.
pub proof fn law_withdraw_keeps_health(m: StorageMap, caller: Seq<u8>, p: Seq<u8>)
    requires
        caller.len() == 32,
        withdraw_outcome(m, caller, p).0 is Ok,
    ensures
        health_factor(withdraw_outcome(m, caller, p).1, caller) >= RAY,
{
    let asset = account_arg(p, 0);
    let sb = fetched(m, supply_key(caller, asset))->0;
    let b = fetched(m, reserve_key(asset))->0;
    let m2 = withdraw_written(m, caller, p, field(sb, 0), b);
    let b2 = fetched(m2, reserve_key(asset))->0;
    lemma_totals_ignore_reserve(m2, reserve_key(asset), updated_record(b2), caller, reserve_count(m2), false);
}

/// A position whose health factor is 1.0 or more cannot be liquidated: the
/// request is refused and nothing changes.
pub proof fn law_healthy_not_liquidated(m: StorageMap, p: Seq<u8>)
    requires
        p.len() >= 104,
        health_factor(m, account_arg(p, 64)) >= RAY,
    ensures
        liquidate_outcome(m, p) == (Err::<Seq<u8>, u64>(7), m),
{
}

/// A liquidation covers at most half of the debt and seizes the covered
/// amount plus the 5% bonus.
pub proof fn law_liquidation_bounded(m: StorageMap, p: Seq<u8>)
    requires
        liquidate_outcome(m, p).0 is Ok,
    ensures
        ({
            let r = liquidate_outcome(m, p).0->Ok_0;
            let debt = field(fetched(m, borrow_key(account_arg(p, 64), account_arg(p, 32)))->0, 0);
            let covered = le_nat(r.subrange(0, 8));
            let seized = le_nat(r.subrange(8, 16));
            &&& covered <= debt * CLOSE_FACTOR_BPS / BASIS_POINTS as int
            &&& covered <= u64_arg(p, 96)
            &&& seized == covered * (BASIS_POINTS + LIQUIDATION_BONUS_BPS) / BASIS_POINTS as int
        }),
{
    let r = liquidate_outcome(m, p).0->Ok_0;
    let bb = fetched(m, borrow_key(account_arg(p, 64), account_arg(p, 32)))->0;
    let debt = field(bb, 0);
    let covered = debt_covered(debt, u64_arg(p, 96));
    let seized = collateral_seized(covered);
    lemma_pow256_values();
    lemma_le_bytes_len(covered as nat, 8);
    lemma_le_bytes_len(seized as nat, 8);
    assert(r.subrange(0, 8) =~= u64_value(covered));
    assert(r.subrange(8, 16) =~= u64_value(seized as u64));
    lemma_le_roundtrip(covered as nat, 8);
    lemma_le_roundtrip(seized as nat, 8);
}

/// The pool initializes once: after a successful `INITIALIZE`, a second one
/// is refused with `CustomError(999)`.
pub proof fn law_initialize_once(m: StorageMap)
    requires
        initialize_outcome(m).0 is Ok,
    ensures
        initialize_outcome(initialize_outcome(m).1).0 == Err::<Seq<u8>, u64>(999),
{
    let m1 = initialize_outcome(m).1;
    assert(key_reserve_count().len() == 13);
    assert(key_protocol_fee().len() == 12);
    assert(m1.get(key_reserve_count()) == Some(zeros(8)));
    assert(zeros(8).take(8) =~= zeros(8));
}

/// The total debt a reserve records (bytes 24..32 of its record).
pub open spec fn reserve_debt(m: StorageMap, asset: Seq<u8>) -> u64 {
    u64_or(fetched_or_empty(m, reserve_key(asset)), 24, 0)
}

/// Writing eight bytes at `off` leaves the eight bytes at `o` as they were
/// when the two places do not overlap, and the record's length unchanged.
proof fn lemma_put_u64_elsewhere(b: Seq<u8>, off: int, v: u64, o: int)
    requires
        0 <= off,
        off + 8 <= b.len(),
        0 <= o,
        o + 8 <= b.len(),
        o + 8 <= off || off + 8 <= o,
    ensures
        put_u64(b, off, v).len() == b.len(),
        put_u64(b, off, v).subrange(o, o + 8) == b.subrange(o, o + 8),
{
    lemma_le_bytes_len(v as nat, 8);
    assert(put_u64(b, off, v).subrange(o, o + 8) =~= b.subrange(o, o + 8));
}

/// The eight bytes written at `off` read back as `v`.
proof fn lemma_put_u64_reads_back(b: Seq<u8>, off: int, v: u64)
    requires
        0 <= off,
        off + 8 <= b.len(),
    ensures
        put_u64(b, off, v).len() == b.len(),
        field(put_u64(b, off, v), off) == v,
{
    lemma_le_bytes_len(v as nat, 8);
    assert(put_u64(b, off, v).subrange(off, off + 8) =~= le_bytes(v as nat, 8));
    lemma_pow256_values();
    lemma_le_roundtrip(v as nat, 8);
}

/// A reserve update keeps the reserve's total liquidity and total debt.
proof fn lemma_update_keeps_debt(b: Seq<u8>)
    requires
        b.len() == 64,
    ensures
        updated_record(b).len() == 64,
        field(updated_record(b), 24) == field(b, 24),
        field(updated_record(b), 16) == field(b, 16),
{
    let rates = interest_rates(field(b, 16), field(b, 24));
    let delta = elapsed(b);
    let li = if delta > 0 { accrued(field(b, 0), index_delta(rates.1, delta)) } else { field(b, 0) };
    let bi = if delta > 0 { accrued(field(b, 8), index_delta(rates.0, delta)) } else { field(b, 8) };
    let b1 = put_u64(b, 0, li);
    lemma_put_u64_elsewhere(b, 0, li, 24);
    lemma_put_u64_elsewhere(b, 0, li, 16);
    let b2 = put_u64(b1, 8, bi);
    lemma_put_u64_elsewhere(b1, 8, bi, 24);
    lemma_put_u64_elsewhere(b1, 8, bi, 16);
    let b3 = put_u64(b2, 32, rates.0);
    lemma_put_u64_elsewhere(b2, 32, rates.0, 24);
    lemma_put_u64_elsewhere(b2, 32, rates.0, 16);
    let b4 = put_u64(b3, 40, rates.1);
    lemma_put_u64_elsewhere(b3, 40, rates.1, 24);
    lemma_put_u64_elsewhere(b3, 40, rates.1, 16);
    lemma_put_u64_elsewhere(b4, 48, CURRENT_TIME, 24);
    lemma_put_u64_elsewhere(b4, 48, CURRENT_TIME, 16);
}

/// A stored `u64` reads back.
proof fn lemma_u64_value_reads_back(m: StorageMap, k: Seq<u8>, v: u64)
    ensures
        u64_or(fetched_or_empty(m.insert(k, u64_value(v)), k), 0, 0) == v,
{
    lemma_le_bytes_len(v as nat, 8);
    assert(u64_value(v).take(8) =~= u64_value(v));
    assert(u64_value(v).subrange(0, 8) =~= u64_value(v));
    lemma_pow256_values();
    lemma_le_roundtrip(v as nat, 8);
}

/// A successful `REPAY` of `x` on behalf of `u` in asset `a`, whose debt
/// there was `d`, repays `min(x, d)`: `u`'s debt falls to `d - min(x, d)`,
/// the reserve's total debt falls by the same amount, and that amount is
/// answered.
pub proof fn law_repay_reduces_debt(m: StorageMap, p: Seq<u8>)
    requires
        repay_completes(m, p),
        repay_outcome(m, p).0 is Ok,
    ensures
        p.len() >= 72,
        ({
            let a = account_arg(p, 0);
            let u = account_arg(p, 40);
            let x = u64_arg(p, 32);
            let d = borrowed(m, u, a);
            let paid = if x < d { x } else { d };
            let m2 = repay_outcome(m, p).1;
            &&& paid > 0
            &&& borrowed(m2, u, a) == d - paid
            &&& reserve_debt(m2, a) == reserve_debt(m, a) - paid
            &&& repay_outcome(m, p).0 == Ok::<Seq<u8>, u64>(le_bytes(paid as nat, 8))
        }),
{
    let a = account_arg(p, 0);
    let u = account_arg(p, 40);
    let x = u64_arg(p, 32);
    let bk = borrow_key(u, a);
    let rk = reserve_key(a);
    assert(bk.len() == 71);
    assert(rk.len() == 39);
    let bb = fetched(m, bk)->0;
    let debt = field(bb, 0);
    assert(borrowed(m, u, a) == debt);
    let actual = if x < debt { x } else { debt };
    let m1 = m.insert(bk, u64_value((debt - actual) as u64));
    assert(fetched(m1, rk) == fetched(m, rk));
    let b = fetched(m1, rk)->0;
    let nb = put_u64(b, 24, (field(b, 24) - actual) as u64);
    lemma_put_u64_reads_back(b, 24, (field(b, 24) - actual) as u64);
    let m2 = m1.insert(rk, nb);
    assert(nb.take(64) =~= nb);
    assert(fetched(m2, rk) == Some(nb));
    lemma_update_keeps_debt(nb);
    let m3 = m2.insert(rk, updated_record(nb));
    assert(repay_outcome(m, p).1 == m3);
    assert(updated_record(nb).take(64) =~= updated_record(nb));
    assert(fetched(m3, rk) == Some(updated_record(nb)));
    assert(reserve_debt(m, a) == field(b, 24));
    lemma_u64_value_reads_back(m, bk, (debt - actual) as u64);
    assert(m3.get(bk) == m.insert(bk, u64_value((debt - actual) as u64)).get(bk));
}

/// The total liquidity a reserve records (bytes 16..24 of its record).
pub open spec fn reserve_liquidity(m: StorageMap, asset: Seq<u8>) -> u64 {
    u64_or(fetched_or_empty(m, reserve_key(asset)), 16, 0)
}

/// After a reserve record `nb` (64 bytes) is written and then updated,
/// the reserve's liquidity and debt are those of `nb`.
proof fn lemma_written_record_updated(m: StorageMap, asset: Seq<u8>, nb: Seq<u8>)
    requires
        nb.len() == 64,
    ensures
        update_outcome(m.insert(reserve_key(asset), nb), asset).0 is Ok,
        reserve_liquidity(update_outcome(m.insert(reserve_key(asset), nb), asset).1, asset) == field(nb, 16),
        reserve_debt(update_outcome(m.insert(reserve_key(asset), nb), asset).1, asset) == field(nb, 24),
        update_outcome(m.insert(reserve_key(asset), nb), asset).1 == m.insert(reserve_key(asset), nb).insert(
            reserve_key(asset),
            updated_record(nb),
        ),
{
    let rk = reserve_key(asset);
    let m2 = m.insert(rk, nb);
    assert(nb.take(64) =~= nb);
    assert(fetched(m2, rk) == Some(nb));
    lemma_update_keeps_debt(nb);
    let m3 = m2.insert(rk, updated_record(nb));
    assert(updated_record(nb).take(64) =~= updated_record(nb));
    assert(fetched(m3, rk) == Some(updated_record(nb)));
}

/// A successful `SUPPLY` of `x` on behalf of `u` in asset `a` raises `u`'s
/// supplied balance and the reserve's total liquidity by `x`.
pub proof fn law_supply_credits(m: StorageMap, p: Seq<u8>)
    requires
        supply_completes(m, p),
        supply_outcome(m, p).0 is Ok,
    ensures
        p.len() >= 72,
        ({
            let a = account_arg(p, 0);
            let u = account_arg(p, 40);
            let x = u64_arg(p, 32);
            let m2 = supply_outcome(m, p).1;
            &&& supplied(m2, u, a) == supplied(m, u, a) + x
            &&& reserve_liquidity(m2, a) == reserve_liquidity(m, a) + x
        }),
{
    let a = account_arg(p, 0);
    let u = account_arg(p, 40);
    let x = u64_arg(p, 32);
    let sk = supply_key(u, a);
    let rk = reserve_key(a);
    assert(rk.len() == 39);
    assert(sk.len() != 39);
    let b = fetched(m, rk)->0;
    let m1 = m.insert(sk, u64_value((supplied(m, u, a) + x) as u64));
    let nb = put_u64(b, 16, (field(b, 16) + x) as u64);
    lemma_put_u64_reads_back(b, 16, (field(b, 16) + x) as u64);
    assert(b.len() == 64);
    lemma_written_record_updated(m1, a, nb);
    assert(reserve_liquidity(m, a) == field(b, 16));
    lemma_u64_value_reads_back(m, sk, (supplied(m, u, a) + x) as u64);
    let m3 = m1.insert(rk, nb).insert(rk, updated_record(nb));
    assert(m3.get(sk) == m1.get(sk));
}

/// A successful `WITHDRAW` of `x` of asset `a` by `caller` lowers the
/// caller's supplied balance and the reserve's total liquidity by `x`, and
/// answers `x`.
pub proof fn law_withdraw_debits(m: StorageMap, caller: Seq<u8>, p: Seq<u8>)
    requires
        caller.len() == 32,
        withdraw_completes(m, caller, p),
        withdraw_outcome(m, caller, p).0 is Ok,
    ensures
        p.len() >= 40,
        ({
            let a = account_arg(p, 0);
            let x = u64_arg(p, 32);
            let m2 = withdraw_outcome(m, caller, p).1;
            &&& supplied(m2, caller, a) == supplied(m, caller, a) - x
            &&& reserve_liquidity(m2, a) == reserve_liquidity(m, a) - x
            &&& withdraw_outcome(m, caller, p).0 == Ok::<Seq<u8>, u64>(le_bytes(x as nat, 8))
        }),
{
    let a = account_arg(p, 0);
    let x = u64_arg(p, 32);
    let sk = supply_key(caller, a);
    let rk = reserve_key(a);
    assert(rk.len() == 39);
    assert(sk.len() == 71);
    let sb = fetched(m, sk)->0;
    let bal = field(sb, 0);
    assert(supplied(m, caller, a) == bal);
    let b = fetched(m, rk)->0;
    assert(b.len() == 64);
    let m1 = m.insert(sk, u64_value((bal - x) as u64));
    let nb = put_u64(b, 16, (field(b, 16) - x) as u64);
    lemma_put_u64_reads_back(b, 16, (field(b, 16) - x) as u64);
    assert(withdraw_written(m, caller, p, bal, b) == m1.insert(rk, nb));
    lemma_written_record_updated(m1, a, nb);
    assert(reserve_liquidity(m, a) == field(b, 16));
    lemma_u64_value_reads_back(m, sk, (bal - x) as u64);
    let m3 = m1.insert(rk, nb).insert(rk, updated_record(nb));
    assert(m3.get(sk) == m1.get(sk));
}

/// A successful `BORROW` of `x` of asset `a` by `caller` raises the
/// caller's debt and the reserve's total debt by `x`.
pub proof fn law_borrow_records_debt(m: StorageMap, caller: Seq<u8>, p: Seq<u8>)
    requires
        caller.len() == 32,
        borrow_completes(m, caller, p),
        borrow_outcome(m, caller, p).0 is Ok,
    ensures
        p.len() >= 40,
        ({
            let a = account_arg(p, 0);
            let x = u64_arg(p, 32);
            let m2 = borrow_outcome(m, caller, p).1;
            &&& borrowed(m2, caller, a) == borrowed(m, caller, a) + x
            &&& reserve_debt(m2, a) == reserve_debt(m, a) + x
        }),
{
    let a = account_arg(p, 0);
    let x = u64_arg(p, 32);
    let bk = borrow_key(caller, a);
    let rk = reserve_key(a);
    assert(rk.len() == 39);
    assert(bk.len() == 71);
    let b = fetched(m, rk)->0;
    assert(b.len() == 64);
    let m1 = m.insert(bk, u64_value((borrowed(m, caller, a) + x) as u64));
    let nb = put_u64(b, 24, (field(b, 24) + x) as u64);
    lemma_put_u64_reads_back(b, 24, (field(b, 24) + x) as u64);
    assert(borrow_written(m, caller, p, b) == m1.insert(rk, nb));
    lemma_written_record_updated(m1, a, nb);
    assert(reserve_debt(m, a) == field(b, 24));
    lemma_u64_value_reads_back(m, bk, (borrowed(m, caller, a) + x) as u64);
    let m3 = m1.insert(rk, nb).insert(rk, updated_record(nb));
    assert(m3.get(bk) == m1.get(bk));
}

} // verus!

//! A Uniswap V3-style pool skeleton: pool parameters, liquidity positions
//! per owner and tick range, and a global liquidity counter.  Minting and
//! burning answer fixed token amounts and a swap only mirrors the amount
//! given; no price math is done.
//!
//! Values are read back as in the lending pool (see
//! [`crate::aave::fetched`]).

use vstd::prelude::*;
use crate::bytes::{le_bytes, le_nat, address_at, read_u32_at, read_u64_at, read_u128_at,
    copy_range, u64_le, u128_le, le_encode, append_bytes, lemma_le_bytes_len, lemma_le_nat_bound,
    lemma_pow256_values};
use crate::storage::Storage;
use crate::stablecoin::{StorageMap, set_storage};
use crate::aave::{fetched, fetched_or_empty, get_storage, u64_or, zeros};
use crate::usdt::{Outcome, answer, done, account_arg};

verus! {

/// Errors of the pool, with their codes (see [`TakoError::code`]).
#[derive(Clone, Copy, PartialEq, Eq, Structural, Debug)]
pub enum TakoError {
    StorageError,
    InvalidInput,
    Unauthorized,
    AlreadyExists,
    NotFound,
    CustomError(u64),
}

pub open spec fn error_code(e: TakoError) -> u64 {
    match e {
        TakoError::StorageError => 1,
        TakoError::InvalidInput => 2,
        TakoError::Unauthorized => 3,
        TakoError::AlreadyExists => 4,
        TakoError::NotFound => 5,
        TakoError::CustomError(c) => c,
    }
}

impl TakoError {
    pub fn code(&self) -> (r: u64)
        ensures
            r == error_code(*self),
    {
        match self {
            TakoError::StorageError => 1,
            TakoError::InvalidInput => 2,
            TakoError::Unauthorized => 3,
            TakoError::AlreadyExists => 4,
            TakoError::NotFound => 5,
            TakoError::CustomError(c) => *c,
        }
    }
}

/// Fee tiers, in hundredths of a basis point (see [`FeeTier::value`]).
#[derive(Clone, Copy, PartialEq, Eq, Structural, Debug)]
pub enum FeeTier {
    Low,
    Medium,
    High,
}

pub open spec fn fee_tier_value(t: FeeTier) -> u32 {
    match t {
        FeeTier::Low => 500,
        FeeTier::Medium => 3000,
        FeeTier::High => 10000,
    }
}

impl FeeTier {
    /// 0.05%, 0.30% and 1.00%.
    pub fn value(&self) -> (r: u32)
        ensures
            r == fee_tier_value(*self),
    {
        match self {
            FeeTier::Low => 500,
            FeeTier::Medium => 3000,
            FeeTier::High => 10000,
        }
    }
}

/// What pool initialization reports: the starting price and tick.
#[derive(Clone, Copy, PartialEq, Eq, Structural, Debug)]
pub struct Initialize {
    pub sqrt_price_x96: u128,
    pub tick: i32,
}

/// Pool instructions.
#[derive(Clone, Copy, PartialEq, Eq, Structural, Debug)]
pub enum Instruction {
    Initialize,
    Mint,
    Burn,
    Swap,
    Flash,
    Collect,
    GetLiquidity,
    GetPrice,
    GetPosition,
}

pub open spec fn instruction_of(value: u8) -> Option<Instruction> {
    if value == 0 {
        Some(Instruction::Initialize)
    } else if value == 1 {
        Some(Instruction::Mint)
    } else if value == 2 {
        Some(Instruction::Burn)
    } else if value == 3 {
        Some(Instruction::Swap)
    } else if value == 4 {
        Some(Instruction::Flash)
    } else if value == 5 {
        Some(Instruction::Collect)
    } else if value == 100 {
        Some(Instruction::GetLiquidity)
    } else if value == 101 {
        Some(Instruction::GetPrice)
    } else if value == 102 {
        Some(Instruction::GetPosition)
    } else {
        None
    }
}

impl Instruction {
    pub fn from_u8(value: u8) -> (r: Option<Instruction>)
        ensures
            r == instruction_of(value),
            r is None <==> !(value <= 5 || (100 <= value <= 102)),
    {
        match value {
            0 => Some(Instruction::Initialize),
            1 => Some(Instruction::Mint),
            2 => Some(Instruction::Burn),
            3 => Some(Instruction::Swap),
            4 => Some(Instruction::Flash),
            5 => Some(Instruction::Collect),
            100 => Some(Instruction::GetLiquidity),
            101 => Some(Instruction::GetPrice),
            102 => Some(Instruction::GetPosition),
            _ => None,
        }
    }
}

// ---------------------------------------------------------------------------
// Signed integers on the wire
// ---------------------------------------------------------------------------

/// Little-endian two's-complement bytes of an `i32`.
pub open spec fn i32_bytes(t: i32) -> Seq<u8> {
    le_bytes(
        if t >= 0 {
            t as nat
        } else {
            (t + 0x1_0000_0000) as nat
        },
        4,
    )
}

/// The `i32` whose two's-complement bytes are at `off`.
pub open spec fn i32_at(p: Seq<u8>, off: int) -> i32 {
    let u = le_nat(p.subrange(off, off + 4));
    if u < 0x8000_0000 {
        u as i32
    } else {
        (u - 0x1_0000_0000) as i32
    }
}

/// Little-endian two's-complement bytes of an `i64`.
pub open spec fn i64_bytes(x: i64) -> Seq<u8> {
    le_bytes(
        if x >= 0 {
            x as nat
        } else {
            (x + 0x1_0000_0000_0000_0000) as nat
        },
        8,
    )
}

/// The `i64` whose two's-complement bytes are at `off`.
pub open spec fn i64_at(p: Seq<u8>, off: int) -> i64 {
    let u = le_nat(p.subrange(off, off + 8));
    if u < 0x8000_0000_0000_0000 {
        u as i64
    } else {
        (u - 0x1_0000_0000_0000_0000) as i64
    }
}

pub open spec fn u64_at(p: Seq<u8>, off: int) -> u64 {
    le_nat(p.subrange(off, off + 8)) as u64
}

fn i32_le(t: i32) -> (r: Vec<u8>)
    ensures
        r@ == i32_bytes(t),
{
    let u: u32 = if t >= 0 {
        t as u32
    } else {
        (t as i64 + 0x1_0000_0000i64) as u32
    };
    le_encode(u as u128, 4)
}

fn i64_le(x: i64) -> (r: Vec<u8>)
    ensures
        r@ == i64_bytes(x),
{
    let u: u64 = if x >= 0 {
        x as u64
    } else {
        (x as i128 + 0x1_0000_0000_0000_0000i128) as u64
    };
    le_encode(u as u128, 8)
}

fn i32_field(input: &[u8], off: usize) -> (r: i32)
    requires
        off + 4 <= input@.len(),
    ensures
        r == i32_at(input@, off as int),
{
    let u = read_u32_at(input, off);
    if u < 0x8000_0000 {
        u as i32
    } else {
        (u as i64 - 0x1_0000_0000i64) as i32
    }
}

fn i64_field(input: &[u8], off: usize) -> (r: i64)
    requires
        off + 8 <= input@.len(),
    ensures
        r == i64_at(input@, off as int),
{
    let u = read_u64_at(input, off);
    if u < 0x8000_0000_0000_0000 {
        u as i64
    } else {
        (u as i128 - 0x1_0000_0000_0000_0000i128) as i64
    }
}

// ---------------------------------------------------------------------------
// Keys
// ---------------------------------------------------------------------------

pub open spec fn key_token0() -> Seq<u8> {
    seq![116u8, 111, 107, 101, 110, 48]
}

pub open spec fn key_token1() -> Seq<u8> {
    seq![116u8, 111, 107, 101, 110, 49]
}

pub open spec fn key_fee() -> Seq<u8> {
    seq![102u8, 101, 101]
}

pub open spec fn key_liquidity() -> Seq<u8> {
    seq![108u8, 105, 113, 117, 105, 100, 105, 116, 121]
}

pub open spec fn key_sqrt_price() -> Seq<u8> {
    seq![115u8, 113, 114, 116, 95, 112, 114, 105, 99, 101, 95, 120, 57, 54]
}

pub open spec fn key_tick() -> Seq<u8> {
    seq![116u8, 105, 99, 107]
}

/// `"position"`, the owner, the lower and the upper tick.
pub open spec fn position_slot(owner: Seq<u8>, tick_lower: i32, tick_upper: i32) -> Seq<u8> {
    seq![112u8, 111, 115, 105, 116, 105, 111, 110] + owner + i32_bytes(tick_lower) + i32_bytes(
        tick_upper,
    )
}

/// `"tick"` and the tick.
pub open spec fn tick_slot(tick: i32) -> Seq<u8> {
    key_tick() + i32_bytes(tick)
}

fn vec_of(s: &[u8]) -> (r: Vec<u8>)
    ensures
        r@ == s@,
{
    let v = copy_range(s, 0, s.len());
    assert(v@ =~= s@);
    v
}

pub fn position_key(owner: &[u8; 32], tick_lower: i32, tick_upper: i32) -> (r: [u8; 48])
    ensures
        r@ == position_slot(owner@, tick_lower, tick_upper),
{
    let mut v = vec![112u8, 111, 115, 105, 116, 105, 111, 110];
    append_bytes(&mut v, owner.as_slice());
    append_bytes(&mut v, i32_le(tick_lower).as_slice());
    append_bytes(&mut v, i32_le(tick_upper).as_slice());
    proof {
        lemma_le_bytes_len(
            if tick_lower >= 0 {
                tick_lower as nat
            } else {
                (tick_lower + 0x1_0000_0000) as nat
            },
            4,
        );
        lemma_le_bytes_len(
            if tick_upper >= 0 {
                tick_upper as nat
            } else {
                (tick_upper + 0x1_0000_0000) as nat
            },
            4,
        );
    }
    let mut key = [0u8; 48];
    let mut i: usize = 0;
    while i < 48
        invariant
            i <= 48,
            v@.len() == 48,
            key@.len() == 48,
            forall|j: int| 0 <= j < i ==> key@[j] == v@[j],
        decreases 48 - i,
    {
        key[i] = v[i];
        i = i + 1;
    }
    assert(key@ =~= position_slot(owner@, tick_lower, tick_upper));
    key
}

pub fn tick_key(tick: i32) -> (r: [u8; 8])
    ensures
        r@ == tick_slot(tick),
{
    let mut v = vec![116u8, 105, 99, 107];
    append_bytes(&mut v, i32_le(tick).as_slice());
    proof {
        lemma_le_bytes_len(
            if tick >= 0 {
                tick as nat
            } else {
                (tick + 0x1_0000_0000) as nat
            },
            4,
        );
    }
    let mut key = [0u8; 8];
    let mut i: usize = 0;
    while i < 8
        invariant
            i <= 8,
            v@.len() == 8,
            key@.len() == 8,
            forall|j: int| 0 <= j < i ==> key@[j] == v@[j],
        decreases 8 - i,
    {
        key[i] = v[i];
        i = i + 1;
    }
    assert(key@ =~= tick_slot(tick));
    key
}

fn done_vec() -> (r: Vec<u8>)
    ensures
        Ok::<Seq<u8>, u64>(r@) == done(),
{
    let v = vec![1u8];
    assert(v@ =~= seq![1u8]);
    v
}

fn zeros_vec(n: usize) -> (r: Vec<u8>)
    ensures
        r@ == zeros(n as nat),
{
    let mut v: Vec<u8> = Vec::new();
    let mut i: usize = 0;
    while i < n
        invariant
            i <= n,
            v@ == zeros(i as nat),
        decreases n - i,
    {
        v.push(0u8);
        i = i + 1;
        proof {
            assert(v@ =~= zeros(i as nat));
        }
    }
    v
}

// ---------------------------------------------------------------------------
// Instructions
// ---------------------------------------------------------------------------

/// Outcome of `INITIALIZE` (`[token0:32][token1:32][fee:4][sqrt_price:8]`):
/// refused once a token0 reads back; stores the parameters, zero liquidity
/// and tick 0.
pub open spec fn initialize_outcome(m: StorageMap, p: Seq<u8>) -> Outcome {
    if p.len() < 76 {
        (Err(2), m)
    } else if fetched(m, key_token0()) is Some {
        (Err(999), m)
    } else {
        (
            done(),
            m.insert(key_token0(), account_arg(p, 0)).insert(key_token1(), account_arg(p, 32)).insert(
                key_fee(),
                le_bytes(le_nat(p.subrange(64, 68)), 4),
            ).insert(key_sqrt_price(), le_bytes(u64_at(p, 68) as nat, 8)).insert(
                key_liquidity(),
                zeros(16),
            ).insert(key_tick(), zeros(4)),
        )
    }
}

pub fn initialize(st: &mut Storage, input: &[u8]) -> (r: Result<Vec<u8>, u64>)
    ensures
        (answer(r), final(st)@) == initialize_outcome(old(st)@, input@),
{
    if input.len() < 76 {
        return Err(TakoError::InvalidInput.code());
    }
    if get_storage(st, vec_of(&[116u8, 111, 107, 101, 110, 48]).as_slice()).is_ok() {
        return Err(TakoError::CustomError(999).code());
    }
    let token0 = address_at(input, 0);
    let token1 = address_at(input, 32);
    let fee = read_u32_at(input, 64);
    let sqrt_price_x96 = read_u64_at(input, 68);
    set_storage(st, vec_of(&[116u8, 111, 107, 101, 110, 48]).as_slice(), token0.as_slice());
    set_storage(st, vec_of(&[116u8, 111, 107, 101, 110, 49]).as_slice(), token1.as_slice());
    set_storage(st, vec_of(&[102u8, 101, 101]).as_slice(), le_encode(fee as u128, 4).as_slice());
    set_storage(
        st,
        vec_of(&[115u8, 113, 114, 116, 95, 112, 114, 105, 99, 101, 95, 120, 57, 54]).as_slice(),
        u64_le(sqrt_price_x96).as_slice(),
    );
    set_storage(st, vec_of(&[108u8, 105, 113, 117, 105, 100, 105, 116, 121]).as_slice(), zeros_vec(16).as_slice());
    set_storage(st, vec_of(&[116u8, 105, 99, 107]).as_slice(), zeros_vec(4).as_slice());
    proof {
        assert(seq![116u8, 111, 107, 101, 110, 48] =~= key_token0());
    }
    Ok(done_vec())
}

/// The pool liquidity as read back: the first 16 bytes.
pub open spec fn pool_liquidity(b: Seq<u8>) -> u128 {
    le_nat(b.subrange(0, 16)) as u128
}

/// The storage once the position is credited.
pub open spec fn position_credited(m: StorageMap, p: Seq<u8>) -> StorageMap {
    let key = position_slot(account_arg(p, 0), i32_at(p, 32), i32_at(p, 36));
    m.insert(key, le_bytes((u64_or(fetched_or_empty(m, key), 0, 0) + u64_at(p, 40)) as nat, 8))
}

/// `MINT` completes unless, once the position is credited, the pool
/// liquidity reads back with fewer than 16 bytes.
pub open spec fn mint_completes(m: StorageMap, p: Seq<u8>) -> bool {
    match fetched(position_credited(m, p), key_liquidity()) {
        Some(b) => b.len() >= 16,
        None => true,
    }
}

/// Outcome of `MINT` (`[recipient:32][tick_lower:4][tick_upper:4]
/// [liquidity:8]...`): credits the position and the pool liquidity and
/// answers the fixed amounts 100 and 200.
pub open spec fn mint_outcome(m: StorageMap, p: Seq<u8>) -> Outcome {
    if p.len() < 52 {
        (Err(2), m)
    } else if i32_at(p, 32) >= i32_at(p, 36) {
        (Err(2), m)
    } else {
        let key = position_slot(account_arg(p, 0), i32_at(p, 32), i32_at(p, 36));
        let existing = u64_or(fetched_or_empty(m, key), 0, 0);
        let amount = u64_at(p, 40);
        if existing + amount > u64::MAX {
            (Err(3), m)
        } else {
            let m1 = position_credited(m, p);
            match fetched(m1, key_liquidity()) {
                None => (Err(5), m1),
                Some(b) => if pool_liquidity(b) + amount > u128::MAX {
                    (Err(3), m1)
                } else {
                    (
                        Ok(le_bytes(100, 8) + le_bytes(200, 8)),
                        m1.insert(
                            key_liquidity(),
                            le_bytes((pool_liquidity(b) + amount) as nat, 16),
                        ),
                    )
                },
            }
        }
    }
}

pub fn mint(st: &mut Storage, input: &[u8]) -> (r: Result<Vec<u8>, u64>)
    requires
        input@.len() >= 52 ==> mint_completes(old(st)@, input@),
    ensures
        (answer(r), final(st)@) == mint_outcome(old(st)@, input@),
{
    if input.len() < 52 {
        return Err(TakoError::InvalidInput.code());
    }
    let recipient = address_at(input, 0);
    let tick_lower = i32_field(input, 32);
    let tick_upper = i32_field(input, 36);
    let liquidity = read_u64_at(input, 40);
    if tick_lower >= tick_upper {
        return Err(TakoError::CustomError(2).code());
    }
    let pos_key = position_key(&recipient, tick_lower, tick_upper);
    let existing = match get_storage(st, pos_key.as_slice()) {
        Ok(b) => b,
        Err(_) => Vec::new(),
    };
    let existing_liquidity: u64 = if existing.len() >= 8 {
        read_u64_at(existing.as_slice(), 0)
    } else {
        0
    };
    let new_liquidity = match existing_liquidity.checked_add(liquidity) {
        Some(v) => v,
        None => return Err(TakoError::CustomError(3).code()),
    };
    set_storage(st, pos_key.as_slice(), u64_le(new_liquidity).as_slice());
    let global_liq_bytes = get_storage(st, vec_of(&[108u8, 105, 113, 117, 105, 100, 105, 116, 121]).as_slice())?;
    let global_liq = read_u128_at(global_liq_bytes.as_slice(), 0);
    proof {
        lemma_le_nat_bound(global_liq_bytes@.subrange(0, 16));
        lemma_pow256_values();
    }
    let new_global_liq = match global_liq.checked_add(liquidity as u128) {
        Some(v) => v,
        None => return Err(TakoError::CustomError(3).code()),
    };
    set_storage(
        st,
        vec_of(&[108u8, 105, 113, 117, 105, 100, 105, 116, 121]).as_slice(),
        u128_le(new_global_liq).as_slice(),
    );
    let mut result = u64_le(100);
    append_bytes(&mut result, u64_le(200).as_slice());
    Ok(result)
}

/// `BURN` completes unless the position reads back with fewer than 8
/// bytes.
pub open spec fn burn_completes(m: StorageMap, caller: Seq<u8>, p: Seq<u8>) -> bool {
    p.len() >= 44 ==> match fetched(m, position_slot(caller, i32_at(p, 0), i32_at(p, 4))) {
        Some(b) => b.len() >= 8,
        None => true,
    }
}

/// Outcome of `BURN` by `caller` (`[tick_lower:4][tick_upper:4]
/// [liquidity:8]...`): debits the caller's position and answers the fixed
/// amounts 50 and 100.
pub open spec fn burn_outcome(m: StorageMap, caller: Seq<u8>, p: Seq<u8>) -> Outcome {
    if p.len() < 44 {
        (Err(2), m)
    } else {
        let key = position_slot(caller, i32_at(p, 0), i32_at(p, 4));
        let amount = u64_at(p, 8);
        match fetched(m, key) {
            None => (Err(5), m),
            Some(b) => {
                let existing = le_nat(b.subrange(0, 8));
                if existing < amount {
                    (Err(4), m)
                } else {
                    (
                        Ok(le_bytes(50, 8) + le_bytes(100, 8)),
                        m.insert(key, le_bytes((existing - amount) as nat, 8)),
                    )
                }
            },
        }
    }
}

pub fn burn(st: &mut Storage, caller: &[u8; 32], input: &[u8]) -> (r: Result<Vec<u8>, u64>)
    requires
        burn_completes(old(st)@, caller@, input@),
    ensures
        (answer(r), final(st)@) == burn_outcome(old(st)@, caller@, input@),
{
    if input.len() < 44 {
        return Err(TakoError::InvalidInput.code());
    }
    let tick_lower = i32_field(input, 0);
    let tick_upper = i32_field(input, 4);
    let liquidity = read_u64_at(input, 8);
    let pos_key = position_key(caller, tick_lower, tick_upper);
    let existing = get_storage(st, pos_key.as_slice())?;
    let existing_liquidity = read_u64_at(existing.as_slice(), 0);
    if existing_liquidity < liquidity {
        return Err(TakoError::CustomError(4).code());
    }
    set_storage(st, pos_key.as_slice(), u64_le(existing_liquidity - liquidity).as_slice());
    let mut result = u64_le(50);
    append_bytes(&mut result, u64_le(100).as_slice());
    Ok(result)
}

/// The amounts a swap answers: the amount given on the input side and its
/// negation on the other.
pub open spec fn swap_amounts(zero_for_one: bool, amount: i64) -> (int, int) {
    if zero_for_one {
        (amount as int, -amount)
    } else {
        (-amount, amount as int)
    }
}

/// Answer of `SWAP` (`[recipient:32][zero_for_one:1][amount:8]...`).
pub open spec fn swap_result(p: Seq<u8>) -> Result<Seq<u8>, u64> {
    if p.len() < 49 {
        Err(2)
    } else {
        let a = swap_amounts(p[32] == 1, i64_at(p, 33));
        Ok(i64_bytes(a.0 as i64) + i64_bytes(a.1 as i64))
    }
}

pub fn swap(input: &[u8]) -> (r: Result<Vec<u8>, u64>)
    requires
        input@.len() >= 49 ==> i64_at(input@, 33) != i64::MIN,
    ensures
        answer(r) == swap_result(input@),
{
    if input.len() < 49 {
        return Err(TakoError::InvalidInput.code());
    }
    let zero_for_one = input[32] == 1;
    let amount_specified = i64_field(input, 33);
    let amount0 = if zero_for_one {
        amount_specified
    } else {
        -amount_specified
    };
    let amount1 = if zero_for_one {
        -amount_specified
    } else {
        amount_specified
    };
    let mut result = i64_le(amount0);
    append_bytes(&mut result, i64_le(amount1).as_slice());
    Ok(result)
}

// ---------------------------------------------------------------------------
// Dispatch
// ---------------------------------------------------------------------------

pub open spec fn instruction_completes(m: StorageMap, caller: Seq<u8>, input: Seq<u8>) -> bool {
    input.len() > 0 ==> {
        let p = input.subrange(1, input.len() as int);
        match instruction_of(input[0]) {
            Some(Instruction::Mint) => p.len() >= 52 ==> mint_completes(m, p),
            Some(Instruction::Burn) => burn_completes(m, caller, p),
            Some(Instruction::Swap) => p.len() >= 49 ==> i64_at(p, 33) != i64::MIN,
            _ => true,
        }
    }
}

/// Outcome of an instruction; the instructions the pool does not serve
/// (and unknown bytes) answer `CustomError(0)`.
pub open spec fn instruction_outcome(m: StorageMap, caller: Seq<u8>, input: Seq<u8>) -> Outcome {
    if input.len() == 0 {
        (Err(2), m)
    } else {
        let p = input.subrange(1, input.len() as int);
        match instruction_of(input[0]) {
            Some(Instruction::Initialize) => initialize_outcome(m, p),
            Some(Instruction::Mint) => mint_outcome(m, p),
            Some(Instruction::Burn) => burn_outcome(m, caller, p),
            Some(Instruction::Swap) => (swap_result(p), m),
            _ => (Err(0), m),
        }
    }
}

pub fn process_instruction(st: &mut Storage, caller: &[u8; 32], input: &[u8]) -> (r: Result<Vec<u8>, u64>)
    requires
        instruction_completes(old(st)@, caller@, input@),
    ensures
        (answer(r), final(st)@) == instruction_outcome(old(st)@, caller@, input@),
{
    if input.len() == 0 {
        return Err(TakoError::InvalidInput.code());
    }
    let instruction = match Instruction::from_u8(input[0]) {
        Some(i) => i,
        None => return Err(TakoError::CustomError(0).code()),
    };
    let args = copy_range(input, 1, input.len() - 1);
    let a = args.as_slice();
    match instruction {
        Instruction::Initialize => initialize(st, a),
        Instruction::Mint => mint(st, a),
        Instruction::Burn => burn(st, caller, a),
        Instruction::Swap => swap(a),
        _ => Err(TakoError::CustomError(0).code()),
    }
}

/// The kinds of event the pool emits.
#[derive(Clone, Copy, PartialEq, Eq, Structural, Debug)]
pub enum PoolEventKind {
    Initialize,
    Mint,
    Burn,
    Swap,
}

/// An event.  `sender` is the caller (the owner of a burned position);
/// `recipient` the owner of a minted position or a swap's recipient; a
/// mint or burn names its tick range and liquidity; the token amounts are
/// those the pool answers; `sqrt_price_x96` and the tick (`tick_lower`)
/// are an initialization's or the swap's.  Fields an event lacks are zero.
#[derive(Debug)]
pub struct PoolEvent {
    pub kind: PoolEventKind,
    pub sender: [u8; 32],
    pub recipient: [u8; 32],
    pub tick_lower: i32,
    pub tick_upper: i32,
    pub liquidity: u128,
    pub amount0: i64,
    pub amount1: i64,
    pub sqrt_price_x96: u128,
}

/// An event as its fields.
pub open spec fn event_view(e: PoolEvent) -> (PoolEventKind, Seq<u8>, Seq<u8>, i32, i32, u128, i64, i64, u128) {
    (e.kind, e.sender@, e.recipient@, e.tick_lower, e.tick_upper, e.liquidity, e.amount0, e.amount1, e.sqrt_price_x96)
}

/// The price the swap reports: 1.0 in Q64.96.
pub open spec fn swap_price() -> u128 {
    0x1_0000_0000_0000_0000_0000_0000u128
}

/// The events a successful instruction `[opcode:1][args]` from `caller`
/// emits: an initialization (its price, tick 0), a mint (fixed amounts 100
/// and 200), a burn (fixed amounts 50 and 100) and a swap (the swapped
/// amounts, price 1.0, no liquidity, tick 0).
pub open spec fn instruction_events(caller: Seq<u8>, input: Seq<u8>) -> Seq<(PoolEventKind, Seq<u8>, Seq<u8>, i32, i32, u128, i64, i64, u128)> {
    let z = zeros(32);
    if input.len() == 0 {
        Seq::empty()
    } else {
        let p = input.subrange(1, input.len() as int);
        match instruction_of(input[0]) {
            Some(Instruction::Initialize) => seq![(PoolEventKind::Initialize, z, z, 0i32, 0i32, 0u128, 0i64, 0i64, u64_at(p, 68) as u128)],
            Some(Instruction::Mint) => seq![(PoolEventKind::Mint, caller, account_arg(p, 0), i32_at(p, 32), i32_at(p, 36), u64_at(p, 40) as u128, 100i64, 200i64, 0u128)],
            Some(Instruction::Burn) => seq![(PoolEventKind::Burn, caller, z, i32_at(p, 0), i32_at(p, 4), u64_at(p, 8) as u128, 50i64, 100i64, 0u128)],
            Some(Instruction::Swap) => {
                let a = swap_amounts(p[32] == 1, i64_at(p, 33));
                seq![(PoolEventKind::Swap, caller, account_arg(p, 0), 0i32, 0i32, 0u128, a.0 as i64, a.1 as i64, swap_price())]
            },
            _ => Seq::empty(),
        }
    }
}

fn pool_event(kind: PoolEventKind, sender: [u8; 32], recipient: [u8; 32], tick_lower: i32, tick_upper: i32, liquidity: u128, amount0: i64, amount1: i64, sqrt_price_x96: u128) -> (r: PoolEvent)
    ensures
        event_view(r) == (kind, sender@, recipient@, tick_lower, tick_upper, liquidity, amount0, amount1, sqrt_price_x96),
{
    PoolEvent { kind, sender, recipient, tick_lower, tick_upper, liquidity, amount0, amount1, sqrt_price_x96 }
}

/// Runs one instruction from `caller` as [`process_instruction`] does, and
/// answers the events it emits: those of [`instruction_events`] when it
/// succeeded, none when it failed.
pub fn execute(st: &mut Storage, caller: &[u8; 32], input: &[u8]) -> (r: (Result<Vec<u8>, u64>, Vec<PoolEvent>))
    requires
        instruction_completes(old(st)@, caller@, input@),
    ensures
        (answer(r.0), final(st)@) == instruction_outcome(old(st)@, caller@, input@),
        r.1@.map_values(|e: PoolEvent| event_view(e)) == (if r.0 is Ok {
            instruction_events(caller@, input@)
        } else {
            Seq::empty()
        }),
{
    let r = process_instruction(st, caller, input);
    let mut events: Vec<PoolEvent> = Vec::new();
    if r.is_err() || input.len() == 0 {
        proof {
            assert(events@.map_values(|e: PoolEvent| event_view(e)) =~= Seq::empty());
        }
        return (r, events);
    }
    let z = [0u8; 32];
    assert(z@ =~= zeros(32));
    let op = input[0];
    let ghost p = input@.subrange(1, input@.len() as int);
    if op == 0 {
        proof {
            assert(input@.subrange(69, 77) =~= p.subrange(68, 76));
        }
        let price = read_u64_at(input, 69);
        events.push(pool_event(PoolEventKind::Initialize, z, z, 0, 0, 0, 0, 0, price as u128));
    } else if op == 1 {
        let recipient = address_at(input, 1);
        proof {
            assert(recipient@ =~= account_arg(p, 0));
            assert(input@.subrange(33, 37) =~= p.subrange(32, 36));
            assert(input@.subrange(37, 41) =~= p.subrange(36, 40));
            assert(input@.subrange(41, 49) =~= p.subrange(40, 48));
        }
        let lower = i32_field(input, 33);
        let upper = i32_field(input, 37);
        let liquidity = read_u64_at(input, 41);
        events.push(pool_event(PoolEventKind::Mint, *caller, recipient, lower, upper, liquidity as u128, 100, 200, 0));
    } else if op == 2 {
        proof {
            assert(input@.subrange(1, 5) =~= p.subrange(0, 4));
            assert(input@.subrange(5, 9) =~= p.subrange(4, 8));
            assert(input@.subrange(9, 17) =~= p.subrange(8, 16));
        }
        let lower = i32_field(input, 1);
        let upper = i32_field(input, 5);
        let liquidity = read_u64_at(input, 9);
        events.push(pool_event(PoolEventKind::Burn, *caller, z, lower, upper, liquidity as u128, 50, 100, 0));
    } else if op == 3 {
        let recipient = address_at(input, 1);
        proof {
            assert(recipient@ =~= account_arg(p, 0));
            assert(input@.subrange(34, 42) =~= p.subrange(33, 41));
        }
        let zero_for_one = input[33] == 1;
        let amount = i64_field(input, 34);
        let (amount0, amount1) = if zero_for_one {
            (amount, -amount)
        } else {
            (-amount, amount)
        };
        events.push(pool_event(PoolEventKind::Swap, *caller, recipient, 0, 0, 0, amount0, amount1, 0x1_0000_0000_0000_0000_0000_0000u128));
    }
    proof {
        assert(events@.map_values(|e: PoolEvent| event_view(e)) =~= instruction_events(caller@, input@));
    }
    (r, events)
}

/// Runs the instruction in the first 128 bytes of `input` and returns its
/// status.
pub fn entrypoint(st: &mut Storage, caller: &[u8; 32], input: &[u8]) -> (r: u64)
    requires
        instruction_completes(old(st)@, caller@, crate::aave::entry_input(input@)),
    ensures
        r == (match instruction_outcome(old(st)@, caller@, crate::aave::entry_input(input@)).0 {
            Ok(_) => 0,
            Err(e) => e,
        }),
        final(st)@ == instruction_outcome(old(st)@, caller@, crate::aave::entry_input(input@)).1,
{
    let len = if input.len() <= 128 {
        input.len()
    } else {
        128
    };
    let data = copy_range(input, 0, len);
    proof {
        assert(data@ =~= crate::aave::entry_input(input@));
    }
    match process_instruction(st, caller, data.as_slice()) {
        Ok(_) => 0,
        Err(e) => e,
    }
}

// ---------------------------------------------------------------------------
// Laws
// ---------------------------------------------------------------------------

/// A swap answers opposite amounts on the two sides.
pub proof fn law_swap_balanced(p: Seq<u8>)
    requires
        p.len() >= 49,
        i64_at(p, 33) != i64::MIN,
    ensures
        swap_amounts(p[32] == 1, i64_at(p, 33)).0 == -swap_amounts(p[32] == 1, i64_at(p, 33)).1,
{
}

/// Burning never takes more liquidity than the position holds: a burn of
/// more than the position is refused and changes nothing.
pub proof fn law_burn_bounded(m: StorageMap, caller: Seq<u8>, p: Seq<u8>)
    requires
        p.len() >= 44,
        fetched(m, position_slot(caller, i32_at(p, 0), i32_at(p, 4))) matches Some(b) && le_nat(
            b.subrange(0, 8),
        ) < u64_at(p, 8),
    ensures
        burn_outcome(m, caller, p) == (Err::<Seq<u8>, u64>(4), m),
{
}

} // verus!

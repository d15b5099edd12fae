//! A constant-product market maker for one token pair, in the style of
//! Uniswap V2: liquidity providers deposit both tokens and receive LP
//! shares, traders swap one token for the other at the price the reserves
//! set, less a 0.3% fee.

use vstd::prelude::*;
use crate::bytes::{le_bytes, le_nat, append_bytes, bytes_eq, address_at, read_u64_at};
use crate::storage::Storage;
use crate::cells::{u64_cell, read_u64, write_u64, lemma_u64_cell_roundtrip};
use crate::stablecoin::StorageMap;

verus! {

// ---------------------------------------------------------------------------
// Integer square root
// ---------------------------------------------------------------------------

/// `r` is the integer square root of `y`.
pub open spec fn is_root(r: nat, y: nat) -> bool {
    r * r <= y && y < (r + 1) * (r + 1)
}

/// The integer square root of `y`.
pub open spec fn floor_sqrt(y: nat) -> nat {
    choose|r: nat| is_root(r, y)
}

/// The integer square root is unique.
pub proof fn lemma_root_unique(r1: nat, r2: nat, y: nat)
    requires
        is_root(r1, y),
        is_root(r2, y),
    ensures
        r1 == r2,
{
    if r1 < r2 {
        assert((r1 + 1) * (r1 + 1) <= r2 * r2) by (nonlinear_arith)
            requires
                r1 + 1 <= r2,
        ;
    }
    if r2 < r1 {
        assert((r2 + 1) * (r2 + 1) <= r1 * r1) by (nonlinear_arith)
            requires
                r2 + 1 <= r1,
        ;
    }
}

/// A root of `y` is the integer square root.
proof fn lemma_is_floor_sqrt(r: nat, y: nat)
    requires
        is_root(r, y),
    ensures
        floor_sqrt(y) == r,
{
    let c = floor_sqrt(y);
    assert(is_root(c, y));
    lemma_root_unique(r, c, y);
}

/// A Babylonian step from any positive guess lands at or above the root.
proof fn lemma_step_above(y: nat, x: nat)
    requires
        x > 0,
    ensures
        y < ((y / x + x) / 2 + 1) * ((y / x + x) / 2 + 1),
{
    let q = y / x;
    let n = (q + x) / 2;
    assert(y < (q + 1) * x) by (nonlinear_arith)
        requires
            q == y / x,
            x > 0,
    ;
    assert(q + 1 + x <= 2 * n + 2);
    assert(4 * ((q + 1) * x) <= (q + 1 + x) * (q + 1 + x)) by (nonlinear_arith);
    assert((q + 1 + x) * (q + 1 + x) <= (2 * n + 2) * (2 * n + 2)) by (nonlinear_arith)
        requires
            q + 1 + x <= 2 * n + 2,
    ;
    assert((2 * n + 2) * (2 * n + 2) == 4 * ((n + 1) * (n + 1))) by (nonlinear_arith);
}

/// A Babylonian step from a guess of at most `y / 2 + 1` stays there, and
/// its sum fits in 128 bits.
proof fn lemma_step_bounded(y: nat, x: nat)
    requires
        0 < x <= y / 2 + 1,
        y < (x + 1) * (x + 1),
        y <= u128::MAX,
        y > 0,
    ensures
        y / x + x <= u128::MAX,
        (y / x + x) / 2 >= 1,
        (y / x + x) / 2 <= y / 2 + 1,
{
    if x >= 2 {
        assert(y / x <= y / 2) by (nonlinear_arith)
            requires
                x >= 2,
        ;
    } else {
        assert(y < 4) by (nonlinear_arith)
            requires
                x == 1,
                y < (x + 1) * (x + 1),
        ;
    }
}

/// The integer square root (the largest `r` with `r * r <= y`), by the
/// Babylonian method from the guess `y / 2 + 1`.
pub fn sqrt(y: u128) -> (r: u128)
    ensures
        r as nat == floor_sqrt(y as nat),
        is_root(r as nat, y as nat),
{
    if y == 0 {
        proof {
            assert(is_root(0, 0)) by (nonlinear_arith);
            lemma_is_floor_sqrt(0, 0);
        }
        return 0;
    }
    if y <= 3 {
        proof {
            assert(is_root(1, y as nat)) by (nonlinear_arith)
                requires
                    1 <= y <= 3,
            ;
            lemma_is_floor_sqrt(1, y as nat);
        }
        return 1;
    }
    let mut z = y;
    let mut x = y / 2 + 1;
    let ghost mut stepped = false;
    proof {
        assert(y < (y + 1) * (y + 1)) by (nonlinear_arith)
            requires
                y > 0,
        ;
        assert(y < (y / 2 + 2) * (y / 2 + 2)) by (nonlinear_arith)
            requires
                y > 0,
        ;
    }
    while x < z
        invariant
            y > 3,
            0 < x <= y / 2 + 1,
            0 < z <= y,
            y < (z + 1) * (z + 1),
            y < (x + 1) * (x + 1),
            stepped ==> x == (y / z + z) / 2,
            !stepped ==> z == y && x == y / 2 + 1,
        decreases z,
    {
        proof {
            lemma_step_bounded(y as nat, x as nat);
            lemma_step_above(y as nat, x as nat);
        }
        z = x;
        x = (y / x + x) / 2;
        proof {
            stepped = true;
        }
    }
    proof {
        if stepped {
            assert(z * z <= y) by (nonlinear_arith)
                requires
                    z > 0,
                    x == (y / z + z) / 2,
                    x >= z,
            ;
            lemma_is_floor_sqrt(z as nat, y as nat);
        }
    }
    z
}


// ---------------------------------------------------------------------------
// Pool state
// ---------------------------------------------------------------------------

/// The trading fee, in basis points.
pub const FEE_BASIS_POINTS: u64 = 30;
pub const BASIS_POINTS: u64 = 10000;
/// LP shares locked for ever by the first deposit.
pub const MINIMUM_LIQUIDITY: u64 = 1000;

pub const ERR_SAME_TOKENS: u64 = 1001;
pub const ERR_ZERO_LIQUIDITY: u64 = 1002;
pub const ERR_INSUFFICIENT_INITIAL_LIQUIDITY: u64 = 1003;
pub const ERR_INSUFFICIENT_LP_TOKENS: u64 = 1004;
pub const ERR_SLIPPAGE_EXCEEDED: u64 = 1005;
pub const ERR_ZERO_SWAP_AMOUNT: u64 = 1006;
pub const ERR_POOL_NOT_INITIALIZED: u64 = 1007;
pub const ERR_STORAGE: u64 = 1008;

/// `token_a`
pub open spec fn key_token_a() -> Seq<u8> {
    seq![0x74u8, 0x6fu8, 0x6bu8, 0x65u8, 0x6eu8, 0x5fu8, 0x61u8]
}

fn key_token_a_vec() -> (r: Vec<u8>)
    ensures
        r@ == key_token_a(),
{
    let v = vec![0x74u8, 0x6fu8, 0x6bu8, 0x65u8, 0x6eu8, 0x5fu8, 0x61u8];
    assert(v@ =~= key_token_a());
    v
}

/// `token_b`
pub open spec fn key_token_b() -> Seq<u8> {
    seq![0x74u8, 0x6fu8, 0x6bu8, 0x65u8, 0x6eu8, 0x5fu8, 0x62u8]
}

fn key_token_b_vec() -> (r: Vec<u8>)
    ensures
        r@ == key_token_b(),
{
    let v = vec![0x74u8, 0x6fu8, 0x6bu8, 0x65u8, 0x6eu8, 0x5fu8, 0x62u8];
    assert(v@ =~= key_token_b());
    v
}

/// `reserve_a`
pub open spec fn key_reserve_a() -> Seq<u8> {
    seq![0x72u8, 0x65u8, 0x73u8, 0x65u8, 0x72u8, 0x76u8, 0x65u8, 0x5fu8, 0x61u8]
}

fn key_reserve_a_vec() -> (r: Vec<u8>)
    ensures
        r@ == key_reserve_a(),
{
    let v = vec![0x72u8, 0x65u8, 0x73u8, 0x65u8, 0x72u8, 0x76u8, 0x65u8, 0x5fu8, 0x61u8];
    assert(v@ =~= key_reserve_a());
    v
}

/// `reserve_b`
pub open spec fn key_reserve_b() -> Seq<u8> {
    seq![0x72u8, 0x65u8, 0x73u8, 0x65u8, 0x72u8, 0x76u8, 0x65u8, 0x5fu8, 0x62u8]
}

fn key_reserve_b_vec() -> (r: Vec<u8>)
    ensures
        r@ == key_reserve_b(),
{
    let v = vec![0x72u8, 0x65u8, 0x73u8, 0x65u8, 0x72u8, 0x76u8, 0x65u8, 0x5fu8, 0x62u8];
    assert(v@ =~= key_reserve_b());
    v
}

/// `total_lp`
pub open spec fn key_total_lp() -> Seq<u8> {
    seq![0x74u8, 0x6fu8, 0x74u8, 0x61u8, 0x6cu8, 0x5fu8, 0x6cu8, 0x70u8]
}

fn key_total_lp_vec() -> (r: Vec<u8>)
    ensures
        r@ == key_total_lp(),
{
    let v = vec![0x74u8, 0x6fu8, 0x74u8, 0x61u8, 0x6cu8, 0x5fu8, 0x6cu8, 0x70u8];
    assert(v@ =~= key_total_lp());
    v
}

/// `fee_a`
pub open spec fn key_fee_a() -> Seq<u8> {
    seq![0x66u8, 0x65u8, 0x65u8, 0x5fu8, 0x61u8]
}

fn key_fee_a_vec() -> (r: Vec<u8>)
    ensures
        r@ == key_fee_a(),
{
    let v = vec![0x66u8, 0x65u8, 0x65u8, 0x5fu8, 0x61u8];
    assert(v@ =~= key_fee_a());
    v
}

/// `fee_b`
pub open spec fn key_fee_b() -> Seq<u8> {
    seq![0x66u8, 0x65u8, 0x65u8, 0x5fu8, 0x62u8]
}

fn key_fee_b_vec() -> (r: Vec<u8>)
    ensures
        r@ == key_fee_b(),
{
    let v = vec![0x66u8, 0x65u8, 0x65u8, 0x5fu8, 0x62u8];
    assert(v@ =~= key_fee_b());
    v
}

/// `lp:` and the provider.
pub open spec fn lp_key(provider: Seq<u8>) -> Seq<u8> {
    seq![0x6cu8, 0x70u8, 0x3au8] + provider
}

fn lp_key_vec(provider: &[u8; 32]) -> (r: Vec<u8>)
    ensures
        r@ == lp_key(provider@),
{
    let mut v = vec![0x6cu8, 0x70u8, 0x3au8];
    append_bytes(&mut v, provider.as_slice());
    proof {
        assert(v@ =~= lp_key(provider@));
    }
    v
}

/// A stored `u64`: 0 unless at least 8 bytes are stored.
pub open spec fn stored(m: StorageMap, k: Seq<u8>) -> u64 {
    match u64_cell(m.get(k)) {
        Some(v) => v,
        None => 0,
    }
}

/// `m` with `v` stored under `k` in 8 little-endian bytes.
pub open spec fn put(m: StorageMap, k: Seq<u8>, v: u64) -> StorageMap {
    m.insert(k, le_bytes(v as nat, 8))
}

pub open spec fn reserve_a(m: StorageMap) -> u64 {
    stored(m, key_reserve_a())
}

pub open spec fn reserve_b(m: StorageMap) -> u64 {
    stored(m, key_reserve_b())
}

pub open spec fn total_lp(m: StorageMap) -> u64 {
    stored(m, key_total_lp())
}

pub open spec fn fee_a(m: StorageMap) -> u64 {
    stored(m, key_fee_a())
}

pub open spec fn fee_b(m: StorageMap) -> u64 {
    stored(m, key_fee_b())
}

pub open spec fn lp_balance(m: StorageMap, provider: Seq<u8>) -> u64 {
    stored(m, lp_key(provider))
}

/// The pool's own keys are distinct from each other and from every
/// provider's LP key.
proof fn lemma_keys_distinct(provider: Seq<u8>)
    ensures
        key_reserve_a() != key_reserve_b(),
        key_reserve_a() != key_total_lp(),
        key_reserve_b() != key_total_lp(),
        key_fee_a() != key_reserve_a(),
        key_fee_a() != key_reserve_b(),
        key_fee_b() != key_reserve_a(),
        key_fee_b() != key_reserve_b(),
        key_fee_a() != key_total_lp(),
        key_fee_b() != key_total_lp(),
        key_fee_a() != key_fee_b(),
        key_token_a() != key_token_b(),
        lp_key(provider) != key_reserve_a(),
        lp_key(provider) != key_reserve_b(),
        lp_key(provider) != key_total_lp(),
        lp_key(provider) != key_fee_a(),
        lp_key(provider) != key_fee_b(),
{
    assert(key_reserve_a()[8] != key_reserve_b()[8]);
    assert(key_fee_a()[4] != key_fee_b()[4]);
    assert(key_token_a()[6] != key_token_b()[6]);
    assert(key_reserve_a()[0] != key_total_lp()[0]);
    assert(key_reserve_b()[0] != key_total_lp()[0]);
    assert(lp_key(provider)[0] != key_reserve_a()[0]);
    assert(lp_key(provider)[0] != key_reserve_b()[0]);
    assert(lp_key(provider)[0] != key_total_lp()[0]);
    assert(lp_key(provider)[0] != key_fee_a()[0]);
    assert(lp_key(provider)[0] != key_fee_b()[0]);
}

fn read_stored(st: &Storage, key: &[u8]) -> (r: u64)
    ensures
        r == stored(st@, key@),
{
    match read_u64(st, key) {
        Some(v) => v,
        None => 0,
    }
}

pub fn read_lp_balance(st: &Storage, provider: &[u8; 32]) -> (r: u64)
    ensures
        r == lp_balance(st@, provider@),
{
    read_stored(st, lp_key_vec(provider).as_slice())
}

pub fn write_lp_balance(st: &mut Storage, provider: &[u8; 32], balance: u64)
    ensures
        final(st)@ == put(old(st)@, lp_key(provider@), balance),
{
    write_u64(st, lp_key_vec(provider).as_slice(), balance);
}

// ---------------------------------------------------------------------------
// Operations
// ---------------------------------------------------------------------------

/// What an operation answers and the storage it leaves.
pub type Outcome = (Result<(), u64>, StorageMap);

/// `init_pool`: records the two tokens and zeroes reserves, LP supply and
/// fees; the two tokens must differ.
pub open spec fn init_pool_outcome(m: StorageMap, token_a: Seq<u8>, token_b: Seq<u8>) -> Outcome {
    if token_a == token_b {
        (Err(ERR_SAME_TOKENS), m)
    } else {
        let m1 = m.insert(key_token_a(), token_a).insert(key_token_b(), token_b);
        (Ok(()), put(put(put(put(put(m1, key_reserve_a(), 0), key_reserve_b(), 0), key_total_lp(), 0), key_fee_a(), 0), key_fee_b(), 0))
    }
}

pub fn init_pool(st: &mut Storage, token_a: &[u8; 32], token_b: &[u8; 32]) -> (r: Result<(), u64>)
    ensures
        (r, final(st)@) == init_pool_outcome(old(st)@, token_a@, token_b@),
{
    if bytes_eq(token_a.as_slice(), token_b.as_slice()) {
        return Err(ERR_SAME_TOKENS);
    }
    st.write(key_token_a_vec().as_slice(), token_a.as_slice());
    st.write(key_token_b_vec().as_slice(), token_b.as_slice());
    write_u64(st, key_reserve_a_vec().as_slice(), 0);
    write_u64(st, key_reserve_b_vec().as_slice(), 0);
    write_u64(st, key_total_lp_vec().as_slice(), 0);
    write_u64(st, key_fee_a_vec().as_slice(), 0);
    write_u64(st, key_fee_b_vec().as_slice(), 0);
    Ok(())
}

/// The LP shares a deposit of `a` and `b` mints: the square root of
/// `a * b` less the locked minimum for the first deposit (none when that
/// root does not exceed the minimum), else the smaller of the two
/// proportional shares.
pub open spec fn lp_minted(m: StorageMap, a: u64, b: u64) -> Option<u64> {
    let total = total_lp(m);
    if total == 0 {
        let l = floor_sqrt((a * b) as nat) as u64;
        if l <= MINIMUM_LIQUIDITY {
            None
        } else {
            Some((l - MINIMUM_LIQUIDITY) as u64)
        }
    } else {
        let from_a = a * total / (reserve_a(m) as int);
        let from_b = b * total / (reserve_b(m) as int);
        Some((if from_a < from_b {
            from_a
        } else {
            from_b
        }) as u64)
    }
}

/// The inputs on which `add_liquidity` runs to its end: no division by an
/// empty reserve, and no sum beyond 64 bits.
pub open spec fn add_liquidity_completes(m: StorageMap, provider: Seq<u8>, a: u64, b: u64, min_lp: u64) -> bool {
    a == 0 || b == 0 || {
        &&& total_lp(m) != 0 ==> reserve_a(m) != 0 && reserve_b(m) != 0
        &&& match lp_minted(m, a, b) {
            Some(lp) => lp >= min_lp ==> {
                &&& reserve_a(m) + a <= u64::MAX
                &&& reserve_b(m) + b <= u64::MAX
                &&& (total_lp(m) != 0 ==> total_lp(m) + lp <= u64::MAX)
                &&& lp_balance(m, provider) + lp <= u64::MAX
            },
            None => true,
        }
    }
}

/// `add_liquidity`: both amounts must be positive, the minted shares at
/// least `min_lp`; the reserves grow by the amounts and the provider (and
/// the supply) by the shares, the supply also by the locked minimum on the
/// first deposit.
pub open spec fn add_liquidity_outcome(m: StorageMap, provider: Seq<u8>, a: u64, b: u64, min_lp: u64) -> Outcome {
    if a == 0 || b == 0 {
        (Err(ERR_ZERO_LIQUIDITY), m)
    } else {
        match lp_minted(m, a, b) {
            None => (Err(ERR_INSUFFICIENT_INITIAL_LIQUIDITY), m),
            Some(lp) => if lp < min_lp {
                (Err(ERR_SLIPPAGE_EXCEEDED), m)
            } else {
                let supply = if total_lp(m) == 0 {
                    lp + MINIMUM_LIQUIDITY
                } else {
                    total_lp(m) + lp
                };
                let m1 = put(put(put(m, key_reserve_a(), (reserve_a(m) + a) as u64), key_reserve_b(), (reserve_b(m) + b) as u64), key_total_lp(), supply as u64);
                (Ok(()), put(m1, lp_key(provider), (lp_balance(m, provider) + lp) as u64))
            },
        }
    }
}

pub fn add_liquidity(st: &mut Storage, provider: &[u8; 32], amount_a: u64, amount_b: u64, min_lp_tokens: u64) -> (r: Result<(), u64>)
    requires
        add_liquidity_completes(old(st)@, provider@, amount_a, amount_b, min_lp_tokens),
    ensures
        (r, final(st)@) == add_liquidity_outcome(old(st)@, provider@, amount_a, amount_b, min_lp_tokens),
{
    if amount_a == 0 || amount_b == 0 {
        return Err(ERR_ZERO_LIQUIDITY);
    }
    let ghost m = st@;
    let reserve_a = read_stored(st, key_reserve_a_vec().as_slice());
    let reserve_b = read_stored(st, key_reserve_b_vec().as_slice());
    let total_supply = read_stored(st, key_total_lp_vec().as_slice());
    proof {
        lemma_product_fits(amount_a, amount_b);
        lemma_product_fits(amount_a, total_supply);
        lemma_product_fits(amount_b, total_supply);
    }
    let lp_tokens: u64 = if total_supply == 0 {
        let liquidity = #[verifier::truncate] (sqrt(amount_a as u128 * amount_b as u128) as u64);
        if liquidity <= MINIMUM_LIQUIDITY {
            return Err(ERR_INSUFFICIENT_INITIAL_LIQUIDITY);
        }
        liquidity - MINIMUM_LIQUIDITY
    } else {
        let lp_from_a = (amount_a as u128 * total_supply as u128) / reserve_a as u128;
        let lp_from_b = (amount_b as u128 * total_supply as u128) / reserve_b as u128;
        let smaller = if lp_from_a < lp_from_b {
            lp_from_a
        } else {
            lp_from_b
        };
        #[verifier::truncate]
        (smaller as u64)
    };
    if lp_tokens < min_lp_tokens {
        return Err(ERR_SLIPPAGE_EXCEEDED);
    }
    proof {
        lemma_keys_distinct(provider@);
    }
    write_u64(st, key_reserve_a_vec().as_slice(), reserve_a + amount_a);
    write_u64(st, key_reserve_b_vec().as_slice(), reserve_b + amount_b);
    let new_supply = if total_supply == 0 {
        lp_tokens + MINIMUM_LIQUIDITY
    } else {
        total_supply + lp_tokens
    };
    write_u64(st, key_total_lp_vec().as_slice(), new_supply);
    let provider_balance = read_lp_balance(st, provider);
    write_lp_balance(st, provider, provider_balance + lp_tokens);
    Ok(())
}

/// The share of a reserve that `lp` of `total` LP shares redeem.
pub open spec fn share(lp: u64, reserve: u64, total: u64) -> u64 {
    (lp * reserve / (total as int)) as u64
}

/// The inputs on which `remove_liquidity` runs to its end: a positive LP
/// supply, and no more shares redeemed than exist.
pub open spec fn remove_liquidity_completes(m: StorageMap, provider: Seq<u8>, lp: u64, min_a: u64, min_b: u64) -> bool {
    lp == 0 || lp_balance(m, provider) < lp || {
        &&& total_lp(m) != 0
        &&& (share(lp, reserve_a(m), total_lp(m)) >= min_a && share(lp, reserve_b(m), total_lp(m)) >= min_b)
            ==> lp <= total_lp(m)
    }
}

/// `remove_liquidity`: the provider redeems `lp` of its shares for their
/// part of both reserves, each at least its minimum.
pub open spec fn remove_liquidity_outcome(m: StorageMap, provider: Seq<u8>, lp: u64, min_a: u64, min_b: u64) -> Outcome {
    if lp == 0 {
        (Err(ERR_ZERO_LIQUIDITY), m)
    } else if lp_balance(m, provider) < lp {
        (Err(ERR_INSUFFICIENT_LP_TOKENS), m)
    } else {
        let out_a = share(lp, reserve_a(m), total_lp(m));
        let out_b = share(lp, reserve_b(m), total_lp(m));
        if out_a < min_a || out_b < min_b {
            (Err(ERR_SLIPPAGE_EXCEEDED), m)
        } else {
            let m1 = put(put(put(m, key_reserve_a(), (reserve_a(m) - out_a) as u64), key_reserve_b(), (reserve_b(m) - out_b) as u64), key_total_lp(), (total_lp(m) - lp) as u64);
            (Ok(()), put(m1, lp_key(provider), (lp_balance(m, provider) - lp) as u64))
        }
    }
}

/// A product of two 64-bit values fits in 128 bits.
proof fn lemma_product_fits(a: u64, b: u64)
    ensures
        a * b <= u128::MAX,
{
    assert(a * b <= u64::MAX * u64::MAX) by (nonlinear_arith);
}

/// Redeeming at most the whole supply gives at most the whole reserve.
proof fn lemma_share_bounded(lp: u64, reserve: u64, total: u64)
    requires
        0 < total,
        lp <= total,
    ensures
        lp * reserve / (total as int) <= reserve,
        share(lp, reserve, total) == lp * reserve / (total as int),
{
    assert(lp * reserve <= total * reserve) by (nonlinear_arith)
        requires
            lp <= total,
    ;
    assert(lp * reserve / (total as int) <= reserve) by (nonlinear_arith)
        requires
            lp * reserve <= total * reserve,
            0 < total,
    ;
}

pub fn remove_liquidity(st: &mut Storage, provider: &[u8; 32], lp_tokens: u64, min_amount_a: u64, min_amount_b: u64) -> (r: Result<(), u64>)
    requires
        remove_liquidity_completes(old(st)@, provider@, lp_tokens, min_amount_a, min_amount_b),
    ensures
        (r, final(st)@) == remove_liquidity_outcome(old(st)@, provider@, lp_tokens, min_amount_a, min_amount_b),
{
    if lp_tokens == 0 {
        return Err(ERR_ZERO_LIQUIDITY);
    }
    let provider_balance = read_lp_balance(st, provider);
    if provider_balance < lp_tokens {
        return Err(ERR_INSUFFICIENT_LP_TOKENS);
    }
    let reserve_a = read_stored(st, key_reserve_a_vec().as_slice());
    let reserve_b = read_stored(st, key_reserve_b_vec().as_slice());
    let total_supply = read_stored(st, key_total_lp_vec().as_slice());
    proof {
        lemma_product_fits(lp_tokens, reserve_a);
        lemma_product_fits(lp_tokens, reserve_b);
    }
    let amount_a = #[verifier::truncate] ((lp_tokens as u128 * reserve_a as u128 / total_supply as u128) as u64);
    let amount_b = #[verifier::truncate] ((lp_tokens as u128 * reserve_b as u128 / total_supply as u128) as u64);
    if amount_a < min_amount_a || amount_b < min_amount_b {
        return Err(ERR_SLIPPAGE_EXCEEDED);
    }
    proof {
        lemma_keys_distinct(provider@);
        lemma_share_bounded(lp_tokens, reserve_a, total_supply);
        lemma_share_bounded(lp_tokens, reserve_b, total_supply);
    }
    write_u64(st, key_reserve_a_vec().as_slice(), reserve_a - amount_a);
    write_u64(st, key_reserve_b_vec().as_slice(), reserve_b - amount_b);
    write_u64(st, key_total_lp_vec().as_slice(), total_supply - lp_tokens);
    write_lp_balance(st, provider, provider_balance - lp_tokens);
    Ok(())
}

/// The part of an input that trades, after the 0.3% fee.
pub open spec fn after_fee(amount_in: u64) -> nat {
    (amount_in * (BASIS_POINTS - FEE_BASIS_POINTS) / (BASIS_POINTS as int)) as nat
}

/// The output of a swap of `amount_in` against reserves `r_in` and `r_out`:
/// `after_fee * r_out / (r_in + after_fee)`.
pub open spec fn swap_out(amount_in: u64, r_in: u64, r_out: u64) -> u64 {
    (after_fee(amount_in) * r_out / (r_in + after_fee(amount_in))) as u64
}

/// The fee a swap of `amount_in` collects.
pub open spec fn swap_fee(amount_in: u64) -> u64 {
    (amount_in - after_fee(amount_in)) as u64
}

/// The trading part of an input is at most the input, and a swap against a
/// non-empty input reserve pays out less than the whole output reserve.
proof fn lemma_swap_bounds(amount_in: u64, r_in: u64, r_out: u64)
    requires
        r_in > 0,
    ensures
        after_fee(amount_in) <= amount_in,
        after_fee(amount_in) * r_out < 0x1_0000_0000_0000_0000_0000_0000_0000_0000,
        after_fee(amount_in) * r_out / (r_in + after_fee(amount_in)) < r_out || r_out == 0,
        swap_out(amount_in, r_in, r_out) == after_fee(amount_in) * r_out / (r_in + after_fee(amount_in)),
{
    let f = after_fee(amount_in);
    assert(f <= amount_in) by (nonlinear_arith)
        requires
            f == amount_in * 9970 / 10000,
    ;
    assert(f * r_out < 0x1_0000_0000_0000_0000_0000_0000_0000_0000) by (nonlinear_arith)
        requires
            f <= amount_in,
            amount_in <= u64::MAX,
            r_out <= u64::MAX,
    ;
    if r_out > 0 {
        assert(f * r_out / (r_in + f) < r_out) by (nonlinear_arith)
            requires
                r_in > 0,
                r_out > 0,
        {
            assert(f * r_out < (r_in + f) * r_out);
        }
    }
}

/// The inputs on which a swap runs to its end: the grown input reserve and
/// fee total fit in 64 bits.
pub open spec fn swap_completes(m: StorageMap, a_for_b: bool, amount_in: u64, min_out: u64) -> bool {
    let (r_in, r_out, fees) = if a_for_b {
        (reserve_a(m), reserve_b(m), fee_a(m))
    } else {
        (reserve_b(m), reserve_a(m), fee_b(m))
    };
    amount_in == 0 || r_in == 0 || r_out == 0 || swap_out(amount_in, r_in, r_out) < min_out || {
        &&& r_in + amount_in <= u64::MAX
        &&& fees + swap_fee(amount_in) <= u64::MAX
    }
}

/// A swap of `amount_in` of one token (A when `a_for_b`) for at least
/// `min_out` of the other: the input reserve grows by the input, the output
/// reserve shrinks by the output, and the input token's fee total grows by
/// the fee.
pub open spec fn swap_outcome(m: StorageMap, a_for_b: bool, amount_in: u64, min_out: u64) -> Outcome {
    let (k_in, k_out, k_fee) = if a_for_b {
        (key_reserve_a(), key_reserve_b(), key_fee_a())
    } else {
        (key_reserve_b(), key_reserve_a(), key_fee_b())
    };
    let r_in = stored(m, k_in);
    let r_out = stored(m, k_out);
    if amount_in == 0 {
        (Err(ERR_ZERO_SWAP_AMOUNT), m)
    } else if reserve_a(m) == 0 || reserve_b(m) == 0 {
        (Err(ERR_POOL_NOT_INITIALIZED), m)
    } else {
        let out = swap_out(amount_in, r_in, r_out);
        if out < min_out {
            (Err(ERR_SLIPPAGE_EXCEEDED), m)
        } else {
            let m1 = put(put(m, k_in, (r_in + amount_in) as u64), k_out, (r_out - out) as u64);
            (Ok(()), put(m1, k_fee, (stored(m, k_fee) + swap_fee(amount_in)) as u64))
        }
    }
}

fn swap(st: &mut Storage, a_for_b: bool, amount_in: u64, min_amount_out: u64) -> (r: Result<(), u64>)
    requires
        swap_completes(old(st)@, a_for_b, amount_in, min_amount_out),
    ensures
        (r, final(st)@) == swap_outcome(old(st)@, a_for_b, amount_in, min_amount_out),
{
    if amount_in == 0 {
        return Err(ERR_ZERO_SWAP_AMOUNT);
    }
    let reserve_a = read_stored(st, key_reserve_a_vec().as_slice());
    let reserve_b = read_stored(st, key_reserve_b_vec().as_slice());
    if reserve_a == 0 || reserve_b == 0 {
        return Err(ERR_POOL_NOT_INITIALIZED);
    }
    let (r_in, r_out, k_in, k_out, k_fee) = if a_for_b {
        (reserve_a, reserve_b, key_reserve_a_vec(), key_reserve_b_vec(), key_fee_a_vec())
    } else {
        (reserve_b, reserve_a, key_reserve_b_vec(), key_reserve_a_vec(), key_fee_b_vec())
    };
    proof {
        lemma_swap_bounds(amount_in, r_in, r_out);
        lemma_keys_distinct(seq![]);
    }
    let amount_in_with_fee = (amount_in as u128 * (BASIS_POINTS - FEE_BASIS_POINTS) as u128) / BASIS_POINTS as u128;
    let numerator = amount_in_with_fee * r_out as u128;
    let denominator = r_in as u128 + amount_in_with_fee;
    let amount_out = (numerator / denominator) as u64;
    if amount_out < min_amount_out {
        return Err(ERR_SLIPPAGE_EXCEEDED);
    }
    let fee = amount_in - ((amount_in as u128 * (BASIS_POINTS - FEE_BASIS_POINTS) as u128) / BASIS_POINTS as u128) as u64;
    write_u64(st, k_in.as_slice(), r_in + amount_in);
    write_u64(st, k_out.as_slice(), r_out - amount_out);
    let fees = read_stored(st, k_fee.as_slice());
    write_u64(st, k_fee.as_slice(), fees + fee);
    Ok(())
}

pub fn swap_a_for_b(st: &mut Storage, amount_in: u64, min_amount_out: u64) -> (r: Result<(), u64>)
    requires
        swap_completes(old(st)@, true, amount_in, min_amount_out),
    ensures
        (r, final(st)@) == swap_outcome(old(st)@, true, amount_in, min_amount_out),
{
    swap(st, true, amount_in, min_amount_out)
}

pub fn swap_b_for_a(st: &mut Storage, amount_in: u64, min_amount_out: u64) -> (r: Result<(), u64>)
    requires
        swap_completes(old(st)@, false, amount_in, min_amount_out),
    ensures
        (r, final(st)@) == swap_outcome(old(st)@, false, amount_in, min_amount_out),
{
    swap(st, false, amount_in, min_amount_out)
}


// ---------------------------------------------------------------------------
// Instructions
// ---------------------------------------------------------------------------

pub open spec fn word(input: Seq<u8>, off: int) -> u64 {
    le_nat(input.subrange(off, off + 8)) as u64
}

pub open spec fn account(input: Seq<u8>, off: int) -> Seq<u8> {
    input.subrange(off, off + 32)
}

/// The inputs on which an instruction runs to its end.
pub open spec fn instruction_completes(m: StorageMap, input: Seq<u8>) -> bool {
    if input.len() == 0 {
        true
    } else if input[0] == 1 && input.len() >= 57 {
        add_liquidity_completes(m, account(input, 1), word(input, 33), word(input, 41), word(input, 49))
    } else if input[0] == 2 && input.len() >= 57 {
        remove_liquidity_completes(m, account(input, 1), word(input, 33), word(input, 41), word(input, 49))
    } else if (input[0] == 3 || input[0] == 4) && input.len() >= 49 {
        swap_completes(m, input[0] == 3, word(input, 33), word(input, 41))
    } else {
        true
    }
}

/// An instruction: `0` initializes the pool (`[token_a:32][token_b:32]`),
/// `1` adds liquidity (`[provider:32][amount_a:8][amount_b:8][min_lp:8]`),
/// `2` removes it (`[provider:32][lp:8][min_a:8][min_b:8]`), `3` and `4`
/// swap A for B and B for A (`[trader:32][amount_in:8][min_out:8]`); a
/// short input is a storage error, an empty input or another opcode does
/// nothing.
pub open spec fn instruction_outcome(m: StorageMap, input: Seq<u8>) -> Outcome {
    if input.len() == 0 {
        (Ok(()), m)
    } else if input[0] == 0 {
        if input.len() < 65 {
            (Err(ERR_STORAGE), m)
        } else {
            init_pool_outcome(m, account(input, 1), account(input, 33))
        }
    } else if input[0] == 1 || input[0] == 2 {
        if input.len() < 57 {
            (Err(ERR_STORAGE), m)
        } else if input[0] == 1 {
            add_liquidity_outcome(m, account(input, 1), word(input, 33), word(input, 41), word(input, 49))
        } else {
            remove_liquidity_outcome(m, account(input, 1), word(input, 33), word(input, 41), word(input, 49))
        }
    } else if input[0] == 3 || input[0] == 4 {
        if input.len() < 49 {
            (Err(ERR_STORAGE), m)
        } else {
            swap_outcome(m, input[0] == 3, word(input, 33), word(input, 41))
        }
    } else {
        (Ok(()), m)
    }
}

pub fn process_instruction(st: &mut Storage, input: &[u8]) -> (r: Result<(), u64>)
    requires
        instruction_completes(old(st)@, input@),
    ensures
        (r, final(st)@) == instruction_outcome(old(st)@, input@),
{
    if input.len() == 0 {
        return Ok(());
    }
    match input[0] {
        0 => {
            if input.len() < 65 {
                return Err(ERR_STORAGE);
            }
            let token_a = address_at(input, 1);
            let token_b = address_at(input, 33);
            init_pool(st, &token_a, &token_b)
        },
        1 => {
            if input.len() < 57 {
                return Err(ERR_STORAGE);
            }
            let provider = address_at(input, 1);
            let amount_a = read_u64_at(input, 33);
            let amount_b = read_u64_at(input, 41);
            let min_lp = read_u64_at(input, 49);
            add_liquidity(st, &provider, amount_a, amount_b, min_lp)
        },
        2 => {
            if input.len() < 57 {
                return Err(ERR_STORAGE);
            }
            let provider = address_at(input, 1);
            let lp_tokens = read_u64_at(input, 33);
            let min_a = read_u64_at(input, 41);
            let min_b = read_u64_at(input, 49);
            remove_liquidity(st, &provider, lp_tokens, min_a, min_b)
        },
        3 => {
            if input.len() < 49 {
                return Err(ERR_STORAGE);
            }
            let amount_in = read_u64_at(input, 33);
            let min_out = read_u64_at(input, 41);
            swap_a_for_b(st, amount_in, min_out)
        },
        4 => {
            if input.len() < 49 {
                return Err(ERR_STORAGE);
            }
            let amount_in = read_u64_at(input, 33);
            let min_out = read_u64_at(input, 41);
            swap_b_for_a(st, amount_in, min_out)
        },
        _ => Ok(()),
    }
}

// ---------------------------------------------------------------------------
// Laws
// ---------------------------------------------------------------------------

/// A successful swap pays out at least the trader's minimum and less than
/// the whole output reserve, and never lowers the product of the reserves.
pub proof fn law_swap_keeps_product(m: StorageMap, a_for_b: bool, amount_in: u64, min_out: u64)
    requires
        swap_completes(m, a_for_b, amount_in, min_out),
        swap_outcome(m, a_for_b, amount_in, min_out).0 is Ok,
    ensures
        ({
            let m2 = swap_outcome(m, a_for_b, amount_in, min_out).1;
            let out = swap_out(amount_in, if a_for_b { reserve_a(m) } else { reserve_b(m) },
                if a_for_b { reserve_b(m) } else { reserve_a(m) });
            &&& out >= min_out
            &&& a_for_b ==> out < reserve_b(m) && reserve_a(m2) == reserve_a(m) + amount_in
                && reserve_b(m2) == reserve_b(m) - out
            &&& !a_for_b ==> out < reserve_a(m) && reserve_b(m2) == reserve_b(m) + amount_in
                && reserve_a(m2) == reserve_a(m) - out
            &&& reserve_a(m2) * reserve_b(m2) >= reserve_a(m) * reserve_b(m)
        }),
{
    lemma_keys_distinct(seq![]);
    let (r_in, r_out) = if a_for_b {
        (reserve_a(m), reserve_b(m))
    } else {
        (reserve_b(m), reserve_a(m))
    };
    lemma_swap_bounds(amount_in, r_in, r_out);
    let f = after_fee(amount_in);
    let out = swap_out(amount_in, r_in, r_out);
    lemma_u64_cell_roundtrip((r_in + amount_in) as u64);
    lemma_u64_cell_roundtrip((r_out - out) as u64);
    assert(out * (r_in + f) <= f * r_out) by (nonlinear_arith)
        requires
            out == f * r_out / (r_in + f),
            r_in > 0,
    ;
    assert((r_in + amount_in) * (r_out - out) >= r_in * r_out) by (nonlinear_arith)
        requires
            out * (r_in + f) <= f * r_out,
            f <= amount_in,
            out <= r_out,
    {
        assert((r_in + amount_in) * (r_out - out) >= (r_in + f) * (r_out - out));
    }
    let m2 = swap_outcome(m, a_for_b, amount_in, min_out).1;
    if a_for_b {
        assert(reserve_a(m2) == r_in + amount_in);
        assert(reserve_b(m2) == r_out - out);
    } else {
        assert(reserve_b(m2) == r_in + amount_in);
        assert(reserve_a(m2) == r_out - out);
        assert(reserve_a(m2) * reserve_b(m2) == reserve_b(m2) * reserve_a(m2)) by (nonlinear_arith);
        assert(reserve_a(m) * reserve_b(m) == reserve_b(m) * reserve_a(m)) by (nonlinear_arith);
    }
}

/// Redeeming `lp` of the supply pays out at most that part of each
/// reserve, and burns exactly `lp` shares from the provider and the supply.
pub proof fn law_remove_proportional(m: StorageMap, provider: Seq<u8>, lp: u64, min_a: u64, min_b: u64)
    requires
        remove_liquidity_completes(m, provider, lp, min_a, min_b),
        remove_liquidity_outcome(m, provider, lp, min_a, min_b).0 is Ok,
    ensures
        ({
            let m2 = remove_liquidity_outcome(m, provider, lp, min_a, min_b).1;
            &&& (reserve_a(m) - reserve_a(m2)) * total_lp(m) <= lp * reserve_a(m)
            &&& (reserve_b(m) - reserve_b(m2)) * total_lp(m) <= lp * reserve_b(m)
            &&& total_lp(m2) == total_lp(m) - lp
            &&& lp_balance(m2, provider) == lp_balance(m, provider) - lp
        }),
{
    lemma_keys_distinct(provider);
    let total = total_lp(m);
    lemma_share_bounded(lp, reserve_a(m), total);
    lemma_share_bounded(lp, reserve_b(m), total);
    let out_a = share(lp, reserve_a(m), total);
    let out_b = share(lp, reserve_b(m), total);
    lemma_u64_cell_roundtrip((reserve_a(m) - out_a) as u64);
    lemma_u64_cell_roundtrip((reserve_b(m) - out_b) as u64);
    lemma_u64_cell_roundtrip((total - lp) as u64);
    lemma_u64_cell_roundtrip((lp_balance(m, provider) - lp) as u64);
    assert(out_a * total <= lp * reserve_a(m)) by (nonlinear_arith)
        requires
            out_a == lp * reserve_a(m) / (total as int),
            total > 0,
    ;
    assert(out_b * total <= lp * reserve_b(m)) by (nonlinear_arith)
        requires
            out_b == lp * reserve_b(m) / (total as int),
            total > 0,
    ;
}

/// The first deposit locks the minimum for ever: the supply is the
/// provider's new shares plus `MINIMUM_LIQUIDITY`.
pub proof fn law_first_deposit_locks_minimum(m: StorageMap, provider: Seq<u8>, a: u64, b: u64, min_lp: u64)
    requires
        total_lp(m) == 0,
        lp_balance(m, provider) == 0,
        add_liquidity_completes(m, provider, a, b, min_lp),
        add_liquidity_outcome(m, provider, a, b, min_lp).0 is Ok,
    ensures
        ({
            let m2 = add_liquidity_outcome(m, provider, a, b, min_lp).1;
            total_lp(m2) == lp_balance(m2, provider) + MINIMUM_LIQUIDITY
        }),
{
    lemma_keys_distinct(provider);
    let lp = lp_minted(m, a, b)->0;
    lemma_u64_cell_roundtrip((reserve_a(m) + a) as u64);
    lemma_u64_cell_roundtrip((reserve_b(m) + b) as u64);
    lemma_u64_cell_roundtrip((lp + MINIMUM_LIQUIDITY) as u64);
    lemma_u64_cell_roundtrip(lp);
}

/// A successful deposit adds both amounts to the reserves, and the shares
/// the provider receives are exactly what the supply grows by (plus the
/// locked minimum on the first deposit).
pub proof fn law_add_liquidity_deposits(m: StorageMap, provider: Seq<u8>, a: u64, b: u64, min_lp: u64)
    requires
        add_liquidity_completes(m, provider, a, b, min_lp),
        add_liquidity_outcome(m, provider, a, b, min_lp).0 is Ok,
    ensures
        ({
            let m2 = add_liquidity_outcome(m, provider, a, b, min_lp).1;
            let minted = lp_balance(m2, provider) - lp_balance(m, provider);
            &&& reserve_a(m2) == reserve_a(m) + a
            &&& reserve_b(m2) == reserve_b(m) + b
            &&& minted >= min_lp
            &&& total_lp(m2) == total_lp(m) + minted + if total_lp(m) == 0 { MINIMUM_LIQUIDITY as int } else { 0 }
        }),
{
    lemma_keys_distinct(provider);
    let lp = lp_minted(m, a, b)->0;
    lemma_u64_cell_roundtrip((reserve_a(m) + a) as u64);
    lemma_u64_cell_roundtrip((reserve_b(m) + b) as u64);
    if total_lp(m) == 0 {
        lemma_u64_cell_roundtrip((lp + MINIMUM_LIQUIDITY) as u64);
    } else {
        lemma_u64_cell_roundtrip((total_lp(m) + lp) as u64);
    }
    lemma_u64_cell_roundtrip((lp_balance(m, provider) + lp) as u64);
}

} // verus!

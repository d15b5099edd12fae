//! Staking with time-based rewards: users stake and unstake an amount;
//! rewards accrue per staked token at the owner's rate, in millionths, and
//! each user's pending rewards are settled against a snapshot of the
//! reward per token whenever the user acts, and paid out on a claim.

use vstd::prelude::*;
use crate::bytes::{le_bytes, le_nat, append_bytes, bytes_eq, address_at, read_u64_at, u64_le};
use crate::storage::Storage;
use crate::cells::{u64_cell, address_cell, read_u64, write_u64, read_address, lemma_u64_cell_roundtrip};
use crate::stablecoin::StorageMap;

verus! {

/// Reward per token is kept in millionths.
pub const PRECISION: u64 = 1_000_000;

pub const ERR_ONLY_OWNER: u64 = 1601;
pub const ERR_ZERO_AMOUNT: u64 = 1602;
pub const ERR_INSUFFICIENT_STAKE: u64 = 1603;
pub const ERR_NO_REWARDS_TO_CLAIM: u64 = 1604;
pub const ERR_STORAGE: u64 = 1605;
pub const ERR_INVALID_INPUT: u64 = 1606;

// ---------------------------------------------------------------------------
// Storage
// ---------------------------------------------------------------------------

/// `owner`
pub open spec fn key_owner() -> Seq<u8> {
    seq![0x6fu8, 0x77u8, 0x6eu8, 0x65u8, 0x72u8]
}

fn key_owner_vec() -> (r: Vec<u8>)
    ensures
        r@ == key_owner(),
{
    let v = vec![0x6fu8, 0x77u8, 0x6eu8, 0x65u8, 0x72u8];
    assert(v@ =~= key_owner());
    v
}

/// `rr`
pub open spec fn key_reward_rate() -> Seq<u8> {
    seq![0x72u8, 0x72u8]
}

fn key_reward_rate_vec() -> (r: Vec<u8>)
    ensures
        r@ == key_reward_rate(),
{
    let v = vec![0x72u8, 0x72u8];
    assert(v@ =~= key_reward_rate());
    v
}

/// `ts`
pub open spec fn key_total_staked() -> Seq<u8> {
    seq![0x74u8, 0x73u8]
}

fn key_total_staked_vec() -> (r: Vec<u8>)
    ensures
        r@ == key_total_staked(),
{
    let v = vec![0x74u8, 0x73u8];
    assert(v@ =~= key_total_staked());
    v
}

/// `lu`
pub open spec fn key_last_update() -> Seq<u8> {
    seq![0x6cu8, 0x75u8]
}

fn key_last_update_vec() -> (r: Vec<u8>)
    ensures
        r@ == key_last_update(),
{
    let v = vec![0x6cu8, 0x75u8];
    assert(v@ =~= key_last_update());
    v
}

/// `rpt`
pub open spec fn key_reward_per_token() -> Seq<u8> {
    seq![0x72u8, 0x70u8, 0x74u8]
}

fn key_reward_per_token_vec() -> (r: Vec<u8>)
    ensures
        r@ == key_reward_per_token(),
{
    let v = vec![0x72u8, 0x70u8, 0x74u8];
    assert(v@ =~= key_reward_per_token());
    v
}

/// `stk:` and the user.
pub open spec fn stake_key(user: Seq<u8>) -> Seq<u8> {
    seq![0x73u8, 0x74u8, 0x6bu8, 0x3au8] + user
}

fn stake_key_vec(user: &[u8; 32]) -> (r: Vec<u8>)
    ensures
        r@ == stake_key(user@),
{
    let mut v = vec![0x73u8, 0x74u8, 0x6bu8, 0x3au8];
    append_bytes(&mut v, user.as_slice());
    proof {
        assert(v@ =~= stake_key(user@));
    }
    v
}

/// `urpt:` and the user.
pub open spec fn user_rpt_key(user: Seq<u8>) -> Seq<u8> {
    seq![0x75u8, 0x72u8, 0x70u8, 0x74u8, 0x3au8] + user
}

fn user_rpt_key_vec(user: &[u8; 32]) -> (r: Vec<u8>)
    ensures
        r@ == user_rpt_key(user@),
{
    let mut v = vec![0x75u8, 0x72u8, 0x70u8, 0x74u8, 0x3au8];
    append_bytes(&mut v, user.as_slice());
    proof {
        assert(v@ =~= user_rpt_key(user@));
    }
    v
}

/// `rwd:` and the user.
pub open spec fn user_rewards_key(user: Seq<u8>) -> Seq<u8> {
    seq![0x72u8, 0x77u8, 0x64u8, 0x3au8] + user
}

fn user_rewards_key_vec(user: &[u8; 32]) -> (r: Vec<u8>)
    ensures
        r@ == user_rewards_key(user@),
{
    let mut v = vec![0x72u8, 0x77u8, 0x64u8, 0x3au8];
    append_bytes(&mut v, user.as_slice());
    proof {
        assert(v@ =~= user_rewards_key(user@));
    }
    v
}

/// The keys of the contract are pairwise distinct.
proof fn lemma_keys_distinct(user: Seq<u8>)
    requires
        user.len() == 32,
    ensures
        stake_key(user) != user_rpt_key(user),
        stake_key(user) != user_rewards_key(user),
        user_rpt_key(user) != user_rewards_key(user),
        stake_key(user) != key_total_staked(),
        stake_key(user) != key_reward_per_token(),
        stake_key(user) != key_last_update(),
        user_rpt_key(user) != key_reward_per_token(),
        user_rpt_key(user) != key_last_update(),
        user_rpt_key(user) != key_total_staked(),
        user_rewards_key(user) != key_reward_per_token(),
        user_rewards_key(user) != key_last_update(),
        user_rewards_key(user) != key_total_staked(),
        key_reward_per_token() != key_last_update(),
        key_reward_per_token() != key_total_staked(),
        key_reward_per_token() != key_reward_rate(),
        key_last_update() != key_total_staked(),
        key_last_update() != key_reward_rate(),
        key_total_staked() != key_reward_rate(),
        key_owner() != key_reward_rate(),
{
    assert(stake_key(user)[0] != user_rpt_key(user)[0]);
    assert(stake_key(user)[0] != user_rewards_key(user)[0]);
    assert(user_rpt_key(user).len() != user_rewards_key(user).len());
    assert(stake_key(user).len() == 36);
    assert(user_rpt_key(user).len() == 37);
    assert(user_rewards_key(user).len() == 36);
    assert(key_last_update()[0] != key_total_staked()[0]);
    assert(key_last_update()[0] != key_reward_rate()[0]);
    assert(key_total_staked()[0] != key_reward_rate()[0]);
}

/// A stored `u64`: 0 unless at least 8 bytes are stored.
pub open spec fn stored(m: StorageMap, k: Seq<u8>) -> u64 {
    match u64_cell(m.get(k)) {
        Some(v) => v,
        None => 0,
    }
}

/// `m` with `v` stored under `k` in 8 little-endian bytes.
pub open spec fn put(m: StorageMap, k: Seq<u8>, v: u64) -> StorageMap {
    m.insert(k, le_bytes(v as nat, 8))
}

pub open spec fn reward_rate(m: StorageMap) -> u64 {
    stored(m, key_reward_rate())
}

pub open spec fn total_staked(m: StorageMap) -> u64 {
    stored(m, key_total_staked())
}

pub open spec fn last_update(m: StorageMap) -> u64 {
    stored(m, key_last_update())
}

pub open spec fn reward_per_token(m: StorageMap) -> u64 {
    stored(m, key_reward_per_token())
}

pub open spec fn staked(m: StorageMap, user: Seq<u8>) -> u64 {
    stored(m, stake_key(user))
}

pub open spec fn user_rpt(m: StorageMap, user: Seq<u8>) -> u64 {
    stored(m, user_rpt_key(user))
}

pub open spec fn pending_rewards(m: StorageMap, user: Seq<u8>) -> u64 {
    stored(m, user_rewards_key(user))
}

/// The owner, when 32 bytes are stored for it.
pub open spec fn owner(m: StorageMap) -> Option<Seq<u8>> {
    address_cell(m.get(key_owner()))
}

fn read_stored(st: &Storage, key: &[u8]) -> (r: u64)
    ensures
        r == stored(st@, key@),
{
    match read_u64(st, key) {
        Some(v) => v,
        None => 0,
    }
}

pub fn read_stake(st: &Storage, user: &[u8; 32]) -> (r: u64)
    ensures
        r == staked(st@, user@),
{
    read_stored(st, stake_key_vec(user).as_slice())
}

pub fn read_user_rpt(st: &Storage, user: &[u8; 32]) -> (r: u64)
    ensures
        r == user_rpt(st@, user@),
{
    read_stored(st, user_rpt_key_vec(user).as_slice())
}

pub fn read_user_pending_rewards(st: &Storage, user: &[u8; 32]) -> (r: u64)
    ensures
        r == pending_rewards(st@, user@),
{
    read_stored(st, user_rewards_key_vec(user).as_slice())
}

pub fn read_owner(st: &Storage) -> (r: Result<[u8; 32], u64>)
    ensures
        match r {
            Ok(a) => owner(st@) == Some(a@),
            Err(e) => owner(st@) is None && e == ERR_STORAGE,
        },
{
    match read_address(st, key_owner_vec().as_slice()) {
        Some(a) => Ok(a),
        None => Err(ERR_STORAGE),
    }
}

// ---------------------------------------------------------------------------
// Reward accounting
// ---------------------------------------------------------------------------

/// The reward per token accrued since the last update, when anything is
/// staked and time has passed: rate times elapsed time, in millionths per
/// staked token.
pub open spec fn accrued(m: StorageMap, now: u64) -> int {
    (now - last_update(m)) * reward_rate(m) * PRECISION / (total_staked(m) as int)
}

/// The inputs on which the global update does not overflow.
pub open spec fn rpt_update_completes(m: StorageMap, now: u64) -> bool {
    total_staked(m) > 0 && now > last_update(m) ==> {
        &&& (now - last_update(m)) * reward_rate(m) <= u64::MAX
        &&& (now - last_update(m)) * reward_rate(m) * PRECISION <= u64::MAX
        &&& reward_per_token(m) + accrued(m, now) <= u64::MAX
    }
}

/// The global update: the reward per token grows by what accrued (when
/// anything is staked and time has passed), and the update time becomes
/// `now`.
pub open spec fn rpt_updated(m: StorageMap, now: u64) -> StorageMap {
    let m1 = if total_staked(m) > 0 && now > last_update(m) {
        put(m, key_reward_per_token(), (reward_per_token(m) + accrued(m, now)) as u64)
    } else {
        m
    };
    put(m1, key_last_update(), now)
}

pub fn update_reward_per_token(st: &mut Storage, current_time: u64)
    requires
        rpt_update_completes(old(st)@, current_time),
    ensures
        final(st)@ == rpt_updated(old(st)@, current_time),
{
    let total_staked = read_stored(st, key_total_staked_vec().as_slice());
    let last_update = read_stored(st, key_last_update_vec().as_slice());
    let reward_per_token = read_stored(st, key_reward_per_token_vec().as_slice());
    let reward_rate = read_stored(st, key_reward_rate_vec().as_slice());
    if total_staked > 0 && current_time > last_update {
        let time_delta = current_time - last_update;
        let rewards = time_delta * reward_rate;
        let new_rpt = reward_per_token + (rewards * PRECISION / total_staked);
        write_u64(st, key_reward_per_token_vec().as_slice(), new_rpt);
    }
    write_u64(st, key_last_update_vec().as_slice(), current_time);
}

/// What the user earned since its snapshot: its stake times the growth of
/// the reward per token, in whole units.
pub open spec fn earned(m: StorageMap, user: Seq<u8>) -> int {
    staked(m, user) * (reward_per_token(m) - user_rpt(m, user)) / (PRECISION as int)
}

/// The inputs on which the user's settlement does not overflow.
pub open spec fn user_update_completes(m: StorageMap, user: Seq<u8>) -> bool {
    staked(m, user) != 0 && reward_per_token(m) > user_rpt(m, user) ==> {
        &&& staked(m, user) * (reward_per_token(m) - user_rpt(m, user)) <= u64::MAX
        &&& pending_rewards(m, user) + earned(m, user) <= u64::MAX
    }
}

/// The user's settlement: a staker's pending rewards grow by what it
/// earned since its snapshot, and the snapshot becomes the current reward
/// per token; nothing changes for a user with no stake.
pub open spec fn user_updated(m: StorageMap, user: Seq<u8>) -> StorageMap {
    if staked(m, user) == 0 {
        m
    } else {
        let m1 = if reward_per_token(m) > user_rpt(m, user) {
            put(m, user_rewards_key(user), (pending_rewards(m, user) + earned(m, user)) as u64)
        } else {
            m
        };
        put(m1, user_rpt_key(user), reward_per_token(m))
    }
}

pub fn update_user_rewards(st: &mut Storage, user: &[u8; 32])
    requires
        user_update_completes(old(st)@, user@),
    ensures
        final(st)@ == user_updated(old(st)@, user@),
{
    let user_stake = read_stake(st, user);
    if user_stake == 0 {
        return;
    }
    let reward_per_token = read_stored(st, key_reward_per_token_vec().as_slice());
    let user_rpt = read_user_rpt(st, user);
    if reward_per_token > user_rpt {
        let pending = user_stake * (reward_per_token - user_rpt) / PRECISION;
        let current_rewards = read_user_pending_rewards(st, user);
        write_u64(st, user_rewards_key_vec(user).as_slice(), current_rewards + pending);
    }
    write_u64(st, user_rpt_key_vec(user).as_slice(), reward_per_token);
}

/// Both updates, global first.
pub open spec fn settled(m: StorageMap, user: Seq<u8>, now: u64) -> StorageMap {
    user_updated(rpt_updated(m, now), user)
}

pub open spec fn settle_completes(m: StorageMap, user: Seq<u8>, now: u64) -> bool {
    rpt_update_completes(m, now) && user_update_completes(rpt_updated(m, now), user)
}

// ---------------------------------------------------------------------------
// Operations
// ---------------------------------------------------------------------------

/// `init`: stores the owner and the reward rate and zeroes the total
/// staked, the update time and the reward per token.
pub open spec fn init_state(m: StorageMap, owner: Seq<u8>, rate: u64) -> StorageMap {
    put(put(put(put(m.insert(key_owner(), owner), key_reward_rate(), rate), key_total_staked(), 0), key_last_update(), 0), key_reward_per_token(), 0)
}

pub fn init(st: &mut Storage, owner: &[u8; 32], reward_rate: u64)
    ensures
        final(st)@ == init_state(old(st)@, owner@, reward_rate),
{
    st.write(key_owner_vec().as_slice(), owner.as_slice());
    write_u64(st, key_reward_rate_vec().as_slice(), reward_rate);
    write_u64(st, key_total_staked_vec().as_slice(), 0);
    write_u64(st, key_last_update_vec().as_slice(), 0);
    write_u64(st, key_reward_per_token_vec().as_slice(), 0);
}

pub open spec fn stake_completes(m: StorageMap, user: Seq<u8>, amount: u64, now: u64) -> bool {
    amount == 0 || {
        &&& settle_completes(m, user, now)
        &&& staked(settled(m, user, now), user) + amount <= u64::MAX
        &&& total_staked(settled(m, user, now)) + amount <= u64::MAX
    }
}

/// `stake`: after settling, the user's stake and the total grow by the
/// (non-zero) amount.
pub open spec fn stake_outcome(m: StorageMap, user: Seq<u8>, amount: u64, now: u64) -> (Result<(), u64>, StorageMap) {
    if amount == 0 {
        (Err(ERR_ZERO_AMOUNT), m)
    } else {
        let m2 = settled(m, user, now);
        let m3 = put(m2, stake_key(user), (staked(m2, user) + amount) as u64);
        (Ok(()), put(m3, key_total_staked(), (total_staked(m3) + amount) as u64))
    }
}

pub fn stake(st: &mut Storage, user: &[u8; 32], amount: u64, current_time: u64) -> (r: Result<(), u64>)
    requires
        stake_completes(old(st)@, user@, amount, current_time),
    ensures
        (r, final(st)@) == stake_outcome(old(st)@, user@, amount, current_time),
{
    if amount == 0 {
        return Err(ERR_ZERO_AMOUNT);
    }
    update_reward_per_token(st, current_time);
    update_user_rewards(st, user);
    let current_stake = read_stake(st, user);
    write_u64(st, stake_key_vec(user).as_slice(), current_stake + amount);
    proof {
        lemma_keys_distinct(user@);
    }
    let total_staked = read_stored(st, key_total_staked_vec().as_slice());
    write_u64(st, key_total_staked_vec().as_slice(), total_staked + amount);
    Ok(())
}

pub open spec fn unstake_completes(m: StorageMap, user: Seq<u8>, amount: u64, now: u64) -> bool {
    amount == 0 || staked(m, user) < amount || settle_completes(m, user, now)
}

/// `unstake`: a user with at least the (non-zero) amount staked settles and
/// takes it out; the total drops by it, at least to zero.
pub open spec fn unstake_outcome(m: StorageMap, user: Seq<u8>, amount: u64, now: u64) -> (Result<(), u64>, StorageMap) {
    if amount == 0 {
        (Err(ERR_ZERO_AMOUNT), m)
    } else if staked(m, user) < amount {
        (Err(ERR_INSUFFICIENT_STAKE), m)
    } else {
        let m2 = settled(m, user, now);
        let m3 = put(m2, stake_key(user), (staked(m, user) - amount) as u64);
        let total = total_staked(m3);
        (Ok(()), put(m3, key_total_staked(), if total < amount { 0 } else { (total - amount) as u64 }))
    }
}

pub fn unstake(st: &mut Storage, user: &[u8; 32], amount: u64, current_time: u64) -> (r: Result<(), u64>)
    requires
        unstake_completes(old(st)@, user@, amount, current_time),
    ensures
        (r, final(st)@) == unstake_outcome(old(st)@, user@, amount, current_time),
{
    if amount == 0 {
        return Err(ERR_ZERO_AMOUNT);
    }
    let current_stake = read_stake(st, user);
    if current_stake < amount {
        return Err(ERR_INSUFFICIENT_STAKE);
    }
    update_reward_per_token(st, current_time);
    update_user_rewards(st, user);
    write_u64(st, stake_key_vec(user).as_slice(), current_stake - amount);
    proof {
        lemma_keys_distinct(user@);
    }
    let total_staked = read_stored(st, key_total_staked_vec().as_slice());
    write_u64(st, key_total_staked_vec().as_slice(), total_staked.saturating_sub(amount));
    Ok(())
}

/// `claim_rewards`: settles, then pays out and clears the user's pending
/// rewards, answering them; with none pending it is refused, the
/// settlement having been made.
pub open spec fn claim_outcome(m: StorageMap, user: Seq<u8>, now: u64) -> (Result<u64, u64>, StorageMap) {
    let m2 = settled(m, user, now);
    let rewards = pending_rewards(m2, user);
    if rewards == 0 {
        (Err(ERR_NO_REWARDS_TO_CLAIM), m2)
    } else {
        (Ok(rewards), put(m2, user_rewards_key(user), 0))
    }
}

pub fn claim_rewards(st: &mut Storage, user: &[u8; 32], current_time: u64) -> (r: Result<u64, u64>)
    requires
        settle_completes(old(st)@, user@, current_time),
    ensures
        (r, final(st)@) == claim_outcome(old(st)@, user@, current_time),
{
    update_reward_per_token(st, current_time);
    update_user_rewards(st, user);
    let rewards = read_user_pending_rewards(st, user);
    if rewards == 0 {
        return Err(ERR_NO_REWARDS_TO_CLAIM);
    }
    write_u64(st, user_rewards_key_vec(user).as_slice(), 0);
    Ok(rewards)
}

/// `set_reward_rate`: the owner settles the global reward per token at the
/// old rate, then sets the new one.
pub open spec fn set_rate_outcome(m: StorageMap, caller: Seq<u8>, rate: u64, now: u64) -> (Result<(), u64>, StorageMap) {
    match owner(m) {
        None => (Err(ERR_STORAGE), m),
        Some(o) => if caller != o {
            (Err(ERR_ONLY_OWNER), m)
        } else {
            (Ok(()), put(rpt_updated(m, now), key_reward_rate(), rate))
        },
    }
}

pub fn set_reward_rate(st: &mut Storage, caller: &[u8; 32], new_rate: u64, current_time: u64) -> (r: Result<(), u64>)
    requires
        owner(old(st)@) == Some(caller@) ==> rpt_update_completes(old(st)@, current_time),
    ensures
        (r, final(st)@) == set_rate_outcome(old(st)@, caller@, new_rate, current_time),
{
    let owner = match read_owner(st) {
        Ok(o) => o,
        Err(e) => return Err(e),
    };
    if !bytes_eq(caller.as_slice(), owner.as_slice()) {
        return Err(ERR_ONLY_OWNER);
    }
    update_reward_per_token(st, current_time);
    write_u64(st, key_reward_rate_vec().as_slice(), new_rate);
    Ok(())
}


// ---------------------------------------------------------------------------
// Instructions
// ---------------------------------------------------------------------------

pub open spec fn word(input: Seq<u8>, off: int) -> u64 {
    le_nat(input.subrange(off, off + 8)) as u64
}

pub open spec fn account(input: Seq<u8>, off: int) -> Seq<u8> {
    input.subrange(off, off + 32)
}

/// The inputs on which an instruction runs to its end.
pub open spec fn instruction_completes(m: StorageMap, input: Seq<u8>) -> bool {
    if input.len() == 0 {
        true
    } else if input[0] == 1 && input.len() >= 49 {
        stake_completes(m, account(input, 1), word(input, 33), word(input, 41))
    } else if input[0] == 2 && input.len() >= 49 {
        unstake_completes(m, account(input, 1), word(input, 33), word(input, 41))
    } else if input[0] == 3 && input.len() >= 41 {
        settle_completes(m, account(input, 1), word(input, 33))
    } else if input[0] == 4 && input.len() >= 49 {
        owner(m) == Some(account(input, 1)) ==> rpt_update_completes(m, word(input, 41))
    } else {
        true
    }
}

/// An instruction: `0` initializes (`[owner:32][rate:8]`), `1` stakes and
/// `2` unstakes (`[user:32][amount:8][now:8]`), `3` claims (`[user:32]
/// [now:8]`, answering the rewards in 8 bytes), `4` sets the rate
/// (`[caller:32][rate:8][now:8]`), `5` answers a user's stake in 8 bytes
/// (`[user:32]`); a short input is invalid, an empty input or another
/// opcode does nothing.
pub open spec fn instruction_outcome(m: StorageMap, input: Seq<u8>) -> (Result<Seq<u8>, u64>, StorageMap) {
    let unit = |o: (Result<(), u64>, StorageMap)|
        (match o.0 {
            Ok(_) => Ok(Seq::<u8>::empty()),
            Err(e) => Err(e),
        }, o.1);
    if input.len() == 0 {
        (Ok(Seq::empty()), m)
    } else if input[0] == 0 {
        if input.len() < 41 {
            (Err(ERR_INVALID_INPUT), m)
        } else {
            (Ok(Seq::empty()), init_state(m, account(input, 1), word(input, 33)))
        }
    } else if input[0] == 1 || input[0] == 2 || input[0] == 4 {
        if input.len() < 49 {
            (Err(ERR_INVALID_INPUT), m)
        } else if input[0] == 1 {
            unit(stake_outcome(m, account(input, 1), word(input, 33), word(input, 41)))
        } else if input[0] == 2 {
            unit(unstake_outcome(m, account(input, 1), word(input, 33), word(input, 41)))
        } else {
            unit(set_rate_outcome(m, account(input, 1), word(input, 33), word(input, 41)))
        }
    } else if input[0] == 3 {
        if input.len() < 41 {
            (Err(ERR_INVALID_INPUT), m)
        } else {
            let (r, m2) = claim_outcome(m, account(input, 1), word(input, 33));
            (match r {
                Ok(v) => Ok(le_bytes(v as nat, 8)),
                Err(e) => Err(e),
            }, m2)
        }
    } else if input[0] == 5 {
        if input.len() < 33 {
            (Err(ERR_INVALID_INPUT), m)
        } else {
            (Ok(le_bytes(staked(m, account(input, 1)) as nat, 8)), m)
        }
    } else {
        (Ok(Seq::empty()), m)
    }
}

fn no_data(r: Result<(), u64>) -> (o: Result<Vec<u8>, u64>)
    ensures
        match r {
            Ok(_) => o matches Ok(v) && v@ == Seq::<u8>::empty(),
            Err(e) => o == Err::<Vec<u8>, u64>(e),
        },
{
    match r {
        Ok(_) => Ok(Vec::new()),
        Err(e) => Err(e),
    }
}

pub fn process_instruction(st: &mut Storage, input: &[u8]) -> (r: Result<Vec<u8>, u64>)
    requires
        instruction_completes(old(st)@, input@),
    ensures
        final(st)@ == instruction_outcome(old(st)@, input@).1,
        match r {
            Ok(v) => instruction_outcome(old(st)@, input@).0 == Ok::<Seq<u8>, u64>(v@),
            Err(e) => instruction_outcome(old(st)@, input@).0 == Err::<Seq<u8>, u64>(e),
        },
{
    if input.len() == 0 {
        return Ok(Vec::new());
    }
    match input[0] {
        0 => {
            if input.len() < 41 {
                return Err(ERR_INVALID_INPUT);
            }
            let owner = address_at(input, 1);
            let reward_rate = read_u64_at(input, 33);
            init(st, &owner, reward_rate);
            Ok(Vec::new())
        },
        1 | 2 | 4 => {
            if input.len() < 49 {
                return Err(ERR_INVALID_INPUT);
            }
            let who = address_at(input, 1);
            let amount = read_u64_at(input, 33);
            let current_time = read_u64_at(input, 41);
            if input[0] == 1 {
                no_data(stake(st, &who, amount, current_time))
            } else if input[0] == 2 {
                no_data(unstake(st, &who, amount, current_time))
            } else {
                no_data(set_reward_rate(st, &who, amount, current_time))
            }
        },
        3 => {
            if input.len() < 41 {
                return Err(ERR_INVALID_INPUT);
            }
            let user = address_at(input, 1);
            let current_time = read_u64_at(input, 33);
            match claim_rewards(st, &user, current_time) {
                Ok(v) => Ok(u64_le(v)),
                Err(e) => Err(e),
            }
        },
        5 => {
            if input.len() < 33 {
                return Err(ERR_INVALID_INPUT);
            }
            let user = address_at(input, 1);
            Ok(u64_le(read_stake(st, &user)))
        },
        _ => Ok(Vec::new()),
    }
}

// ---------------------------------------------------------------------------
// Laws
// ---------------------------------------------------------------------------

/// The settlement never changes a stake or the total staked.
proof fn lemma_settle_keeps_stakes(m: StorageMap, user: Seq<u8>, now: u64)
    requires
        user.len() == 32,
    ensures
        staked(settled(m, user, now), user) == staked(m, user),
        total_staked(settled(m, user, now)) == total_staked(m),
{
    lemma_keys_distinct(user);
}

/// Staking adds the amount to the user's stake and to the total; unstaking
/// takes it out of both, and never more than the user staked.
pub proof fn law_stake_unstake(m: StorageMap, user: Seq<u8>, amount: u64, now: u64)
    requires
        user.len() == 32,
    ensures
        stake_completes(m, user, amount, now) && stake_outcome(m, user, amount, now).0 is Ok ==> {
            let m2 = stake_outcome(m, user, amount, now).1;
            &&& staked(m2, user) == staked(m, user) + amount
            &&& total_staked(m2) == total_staked(m) + amount
        },
        unstake_completes(m, user, amount, now) && unstake_outcome(m, user, amount, now).0 is Ok ==> {
            let m2 = unstake_outcome(m, user, amount, now).1;
            &&& amount <= staked(m, user)
            &&& staked(m2, user) == staked(m, user) - amount
            &&& total_staked(m2) == if total_staked(m) < amount { 0 } else { total_staked(m) - amount }
        },
{
    lemma_keys_distinct(user);
    lemma_settle_keeps_stakes(m, user, now);
    let m2 = settled(m, user, now);
    lemma_u64_cell_roundtrip((staked(m2, user) + amount) as u64);
    lemma_u64_cell_roundtrip((total_staked(m2) + amount) as u64);
    lemma_u64_cell_roundtrip((staked(m, user) - amount) as u64);
    if total_staked(m2) >= amount {
        lemma_u64_cell_roundtrip((total_staked(m2) - amount) as u64);
    }
    lemma_u64_cell_roundtrip(0);
}

/// A claim pays out the pending rewards and clears them: a second claim at
/// the same time finds nothing to claim.
pub proof fn law_claim_once(m: StorageMap, user: Seq<u8>, now: u64)
    requires
        user.len() == 32,
        settle_completes(m, user, now),
        claim_outcome(m, user, now).0 is Ok,
    ensures
        ({
            let m2 = claim_outcome(m, user, now).1;
            &&& pending_rewards(m2, user) == 0
            &&& settle_completes(m2, user, now)
            &&& claim_outcome(m2, user, now).0 == Err::<u64, u64>(ERR_NO_REWARDS_TO_CLAIM)
        }),
{
    lemma_keys_distinct(user);
    let m1 = rpt_updated(m, now);
    let m2 = claim_outcome(m, user, now).1;
    lemma_u64_cell_roundtrip(0);
    lemma_u64_cell_roundtrip(now);
    if staked(m1, user) != 0 {
        lemma_u64_cell_roundtrip(reward_per_token(m1));
    }
    assert(last_update(m2) == now);
    assert(rpt_updated(m2, now) == put(m2, key_last_update(), now));
}

/// Only the owner sets the reward rate.
pub proof fn law_only_owner_sets_rate(m: StorageMap, caller: Seq<u8>, rate: u64, now: u64)
    requires
        set_rate_outcome(m, caller, rate, now).0 is Ok,
    ensures
        owner(m) == Some(caller),
        reward_rate(set_rate_outcome(m, caller, rate, now).1) == rate,
{
    lemma_u64_cell_roundtrip(rate);
}

} // verus!

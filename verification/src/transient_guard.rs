//! A reentrancy guard kept in transient storage, which the host clears at
//! the end of each transaction: the lock is a flag there, and the balance
//! it protects lives in persistent storage.
//!
//! As with the persistent guard, a withdrawal pays its caller through an
//! external call and so runs in two steps around that payment.

use vstd::prelude::*;
use crate::bytes::le_bytes;
use crate::storage::Storage;
use crate::cells::{u64_cell, read_u64, write_u64, lemma_u64_cell_roundtrip};
use crate::stablecoin::StorageMap;
use crate::reentrancy_guard::Step;

verus! {

/// The status of a withdrawal refused for re-entry.
pub const ERR_LOCKED: u64 = 1;
/// The status of a withdrawal beyond the balance.
pub const ERR_INSUFFICIENT_BALANCE: u64 = 2;
/// What the example transaction deposits, then withdraws.
pub const DEMO_DEPOSIT: u64 = 1000;
pub const DEMO_WITHDRAWAL: u64 = 100;

/// `LOCK`
pub open spec fn key_lock() -> Seq<u8> {
    seq![0x4cu8, 0x4fu8, 0x43u8, 0x4bu8]
}

fn key_lock_vec() -> (r: Vec<u8>)
    ensures
        r@ == key_lock(),
{
    let v = vec![0x4cu8, 0x4fu8, 0x43u8, 0x4bu8];
    assert(v@ =~= key_lock());
    v
}

/// `balance`
pub open spec fn key_balance() -> Seq<u8> {
    seq![0x62u8, 0x61u8, 0x6cu8, 0x61u8, 0x6eu8, 0x63u8, 0x65u8]
}

fn key_balance_vec() -> (r: Vec<u8>)
    ensures
        r@ == key_balance(),
{
    let v = vec![0x62u8, 0x61u8, 0x6cu8, 0x61u8, 0x6eu8, 0x63u8, 0x65u8];
    assert(v@ =~= key_balance());
    v
}

/// The lock is held: a non-zero first byte is in transient storage.
pub open spec fn locked(t: StorageMap) -> bool {
    match t.get(key_lock()) {
        Some(s) => s.len() > 0 && s[0] != 0,
        None => false,
    }
}

pub open spec fn balance(p: StorageMap) -> u64 {
    match u64_cell(p.get(key_balance())) {
        Some(v) => v,
        None => 0,
    }
}

pub open spec fn with_lock(t: StorageMap, held: bool) -> StorageMap {
    t.insert(key_lock(), if held { seq![1u8] } else { seq![0u8] })
}

pub open spec fn with_balance(p: StorageMap, v: u64) -> StorageMap {
    p.insert(key_balance(), le_bytes(v as nat, 8))
}

pub fn is_locked(transient: &Storage) -> (r: bool)
    ensures
        r == locked(transient@),
{
    let (buf, len) = transient.read(key_lock_vec().as_slice(), 1);
    len > 0 && buf[0] != 0
}

fn put_lock(transient: &mut Storage, held: bool)
    ensures
        final(transient)@ == with_lock(old(transient)@, held),
{
    let v: Vec<u8> = if held {
        vec![1u8]
    } else {
        vec![0u8]
    };
    assert(v@ =~= if held { seq![1u8] } else { seq![0u8] });
    transient.write(key_lock_vec().as_slice(), v.as_slice());
}

pub fn set_lock(transient: &mut Storage)
    ensures
        final(transient)@ == with_lock(old(transient)@, true),
{
    put_lock(transient, true);
}

pub fn clear_lock(transient: &mut Storage)
    ensures
        final(transient)@ == with_lock(old(transient)@, false),
{
    put_lock(transient, false);
}

pub fn read_balance(persistent: &Storage) -> (r: u64)
    ensures
        r == balance(persistent@),
{
    match read_u64(persistent, key_balance_vec().as_slice()) {
        Some(v) => v,
        None => 0,
    }
}

pub fn write_balance(persistent: &mut Storage, balance: u64)
    ensures
        final(persistent)@ == with_balance(old(persistent)@, balance),
{
    write_u64(persistent, key_balance_vec().as_slice(), balance);
}

/// A guarded deposit: refused while locked, else the balance grows by the
/// amount (saturating), the lock being taken and released around it.
pub open spec fn deposit_outcome(p: StorageMap, t: StorageMap, amount: u64) -> (u64, StorageMap, StorageMap) {
    if locked(t) {
        (ERR_LOCKED, p, t)
    } else {
        let b = balance(p);
        let v = if b + amount > u64::MAX { u64::MAX } else { (b + amount) as u64 };
        (0, with_balance(p, v), with_lock(with_lock(t, true), false))
    }
}

pub fn deposit(persistent: &mut Storage, transient: &mut Storage, amount: u64) -> (r: u64)
    ensures
        (r, final(persistent)@, final(transient)@) == deposit_outcome(old(persistent)@, old(transient)@, amount),
{
    if is_locked(transient) {
        return ERR_LOCKED;
    }
    set_lock(transient);
    let balance = read_balance(persistent);
    write_balance(persistent, balance.saturating_add(amount));
    clear_lock(transient);
    0
}

/// The first step of a guarded withdrawal: refused while locked; with too
/// small a balance the lock is released and the withdrawal refused; else
/// the balance is debited, the lock stays held, and the amount is to be
/// paid.
pub open spec fn withdraw_outcome(p: StorageMap, t: StorageMap, amount: u64) -> (Step, StorageMap, StorageMap) {
    if locked(t) {
        (Step::Done(ERR_LOCKED), p, t)
    } else if balance(p) < amount {
        (Step::Done(ERR_INSUFFICIENT_BALANCE), p, with_lock(with_lock(t, true), false))
    } else {
        (Step::Pay(amount), with_balance(p, (balance(p) - amount) as u64), with_lock(t, true))
    }
}

pub fn withdraw(persistent: &mut Storage, transient: &mut Storage, amount: u64) -> (r: Step)
    ensures
        (r, final(persistent)@, final(transient)@) == withdraw_outcome(old(persistent)@, old(transient)@, amount),
{
    if is_locked(transient) {
        return Step::Done(ERR_LOCKED);
    }
    set_lock(transient);
    let balance = read_balance(persistent);
    if balance < amount {
        clear_lock(transient);
        return Step::Done(ERR_INSUFFICIENT_BALANCE);
    }
    write_balance(persistent, balance - amount);
    Step::Pay(amount)
}

/// The second step of a withdrawal, after the payment: the lock is
/// released.
pub fn finish_withdraw(transient: &mut Storage) -> (r: u64)
    ensures
        r == 0,
        final(transient)@ == with_lock(old(transient)@, false),
{
    clear_lock(transient);
    0
}

/// The example transaction: deposits 1000, then starts withdrawing 100.
pub open spec fn demo_outcome(p: StorageMap, t: StorageMap) -> (Step, StorageMap, StorageMap) {
    let (_, p1, t1) = deposit_outcome(p, t, DEMO_DEPOSIT);
    withdraw_outcome(p1, t1, DEMO_WITHDRAWAL)
}

pub fn entrypoint(persistent: &mut Storage, transient: &mut Storage) -> (r: Step)
    ensures
        (r, final(persistent)@, final(transient)@) == demo_outcome(old(persistent)@, old(transient)@),
{
    let _ = deposit(persistent, transient, DEMO_DEPOSIT);
    withdraw(persistent, transient, DEMO_WITHDRAWAL)
}

/// While a withdrawal holds the lock, a re-entering deposit or withdrawal
/// is refused and changes nothing; finishing releases the lock.
pub proof fn law_lock_refuses_reentry(p: StorageMap, t: StorageMap, amount: u64, amount2: u64)
    requires
        withdraw_outcome(p, t, amount).0 is Pay,
    ensures
        ({
            let (_, p2, t2) = withdraw_outcome(p, t, amount);
            &&& balance(p2) == balance(p) - amount
            &&& deposit_outcome(p2, t2, amount2) == (ERR_LOCKED, p2, t2)
            &&& withdraw_outcome(p2, t2, amount2) == (Step::Done(ERR_LOCKED), p2, t2)
            &&& !locked(with_lock(t2, false))
        }),
{
    lemma_u64_cell_roundtrip((balance(p) - amount) as u64);
}

/// On fresh transient storage the example transaction always reaches the
/// payment of its withdrawal: the lock is free, and the deposit just made
/// covers it.
pub proof fn law_demo_pays(p: StorageMap)
    ensures
        demo_outcome(p, Map::empty()).0 == Step::Pay(DEMO_WITHDRAWAL),
{
    let b = balance(p);
    let v = if b + DEMO_DEPOSIT > u64::MAX { u64::MAX } else { (b + DEMO_DEPOSIT) as u64 };
    lemma_u64_cell_roundtrip(v);
}

} // verus!

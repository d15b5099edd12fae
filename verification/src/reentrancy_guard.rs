//! A reentrancy guard in the OpenZeppelin style, kept in persistent
//! storage: a protected operation refuses to start while another is in
//! progress, marks itself entered, and marks the contract not entered again
//! when done.
//!
//! A withdrawal pays the caller through an external call, during which the
//! caller may call back into the contract.  It therefore runs in two steps:
//! the first debits the balance and leaves the guard entered, answering the
//! payment to make; once the host has made it, the second releases the
//! guard.

use vstd::prelude::*;
use crate::bytes::{le_bytes, le_nat, read_u64_at, copy_range};
use crate::storage::Storage;
use crate::cells::{u64_cell, read_u64, write_u64, lemma_u64_cell_roundtrip};
use crate::stablecoin::StorageMap;

verus! {

pub const NOT_ENTERED: u8 = 1;
pub const ENTERED: u8 = 2;

pub const OP_WITHDRAW: u8 = 0x01;
pub const OP_DEPOSIT: u8 = 0x02;
pub const OP_GET_BALANCE: u8 = 0x10;

pub const SUCCESS: u64 = 0;
pub const ERR_REENTRANT_CALL: u64 = 1001;
pub const ERR_INSUFFICIENT_BALANCE: u64 = 1002;
pub const ERR_STORAGE_WRITE_FAILED: u64 = 1003;
pub const ERR_INVALID_INSTRUCTION: u64 = 1005;
pub const ERR_INVALID_PARAMS: u64 = 1006;

/// The most input bytes an instruction is read from.
pub const MAX_INPUT: usize = 1024;

/// Where a guarded operation stands when the contract hands control back.
pub enum Step {
    /// Finished, with this status.
    Done(u64),
    /// The balance was debited and the guard is held: the contract now pays
    /// this amount to its caller by an external call, and then finishes the
    /// withdrawal.
    Pay(u64),
}

// ---------------------------------------------------------------------------
// Storage
// ---------------------------------------------------------------------------

/// `reentrancy_status`
pub open spec fn key_status() -> Seq<u8> {
    seq![0x72u8, 0x65u8, 0x65u8, 0x6eu8, 0x74u8, 0x72u8, 0x61u8, 0x6eu8, 0x63u8, 0x79u8, 0x5fu8, 0x73u8, 0x74u8, 0x61u8, 0x74u8, 0x75u8, 0x73u8]
}

fn key_status_vec() -> (r: Vec<u8>)
    ensures
        r@ == key_status(),
{
    let v = vec![0x72u8, 0x65u8, 0x65u8, 0x6eu8, 0x74u8, 0x72u8, 0x61u8, 0x6eu8, 0x63u8, 0x79u8, 0x5fu8, 0x73u8, 0x74u8, 0x61u8, 0x74u8, 0x75u8, 0x73u8];
    assert(v@ =~= key_status());
    v
}

/// `balance`
pub open spec fn key_balance() -> Seq<u8> {
    seq![0x62u8, 0x61u8, 0x6cu8, 0x61u8, 0x6eu8, 0x63u8, 0x65u8]
}

fn key_balance_vec() -> (r: Vec<u8>)
    ensures
        r@ == key_balance(),
{
    let v = vec![0x62u8, 0x61u8, 0x6cu8, 0x61u8, 0x6eu8, 0x63u8, 0x65u8];
    assert(v@ =~= key_balance());
    v
}

proof fn lemma_keys_distinct()
    ensures
        key_status() != key_balance(),
{
    assert(key_status().len() != key_balance().len());
}

/// The guard is held: the first stored status byte is `ENTERED`.
pub open spec fn entered(m: StorageMap) -> bool {
    match m.get(key_status()) {
        Some(s) => s.len() > 0 && s[0] == ENTERED,
        None => false,
    }
}

pub open spec fn balance(m: StorageMap) -> u64 {
    match u64_cell(m.get(key_balance())) {
        Some(v) => v,
        None => 0,
    }
}

/// `m` with the guard status set.
pub open spec fn with_status(m: StorageMap, status: u8) -> StorageMap {
    m.insert(key_status(), seq![status])
}

/// `m` with the balance set.
pub open spec fn with_balance(m: StorageMap, v: u64) -> StorageMap {
    m.insert(key_balance(), le_bytes(v as nat, 8))
}

pub fn is_entered(st: &Storage) -> (r: bool)
    ensures
        r == entered(st@),
{
    let (buf, len) = st.read(key_status_vec().as_slice(), 1);
    if len == 0 {
        return false;
    }
    buf[0] == ENTERED
}

fn set_status(st: &mut Storage, status: u8)
    ensures
        final(st)@ == with_status(old(st)@, status),
{
    let v = vec![status];
    assert(v@ =~= seq![status]);
    st.write(key_status_vec().as_slice(), v.as_slice());
}

pub fn enter(st: &mut Storage)
    ensures
        final(st)@ == with_status(old(st)@, ENTERED),
{
    set_status(st, ENTERED);
}

pub fn leave(st: &mut Storage)
    ensures
        final(st)@ == with_status(old(st)@, NOT_ENTERED),
{
    set_status(st, NOT_ENTERED);
}

pub fn read_balance(st: &Storage) -> (r: u64)
    ensures
        r == balance(st@),
{
    match read_u64(st, key_balance_vec().as_slice()) {
        Some(v) => v,
        None => 0,
    }
}

pub fn write_balance(st: &mut Storage, balance: u64)
    ensures
        final(st)@ == with_balance(old(st)@, balance),
{
    write_u64(st, key_balance_vec().as_slice(), balance);
}

// ---------------------------------------------------------------------------
// Operations
// ---------------------------------------------------------------------------

/// Setting up: the guard not entered and a zero balance.
pub open spec fn initialized(m: StorageMap) -> StorageMap {
    with_balance(with_status(m, NOT_ENTERED), 0)
}

pub fn initialize(st: &mut Storage)
    ensures
        final(st)@ == initialized(old(st)@),
{
    leave(st);
    write_balance(st, 0);
}

/// A guarded deposit: refused while entered, else the balance grows by the
/// amount (saturating) and the guard ends not entered.
pub open spec fn deposit_outcome(m: StorageMap, amount: u64) -> (u64, StorageMap) {
    if entered(m) {
        (ERR_REENTRANT_CALL, m)
    } else {
        let b = balance(m);
        let v = if b + amount > u64::MAX { u64::MAX } else { (b + amount) as u64 };
        (SUCCESS, with_status(with_balance(with_status(m, ENTERED), v), NOT_ENTERED))
    }
}

pub fn deposit(st: &mut Storage, amount: u64) -> (r: u64)
    ensures
        (r, final(st)@) == deposit_outcome(old(st)@, amount),
{
    if is_entered(st) {
        return ERR_REENTRANT_CALL;
    }
    enter(st);
    proof {
        lemma_keys_distinct();
    }
    let current_balance = read_balance(st);
    write_balance(st, current_balance.saturating_add(amount));
    leave(st);
    SUCCESS
}

/// The first step of a guarded withdrawal: refused while entered; with too
/// small a balance the guard is released and the withdrawal refused; else
/// the balance is debited, the guard stays entered, and the amount is to
/// be paid.
pub open spec fn withdraw_outcome(m: StorageMap, amount: u64) -> (Step, StorageMap) {
    if entered(m) {
        (Step::Done(ERR_REENTRANT_CALL), m)
    } else {
        let m1 = with_status(m, ENTERED);
        if balance(m1) < amount {
            (Step::Done(ERR_INSUFFICIENT_BALANCE), with_status(m1, NOT_ENTERED))
        } else {
            (Step::Pay(amount), with_balance(m1, (balance(m1) - amount) as u64))
        }
    }
}

pub fn withdraw(st: &mut Storage, amount: u64) -> (r: Step)
    ensures
        (r, final(st)@) == withdraw_outcome(old(st)@, amount),
{
    if is_entered(st) {
        return Step::Done(ERR_REENTRANT_CALL);
    }
    enter(st);
    let current_balance = read_balance(st);
    if current_balance < amount {
        leave(st);
        return Step::Done(ERR_INSUFFICIENT_BALANCE);
    }
    write_balance(st, current_balance - amount);
    Step::Pay(amount)
}

/// The second step of a withdrawal, after the payment: the guard is
/// released.
pub fn finish_withdraw(st: &mut Storage) -> (r: u64)
    ensures
        r == SUCCESS,
        final(st)@ == with_status(old(st)@, NOT_ENTERED),
{
    leave(st);
    SUCCESS
}

pub open spec fn amount_param(p: Seq<u8>) -> u64 {
    le_nat(p.subrange(0, 8)) as u64
}

/// The little-endian `u64` the parameters start with, when they hold one.
pub fn parse_u64(bytes: &[u8]) -> (r: Result<u64, ()>)
    ensures
        bytes@.len() < 8 ==> r is Err,
        bytes@.len() >= 8 ==> r == Ok::<u64, ()>(amount_param(bytes@)),
{
    if bytes.len() < 8 {
        return Err(());
    }
    Ok(read_u64_at(bytes, 0))
}

/// `OP_DEPOSIT`: a guarded deposit of the amount the parameters hold.
pub fn op_deposit(st: &mut Storage, params: &[u8]) -> (r: u64)
    ensures
        params@.len() < 8 ==> r == ERR_INVALID_PARAMS && final(st)@ == old(st)@,
        params@.len() >= 8 ==> (r, final(st)@) == deposit_outcome(old(st)@, amount_param(params@)),
{
    match parse_u64(params) {
        Ok(amount) => deposit(st, amount),
        Err(_) => ERR_INVALID_PARAMS,
    }
}

/// `OP_WITHDRAW`: the first step of a guarded withdrawal of the amount the
/// parameters hold.
pub fn op_withdraw(st: &mut Storage, params: &[u8]) -> (r: Step)
    ensures
        params@.len() < 8 ==> r == Step::Done(ERR_INVALID_PARAMS) && final(st)@ == old(st)@,
        params@.len() >= 8 ==> (r, final(st)@) == withdraw_outcome(old(st)@, amount_param(params@)),
{
    match parse_u64(params) {
        Ok(amount) => withdraw(st, amount),
        Err(_) => Step::Done(ERR_INVALID_PARAMS),
    }
}

/// `OP_GET_BALANCE`: reads the balance and succeeds.
pub fn op_get_balance(st: &Storage) -> (r: u64)
    ensures
        r == SUCCESS,
{
    let _balance = get_balance(st);
    SUCCESS
}

/// The balance, read.
pub fn get_balance(st: &Storage) -> (r: u64)
    ensures
        r == balance(st@),
{
    read_balance(st)
}

/// The simulated attack: a withdrawal of 50, and, while it still holds the
/// guard (before its payment is finished), a second withdrawal of 50 that
/// re-enters; then the first withdrawal is finished.  The attack counts as
/// stopped (0) only if the second withdrawal is refused as re-entrant, and
/// a failed first withdrawal's status is answered.  The amounts to pay the
/// caller are answered too, one per withdrawal that reached its payment.
pub open spec fn attack_outcome(m: StorageMap) -> (u64, Seq<u64>, StorageMap) {
    let (s1, m1) = withdraw_outcome(m, 50);
    match s1 {
        Step::Done(code) => (code, Seq::empty(), m1),
        Step::Pay(a) => {
            let (s2, m2) = withdraw_outcome(m1, 50);
            let m3 = with_status(m2, NOT_ENTERED);
            match s2 {
                Step::Done(code) => (if code == ERR_REENTRANT_CALL { 0 } else { 1 }, seq![a], m3),
                Step::Pay(b) => (1, seq![a, b], m3),
            }
        },
    }
}

pub fn attempt_reentrancy_attack(st: &mut Storage) -> (r: (u64, Vec<u64>))
    ensures
        (r.0, r.1@, final(st)@) == attack_outcome(old(st)@),
{
    let mut payments: Vec<u64> = Vec::new();
    let first = match withdraw(st, 50) {
        Step::Done(code) => {
            return (code, payments);
        },
        Step::Pay(a) => a,
    };
    payments.push(first);
    let second = withdraw(st, 50);
    let status = match second {
        Step::Done(code) => if code == ERR_REENTRANT_CALL {
            0
        } else {
            1
        },
        Step::Pay(b) => {
            payments.push(b);
            1
        },
    };
    finish_withdraw(st);
    (status, payments)
}

/// The guard stops the simulated attack: when the first withdrawal reaches
/// its payment, the re-entering second one is refused, the attack answers
/// 0, only the first amount is paid, and the guard is released with the
/// balance debited once.
pub proof fn law_reentrant_withdrawal_refused(m: StorageMap)
    requires
        withdraw_outcome(m, 50).0 is Pay,
    ensures
        attack_outcome(m).0 == 0,
        attack_outcome(m).1 == seq![50u64],
        attack_outcome(m).2 == with_status(withdraw_outcome(m, 50).1, NOT_ENTERED),
{
    lemma_keys_distinct();
}

/// An instruction (at most 1024 bytes are read): an empty one sets the
/// contract up; `0x02` deposits and `0x01` withdraws `[amount:8]`; `0x10`
/// succeeds without changing anything.
pub open spec fn instruction_outcome(m: StorageMap, data: Seq<u8>) -> (Step, StorageMap) {
    let input = if data.len() <= MAX_INPUT {
        data
    } else {
        data.take(MAX_INPUT as int)
    };
    if input.len() == 0 {
        (Step::Done(SUCCESS), initialized(m))
    } else {
        let op = input[0];
        let p = input.subrange(1, input.len() as int);
        if op == OP_DEPOSIT || op == OP_WITHDRAW {
            if p.len() < 8 {
                (Step::Done(ERR_INVALID_PARAMS), m)
            } else if op == OP_DEPOSIT {
                (Step::Done(deposit_outcome(m, amount_param(p)).0), deposit_outcome(m, amount_param(p)).1)
            } else {
                withdraw_outcome(m, amount_param(p))
            }
        } else if op == OP_GET_BALANCE {
            (Step::Done(SUCCESS), m)
        } else {
            (Step::Done(ERR_INVALID_INSTRUCTION), m)
        }
    }
}

pub fn entrypoint(st: &mut Storage, data: &[u8]) -> (r: Step)
    ensures
        (r, final(st)@) == instruction_outcome(old(st)@, data@),
{
    let len = if data.len() <= MAX_INPUT {
        data.len()
    } else {
        MAX_INPUT
    };
    if len == 0 {
        initialize(st);
        return Step::Done(SUCCESS);
    }
    let input = copy_range(data, 0, len);
    proof {
        assert(input@ =~= (if data@.len() <= MAX_INPUT { data@ } else { data@.take(MAX_INPUT as int) }));
    }
    let opcode = input[0];
    let params = copy_range(input.as_slice(), 1, len - 1);
    if opcode == OP_DEPOSIT || opcode == OP_WITHDRAW {
        if params.len() < 8 {
            return Step::Done(ERR_INVALID_PARAMS);
        }
        let amount = read_u64_at(params.as_slice(), 0);
        if opcode == OP_DEPOSIT {
            Step::Done(deposit(st, amount))
        } else {
            withdraw(st, amount)
        }
    } else if opcode == OP_GET_BALANCE {
        Step::Done(op_get_balance(st))
    } else {
        Step::Done(ERR_INVALID_INSTRUCTION)
    }
}

// ---------------------------------------------------------------------------
// Laws
// ---------------------------------------------------------------------------

/// While a withdrawal is paying out, every deposit or withdrawal that
/// re-enters the contract is refused and changes nothing; a withdrawal
/// never takes more than the balance, and finishing it releases the guard.
pub proof fn law_reentry_refused(m: StorageMap, amount: u64, data: Seq<u8>)
    requires
        withdraw_outcome(m, amount).0 is Pay,
        data.len() > 0,
        data[0] == OP_DEPOSIT || data[0] == OP_WITHDRAW,
        data.len() >= 9,
    ensures
        ({
            let m2 = withdraw_outcome(m, amount).1;
            &&& amount <= balance(m)
            &&& balance(m2) == balance(m) - amount
            &&& entered(m2)
            &&& instruction_outcome(m2, data) == (Step::Done(ERR_REENTRANT_CALL), m2)
            &&& !entered(with_status(m2, NOT_ENTERED))
        }),
{
    lemma_keys_distinct();
    lemma_u64_cell_roundtrip((balance(m) - amount) as u64);
    let input = if data.len() <= MAX_INPUT {
        data
    } else {
        data.take(MAX_INPUT as int)
    };
    assert(input.subrange(1, input.len() as int).len() >= 8);
}

} // verus!

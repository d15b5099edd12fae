//! A multi-signature wallet: a fixed set of owners proposes payments from
//! the wallet's balance, approves each at most once, and a payment with at
//! least the threshold of approvals is executed; a pending one may be
//! cancelled by any owner.
//!
//! A transaction is stored as 45 bytes: the recipient, the value (a
//! little-endian `u64`), the status, and the number of approvals (a
//! little-endian `u32`).

use vstd::prelude::*;
use crate::bytes::{le_bytes, le_nat, append_bytes, all_zero, is_zero_address, address_at, read_u64_at,
    read_u32_at, copy_range, u64_le, le_encode, lemma_le_bytes_len, lemma_pow256_values};
use crate::storage::Storage;
use crate::cells::{u64_cell, bool_cell, read_u64, write_u64, read_bool, lemma_u64_cell_roundtrip};
use crate::stablecoin::StorageMap;

verus! {

pub const STATUS_PENDING: u8 = 0;
pub const STATUS_EXECUTED: u8 = 1;
pub const STATUS_CANCELLED: u8 = 2;

pub const ERR_ONLY_OWNER: u64 = 1501;
pub const ERR_TX_NOT_FOUND: u64 = 1502;
pub const ERR_TX_NOT_PENDING: u64 = 1503;
pub const ERR_ALREADY_APPROVED: u64 = 1504;
pub const ERR_NOT_APPROVED: u64 = 1505;
pub const ERR_INSUFFICIENT_APPROVALS: u64 = 1506;
pub const ERR_INSUFFICIENT_BALANCE: u64 = 1507;
pub const ERR_INVALID_RECIPIENT: u64 = 1508;
pub const ERR_STORAGE: u64 = 1509;
pub const ERR_INVALID_INPUT: u64 = 1510;
pub const ERR_INVALID_THRESHOLD: u64 = 1511;

/// The length of a stored transaction.
pub const TX_LEN: usize = 45;
/// The most owners an initialization reads.
pub const MAX_OWNERS: usize = 10;

// ---------------------------------------------------------------------------
// Storage
// ---------------------------------------------------------------------------

/// `thresh`
pub open spec fn key_threshold() -> Seq<u8> {
    seq![0x74u8, 0x68u8, 0x72u8, 0x65u8, 0x73u8, 0x68u8]
}

fn key_threshold_vec() -> (r: Vec<u8>)
    ensures
        r@ == key_threshold(),
{
    let v = vec![0x74u8, 0x68u8, 0x72u8, 0x65u8, 0x73u8, 0x68u8];
    assert(v@ =~= key_threshold());
    v
}

/// `oc`
pub open spec fn key_owner_count() -> Seq<u8> {
    seq![0x6fu8, 0x63u8]
}

fn key_owner_count_vec() -> (r: Vec<u8>)
    ensures
        r@ == key_owner_count(),
{
    let v = vec![0x6fu8, 0x63u8];
    assert(v@ =~= key_owner_count());
    v
}

/// `txc`
pub open spec fn key_tx_counter() -> Seq<u8> {
    seq![0x74u8, 0x78u8, 0x63u8]
}

fn key_tx_counter_vec() -> (r: Vec<u8>)
    ensures
        r@ == key_tx_counter(),
{
    let v = vec![0x74u8, 0x78u8, 0x63u8];
    assert(v@ =~= key_tx_counter());
    v
}

/// `bal`
pub open spec fn key_balance() -> Seq<u8> {
    seq![0x62u8, 0x61u8, 0x6cu8]
}

fn key_balance_vec() -> (r: Vec<u8>)
    ensures
        r@ == key_balance(),
{
    let v = vec![0x62u8, 0x61u8, 0x6cu8];
    assert(v@ =~= key_balance());
    v
}

/// `own:` and the address.
pub open spec fn owner_key(owner: Seq<u8>) -> Seq<u8> {
    seq![0x6fu8, 0x77u8, 0x6eu8, 0x3au8] + owner
}

fn owner_key_vec(owner: &[u8; 32]) -> (r: Vec<u8>)
    ensures
        r@ == owner_key(owner@),
{
    let mut v = vec![0x6fu8, 0x77u8, 0x6eu8, 0x3au8];
    append_bytes(&mut v, owner.as_slice());
    proof {
        assert(v@ =~= owner_key(owner@));
    }
    v
}

/// `tx:` and the id in 8 little-endian bytes.
pub open spec fn tx_key(id: u64) -> Seq<u8> {
    seq![0x74u8, 0x78u8, 0x3au8] + le_bytes(id as nat, 8)
}

fn tx_key_vec(id: u64) -> (r: Vec<u8>)
    ensures
        r@ == tx_key(id),
{
    let mut v = vec![0x74u8, 0x78u8, 0x3au8];
    append_bytes(&mut v, u64_le(id).as_slice());
    proof {
        assert(v@ =~= tx_key(id));
    }
    v
}

/// `appr:`, the transaction id in 8 little-endian bytes and the owner.
pub open spec fn approval_key(id: u64, owner: Seq<u8>) -> Seq<u8> {
    seq![0x61u8, 0x70u8, 0x70u8, 0x72u8, 0x3au8] + le_bytes(id as nat, 8) + owner
}

fn approval_key_vec(id: u64, owner: &[u8; 32]) -> (r: Vec<u8>)
    ensures
        r@ == approval_key(id, owner@),
{
    let mut v = vec![0x61u8, 0x70u8, 0x70u8, 0x72u8, 0x3au8];
    append_bytes(&mut v, u64_le(id).as_slice());
    append_bytes(&mut v, owner.as_slice());
    proof {
        assert(v@ =~= approval_key(id, owner@));
    }
    v
}

/// The keys of the wallet are pairwise distinct.
proof fn lemma_keys_distinct(id: u64, owner: Seq<u8>)
    requires
        owner.len() == 32,
    ensures
        tx_key(id) != approval_key(id, owner),
        tx_key(id) != key_balance(),
        approval_key(id, owner) != key_balance(),
        owner_key(owner) != key_balance(),
        owner_key(owner) != tx_key(id),
        owner_key(owner) != approval_key(id, owner),
        key_threshold() != key_owner_count(),
        key_threshold() != key_tx_counter(),
        key_threshold() != key_balance(),
        key_owner_count() != key_tx_counter(),
        key_owner_count() != key_balance(),
        key_tx_counter() != key_balance(),
        owner_key(owner) != key_threshold(),
        owner_key(owner) != key_owner_count(),
        owner_key(owner) != key_tx_counter(),
        tx_key(id) != key_tx_counter(),
{
    lemma_le_bytes_len(id as nat, 8);
    assert(tx_key(id).len() == 11);
    assert(approval_key(id, owner).len() == 45);
    assert(owner_key(owner).len() == 36);
    assert(key_tx_counter()[0] != key_balance()[0]);
    assert(key_threshold()[1] != key_tx_counter()[1]);
}

/// A stored `u64`: 0 unless at least 8 bytes are stored.
pub open spec fn stored(m: StorageMap, k: Seq<u8>) -> u64 {
    match u64_cell(m.get(k)) {
        Some(v) => v,
        None => 0,
    }
}

/// A stored `u32`: 0 unless at least 4 bytes are stored.
pub open spec fn stored_u32(m: StorageMap, k: Seq<u8>) -> u32 {
    match m.get(k) {
        Some(s) => if s.len() >= 4 {
            le_nat(s.take(4)) as u32
        } else {
            0
        },
        None => 0,
    }
}

pub open spec fn threshold(m: StorageMap) -> u32 {
    stored_u32(m, key_threshold())
}

pub open spec fn tx_counter(m: StorageMap) -> u64 {
    stored(m, key_tx_counter())
}

pub open spec fn balance(m: StorageMap) -> u64 {
    stored(m, key_balance())
}

/// An owner has a non-zero first byte stored under its key.
pub open spec fn is_owner(m: StorageMap, who: Seq<u8>) -> bool {
    bool_cell(m.get(owner_key(who)))
}

/// The owner has approved the transaction.
pub open spec fn approved(m: StorageMap, id: u64, owner: Seq<u8>) -> bool {
    bool_cell(m.get(approval_key(id, owner)))
}

/// The stored transaction: the first 45 bytes under its key, when there
/// are that many.
pub open spec fn tx_record(m: StorageMap, id: u64) -> Option<Seq<u8>> {
    match m.get(tx_key(id)) {
        Some(s) => if s.len() >= 45 {
            Some(s.take(45))
        } else {
            None
        },
        None => None,
    }
}

pub open spec fn recipient(d: Seq<u8>) -> Seq<u8> {
    d.subrange(0, 32)
}

pub open spec fn value(d: Seq<u8>) -> u64 {
    le_nat(d.subrange(32, 40)) as u64
}

pub open spec fn status(d: Seq<u8>) -> u8 {
    d[40]
}

pub open spec fn approvals(d: Seq<u8>) -> u32 {
    le_nat(d.subrange(41, 45)) as u32
}

/// A transaction with its approvals replaced.
pub open spec fn with_approvals(d: Seq<u8>, n: u32) -> Seq<u8> {
    d.subrange(0, 41) + le_bytes(n as nat, 4)
}

/// A new pending transaction.
pub open spec fn new_tx(to: Seq<u8>, value: u64) -> Seq<u8> {
    to + le_bytes(value as nat, 8) + seq![STATUS_PENDING] + le_bytes(0, 4)
}

fn read_stored(st: &Storage, key: &[u8]) -> (r: u64)
    ensures
        r == stored(st@, key@),
{
    match read_u64(st, key) {
        Some(v) => v,
        None => 0,
    }
}

fn read_stored_u32(st: &Storage, key: &[u8]) -> (r: u32)
    ensures
        r == stored_u32(st@, key@),
{
    let (buf, len) = st.read(key, 4);
    if len == 4 {
        let v = read_u32_at(buf.as_slice(), 0);
        proof {
            let s = st@.get(key@)->0;
            assert(buf@.subrange(0, 4) =~= s.take(4));
        }
        v
    } else {
        0
    }
}

pub fn check_owner(st: &Storage, who: &[u8; 32]) -> (r: bool)
    ensures
        r == is_owner(st@, who@),
{
    read_bool(st, owner_key_vec(who).as_slice())
}

fn read_tx(st: &Storage, id: u64) -> (r: Option<Vec<u8>>)
    ensures
        match r {
            Some(d) => tx_record(st@, id) == Some(d@) && d@.len() == 45,
            None => tx_record(st@, id) is None,
        },
{
    let (buf, len) = st.read(tx_key_vec(id).as_slice(), TX_LEN);
    if len == TX_LEN {
        proof {
            let s = st@.get(tx_key(id))->0;
            assert(buf@ =~= s.take(45));
        }
        Some(buf)
    } else {
        None
    }
}

// ---------------------------------------------------------------------------
// Operations
// ---------------------------------------------------------------------------

/// The storage with each of `owners` marked as an owner, in order.
pub open spec fn mark_owners(m: StorageMap, owners: Seq<Seq<u8>>) -> StorageMap
    decreases owners.len(),
{
    if owners.len() == 0 {
        m
    } else {
        mark_owners(m, owners.drop_last()).insert(owner_key(owners.last()), seq![1u8])
    }
}

/// The addresses in a list of owners.
pub open spec fn owner_list(owners: Seq<[u8; 32]>) -> Seq<Seq<u8>> {
    owners.map_values(|o: [u8; 32]| o@)
}

/// `init`: the threshold must be between 1 and the owner count; stores
/// both, zeroes the transaction counter and the balance, and marks the
/// owners.
pub open spec fn init_outcome(m: StorageMap, threshold: u32, owner_count: u32, owners: Seq<Seq<u8>>) -> (Result<(), u64>, StorageMap) {
    if threshold == 0 || threshold > owner_count {
        (Err(ERR_INVALID_THRESHOLD), m)
    } else {
        let m1 = m.insert(key_threshold(), le_bytes(threshold as nat, 4)).insert(
            key_owner_count(),
            le_bytes(owner_count as nat, 4),
        ).insert(key_tx_counter(), le_bytes(0, 8)).insert(key_balance(), le_bytes(0, 8));
        (Ok(()), mark_owners(m1, owners))
    }
}

pub fn init(st: &mut Storage, threshold: u32, owner_count: u32, owners: &Vec<[u8; 32]>) -> (r: Result<(), u64>)
    ensures
        (r, final(st)@) == init_outcome(old(st)@, threshold, owner_count, owner_list(owners@)),
{
    if threshold == 0 || threshold > owner_count {
        return Err(ERR_INVALID_THRESHOLD);
    }
    st.write(key_threshold_vec().as_slice(), le_encode(threshold as u128, 4).as_slice());
    st.write(key_owner_count_vec().as_slice(), le_encode(owner_count as u128, 4).as_slice());
    write_u64(st, key_tx_counter_vec().as_slice(), 0);
    write_u64(st, key_balance_vec().as_slice(), 0);
    let ghost m1 = st@;
    let one = vec![1u8];
    assert(one@ =~= seq![1u8]);
    let mut i: usize = 0;
    while i < owners.len()
        invariant
            i <= owners@.len(),
            one@ == seq![1u8],
            st@ == mark_owners(m1, owner_list(owners@).take(i as int)),
        decreases owners@.len() - i,
    {
        proof {
            assert(owner_list(owners@).take(i + 1).drop_last() =~= owner_list(owners@).take(i as int));
        }
        st.write(owner_key_vec(&owners[i]).as_slice(), one.as_slice());
        i = i + 1;
    }
    proof {
        assert(owner_list(owners@).take(i as int) =~= owner_list(owners@));
    }
    Ok(())
}

/// The inputs on which `propose_transaction` runs to its end: the counter
/// does not overflow.
pub open spec fn propose_completes(m: StorageMap) -> bool {
    tx_counter(m) + 1 <= u64::MAX
}

/// `propose_transaction`: an owner proposes paying `value` to a non-zero
/// recipient; the transaction is stored pending under the next id, which
/// is answered.
pub open spec fn propose_outcome(m: StorageMap, caller: Seq<u8>, to: Seq<u8>, value: u64) -> (Result<u64, u64>, StorageMap) {
    if !is_owner(m, caller) {
        (Err(ERR_ONLY_OWNER), m)
    } else if all_zero(to) {
        (Err(ERR_INVALID_RECIPIENT), m)
    } else {
        let id = tx_counter(m);
        (Ok(id), m.insert(tx_key(id), new_tx(to, value)).insert(key_tx_counter(), le_bytes((id + 1) as nat, 8)))
    }
}

pub fn propose_transaction(st: &mut Storage, caller: &[u8; 32], to: &[u8; 32], value: u64) -> (r: Result<u64, u64>)
    requires
        propose_completes(old(st)@),
    ensures
        (r, final(st)@) == propose_outcome(old(st)@, caller@, to@, value),
{
    if !check_owner(st, caller) {
        return Err(ERR_ONLY_OWNER);
    }
    if is_zero_address(to) {
        return Err(ERR_INVALID_RECIPIENT);
    }
    let tx_id = read_stored(st, key_tx_counter_vec().as_slice());
    let mut data = Vec::new();
    append_bytes(&mut data, to.as_slice());
    append_bytes(&mut data, u64_le(value).as_slice());
    data.push(STATUS_PENDING);
    append_bytes(&mut data, le_encode(0, 4).as_slice());
    proof {
        assert(data@ =~= new_tx(to@, value));
    }
    st.write(tx_key_vec(tx_id).as_slice(), data.as_slice());
    write_u64(st, key_tx_counter_vec().as_slice(), tx_id + 1);
    Ok(tx_id)
}

/// The inputs on which `approve_transaction` runs to its end: the approval
/// count does not overflow.
pub open spec fn approve_completes(m: StorageMap, id: u64) -> bool {
    match tx_record(m, id) {
        Some(d) => approvals(d) + 1 <= u32::MAX,
        None => true,
    }
}

/// `approve_transaction`: an owner who has not approved a pending
/// transaction approves it, which counts one more approval.
pub open spec fn approve_outcome(m: StorageMap, caller: Seq<u8>, id: u64) -> (Result<(), u64>, StorageMap) {
    if !is_owner(m, caller) {
        (Err(ERR_ONLY_OWNER), m)
    } else {
        match tx_record(m, id) {
            None => (Err(ERR_TX_NOT_FOUND), m),
            Some(d) => if status(d) != STATUS_PENDING {
                (Err(ERR_TX_NOT_PENDING), m)
            } else if approved(m, id, caller) {
                (Err(ERR_ALREADY_APPROVED), m)
            } else {
                (Ok(()), m.insert(approval_key(id, caller), seq![1u8]).insert(
                    tx_key(id),
                    with_approvals(d, (approvals(d) + 1) as u32),
                ))
            },
        }
    }
}

pub fn approve_transaction(st: &mut Storage, caller: &[u8; 32], tx_id: u64) -> (r: Result<(), u64>)
    requires
        approve_completes(old(st)@, tx_id),
    ensures
        (r, final(st)@) == approve_outcome(old(st)@, caller@, tx_id),
{
    if !check_owner(st, caller) {
        return Err(ERR_ONLY_OWNER);
    }
    let data = match read_tx(st, tx_id) {
        Some(d) => d,
        None => return Err(ERR_TX_NOT_FOUND),
    };
    if data[40] != STATUS_PENDING {
        return Err(ERR_TX_NOT_PENDING);
    }
    let approval_key = approval_key_vec(tx_id, caller);
    if read_bool(st, approval_key.as_slice()) {
        return Err(ERR_ALREADY_APPROVED);
    }
    let one = vec![1u8];
    assert(one@ =~= seq![1u8]);
    st.write(approval_key.as_slice(), one.as_slice());
    let approvals = read_u32_at(data.as_slice(), 41);
    let mut updated = copy_range(data.as_slice(), 0, 41);
    append_bytes(&mut updated, le_encode((approvals + 1) as u128, 4).as_slice());
    proof {
        assert(updated@ =~= with_approvals(data@, (approvals + 1) as u32));
    }
    st.write(tx_key_vec(tx_id).as_slice(), updated.as_slice());
    Ok(())
}

/// `execute_transaction`: an owner executes a pending transaction that has
/// at least the threshold of approvals and whose value the balance covers;
/// the value leaves the balance and the transaction is marked executed.
pub open spec fn execute_outcome(m: StorageMap, caller: Seq<u8>, id: u64) -> (Result<(), u64>, StorageMap) {
    if !is_owner(m, caller) {
        (Err(ERR_ONLY_OWNER), m)
    } else {
        match tx_record(m, id) {
            None => (Err(ERR_TX_NOT_FOUND), m),
            Some(d) => if status(d) != STATUS_PENDING {
                (Err(ERR_TX_NOT_PENDING), m)
            } else if approvals(d) < threshold(m) {
                (Err(ERR_INSUFFICIENT_APPROVALS), m)
            } else if balance(m) < value(d) {
                (Err(ERR_INSUFFICIENT_BALANCE), m)
            } else {
                (Ok(()), m.insert(key_balance(), le_bytes((balance(m) - value(d)) as nat, 8)).insert(
                    tx_key(id),
                    d.update(40, STATUS_EXECUTED),
                ))
            },
        }
    }
}

pub fn execute_transaction(st: &mut Storage, caller: &[u8; 32], tx_id: u64) -> (r: Result<(), u64>)
    ensures
        (r, final(st)@) == execute_outcome(old(st)@, caller@, tx_id),
{
    if !check_owner(st, caller) {
        return Err(ERR_ONLY_OWNER);
    }
    let mut data = match read_tx(st, tx_id) {
        Some(d) => d,
        None => return Err(ERR_TX_NOT_FOUND),
    };
    if data[40] != STATUS_PENDING {
        return Err(ERR_TX_NOT_PENDING);
    }
    let approvals = read_u32_at(data.as_slice(), 41);
    let threshold = read_stored_u32(st, key_threshold_vec().as_slice());
    if approvals < threshold {
        return Err(ERR_INSUFFICIENT_APPROVALS);
    }
    let value = read_u64_at(data.as_slice(), 32);
    let balance = read_stored(st, key_balance_vec().as_slice());
    if balance < value {
        return Err(ERR_INSUFFICIENT_BALANCE);
    }
    write_u64(st, key_balance_vec().as_slice(), balance - value);
    data.set(40, STATUS_EXECUTED);
    st.write(tx_key_vec(tx_id).as_slice(), data.as_slice());
    Ok(())
}

/// `cancel_transaction`: an owner marks a pending transaction cancelled.
pub open spec fn cancel_outcome(m: StorageMap, caller: Seq<u8>, id: u64) -> (Result<(), u64>, StorageMap) {
    if !is_owner(m, caller) {
        (Err(ERR_ONLY_OWNER), m)
    } else {
        match tx_record(m, id) {
            None => (Err(ERR_TX_NOT_FOUND), m),
            Some(d) => if status(d) != STATUS_PENDING {
                (Err(ERR_TX_NOT_PENDING), m)
            } else {
                (Ok(()), m.insert(tx_key(id), d.update(40, STATUS_CANCELLED)))
            },
        }
    }
}

pub fn cancel_transaction(st: &mut Storage, caller: &[u8; 32], tx_id: u64) -> (r: Result<(), u64>)
    ensures
        (r, final(st)@) == cancel_outcome(old(st)@, caller@, tx_id),
{
    if !check_owner(st, caller) {
        return Err(ERR_ONLY_OWNER);
    }
    let mut data = match read_tx(st, tx_id) {
        Some(d) => d,
        None => return Err(ERR_TX_NOT_FOUND),
    };
    if data[40] != STATUS_PENDING {
        return Err(ERR_TX_NOT_PENDING);
    }
    data.set(40, STATUS_CANCELLED);
    st.write(tx_key_vec(tx_id).as_slice(), data.as_slice());
    Ok(())
}

/// `deposit`: the balance grows by the amount.
pub open spec fn deposit_state(m: StorageMap, amount: u64) -> StorageMap {
    m.insert(key_balance(), le_bytes((balance(m) + amount) as nat, 8))
}

pub fn deposit(st: &mut Storage, amount: u64)
    requires
        balance(old(st)@) + amount <= u64::MAX,
    ensures
        final(st)@ == deposit_state(old(st)@, amount),
{
    let balance = read_stored(st, key_balance_vec().as_slice());
    write_u64(st, key_balance_vec().as_slice(), balance + amount);
}


// ---------------------------------------------------------------------------
// Instructions
// ---------------------------------------------------------------------------

pub open spec fn word(input: Seq<u8>, off: int) -> u64 {
    le_nat(input.subrange(off, off + 8)) as u64
}

pub open spec fn half_word(input: Seq<u8>, off: int) -> u32 {
    le_nat(input.subrange(off, off + 4)) as u32
}

pub open spec fn account(input: Seq<u8>, off: int) -> Seq<u8> {
    input.subrange(off, off + 32)
}

/// The owners listed in an initialization.
pub open spec fn listed_owners(input: Seq<u8>, count: nat) -> Seq<Seq<u8>> {
    Seq::new(count, |i: int| account(input, 9 + 32 * i))
}

/// The inputs on which an instruction runs to its end: an initialization
/// lists at most ten owners, and no count or balance overflows.
pub open spec fn instruction_completes(m: StorageMap, input: Seq<u8>) -> bool {
    if input.len() == 0 {
        true
    } else if input[0] == 0 && input.len() >= 9 {
        input.len() >= 9 + 32 * half_word(input, 5) ==> half_word(input, 5) <= MAX_OWNERS
    } else if input[0] == 1 && input.len() >= 73 {
        propose_completes(m)
    } else if input[0] == 2 && input.len() >= 41 {
        approve_completes(m, word(input, 33))
    } else if input[0] == 4 && input.len() >= 9 {
        balance(m) + word(input, 1) <= u64::MAX
    } else {
        true
    }
}

/// An instruction: `0` initializes (`[threshold:4][count:4]` and the
/// owners, 32 bytes each), `1` proposes (`[caller:32][to:32][value:8]`,
/// answering the id in 8 bytes), `2` approves, `3` executes and `5` cancels
/// (`[caller:32][id:8]`), `4` deposits (`[amount:8]`); a short input is
/// invalid, an empty input or another opcode does nothing.
pub open spec fn instruction_outcome(m: StorageMap, input: Seq<u8>) -> (Result<Seq<u8>, u64>, StorageMap) {
    let unit = |o: (Result<(), u64>, StorageMap)|
        (match o.0 {
            Ok(_) => Ok(Seq::<u8>::empty()),
            Err(e) => Err(e),
        }, o.1);
    if input.len() == 0 {
        (Ok(Seq::empty()), m)
    } else if input[0] == 0 {
        if input.len() < 9 || input.len() < 9 + 32 * half_word(input, 5) {
            (Err(ERR_INVALID_INPUT), m)
        } else {
            let count = half_word(input, 5);
            unit(init_outcome(m, half_word(input, 1), count, listed_owners(input, count as nat)))
        }
    } else if input[0] == 1 {
        if input.len() < 73 {
            (Err(ERR_INVALID_INPUT), m)
        } else {
            let (r, m2) = propose_outcome(m, account(input, 1), account(input, 33), word(input, 65));
            (match r {
                Ok(id) => Ok(le_bytes(id as nat, 8)),
                Err(e) => Err(e),
            }, m2)
        }
    } else if input[0] == 2 || input[0] == 3 || input[0] == 5 {
        if input.len() < 41 {
            (Err(ERR_INVALID_INPUT), m)
        } else if input[0] == 2 {
            unit(approve_outcome(m, account(input, 1), word(input, 33)))
        } else if input[0] == 3 {
            unit(execute_outcome(m, account(input, 1), word(input, 33)))
        } else {
            unit(cancel_outcome(m, account(input, 1), word(input, 33)))
        }
    } else if input[0] == 4 {
        if input.len() < 9 {
            (Err(ERR_INVALID_INPUT), m)
        } else {
            (Ok(Seq::empty()), deposit_state(m, word(input, 1)))
        }
    } else {
        (Ok(Seq::empty()), m)
    }
}

fn no_data(r: Result<(), u64>) -> (o: Result<Vec<u8>, u64>)
    ensures
        match r {
            Ok(_) => o matches Ok(v) && v@ == Seq::<u8>::empty(),
            Err(e) => o == Err::<Vec<u8>, u64>(e),
        },
{
    match r {
        Ok(_) => Ok(Vec::new()),
        Err(e) => Err(e),
    }
}

fn read_owners(input: &[u8], count: usize) -> (r: Vec<[u8; 32]>)
    requires
        9 + 32 * count <= input@.len(),
    ensures
        owner_list(r@) == listed_owners(input@, count as nat),
{
    let mut owners: Vec<[u8; 32]> = Vec::new();
    let n = input.len();
    let mut i: usize = 0;
    while i < count
        invariant
            i <= count,
            n == input@.len(),
            9 + 32 * count <= input@.len(),
            owners@.len() == i,
            forall|j: int| 0 <= j < i ==> #[trigger] owners@[j]@ == account(input@, 9 + 32 * j),
        decreases count - i,
    {
        owners.push(address_at(input, 9 + 32 * i));
        i = i + 1;
    }
    proof {
        assert(owner_list(owners@) =~= listed_owners(input@, count as nat));
    }
    owners
}

pub fn process_instruction(st: &mut Storage, input: &[u8]) -> (r: Result<Vec<u8>, u64>)
    requires
        instruction_completes(old(st)@, input@),
    ensures
        final(st)@ == instruction_outcome(old(st)@, input@).1,
        match r {
            Ok(v) => instruction_outcome(old(st)@, input@).0 == Ok::<Seq<u8>, u64>(v@),
            Err(e) => instruction_outcome(old(st)@, input@).0 == Err::<Seq<u8>, u64>(e),
        },
{
    if input.len() == 0 {
        return Ok(Vec::new());
    }
    match input[0] {
        0 => {
            if input.len() < 9 {
                return Err(ERR_INVALID_INPUT);
            }
            let threshold = read_u32_at(input, 1);
            let owner_count = read_u32_at(input, 5);
            if (input.len() as u64) < 9 + 32 * (owner_count as u64) {
                return Err(ERR_INVALID_INPUT);
            }
            let owners = read_owners(input, owner_count as usize);
            no_data(init(st, threshold, owner_count, &owners))
        },
        1 => {
            if input.len() < 73 {
                return Err(ERR_INVALID_INPUT);
            }
            let caller = address_at(input, 1);
            let to = address_at(input, 33);
            let value = read_u64_at(input, 65);
            match propose_transaction(st, &caller, &to, value) {
                Ok(id) => Ok(u64_le(id)),
                Err(e) => Err(e),
            }
        },
        2 | 3 | 5 => {
            if input.len() < 41 {
                return Err(ERR_INVALID_INPUT);
            }
            let caller = address_at(input, 1);
            let tx_id = read_u64_at(input, 33);
            if input[0] == 2 {
                no_data(approve_transaction(st, &caller, tx_id))
            } else if input[0] == 3 {
                no_data(execute_transaction(st, &caller, tx_id))
            } else {
                no_data(cancel_transaction(st, &caller, tx_id))
            }
        },
        4 => {
            if input.len() < 9 {
                return Err(ERR_INVALID_INPUT);
            }
            let amount = read_u64_at(input, 1);
            deposit(st, amount);
            Ok(Vec::new())
        },
        _ => Ok(Vec::new()),
    }
}

// ---------------------------------------------------------------------------
// Laws
// ---------------------------------------------------------------------------

/// A transaction record keeps its length and fields when its status or
/// approvals change.
proof fn lemma_record_updates(d: Seq<u8>, n: u32, s: u8)
    requires
        d.len() == 45,
    ensures
        with_approvals(d, n).len() == 45,
        approvals(with_approvals(d, n)) == n,
        status(with_approvals(d, n)) == status(d),
        with_approvals(d, n).take(45) == with_approvals(d, n),
        d.update(40, s).take(45) == d.update(40, s),
        status(d.update(40, s)) == s,
        approvals(d.update(40, s)) == approvals(d),
        value(d.update(40, s)) == value(d),
{
    lemma_le_bytes_len(n as nat, 4);
    lemma_pow256_values();
    crate::bytes::lemma_le_roundtrip(n as nat, 4);
    assert(with_approvals(d, n).subrange(41, 45) =~= le_bytes(n as nat, 4));
    assert(with_approvals(d, n).take(45) =~= with_approvals(d, n));
    assert(d.update(40, s).take(45) =~= d.update(40, s));
    assert(d.update(40, s).subrange(41, 45) =~= d.subrange(41, 45));
    assert(d.update(40, s).subrange(32, 40) =~= d.subrange(32, 40));
}

/// An owner approves a transaction at most once: a successful approval
/// counts one more approval, and a second one by the same owner is
/// refused.
pub proof fn law_approve_once(m: StorageMap, caller: Seq<u8>, id: u64)
    requires
        caller.len() == 32,
        approve_completes(m, id),
        approve_outcome(m, caller, id).0 is Ok,
    ensures
        ({
            let m2 = approve_outcome(m, caller, id).1;
            &&& approvals(tx_record(m2, id)->0) == approvals(tx_record(m, id)->0) + 1
            &&& approve_outcome(m2, caller, id) == (Err::<(), u64>(ERR_ALREADY_APPROVED), m2)
        }),
{
    lemma_keys_distinct(id, caller);
    let d = tx_record(m, id)->0;
    lemma_record_updates(d, (approvals(d) + 1) as u32, 0);
}

/// Executing needs an owner and at least the threshold of approvals, pays
/// the value out of the balance, and happens at most once: the executed
/// transaction can be neither executed again nor cancelled.
pub proof fn law_execute_once(m: StorageMap, caller: Seq<u8>, id: u64, caller2: Seq<u8>)
    requires
        caller.len() == 32,
        caller2.len() == 32,
        execute_outcome(m, caller, id).0 is Ok,
    ensures
        ({
            let d = tx_record(m, id)->0;
            let m2 = execute_outcome(m, caller, id).1;
            &&& is_owner(m, caller)
            &&& approvals(d) >= threshold(m)
            &&& balance(m2) == balance(m) - value(d)
            &&& execute_outcome(m2, caller2, id).0 is Err
            &&& cancel_outcome(m2, caller2, id).0 is Err
        }),
{
    lemma_keys_distinct(id, caller);
    lemma_keys_distinct(id, caller2);
    let d = tx_record(m, id)->0;
    lemma_record_updates(d, 0, STATUS_EXECUTED);
    lemma_u64_cell_roundtrip((balance(m) - value(d)) as u64);
}

/// Only owners propose, approve, execute or cancel.
pub proof fn law_only_owners(m: StorageMap, caller: Seq<u8>, to: Seq<u8>, value: u64, id: u64)
    ensures
        propose_outcome(m, caller, to, value).0 is Ok ==> is_owner(m, caller),
        approve_outcome(m, caller, id).0 is Ok ==> is_owner(m, caller),
        execute_outcome(m, caller, id).0 is Ok ==> is_owner(m, caller),
        cancel_outcome(m, caller, id).0 is Ok ==> is_owner(m, caller),
{
}

} // verus!

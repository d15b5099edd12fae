//! A payment splitter: payees hold shares fixed at initialization, and each
//! can release its part of what the contract received,
//! `total_received * shares / total_shares`, less what it already released.
//!
//! Each operation takes the parameters after the opcode and answers a
//! status code (0 for success); queries also answer their return data.

use vstd::prelude::*;
use crate::bytes::{
    le_bytes, le_nat, address_at, read_u64_at, copy_range, u64_le, append_bytes, all_zero,
    is_zero_address,
};
use crate::storage::Storage;
use crate::cells::{u64_cell, read_u64, write_u64, lemma_u64_cell_roundtrip};
use crate::stablecoin::StorageMap;

verus! {

pub const MAX_PAYEES: usize = 255;

pub const OP_INITIALIZE: u8 = 0x00;
pub const OP_RELEASE: u8 = 0x01;
pub const OP_TOTAL_SHARES: u8 = 0x10;
pub const OP_TOTAL_RELEASED: u8 = 0x11;
pub const OP_SHARES: u8 = 0x12;
pub const OP_RELEASED: u8 = 0x13;
pub const OP_RELEASABLE: u8 = 0x14;
pub const OP_TOTAL_RECEIVED: u8 = 0x15;
pub const OP_PAYEE_COUNT: u8 = 0x16;

pub const SUCCESS: u64 = 0;
pub const ERR_ALREADY_INITIALIZED: u64 = 1001;
pub const ERR_NOT_INITIALIZED: u64 = 1002;
pub const ERR_INVALID_INSTRUCTION: u64 = 1003;
pub const ERR_INVALID_PARAMS: u64 = 1004;
pub const ERR_INVALID_PAYEE: u64 = 1005;
pub const ERR_NO_PAYMENT_DUE: u64 = 1006;
pub const ERR_TOO_MANY_PAYEES: u64 = 1007;
pub const ERR_ZERO_SHARES: u64 = 1008;
pub const ERR_NO_PAYEES: u64 = 1009;

// ---------------------------------------------------------------------------
// Storage
// ---------------------------------------------------------------------------

pub open spec fn key_initialized() -> Seq<u8> {
    seq![0x01u8]
}

pub open spec fn key_total_shares() -> Seq<u8> {
    seq![0x02u8]
}

pub open spec fn key_total_released() -> Seq<u8> {
    seq![0x03u8]
}

pub open spec fn key_total_received() -> Seq<u8> {
    seq![0x04u8]
}

pub open spec fn key_payee_count() -> Seq<u8> {
    seq![0x05u8]
}

pub open spec fn shares_key(payee: Seq<u8>) -> Seq<u8> {
    seq![0x10u8] + payee
}

pub open spec fn released_key(payee: Seq<u8>) -> Seq<u8> {
    seq![0x20u8] + payee
}

pub open spec fn payee_key(index: u8) -> Seq<u8> {
    seq![0x30u8, index]
}

fn byte_key(b: u8) -> (r: Vec<u8>)
    ensures
        r@ == seq![b],
{
    let v = vec![b];
    assert(v@ =~= seq![b]);
    v
}

fn prefixed_key(prefix: u8, payee: &[u8; 32]) -> (r: Vec<u8>)
    ensures
        r@ == seq![prefix] + payee@,
{
    let mut k = byte_key(prefix);
    append_bytes(&mut k, payee.as_slice());
    k
}

pub open spec fn initialized(m: StorageMap) -> bool {
    match m.get(key_initialized()) {
        Some(b) => b.len() > 0 && b[0] == 1,
        None => false,
    }
}

/// A stored `u64`, 0 unless at least 8 bytes are stored.
pub open spec fn stored_u64(m: StorageMap, k: Seq<u8>) -> u64 {
    match u64_cell(m.get(k)) {
        Some(v) => v,
        None => 0,
    }
}

pub open spec fn total_shares(m: StorageMap) -> u64 {
    stored_u64(m, key_total_shares())
}

pub open spec fn total_released(m: StorageMap) -> u64 {
    stored_u64(m, key_total_released())
}

pub open spec fn total_received(m: StorageMap) -> u64 {
    stored_u64(m, key_total_received())
}

pub open spec fn shares(m: StorageMap, payee: Seq<u8>) -> u64 {
    stored_u64(m, shares_key(payee))
}

pub open spec fn released(m: StorageMap, payee: Seq<u8>) -> u64 {
    stored_u64(m, released_key(payee))
}

/// The payee count: the first stored byte, 0 when none.
pub open spec fn payee_count(m: StorageMap) -> u8 {
    match m.get(key_payee_count()) {
        Some(b) => if b.len() >= 1 {
            b[0]
        } else {
            0
        },
        None => 0,
    }
}

pub fn is_initialized(st: &Storage) -> (r: bool)
    ensures
        r == initialized(st@),
{
    let (buf, len) = st.read(byte_key(0x01).as_slice(), 1);
    len > 0 && buf[0] == 1
}

fn stored_u64_exec(st: &Storage, key: &[u8]) -> (r: u64)
    ensures
        r == stored_u64(st@, key@),
{
    match read_u64(st, key) {
        Some(v) => v,
        None => 0,
    }
}

pub fn get_total_shares(st: &Storage) -> (r: u64)
    ensures
        r == total_shares(st@),
{
    stored_u64_exec(st, byte_key(0x02).as_slice())
}

pub fn get_total_released(st: &Storage) -> (r: u64)
    ensures
        r == total_released(st@),
{
    stored_u64_exec(st, byte_key(0x03).as_slice())
}

pub fn get_total_received(st: &Storage) -> (r: u64)
    ensures
        r == total_received(st@),
{
    stored_u64_exec(st, byte_key(0x04).as_slice())
}

pub fn get_payee_count(st: &Storage) -> (r: u8)
    ensures
        r == payee_count(st@),
{
    let (buf, len) = st.read(byte_key(0x05).as_slice(), 1);
    if len == 1 {
        buf[0]
    } else {
        0
    }
}

pub fn get_shares(st: &Storage, payee: &[u8; 32]) -> (r: u64)
    ensures
        r == shares(st@, payee@),
{
    stored_u64_exec(st, prefixed_key(0x10, payee).as_slice())
}

pub fn get_released(st: &Storage, payee: &[u8; 32]) -> (r: u64)
    ensures
        r == released(st@, payee@),
{
    stored_u64_exec(st, prefixed_key(0x20, payee).as_slice())
}

// ---------------------------------------------------------------------------
// Entitlements
// ---------------------------------------------------------------------------

/// `x` truncated to 64 bits.
pub open spec fn wrap64(x: int) -> u64 {
    (x % 0x1_0000_0000_0000_0000) as u64
}

/// `a - b`, at least 0.
pub open spec fn sat_sub(a: u64, b: u64) -> u64 {
    if a < b {
        0
    } else {
        (a - b) as u64
    }
}

/// `a + b`, at most `u64::MAX`.
pub open spec fn sat_add(a: u64, b: u64) -> u64 {
    if a + b > u64::MAX {
        u64::MAX
    } else {
        (a + b) as u64
    }
}

/// A payee's entitlement: its share of everything received.
pub open spec fn entitlement(m: StorageMap, payee: Seq<u8>) -> u64 {
    wrap64(total_received(m) * shares(m, payee) / total_shares(m) as int)
}

/// What the payee can still release: its entitlement less what it
/// released; 0 without shares.
pub open spec fn releasable(m: StorageMap, payee: Seq<u8>) -> u64 {
    if shares(m, payee) == 0 || total_shares(m) == 0 {
        0
    } else {
        sat_sub(entitlement(m, payee), released(m, payee))
    }
}

pub fn calculate_releasable(st: &Storage, payee: &[u8; 32]) -> (r: u64)
    ensures
        r == releasable(st@, payee@),
{
    let shares = get_shares(st, payee);
    if shares == 0 {
        return 0;
    }
    let total_shares = get_total_shares(st);
    if total_shares == 0 {
        return 0;
    }
    let total_received = get_total_received(st);
    let already_released = get_released(st, payee);
    proof {
        assert(total_received * shares <= u64::MAX * u64::MAX) by (nonlinear_arith)
            requires
                total_received <= u64::MAX,
                shares <= u64::MAX,
        ;
    }
    let numerator: u128 = (total_received as u128) * (shares as u128);
    let q: u128 = numerator / total_shares as u128;
    let entitlement: u64 = (q % 0x1_0000_0000_0000_0000u128) as u64;
    entitlement.saturating_sub(already_released)
}

// ---------------------------------------------------------------------------
// Initialization
// ---------------------------------------------------------------------------

pub open spec fn payee_at(p: Seq<u8>, i: nat) -> Seq<u8> {
    p.subrange(1 + 40 * i as int, 1 + 40 * i as int + 32)
}

pub open spec fn shares_at(p: Seq<u8>, i: nat) -> u64 {
    le_nat(p.subrange(1 + 40 * i as int + 32, 1 + 40 * i as int + 40)) as u64
}

/// Registers the payees `i..n` (each `[payee:32][shares:8]` after the count
/// byte), stopping at the first refusal: a zero payee, zero shares, or a
/// payee that already has shares.  Answers the (saturating) total.
pub open spec fn register_payees(m: StorageMap, p: Seq<u8>, i: nat, n: nat, total: u64) -> (Result<u64, u64>, StorageMap)
    decreases n - i,
{
    if i >= n {
        (Ok(total), m)
    } else {
        let payee = payee_at(p, i);
        let s = shares_at(p, i);
        if all_zero(payee) {
            (Err(ERR_INVALID_PAYEE), m)
        } else if s == 0 {
            (Err(ERR_ZERO_SHARES), m)
        } else if shares(m, payee) > 0 {
            (Err(ERR_INVALID_PAYEE), m)
        } else {
            let m1 = m.insert(payee_key(i as u8), payee).insert(shares_key(payee), le_bytes(s as nat, 8));
            register_payees(m1, p, i + 1, n, sat_add(total, s))
        }
    }
}

/// Outcome of `INITIALIZE`: `[count:1]` then `count` payees.
pub open spec fn initialize_outcome(m: StorageMap, p: Seq<u8>) -> (u64, StorageMap) {
    if initialized(m) {
        (ERR_ALREADY_INITIALIZED, m)
    } else if p.len() == 0 {
        (ERR_INVALID_PARAMS, m)
    } else if p[0] == 0 {
        (ERR_NO_PAYEES, m)
    } else if p.len() < 1 + p[0] * 40 {
        (ERR_INVALID_PARAMS, m)
    } else {
        let r = register_payees(m, p, 0, p[0] as nat, 0);
        match r.0 {
            Err(e) => (e, r.1),
            Ok(total) => if total == 0 {
                (ERR_ZERO_SHARES, r.1)
            } else {
                (
                    SUCCESS,
                    r.1.insert(key_payee_count(), seq![p[0]]).insert(
                        key_total_shares(),
                        le_bytes(total as nat, 8),
                    ).insert(key_total_released(), le_bytes(0, 8)).insert(
                        key_total_received(),
                        le_bytes(0, 8),
                    ).insert(key_initialized(), seq![1u8]),
                )
            },
        }
    }
}

pub fn op_initialize(st: &mut Storage, params: &[u8]) -> (r: u64)
    ensures
        (r, final(st)@) == initialize_outcome(old(st)@, params@),
{
    if is_initialized(st) {
        return ERR_ALREADY_INITIALIZED;
    }
    if params.len() == 0 {
        return ERR_INVALID_PARAMS;
    }
    let num_payees = params[0];
    if num_payees == 0 {
        return ERR_NO_PAYEES;
    }
    let expected_len = 1 + (num_payees as usize) * 40;
    if params.len() < expected_len {
        return ERR_INVALID_PARAMS;
    }
    let ghost m0 = st@;
    let mut offset: usize = 1;
    let mut total_shares: u64 = 0;
    let mut i: u8 = 0;
    while i < num_payees
        invariant
            i <= num_payees,
            offset == 1 + 40 * i,
            params@.len() >= 1 + num_payees * 40,
            m0 == old(st)@,
            !initialized(old(st)@),
            params@.len() > 0,
            num_payees == params@[0],
            num_payees != 0,
            register_payees(m0, params@, 0, num_payees as nat, 0) == register_payees(
                st@,
                params@,
                i as nat,
                num_payees as nat,
                total_shares,
            ),
        decreases num_payees - i,
    {
        let payee = address_at(params, offset);
        let shares = read_u64_at(params, offset + 32);
        proof {
            assert(payee@ == payee_at(params@, i as nat));
            assert(shares == shares_at(params@, i as nat));
        }
        if is_zero_address(&payee) {
            assert(register_payees(st@, params@, i as nat, num_payees as nat, total_shares) == (
                Err::<u64, u64>(ERR_INVALID_PAYEE),
                st@,
            ));
            return ERR_INVALID_PAYEE;
        }
        if shares == 0 {
            assert(register_payees(st@, params@, i as nat, num_payees as nat, total_shares) == (
                Err::<u64, u64>(ERR_ZERO_SHARES),
                st@,
            ));
            return ERR_ZERO_SHARES;
        }
        if get_shares(st, &payee) > 0 {
            return ERR_INVALID_PAYEE;
        }
        let pk = vec![0x30u8, i];
        assert(pk@ =~= payee_key(i));
        st.write(pk.as_slice(), payee.as_slice());
        write_u64(st, prefixed_key(0x10, &payee).as_slice(), shares);
        total_shares = total_shares.saturating_add(shares);
        offset = offset + 40;
        i = i + 1;
    }
    proof {
        assert(register_payees(st@, params@, i as nat, num_payees as nat, total_shares) == (
            Ok::<u64, u64>(total_shares),
            st@,
        ));
    }
    if total_shares == 0 {
        return ERR_ZERO_SHARES;
    }
    let count = vec![num_payees];
    assert(count@ =~= seq![num_payees]);
    st.write(byte_key(0x05).as_slice(), count.as_slice());
    write_u64(st, byte_key(0x02).as_slice(), total_shares);
    write_u64(st, byte_key(0x03).as_slice(), 0);
    write_u64(st, byte_key(0x04).as_slice(), 0);
    st.write(byte_key(0x01).as_slice(), byte_key(1).as_slice());
    SUCCESS
}

// ---------------------------------------------------------------------------
// Release
// ---------------------------------------------------------------------------

/// Outcome of `RELEASE` (`[payee:32]`): records the payee's releasable
/// amount as released (saturating), refused without shares or without a
/// payment due.
pub open spec fn release_outcome(m: StorageMap, p: Seq<u8>) -> (u64, StorageMap) {
    if !initialized(m) {
        (ERR_NOT_INITIALIZED, m)
    } else if p.len() < 32 {
        (ERR_INVALID_PARAMS, m)
    } else {
        let payee = p.subrange(0, 32);
        if shares(m, payee) == 0 {
            (ERR_INVALID_PAYEE, m)
        } else if releasable(m, payee) == 0 {
            (ERR_NO_PAYMENT_DUE, m)
        } else {
            let amount = releasable(m, payee);
            let m1 = m.insert(
                released_key(payee),
                le_bytes(sat_add(released(m, payee), amount) as nat, 8),
            );
            (
                SUCCESS,
                m1.insert(
                    key_total_released(),
                    le_bytes(sat_add(total_released(m1), amount) as nat, 8),
                ),
            )
        }
    }
}

pub fn op_release(st: &mut Storage, params: &[u8]) -> (r: u64)
    ensures
        (r, final(st)@) == release_outcome(old(st)@, params@),
{
    if !is_initialized(st) {
        return ERR_NOT_INITIALIZED;
    }
    if params.len() < 32 {
        return ERR_INVALID_PARAMS;
    }
    let payee = address_at(params, 0);
    if get_shares(st, &payee) == 0 {
        return ERR_INVALID_PAYEE;
    }
    let releasable = calculate_releasable(st, &payee);
    if releasable == 0 {
        return ERR_NO_PAYMENT_DUE;
    }
    let already_released = get_released(st, &payee);
    write_u64(st, prefixed_key(0x20, &payee).as_slice(), already_released.saturating_add(releasable));
    let total_released = get_total_released(st);
    write_u64(st, byte_key(0x03).as_slice(), total_released.saturating_add(releasable));
    SUCCESS
}

// ---------------------------------------------------------------------------
// Queries and entry point
// ---------------------------------------------------------------------------

/// The answer of a query: its return data, or an error code.
pub open spec fn query_result(m: StorageMap, op: u8, p: Seq<u8>) -> Result<Seq<u8>, u64> {
    if !initialized(m) {
        Err(ERR_NOT_INITIALIZED)
    } else if op == OP_TOTAL_SHARES {
        Ok(le_bytes(total_shares(m) as nat, 8))
    } else if op == OP_TOTAL_RELEASED {
        Ok(le_bytes(total_released(m) as nat, 8))
    } else if op == OP_TOTAL_RECEIVED {
        Ok(le_bytes(total_received(m) as nat, 8))
    } else if op == OP_PAYEE_COUNT {
        Ok(seq![payee_count(m)])
    } else if p.len() < 32 {
        Err(ERR_INVALID_PARAMS)
    } else if op == OP_SHARES {
        Ok(le_bytes(shares(m, p.subrange(0, 32)) as nat, 8))
    } else if op == OP_RELEASED {
        Ok(le_bytes(released(m, p.subrange(0, 32)) as nat, 8))
    } else {
        Ok(le_bytes(releasable(m, p.subrange(0, 32)) as nat, 8))
    }
}

/// Answers a query (`op` one of the query opcodes).
pub fn op_query(st: &Storage, op: u8, params: &[u8]) -> (r: Result<Vec<u8>, u64>)
    requires
        op == OP_TOTAL_SHARES || op == OP_TOTAL_RELEASED || op == OP_SHARES || op == OP_RELEASED
            || op == OP_RELEASABLE || op == OP_TOTAL_RECEIVED || op == OP_PAYEE_COUNT,
    ensures
        crate::usdt::answer(r) == query_result(st@, op, params@),
{
    if !is_initialized(st) {
        return Err(ERR_NOT_INITIALIZED);
    }
    if op == OP_TOTAL_SHARES {
        return Ok(u64_le(get_total_shares(st)));
    }
    if op == OP_TOTAL_RELEASED {
        return Ok(u64_le(get_total_released(st)));
    }
    if op == OP_TOTAL_RECEIVED {
        return Ok(u64_le(get_total_received(st)));
    }
    if op == OP_PAYEE_COUNT {
        let c = vec![get_payee_count(st)];
        assert(c@ =~= seq![payee_count(st@)]);
        return Ok(c);
    }
    if params.len() < 32 {
        return Err(ERR_INVALID_PARAMS);
    }
    let payee = address_at(params, 0);
    if op == OP_SHARES {
        Ok(u64_le(get_shares(st, &payee)))
    } else if op == OP_RELEASED {
        Ok(u64_le(get_released(st, &payee)))
    } else {
        Ok(u64_le(calculate_releasable(st, &payee)))
    }
}

/// Status, return data and storage after an instruction (at most 4096
/// bytes are read).
pub open spec fn instruction_outcome(m: StorageMap, data: Seq<u8>) -> (u64, Seq<u8>, StorageMap) {
    let input = if data.len() <= 4096 {
        data
    } else {
        data.take(4096)
    };
    if input.len() == 0 {
        (ERR_INVALID_INSTRUCTION, Seq::empty(), m)
    } else {
        let op = input[0];
        let p = input.subrange(1, input.len() as int);
        if op == OP_INITIALIZE {
            (initialize_outcome(m, p).0, Seq::empty(), initialize_outcome(m, p).1)
        } else if op == OP_RELEASE {
            (release_outcome(m, p).0, Seq::empty(), release_outcome(m, p).1)
        } else if op == OP_TOTAL_SHARES || op == OP_TOTAL_RELEASED || op == OP_SHARES || op
            == OP_RELEASED || op == OP_RELEASABLE || op == OP_TOTAL_RECEIVED || op == OP_PAYEE_COUNT {
            match query_result(m, op, p) {
                Ok(d) => (SUCCESS, d, m),
                Err(e) => (e, Seq::empty(), m),
            }
        } else {
            (ERR_INVALID_INSTRUCTION, Seq::empty(), m)
        }
    }
}

/// Runs one instruction; answers the status and the return data.
pub fn entrypoint(st: &mut Storage, data: &[u8]) -> (r: (u64, Vec<u8>))
    ensures
        (r.0, r.1@, final(st)@) == instruction_outcome(old(st)@, data@),
{
    let len = if data.len() <= 4096 {
        data.len()
    } else {
        4096
    };
    if len == 0 {
        return (ERR_INVALID_INSTRUCTION, Vec::new());
    }
    let input = copy_range(data, 0, len);
    proof {
        assert(input@ =~= (if data@.len() <= 4096 { data@ } else { data@.take(4096) }));
    }
    let opcode = input[0];
    let params = copy_range(input.as_slice(), 1, len - 1);
    let p = params.as_slice();
    if opcode == OP_INITIALIZE {
        (op_initialize(st, p), Vec::new())
    } else if opcode == OP_RELEASE {
        (op_release(st, p), Vec::new())
    } else if opcode == OP_TOTAL_SHARES || opcode == OP_TOTAL_RELEASED || opcode == OP_SHARES
        || opcode == OP_RELEASED || opcode == OP_RELEASABLE || opcode == OP_TOTAL_RECEIVED
        || opcode == OP_PAYEE_COUNT {
        match op_query(st, opcode, p) {
            Ok(d) => (SUCCESS, d),
            Err(e) => (e, Vec::new()),
        }
    } else {
        (ERR_INVALID_INSTRUCTION, Vec::new())
    }
}

// ---------------------------------------------------------------------------
// Laws
// ---------------------------------------------------------------------------

/// A payee cannot be paid twice for the same income: after a successful
/// release (that does not saturate), nothing more is releasable.
pub proof fn law_release_exhausts(m: StorageMap, p: Seq<u8>)
    requires
        release_outcome(m, p).0 == SUCCESS,
        released(m, p.subrange(0, 32)) + releasable(m, p.subrange(0, 32)) <= u64::MAX,
    ensures
        releasable(release_outcome(m, p).1, p.subrange(0, 32)) == 0,
{
    let payee = p.subrange(0, 32);
    let amount = releasable(m, payee);
    let m1 = m.insert(released_key(payee), le_bytes(sat_add(released(m, payee), amount) as nat, 8));
    let m2 = release_outcome(m, p).1;
    lemma_u64_cell_roundtrip(sat_add(released(m, payee), amount));
    lemma_u64_cell_roundtrip(sat_add(total_released(m1), amount));
    assert(released_key(payee)[0] != shares_key(payee)[0]);
    assert(released_key(payee) != key_total_shares());
    assert(released_key(payee) != key_total_received());
    assert(key_total_released()[0] != key_total_shares()[0]);
    assert(key_total_released()[0] != key_total_received()[0]);
    assert(key_total_released() != shares_key(payee));
    assert(key_total_released() != released_key(payee));
}

/// What a payee can release never exceeds its entitlement.
pub proof fn law_releasable_bounded(m: StorageMap, payee: Seq<u8>)
    ensures
        releasable(m, payee) <= entitlement(m, payee),
{
}

/// A payee with shares, in a splitter with shares, can release its share of
/// everything received (`total_received * shares / total_shares`) less
/// what it already released, whatever it released before; nothing once it
/// released its whole share.
pub proof fn law_releasable_is_unreleased_share(m: StorageMap, payee: Seq<u8>)
    requires
        shares(m, payee) > 0,
        total_shares(m) > 0,
        total_received(m) * shares(m, payee) / total_shares(m) as int <= u64::MAX,
    ensures
        ({
            let share = total_received(m) * shares(m, payee) / total_shares(m) as int;
            releasable(m, payee) == if released(m, payee) <= share { share - released(m, payee) } else { 0 }
        }),
{
}

/// A successful `RELEASE` for a payee pays out the rest of its share of
/// everything received: afterwards its released amount is exactly that
/// share (`total_received * shares / total_shares`), and the total released
/// grew by what it had not yet released.
pub proof fn law_release_pays_share(m: StorageMap, p: Seq<u8>)
    requires
        release_outcome(m, p).0 == SUCCESS,
        total_shares(m) > 0,
        total_received(m) * shares(m, p.subrange(0, 32)) / total_shares(m) as int <= u64::MAX,
        total_released(m) + total_received(m) * shares(m, p.subrange(0, 32)) / total_shares(m) as int
            <= u64::MAX,
    ensures
        ({
            let payee = p.subrange(0, 32);
            let share = total_received(m) * shares(m, payee) / total_shares(m) as int;
            let m2 = release_outcome(m, p).1;
            &&& released(m, payee) < share
            &&& released(m2, payee) == share
            &&& total_released(m2) == total_released(m) + (share - released(m, payee))
        }),
{
    let payee = p.subrange(0, 32);
    let amount = releasable(m, payee);
    let m1 = m.insert(released_key(payee), le_bytes(sat_add(released(m, payee), amount) as nat, 8));
    lemma_u64_cell_roundtrip(sat_add(released(m, payee), amount));
    lemma_u64_cell_roundtrip(sat_add(total_released(m1), amount));
    assert(released_key(payee)[0] == 0x20u8);
    assert(key_total_released()[0] != released_key(payee)[0]);
    assert(key_total_released() != released_key(payee));
    assert(total_released(m1) == total_released(m));
}

} // verus!

//! An ERC721 non-fungible token contract in the OpenZeppelin style: token
//! owners, per-owner balances, single-token approvals, operators approved
//! for all of an owner's tokens, and metadata.
//!
//! Each handler takes the whole instruction (its first byte is the opcode)
//! and the caller, and answers `Ok` or an error code.
//!
//! The contract counts as initialized once its name reads back; it is
//! initialized once, and every other instruction is refused until then.

use vstd::prelude::*;
use vstd::utf8::valid_utf8;
use crate::bytes::{
    le_bytes, le_nat, address_at, read_u16_at, read_u64_at, copy_range, u64_le, append_bytes,
    all_zero, is_zero_address, bytes_eq, lemma_le_bytes_len, lemma_pow256_values,
};
use crate::storage::{Storage, read_buffer, read_len};
use crate::cells::{bytes_cell, read_bytes, u64_cell, bool_cell, read_u64, write_u64, read_buffer_filled, lemma_u64_cell_roundtrip};
use crate::stablecoin::StorageMap;

verus! {

pub const ERROR_ALREADY_INITIALIZED: u64 = 1;
pub const ERROR_NOT_INITIALIZED: u64 = 2;
pub const ERROR_INVALID_INSTRUCTION: u64 = 3;
pub const ERROR_INVALID_ADDRESS: u64 = 4;
pub const ERROR_TOKEN_NOT_FOUND: u64 = 5;
pub const ERROR_NOT_OWNER: u64 = 6;
pub const ERROR_NOT_AUTHORIZED: u64 = 7;
pub const ERROR_INVALID_RECEIVER: u64 = 8;
pub const ERROR_TOKEN_ALREADY_MINTED: u64 = 9;
pub const ERROR_SELF_APPROVAL: u64 = 10;
pub const ERROR_INVALID_OPERATOR: u64 = 11;

// ---------------------------------------------------------------------------
// UTF-8
// ---------------------------------------------------------------------------

/// Whether `b` is valid UTF-8: calls `core::str::from_utf8`, which the
/// standard library documents as succeeding exactly on valid UTF-8, stated
/// here by vstd's definition of valid UTF-8.
#[verifier::external_body]
fn is_utf8(b: &[u8]) -> (r: bool)
    ensures
        r == valid_utf8(b@),
{
    core::str::from_utf8(b).is_ok()
}

// ---------------------------------------------------------------------------
// Storage keys
// ---------------------------------------------------------------------------

/// `n` zero bytes.
pub open spec fn zeros(n: nat) -> Seq<u8> {
    Seq::new(n, |i: int| 0u8)
}

/// `"owner:"`, the token id (little-endian), zeros up to 64 bytes.
pub open spec fn owner_slot(token_id: u64) -> Seq<u8> {
    seq![111u8, 119, 110, 101, 114, 58] + le_bytes(token_id as nat, 8) + zeros(50)
}

/// `"balance:"`, the owner, zeros up to 64 bytes.
pub open spec fn balance_slot(owner: Seq<u8>) -> Seq<u8> {
    seq![98u8, 97, 108, 97, 110, 99, 101, 58] + owner + zeros(24)
}

/// `"approval:"`, the token id, zeros up to 64 bytes.
pub open spec fn approval_slot(token_id: u64) -> Seq<u8> {
    seq![97u8, 112, 112, 114, 111, 118, 97, 108, 58] + le_bytes(token_id as nat, 8) + zeros(47)
}

/// `"operator:"`, the owner, the operator, zeros up to 96 bytes.
pub open spec fn operator_slot(owner: Seq<u8>, operator: Seq<u8>) -> Seq<u8> {
    seq![111u8, 112, 101, 114, 97, 116, 111, 114, 58] + owner + operator + zeros(23)
}

/// `"uri:"`, the token id, zeros up to 64 bytes.
pub open spec fn uri_slot(token_id: u64) -> Seq<u8> {
    seq![117u8, 114, 105, 58] + le_bytes(token_id as nat, 8) + zeros(52)
}

pub open spec fn key_name() -> Seq<u8> {
    seq![109u8, 101, 116, 97, 100, 97, 116, 97, 58, 110, 97, 109, 101]
}

pub open spec fn key_symbol() -> Seq<u8> {
    seq![109u8, 101, 116, 97, 100, 97, 116, 97, 58, 115, 121, 109, 98, 111, 108]
}

pub open spec fn key_base_uri() -> Seq<u8> {
    seq![109u8, 101, 116, 97, 100, 97, 116, 97, 58, 98, 97, 115, 101, 95, 117, 114, 105]
}

pub open spec fn key_total_supply() -> Seq<u8> {
    seq![115u8, 116, 97, 116, 101, 58, 116, 111, 116, 97, 108, 95, 115, 117, 112, 112, 108, 121]
}

fn zeros_vec(n: usize) -> (r: Vec<u8>)
    ensures
        r@ == zeros(n as nat),
{
    let mut v: Vec<u8> = Vec::new();
    let mut i: usize = 0;
    while i < n
        invariant
            i <= n,
            v@ == zeros(i as nat),
        decreases n - i,
    {
        v.push(0u8);
        i = i + 1;
        proof {
            assert(v@ =~= zeros(i as nat));
        }
    }
    v
}

fn array64(v: &Vec<u8>) -> (r: [u8; 64])
    requires
        v@.len() == 64,
    ensures
        r@ == v@,
{
    let mut key = [0u8; 64];
    let mut i: usize = 0;
    while i < 64
        invariant
            i <= 64,
            v@.len() == 64,
            key@.len() == 64,
            forall|j: int| 0 <= j < i ==> key@[j] == v@[j],
        decreases 64 - i,
    {
        key[i] = v[i];
        i = i + 1;
    }
    assert(key@ =~= v@);
    key
}

pub fn owner_key(token_id: u64) -> (r: [u8; 64])
    ensures
        r@ == owner_slot(token_id),
{
    let mut v = vec![111u8, 119, 110, 101, 114, 58];
    append_bytes(&mut v, u64_le(token_id).as_slice());
    append_bytes(&mut v, zeros_vec(50).as_slice());
    assert(v@ =~= owner_slot(token_id));
    array64(&v)
}

pub fn balance_key(owner: &[u8; 32]) -> (r: [u8; 64])
    ensures
        r@ == balance_slot(owner@),
{
    let mut v = vec![98u8, 97, 108, 97, 110, 99, 101, 58];
    append_bytes(&mut v, owner.as_slice());
    append_bytes(&mut v, zeros_vec(24).as_slice());
    assert(v@ =~= balance_slot(owner@));
    array64(&v)
}

pub fn approval_key(token_id: u64) -> (r: [u8; 64])
    ensures
        r@ == approval_slot(token_id),
{
    let mut v = vec![97u8, 112, 112, 114, 111, 118, 97, 108, 58];
    append_bytes(&mut v, u64_le(token_id).as_slice());
    append_bytes(&mut v, zeros_vec(47).as_slice());
    assert(v@ =~= approval_slot(token_id));
    array64(&v)
}

pub fn operator_key(owner: &[u8; 32], operator: &[u8; 32]) -> (r: [u8; 96])
    ensures
        r@ == operator_slot(owner@, operator@),
{
    let mut v = vec![111u8, 112, 101, 114, 97, 116, 111, 114, 58];
    append_bytes(&mut v, owner.as_slice());
    append_bytes(&mut v, operator.as_slice());
    append_bytes(&mut v, zeros_vec(23).as_slice());
    let mut key = [0u8; 96];
    let mut i: usize = 0;
    while i < 96
        invariant
            i <= 96,
            v@.len() == 96,
            key@.len() == 96,
            forall|j: int| 0 <= j < i ==> key@[j] == v@[j],
        decreases 96 - i,
    {
        key[i] = v[i];
        i = i + 1;
    }
    assert(key@ =~= operator_slot(owner@, operator@));
    key
}

pub fn uri_key(token_id: u64) -> (r: [u8; 64])
    ensures
        r@ == uri_slot(token_id),
{
    let mut v = vec![117u8, 114, 105, 58];
    append_bytes(&mut v, u64_le(token_id).as_slice());
    append_bytes(&mut v, zeros_vec(52).as_slice());
    assert(v@ =~= uri_slot(token_id));
    array64(&v)
}

fn key_name_vec() -> (r: Vec<u8>)
    ensures
        r@ == key_name(),
{
    let v = vec![109u8, 101, 116, 97, 100, 97, 116, 97, 58, 110, 97, 109, 101];
    assert(v@ =~= key_name());
    v
}

fn key_symbol_vec() -> (r: Vec<u8>)
    ensures
        r@ == key_symbol(),
{
    let v = vec![109u8, 101, 116, 97, 100, 97, 116, 97, 58, 115, 121, 109, 98, 111, 108];
    assert(v@ =~= key_symbol());
    v
}

fn key_base_uri_vec() -> (r: Vec<u8>)
    ensures
        r@ == key_base_uri(),
{
    let v = vec![109u8, 101, 116, 97, 100, 97, 116, 97, 58, 98, 97, 115, 101, 95, 117, 114, 105];
    assert(v@ =~= key_base_uri());
    v
}

fn key_total_supply_vec() -> (r: Vec<u8>)
    ensures
        r@ == key_total_supply(),
{
    let v = vec![115u8, 116, 97, 116, 101, 58, 116, 111, 116, 97, 108, 95, 115, 117, 112, 112, 108, 121];
    assert(v@ =~= key_total_supply());
    v
}

// ---------------------------------------------------------------------------
// State
// ---------------------------------------------------------------------------

/// A stored string, read through a 256-byte buffer: the bytes read, or
/// nothing when no byte is stored.
pub open spec fn stored_string(m: StorageMap, k: Seq<u8>) -> Option<Seq<u8>> {
    bytes_cell(m.get(k), 256)
}

/// Initialized once the collection name reads back.
pub open spec fn initialized(m: StorageMap) -> bool {
    stored_string(m, key_name()) is Some
}

/// The first 32 bytes stored under `k`, when anything is stored.
pub open spec fn address_under(m: StorageMap, k: Seq<u8>) -> Option<Seq<u8>> {
    if read_len(m.get(k), 256) > 0 {
        Some(read_buffer(m.get(k), 256).take(32))
    } else {
        None
    }
}

/// The owner of a token, when it is minted.
pub open spec fn owner_of(m: StorageMap, token_id: u64) -> Option<Seq<u8>> {
    address_under(m, owner_slot(token_id))
}

/// The account approved for one token, if any was stored.
pub open spec fn approved_for(m: StorageMap, token_id: u64) -> Option<Seq<u8>> {
    address_under(m, approval_slot(token_id))
}

/// An owner's token count (0 when fewer than 8 bytes are stored).
pub open spec fn balance(m: StorageMap, owner: Seq<u8>) -> u64 {
    match u64_cell(m.get(balance_slot(owner))) {
        Some(b) => b,
        None => 0,
    }
}

/// Whether the owner approved the operator for all its tokens.
pub open spec fn approved_for_all(m: StorageMap, owner: Seq<u8>, operator: Seq<u8>) -> bool {
    bool_cell(m.get(operator_slot(owner, operator)))
}

/// A non-zero spender that is the owner, an operator of the owner, or the
/// account approved for the token.
pub open spec fn authorized(m: StorageMap, owner: Seq<u8>, spender: Seq<u8>, token_id: u64) -> bool {
    !all_zero(spender) && (owner == spender || approved_for_all(m, owner, spender) || approved_for(
        m,
        token_id,
    ) == Some(spender))
}

/// The number of minted tokens.
pub open spec fn total_supply(m: StorageMap) -> u64 {
    match u64_cell(m.get(key_total_supply())) {
        Some(t) => t,
        None => 0,
    }
}

/// Reads a stored string through a 256-byte buffer.
pub fn read_string(st: &Storage, key: &[u8]) -> (r: Option<Vec<u8>>)
    ensures
        match r {
            Some(v) => stored_string(st@, key@) == Some(v@),
            None => stored_string(st@, key@) is None,
        },
{
    read_bytes(st, key, 256)
}

pub fn is_initialized(st: &Storage) -> (r: bool)
    ensures
        r == initialized(st@),
{
    read_string(st, key_name_vec().as_slice()).is_some()
}

/// The first 32 bytes stored under `key`.
fn read_address_under(st: &Storage, key: &[u8]) -> (r: Option<[u8; 32]>)
    ensures
        match r {
            Some(a) => address_under(st@, key@) == Some(a@),
            None => address_under(st@, key@) is None,
        },
{
    match read_buffer_filled(st, key, 256) {
        Some(buf) => {
            let a = address_at(buf.as_slice(), 0);
            assert(a@ =~= buf@.take(32));
            Some(a)
        },
        None => None,
    }
}

pub fn owner_of_internal(st: &Storage, token_id: u64) -> (r: Option<[u8; 32]>)
    ensures
        match r {
            Some(a) => owner_of(st@, token_id) == Some(a@),
            None => owner_of(st@, token_id) is None,
        },
{
    let key = owner_key(token_id);
    read_address_under(st, key.as_slice())
}

pub fn balance_of_internal(st: &Storage, owner: &[u8; 32]) -> (r: u64)
    ensures
        r == balance(st@, owner@),
{
    let key = balance_key(owner);
    match read_u64(st, key.as_slice()) {
        Some(b) => b,
        None => 0,
    }
}

pub fn get_approved_internal(st: &Storage, token_id: u64) -> (r: Option<[u8; 32]>)
    ensures
        match r {
            Some(a) => approved_for(st@, token_id) == Some(a@),
            None => approved_for(st@, token_id) is None,
        },
{
    let key = approval_key(token_id);
    read_address_under(st, key.as_slice())
}

pub fn is_approved_for_all_internal(st: &Storage, owner: &[u8; 32], operator: &[u8; 32]) -> (r: bool)
    ensures
        r == approved_for_all(st@, owner@, operator@),
{
    let key = operator_key(owner, operator);
    match read_buffer_filled(st, key.as_slice(), 256) {
        Some(buf) => buf[0] != 0,
        None => false,
    }
}

pub fn is_authorized(st: &Storage, owner: &[u8; 32], spender: &[u8; 32], token_id: u64) -> (r: bool)
    ensures
        r == authorized(st@, owner@, spender@, token_id),
{
    if is_zero_address(spender) {
        return false;
    }
    if bytes_eq(owner.as_slice(), spender.as_slice()) {
        return true;
    }
    if is_approved_for_all_internal(st, owner, spender) {
        return true;
    }
    if let Some(approved) = get_approved_internal(st, token_id) {
        if bytes_eq(approved.as_slice(), spender.as_slice()) {
            return true;
        }
    }
    false
}

pub fn approve_internal(st: &mut Storage, to: &[u8; 32], token_id: u64)
    ensures
        final(st)@ == old(st)@.insert(approval_slot(token_id), to@),
{
    let key = approval_key(token_id);
    st.write(key.as_slice(), to.as_slice());
}

pub fn clear_approval(st: &mut Storage, token_id: u64)
    ensures
        final(st)@ == old(st)@.insert(approval_slot(token_id), zeros(32)),
{
    let key = approval_key(token_id);
    st.write(key.as_slice(), zeros_vec(32).as_slice());
}

pub fn set_approval_for_all_internal(st: &mut Storage, owner: &[u8; 32], operator: &[u8; 32], approved: bool)
    ensures
        final(st)@ == old(st)@.insert(
            operator_slot(owner@, operator@),
            if approved { seq![1u8] } else { seq![0u8] },
        ),
{
    let key = operator_key(owner, operator);
    let value: Vec<u8> = if approved {
        vec![1u8]
    } else {
        vec![0u8]
    };
    assert(value@ =~= (if approved { seq![1u8] } else { seq![0u8] }));
    st.write(key.as_slice(), value.as_slice());
}

// ---------------------------------------------------------------------------
// Ownership changes
// ---------------------------------------------------------------------------

/// The storage after the previous owner (if any) is debited one token.
pub open spec fn debit_previous(m: StorageMap, from: Option<Seq<u8>>) -> StorageMap {
    match from {
        Some(f) => if balance(m, f) > 0 {
            m.insert(balance_slot(f), le_bytes((balance(m, f) - 1) as nat, 8))
        } else {
            m
        },
        None => m,
    }
}

/// The storage after `token_id` passes to `to`: its approval cleared, the
/// previous owner debited (never below 0), a non-zero receiver credited,
/// and the owner record set to `to`.
pub open spec fn ownership_updated(m: StorageMap, to: Seq<u8>, token_id: u64, from: Option<Seq<u8>>) -> StorageMap {
    let m1 = debit_previous(m.insert(approval_slot(token_id), zeros(32)), from);
    let m2 = if all_zero(to) {
        m1
    } else {
        m1.insert(balance_slot(to), le_bytes((balance(m1, to) + 1) as nat, 8))
    };
    m2.insert(owner_slot(token_id), to)
}

/// The receiver's count does not overflow.
pub open spec fn ownership_fits(m: StorageMap, to: Seq<u8>, token_id: u64, from: Option<Seq<u8>>) -> bool {
    !all_zero(to) ==> balance(
        debit_previous(m.insert(approval_slot(token_id), zeros(32)), from),
        to,
    ) < u64::MAX
}

pub fn update_ownership(st: &mut Storage, to: &[u8; 32], token_id: u64, from: Option<[u8; 32]>)
    requires
        ownership_fits(old(st)@, to@, token_id, match from {
            Some(f) => Some(f@),
            None => None,
        }),
    ensures
        final(st)@ == ownership_updated(old(st)@, to@, token_id, match from {
            Some(f) => Some(f@),
            None => None,
        }),
{
    clear_approval(st, token_id);
    if let Some(from_addr) = from {
        let from_balance = balance_of_internal(st, &from_addr);
        if from_balance > 0 {
            let key = balance_key(&from_addr);
            write_u64(st, key.as_slice(), from_balance - 1);
        }
    }
    if !is_zero_address(to) {
        let to_balance = balance_of_internal(st, to);
        let key = balance_key(to);
        write_u64(st, key.as_slice(), to_balance + 1);
    }
    let key = owner_key(token_id);
    st.write(key.as_slice(), to.as_slice());
}

pub fn increment_total_supply(st: &mut Storage)
    requires
        total_supply(old(st)@) < u64::MAX,
    ensures
        final(st)@ == old(st)@.insert(key_total_supply(), le_bytes((total_supply(old(st)@) + 1) as nat, 8)),
{
    let current = match read_u64(st, key_total_supply_vec().as_slice()) {
        Some(c) => c,
        None => 0,
    };
    write_u64(st, key_total_supply_vec().as_slice(), current + 1);
}

pub fn decrement_total_supply(st: &mut Storage)
    ensures
        final(st)@ == (if total_supply(old(st)@) > 0 {
            old(st)@.insert(key_total_supply(), le_bytes((total_supply(old(st)@) - 1) as nat, 8))
        } else {
            old(st)@
        }),
{
    let current = match read_u64(st, key_total_supply_vec().as_slice()) {
        Some(c) => c,
        None => 0,
    };
    if current > 0 {
        write_u64(st, key_total_supply_vec().as_slice(), current - 1);
    }
}

// ---------------------------------------------------------------------------
// Instruction fields
// ---------------------------------------------------------------------------

pub open spec fn addr_at(p: Seq<u8>, off: int) -> Seq<u8> {
    p.subrange(off, off + 32)
}

pub open spec fn u64_at(p: Seq<u8>, off: int) -> u64 {
    le_nat(p.subrange(off, off + 8)) as u64
}

pub open spec fn u16_at(p: Seq<u8>, off: int) -> nat {
    le_nat(p.subrange(off, off + 2))
}

fn u16_field(input: &[u8], off: usize) -> (r: usize)
    requires
        off + 2 <= input@.len(),
    ensures
        r as nat == u16_at(input@, off as int),
        r < 65536,
{
    let v = read_u16_at(input, off);
    v as usize
}

fn u64_field(input: &[u8], off: usize) -> (r: u64)
    requires
        off + 8 <= input@.len(),
    ensures
        r == u64_at(input@, off as int),
{
    read_u64_at(input, off)
}

// ---------------------------------------------------------------------------
// Initialization
// ---------------------------------------------------------------------------

/// The `[len:2][bytes]` string at `off`, when the instruction holds it.
pub open spec fn string_at(p: Seq<u8>, off: int) -> Option<Seq<u8>> {
    if p.len() < off + 2 || p.len() < off + 2 + u16_at(p, off) {
        None
    } else {
        Some(p.subrange(off + 2, off + 2 + u16_at(p, off)))
    }
}

/// Outcome of `INITIALIZE` (`[0x00][name_len:2][name][symbol_len:2][symbol]`
/// then optionally `[uri_len:2][base_uri]`): every string must be present
/// and valid UTF-8; stores them and a zero total supply.
pub open spec fn initialize_outcome(m: StorageMap, p: Seq<u8>) -> (Result<(), u64>, StorageMap) {
    if initialized(m) {
        (Err(ERROR_ALREADY_INITIALIZED), m)
    } else {
        match string_at(p, 1) {
            None => (Err(ERROR_INVALID_INSTRUCTION), m),
            Some(name) => if !valid_utf8(name) {
                (Err(ERROR_INVALID_INSTRUCTION), m)
            } else {
                let o: int = 3 + name.len() as int;
                match string_at(p, o) {
                    None => (Err(ERROR_INVALID_INSTRUCTION), m),
                    Some(symbol) => if !valid_utf8(symbol) {
                        (Err(ERROR_INVALID_INSTRUCTION), m)
                    } else {
                        let o2: int = o + 2 + symbol.len() as int;
                        let m1 = m.insert(key_name(), name).insert(key_symbol(), symbol);
                        if p.len() > o2 + 2 {
                            match string_at(p, o2) {
                                None => (Err(ERROR_INVALID_INSTRUCTION), m),
                                Some(uri) => if !valid_utf8(uri) {
                                    (Err(ERROR_INVALID_INSTRUCTION), m)
                                } else {
                                    (
                                        Ok(()),
                                        m1.insert(key_base_uri(), uri).insert(
                                            key_total_supply(),
                                            le_bytes(0, 8),
                                        ),
                                    )
                                },
                            }
                        } else {
                            (Ok(()), m1.insert(key_total_supply(), le_bytes(0, 8)))
                        }
                    },
                }
            },
        }
    }
}

pub fn handle_initialize(st: &mut Storage, input: &[u8]) -> (r: Result<(), u64>)
    ensures
        (r, final(st)@) == initialize_outcome(old(st)@, input@),
{
    if is_initialized(st) {
        return Err(ERROR_ALREADY_INITIALIZED);
    }
    let len = input.len();
    let mut offset: usize = 1;
    if len < offset + 2 {
        return Err(ERROR_INVALID_INSTRUCTION);
    }
    let name_len = u16_field(input, offset);
    offset = offset + 2;
    if len - offset < name_len {
        return Err(ERROR_INVALID_INSTRUCTION);
    }
    let name = copy_range(input, offset, name_len);
    if !is_utf8(name.as_slice()) {
        return Err(ERROR_INVALID_INSTRUCTION);
    }
    offset = offset + name_len;
    if len - offset < 2 {
        return Err(ERROR_INVALID_INSTRUCTION);
    }
    let symbol_len = u16_field(input, offset);
    offset = offset + 2;
    if len - offset < symbol_len {
        return Err(ERROR_INVALID_INSTRUCTION);
    }
    let symbol = copy_range(input, offset, symbol_len);
    if !is_utf8(symbol.as_slice()) {
        return Err(ERROR_INVALID_INSTRUCTION);
    }
    offset = offset + symbol_len;
    let base_uri: Option<Vec<u8>> = if len - offset > 2 {
        let uri_len = u16_field(input, offset);
        offset = offset + 2;
        if len - offset < uri_len {
            return Err(ERROR_INVALID_INSTRUCTION);
        }
        let uri = copy_range(input, offset, uri_len);
        if !is_utf8(uri.as_slice()) {
            return Err(ERROR_INVALID_INSTRUCTION);
        }
        Some(uri)
    } else {
        None
    };
    st.write(key_name_vec().as_slice(), name.as_slice());
    st.write(key_symbol_vec().as_slice(), symbol.as_slice());
    if let Some(uri) = base_uri {
        st.write(key_base_uri_vec().as_slice(), uri.as_slice());
    }
    write_u64(st, key_total_supply_vec().as_slice(), 0);
    Ok(())
}

// ---------------------------------------------------------------------------
// Instructions on an initialized contract
// ---------------------------------------------------------------------------

/// The status and storage of a refused instruction.
pub open spec fn refused(m: StorageMap, code: u64) -> (Result<(), u64>, StorageMap) {
    (Err(code), m)
}

/// The storage after `token_id` is minted to `to`: ownership recorded and
/// the total supply raised by one.
pub open spec fn minted(m: StorageMap, to: Seq<u8>, token_id: u64) -> StorageMap {
    let m1 = ownership_updated(m, to, token_id, None);
    m1.insert(key_total_supply(), le_bytes((total_supply(m1) + 1) as nat, 8))
}

/// Outcome of `MINT` (`[0x01][to:32][token_id:8]`): to a non-zero receiver,
/// a token not yet minted.
pub open spec fn mint_outcome(m: StorageMap, p: Seq<u8>) -> (Result<(), u64>, StorageMap) {
    if !initialized(m) {
        refused(m, ERROR_NOT_INITIALIZED)
    } else if p.len() < 41 {
        refused(m, ERROR_INVALID_INSTRUCTION)
    } else if all_zero(addr_at(p, 1)) {
        refused(m, ERROR_INVALID_RECEIVER)
    } else if owner_of(m, u64_at(p, 33)) is Some {
        refused(m, ERROR_TOKEN_ALREADY_MINTED)
    } else {
        (Ok(()), minted(m, addr_at(p, 1), u64_at(p, 33)))
    }
}

/// The counts a mint raises do not overflow.
pub open spec fn mint_completes(m: StorageMap, p: Seq<u8>) -> bool {
    (initialized(m) && p.len() >= 41 && !all_zero(addr_at(p, 1)) && owner_of(m, u64_at(p, 33)) is None)
        ==> ownership_fits(m, addr_at(p, 1), u64_at(p, 33), None) && total_supply(
        ownership_updated(m, addr_at(p, 1), u64_at(p, 33), None),
    ) < u64::MAX
}

/// Outcome of a transfer of the token in `[from:32][to:32][token_id:8]`
/// (at offset 1) by `caller`: the receiver must be non-zero, the token
/// minted and owned by `from`, and `caller` the owner (`by_owner`) or
/// authorized for it.
pub open spec fn transfer_outcome(m: StorageMap, p: Seq<u8>, caller: Seq<u8>, by_owner: bool) -> (Result<(), u64>, StorageMap) {
    if !initialized(m) {
        refused(m, ERROR_NOT_INITIALIZED)
    } else if p.len() < 73 {
        refused(m, ERROR_INVALID_INSTRUCTION)
    } else if all_zero(addr_at(p, 33)) {
        refused(m, ERROR_INVALID_RECEIVER)
    } else {
        match owner_of(m, u64_at(p, 65)) {
            None => refused(m, ERROR_TOKEN_NOT_FOUND),
            Some(o) => if addr_at(p, 1) != o {
                refused(m, ERROR_NOT_OWNER)
            } else if (by_owner && caller != o) || (!by_owner && !authorized(m, o, caller, u64_at(p, 65))) {
                refused(m, ERROR_NOT_AUTHORIZED)
            } else {
                (Ok(()), ownership_updated(m, addr_at(p, 33), u64_at(p, 65), Some(o)))
            },
        }
    }
}

/// The receiver's count a transfer raises does not overflow.
pub open spec fn transfer_completes(m: StorageMap, p: Seq<u8>) -> bool {
    p.len() >= 73 ==> match owner_of(m, u64_at(p, 65)) {
        Some(o) => ownership_fits(m, addr_at(p, 33), u64_at(p, 65), Some(o)),
        None => true,
    }
}

/// Outcome of `APPROVE` (`[0x03][to:32][token_id:8]`) by `caller`, the
/// owner or one of its operators; approving the owner itself is refused.
pub open spec fn approve_outcome(m: StorageMap, p: Seq<u8>, caller: Seq<u8>) -> (Result<(), u64>, StorageMap) {
    if !initialized(m) {
        refused(m, ERROR_NOT_INITIALIZED)
    } else if p.len() < 41 {
        refused(m, ERROR_INVALID_INSTRUCTION)
    } else {
        match owner_of(m, u64_at(p, 33)) {
            None => refused(m, ERROR_TOKEN_NOT_FOUND),
            Some(o) => if caller != o && !approved_for_all(m, o, caller) {
                refused(m, ERROR_NOT_AUTHORIZED)
            } else if addr_at(p, 1) == o {
                refused(m, ERROR_SELF_APPROVAL)
            } else {
                (Ok(()), m.insert(approval_slot(u64_at(p, 33)), addr_at(p, 1)))
            },
        }
    }
}

/// Outcome of `SET_APPROVAL_FOR_ALL` (`[0x05][operator:32][approved:1]`) by
/// `caller`: a non-zero operator other than the caller.
pub open spec fn approval_for_all_outcome(m: StorageMap, p: Seq<u8>, caller: Seq<u8>) -> (Result<(), u64>, StorageMap) {
    if !initialized(m) {
        refused(m, ERROR_NOT_INITIALIZED)
    } else if p.len() < 34 {
        refused(m, ERROR_INVALID_INSTRUCTION)
    } else if all_zero(addr_at(p, 1)) {
        refused(m, ERROR_INVALID_OPERATOR)
    } else if addr_at(p, 1) == caller {
        refused(m, ERROR_SELF_APPROVAL)
    } else {
        (Ok(()), m.insert(operator_slot(caller, addr_at(p, 1)), if p[33] != 0 { seq![1u8] } else { seq![0u8] }))
    }
}

/// The storage after `token_id`, owned by `o`, is burned: it passes to the
/// zero address and the total supply falls by one (never below 0).
pub open spec fn burned(m: StorageMap, o: Seq<u8>, token_id: u64) -> StorageMap {
    let m1 = ownership_updated(m, zeros(32), token_id, Some(o));
    if total_supply(m1) > 0 {
        m1.insert(key_total_supply(), le_bytes((total_supply(m1) - 1) as nat, 8))
    } else {
        m1
    }
}

/// Outcome of `BURN` (`[0x07][token_id:8]`) by an authorized `caller`.
pub open spec fn burn_outcome(m: StorageMap, p: Seq<u8>, caller: Seq<u8>) -> (Result<(), u64>, StorageMap) {
    if !initialized(m) {
        refused(m, ERROR_NOT_INITIALIZED)
    } else if p.len() < 9 {
        refused(m, ERROR_INVALID_INSTRUCTION)
    } else {
        match owner_of(m, u64_at(p, 1)) {
            None => refused(m, ERROR_TOKEN_NOT_FOUND),
            Some(o) => if !authorized(m, o, caller, u64_at(p, 1)) {
                refused(m, ERROR_NOT_AUTHORIZED)
            } else {
                (Ok(()), burned(m, o, u64_at(p, 1)))
            },
        }
    }
}

/// The `[len:2][bytes]` string at `off` that must fill the rest of the
/// instruction's length, when it is there (`None` when too short).
pub open spec fn uri_at(p: Seq<u8>, off: int) -> Option<Seq<u8>> {
    if p.len() - (off + 2) < u16_at(p, off) {
        None
    } else {
        Some(p.subrange(off + 2, off + 2 + u16_at(p, off)))
    }
}

/// Outcome of `SET_TOKEN_URI` (`[0x08][token_id:8][uri_len:2][uri]`) by the
/// token's owner; the URI must be valid UTF-8.
pub open spec fn token_uri_outcome(m: StorageMap, p: Seq<u8>, caller: Seq<u8>) -> (Result<(), u64>, StorageMap) {
    if !initialized(m) {
        refused(m, ERROR_NOT_INITIALIZED)
    } else if p.len() < 11 {
        refused(m, ERROR_INVALID_INSTRUCTION)
    } else {
        match owner_of(m, u64_at(p, 1)) {
            None => refused(m, ERROR_TOKEN_NOT_FOUND),
            Some(o) => if caller != o {
                refused(m, ERROR_NOT_AUTHORIZED)
            } else {
                match uri_at(p, 9) {
                    None => refused(m, ERROR_INVALID_INSTRUCTION),
                    Some(uri) => if !valid_utf8(uri) {
                        refused(m, ERROR_INVALID_INSTRUCTION)
                    } else {
                        (Ok(()), m.insert(uri_slot(u64_at(p, 1)), uri))
                    },
                }
            },
        }
    }
}

/// Outcome of `SET_BASE_URI` (`[0x09][uri_len:2][uri]`); the URI must be
/// valid UTF-8.
pub open spec fn base_uri_outcome(m: StorageMap, p: Seq<u8>) -> (Result<(), u64>, StorageMap) {
    if !initialized(m) {
        refused(m, ERROR_NOT_INITIALIZED)
    } else if p.len() < 3 {
        refused(m, ERROR_INVALID_INSTRUCTION)
    } else {
        match uri_at(p, 1) {
            None => refused(m, ERROR_INVALID_INSTRUCTION),
            Some(uri) => if !valid_utf8(uri) {
                refused(m, ERROR_INVALID_INSTRUCTION)
            } else {
                (Ok(()), m.insert(key_base_uri(), uri))
            },
        }
    }
}

/// `MINT` (`[0x01][to:32][token_id:8]`).
pub fn handle_mint(st: &mut Storage, input: &[u8], caller: &[u8; 32]) -> (r: Result<(), u64>)
    requires
        mint_completes(old(st)@, input@),
    ensures
        (r, final(st)@) == mint_outcome(old(st)@, input@),
{
    if !is_initialized(st) {
        return Err(ERROR_NOT_INITIALIZED);
    }
    if input.len() < 41 {
        return Err(ERROR_INVALID_INSTRUCTION);
    }
    let to = address_at(input, 1);
    if is_zero_address(&to) {
        return Err(ERROR_INVALID_RECEIVER);
    }
    let token_id = u64_field(input, 33);
    if owner_of_internal(st, token_id).is_some() {
        return Err(ERROR_TOKEN_ALREADY_MINTED);
    }
    update_ownership(st, &to, token_id, None);
    increment_total_supply(st);
    Ok(())
}

/// `TRANSFER` (`[0x02][from:32][to:32][token_id:8]`), by the owner only.
pub fn handle_transfer(st: &mut Storage, input: &[u8], caller: &[u8; 32]) -> (r: Result<(), u64>)
    requires
        transfer_completes(old(st)@, input@),
    ensures
        (r, final(st)@) == transfer_outcome(old(st)@, input@, caller@, true),
{
    if !is_initialized(st) {
        return Err(ERROR_NOT_INITIALIZED);
    }
    if input.len() < 73 {
        return Err(ERROR_INVALID_INSTRUCTION);
    }
    let from = address_at(input, 1);
    let to = address_at(input, 33);
    let token_id = u64_field(input, 65);
    if is_zero_address(&to) {
        return Err(ERROR_INVALID_RECEIVER);
    }
    let owner = match owner_of_internal(st, token_id) {
        Some(o) => o,
        None => return Err(ERROR_TOKEN_NOT_FOUND),
    };
    if !bytes_eq(from.as_slice(), owner.as_slice()) {
        return Err(ERROR_NOT_OWNER);
    }
    if !bytes_eq(caller.as_slice(), owner.as_slice()) {
        return Err(ERROR_NOT_AUTHORIZED);
    }
    update_ownership(st, &to, token_id, Some(owner));
    Ok(())
}

/// `APPROVE` (`[0x03][to:32][token_id:8]`), by the owner or its operator.
pub fn handle_approve(st: &mut Storage, input: &[u8], caller: &[u8; 32]) -> (r: Result<(), u64>)
    ensures
        (r, final(st)@) == approve_outcome(old(st)@, input@, caller@),
{
    if !is_initialized(st) {
        return Err(ERROR_NOT_INITIALIZED);
    }
    if input.len() < 41 {
        return Err(ERROR_INVALID_INSTRUCTION);
    }
    let to = address_at(input, 1);
    let token_id = u64_field(input, 33);
    let owner = match owner_of_internal(st, token_id) {
        Some(o) => o,
        None => return Err(ERROR_TOKEN_NOT_FOUND),
    };
    if !bytes_eq(caller.as_slice(), owner.as_slice()) && !is_approved_for_all_internal(
        st,
        &owner,
        caller,
    ) {
        return Err(ERROR_NOT_AUTHORIZED);
    }
    if bytes_eq(to.as_slice(), owner.as_slice()) {
        return Err(ERROR_SELF_APPROVAL);
    }
    approve_internal(st, &to, token_id);
    Ok(())
}

/// `TRANSFER_FROM` (`[0x04][from:32][to:32][token_id:8]`), by an authorized
/// spender.
pub fn handle_transfer_from(st: &mut Storage, input: &[u8], caller: &[u8; 32]) -> (r: Result<(), u64>)
    requires
        transfer_completes(old(st)@, input@),
    ensures
        (r, final(st)@) == transfer_outcome(old(st)@, input@, caller@, false),
{
    if !is_initialized(st) {
        return Err(ERROR_NOT_INITIALIZED);
    }
    if input.len() < 73 {
        return Err(ERROR_INVALID_INSTRUCTION);
    }
    let from = address_at(input, 1);
    let to = address_at(input, 33);
    let token_id = u64_field(input, 65);
    if is_zero_address(&to) {
        return Err(ERROR_INVALID_RECEIVER);
    }
    let owner = match owner_of_internal(st, token_id) {
        Some(o) => o,
        None => return Err(ERROR_TOKEN_NOT_FOUND),
    };
    if !bytes_eq(from.as_slice(), owner.as_slice()) {
        return Err(ERROR_NOT_OWNER);
    }
    if !is_authorized(st, &owner, caller, token_id) {
        return Err(ERROR_NOT_AUTHORIZED);
    }
    update_ownership(st, &to, token_id, Some(owner));
    Ok(())
}

/// `SET_APPROVAL_FOR_ALL` (`[0x05][operator:32][approved:1]`).
pub fn handle_set_approval_for_all(st: &mut Storage, input: &[u8], caller: &[u8; 32]) -> (r: Result<(), u64>)
    ensures
        (r, final(st)@) == approval_for_all_outcome(old(st)@, input@, caller@),
{
    if !is_initialized(st) {
        return Err(ERROR_NOT_INITIALIZED);
    }
    if input.len() < 34 {
        return Err(ERROR_INVALID_INSTRUCTION);
    }
    let operator = address_at(input, 1);
    if is_zero_address(&operator) {
        return Err(ERROR_INVALID_OPERATOR);
    }
    if bytes_eq(operator.as_slice(), caller.as_slice()) {
        return Err(ERROR_SELF_APPROVAL);
    }
    let approved = input[33] != 0;
    set_approval_for_all_internal(st, caller, &operator, approved);
    Ok(())
}

/// `SAFE_TRANSFER_FROM`: the same as `TRANSFER_FROM`.
pub fn handle_safe_transfer_from(st: &mut Storage, input: &[u8], caller: &[u8; 32]) -> (r: Result<(), u64>)
    requires
        transfer_completes(old(st)@, input@),
    ensures
        (r, final(st)@) == transfer_outcome(old(st)@, input@, caller@, false),
{
    handle_transfer_from(st, input, caller)
}

/// `BURN` (`[0x07][token_id:8]`), by an authorized spender.
pub fn handle_burn(st: &mut Storage, input: &[u8], caller: &[u8; 32]) -> (r: Result<(), u64>)
    ensures
        (r, final(st)@) == burn_outcome(old(st)@, input@, caller@),
{
    if !is_initialized(st) {
        return Err(ERROR_NOT_INITIALIZED);
    }
    if input.len() < 9 {
        return Err(ERROR_INVALID_INSTRUCTION);
    }
    let token_id = u64_field(input, 1);
    let owner = match owner_of_internal(st, token_id) {
        Some(o) => o,
        None => return Err(ERROR_TOKEN_NOT_FOUND),
    };
    if !is_authorized(st, &owner, caller, token_id) {
        return Err(ERROR_NOT_AUTHORIZED);
    }
    let zero = [0u8; 32];
    assert(zero@ =~= zeros(32));
    update_ownership(st, &zero, token_id, Some(owner));
    decrement_total_supply(st);
    Ok(())
}

/// `SET_TOKEN_URI` (`[0x08][token_id:8][uri_len:2][uri]`), by the owner.
pub fn handle_set_token_uri(st: &mut Storage, input: &[u8], caller: &[u8; 32]) -> (r: Result<(), u64>)
    ensures
        (r, final(st)@) == token_uri_outcome(old(st)@, input@, caller@),
{
    if !is_initialized(st) {
        return Err(ERROR_NOT_INITIALIZED);
    }
    if input.len() < 11 {
        return Err(ERROR_INVALID_INSTRUCTION);
    }
    let token_id = u64_field(input, 1);
    let owner = match owner_of_internal(st, token_id) {
        Some(o) => o,
        None => return Err(ERROR_TOKEN_NOT_FOUND),
    };
    if !bytes_eq(caller.as_slice(), owner.as_slice()) {
        return Err(ERROR_NOT_AUTHORIZED);
    }
    let uri_len = u16_field(input, 9);
    if input.len() - 11 < uri_len {
        return Err(ERROR_INVALID_INSTRUCTION);
    }
    let uri = copy_range(input, 11, uri_len);
    if !is_utf8(uri.as_slice()) {
        return Err(ERROR_INVALID_INSTRUCTION);
    }
    let key = uri_key(token_id);
    st.write(key.as_slice(), uri.as_slice());
    Ok(())
}

/// `SET_BASE_URI` (`[0x09][uri_len:2][uri]`).
pub fn handle_set_base_uri(st: &mut Storage, input: &[u8], caller: &[u8; 32]) -> (r: Result<(), u64>)
    ensures
        (r, final(st)@) == base_uri_outcome(old(st)@, input@),
{
    if !is_initialized(st) {
        return Err(ERROR_NOT_INITIALIZED);
    }
    if input.len() < 3 {
        return Err(ERROR_INVALID_INSTRUCTION);
    }
    let uri_len = u16_field(input, 1);
    if input.len() - 3 < uri_len {
        return Err(ERROR_INVALID_INSTRUCTION);
    }
    let uri = copy_range(input, 3, uri_len);
    if !is_utf8(uri.as_slice()) {
        return Err(ERROR_INVALID_INSTRUCTION);
    }
    st.write(key_base_uri_vec().as_slice(), uri.as_slice());
    Ok(())
}

// ---------------------------------------------------------------------------
// Queries
// ---------------------------------------------------------------------------

/// The answer of a query on a contract that is not initialized, or to an
/// instruction shorter than `min` bytes, else `ok`.
pub open spec fn query<T>(m: StorageMap, p: Seq<u8>, min: int, ok: Result<T, u64>) -> Result<T, u64> {
    if !initialized(m) {
        Err(ERROR_NOT_INITIALIZED)
    } else if p.len() < min {
        Err(ERROR_INVALID_INSTRUCTION)
    } else {
        ok
    }
}

/// The answer of `OWNER_OF` (`[0x11][token_id:8]`) once its length checked.
pub open spec fn owner_answer(m: StorageMap, p: Seq<u8>) -> Result<Seq<u8>, u64> {
    match owner_of(m, u64_at(p, 1)) {
        Some(o) => Ok(o),
        None => Err(ERROR_TOKEN_NOT_FOUND),
    }
}

/// The answer of `GET_APPROVED` (`[0x12][token_id:8]`) once its length
/// checked: the approved account, zeros when none.
pub open spec fn approved_answer(m: StorageMap, p: Seq<u8>) -> Result<Seq<u8>, u64> {
    if owner_of(m, u64_at(p, 1)) is None {
        Err(ERROR_TOKEN_NOT_FOUND)
    } else {
        match approved_for(m, u64_at(p, 1)) {
            Some(a) => Ok(a),
            None => Ok(zeros(32)),
        }
    }
}

/// The first `n` bytes of `b` (at most its length) padded with zeros to
/// `size` bytes.
pub open spec fn pad(b: Seq<u8>, n: nat, size: nat) -> Seq<u8> {
    let take: nat = if b.len() < n { b.len() } else { n };
    b.take(take as int) + zeros((size - take) as nat)
}

/// The answer of `TOKEN_URI` (`[0x14][token_id:8]`) once its length
/// checked: the token's URI, else the base URI (at most 240 bytes) followed
/// by the token id in decimal, else zeros; always 256 bytes.
pub open spec fn token_uri_answer(m: StorageMap, p: Seq<u8>) -> Result<Seq<u8>, u64> {
    let id = u64_at(p, 1);
    if owner_of(m, id) is None {
        Err(ERROR_TOKEN_NOT_FOUND)
    } else {
        match stored_string(m, uri_slot(id)) {
            Some(uri) => Ok(pad(uri, 256, 256)),
            None => match stored_string(m, key_base_uri()) {
                Some(base) => Ok(pad(pad(base, 240, 240) + crate::text::decimal_bytes(id as nat), 256, 256)),
                None => Ok(zeros(256)),
            },
        }
    }
}

/// A stored string, or nothing.
pub open spec fn string_or_empty(m: StorageMap, k: Seq<u8>) -> Seq<u8> {
    match stored_string(m, k) {
        Some(v) => v,
        None => Seq::empty(),
    }
}

/// A byte answer as the view of its bytes.
pub open spec fn bytes_view<const N: usize>(r: Result<[u8; N], u64>) -> Result<Seq<u8>, u64> {
    match r {
        Ok(a) => Ok(a@),
        Err(e) => Err(e),
    }
}

/// A byte answer as the view of its bytes.
pub open spec fn vec_view(r: Result<Vec<u8>, u64>) -> Result<Seq<u8>, u64> {
    match r {
        Ok(a) => Ok(a@),
        Err(e) => Err(e),
    }
}

/// `BALANCE_OF` (`[0x10][owner:32]`).
pub fn handle_balance_of(st: &Storage, input: &[u8]) -> (r: Result<u64, u64>)
    ensures
        r == query(st@, input@, 33, Ok::<u64, u64>(balance(st@, addr_at(input@, 1)))),
{
    if !is_initialized(st) {
        return Err(ERROR_NOT_INITIALIZED);
    }
    if input.len() < 33 {
        return Err(ERROR_INVALID_INSTRUCTION);
    }
    let owner = address_at(input, 1);
    Ok(balance_of_internal(st, &owner))
}

/// `OWNER_OF` (`[0x11][token_id:8]`).
pub fn handle_owner_of(st: &Storage, input: &[u8]) -> (r: Result<[u8; 32], u64>)
    ensures
        bytes_view(r) == query(st@, input@, 9, owner_answer(st@, input@)),
{
    if !is_initialized(st) {
        return Err(ERROR_NOT_INITIALIZED);
    }
    if input.len() < 9 {
        return Err(ERROR_INVALID_INSTRUCTION);
    }
    let token_id = u64_field(input, 1);
    match owner_of_internal(st, token_id) {
        Some(o) => Ok(o),
        None => Err(ERROR_TOKEN_NOT_FOUND),
    }
}

/// `GET_APPROVED` (`[0x12][token_id:8]`): the approved account, zero when
/// none.
pub fn handle_get_approved(st: &Storage, input: &[u8]) -> (r: Result<[u8; 32], u64>)
    ensures
        bytes_view(r) == query(st@, input@, 9, approved_answer(st@, input@)),
{
    if !is_initialized(st) {
        return Err(ERROR_NOT_INITIALIZED);
    }
    if input.len() < 9 {
        return Err(ERROR_INVALID_INSTRUCTION);
    }
    let token_id = u64_field(input, 1);
    if owner_of_internal(st, token_id).is_none() {
        return Err(ERROR_TOKEN_NOT_FOUND);
    }
    match get_approved_internal(st, token_id) {
        Some(a) => Ok(a),
        None => {
            let z = [0u8; 32];
            assert(z@ =~= zeros(32));
            Ok(z)
        },
    }
}

/// `IS_APPROVED_FOR_ALL` (`[0x13][owner:32][operator:32]`).
pub fn handle_is_approved_for_all(st: &Storage, input: &[u8]) -> (r: Result<bool, u64>)
    ensures
        r == query(
            st@,
            input@,
            65,
            Ok::<bool, u64>(approved_for_all(st@, addr_at(input@, 1), addr_at(input@, 33))),
        ),
{
    if !is_initialized(st) {
        return Err(ERROR_NOT_INITIALIZED);
    }
    if input.len() < 65 {
        return Err(ERROR_INVALID_INSTRUCTION);
    }
    let owner = address_at(input, 1);
    let operator = address_at(input, 33);
    Ok(is_approved_for_all_internal(st, &owner, &operator))
}

/// The first `n` bytes of `b` (at most its length) padded with zeros to
/// `size` bytes.
fn padded(b: &Vec<u8>, n: usize, size: usize) -> (r: Vec<u8>)
    requires
        n <= size,
    ensures
        r@ == pad(b@, n as nat, size as nat),
{
    let take = if b.len() < n {
        b.len()
    } else {
        n
    };
    let mut out = copy_range(b.as_slice(), 0, take);
    append_bytes(&mut out, zeros_vec(size - take).as_slice());
    out
}

/// `TOKEN_URI` (`[0x14][token_id:8]`): the token's URI, else the base URI
/// followed by the token id in decimal, else zeros (256 bytes).
pub fn handle_token_uri(st: &Storage, input: &[u8]) -> (r: Result<Vec<u8>, u64>)
    ensures
        vec_view(r) == query(st@, input@, 9, token_uri_answer(st@, input@)),
{
    if !is_initialized(st) {
        return Err(ERROR_NOT_INITIALIZED);
    }
    if input.len() < 9 {
        return Err(ERROR_INVALID_INSTRUCTION);
    }
    let token_id = u64_field(input, 1);
    if owner_of_internal(st, token_id).is_none() {
        return Err(ERROR_TOKEN_NOT_FOUND);
    }
    let key = uri_key(token_id);
    if let Some(uri) = read_string(st, key.as_slice()) {
        return Ok(padded(&uri, 256, 256));
    }
    if let Some(base_uri) = read_string(st, key_base_uri_vec().as_slice()) {
        let mut result = padded(&base_uri, 240, 240);
        let digits = crate::text::decimal_ascii(token_id);
        append_bytes(&mut result, digits.as_slice());
        return Ok(padded(&result, 256, 256));
    }
    Ok(zeros_vec(256))
}

/// `NAME` (`[0x15]`): the collection name, zero-padded to 64 bytes.
pub fn handle_name(st: &Storage, input: &[u8]) -> (r: Result<Vec<u8>, u64>)
    ensures
        vec_view(r) == query(st@, input@, 0, Ok::<Seq<u8>, u64>(pad(string_or_empty(st@, key_name()), 64, 64))),
{
    if !is_initialized(st) {
        return Err(ERROR_NOT_INITIALIZED);
    }
    let name = match read_string(st, key_name_vec().as_slice()) {
        Some(n) => n,
        None => Vec::new(),
    };
    Ok(padded(&name, 64, 64))
}

/// `SYMBOL` (`[0x16]`): the collection symbol, zero-padded to 32 bytes.
pub fn handle_symbol(st: &Storage, input: &[u8]) -> (r: Result<Vec<u8>, u64>)
    ensures
        vec_view(r) == query(st@, input@, 0, Ok::<Seq<u8>, u64>(pad(string_or_empty(st@, key_symbol()), 32, 32))),
{
    if !is_initialized(st) {
        return Err(ERROR_NOT_INITIALIZED);
    }
    let symbol = match read_string(st, key_symbol_vec().as_slice()) {
        Some(s) => s,
        None => Vec::new(),
    };
    Ok(padded(&symbol, 32, 32))
}

/// `TOTAL_SUPPLY` (`[0x17]`).
pub fn handle_total_supply(st: &Storage, input: &[u8]) -> (r: Result<u64, u64>)
    ensures
        r == query(st@, input@, 0, Ok::<u64, u64>(total_supply(st@))),
{
    if !is_initialized(st) {
        return Err(ERROR_NOT_INITIALIZED);
    }
    match read_u64(st, key_total_supply_vec().as_slice()) {
        Some(t) => Ok(t),
        None => Ok(0),
    }
}

// ---------------------------------------------------------------------------
// Entry point
// ---------------------------------------------------------------------------

/// The status of an answer: 0 on success, else the error code.
pub open spec fn status<T>(r: Result<T, u64>) -> u64 {
    match r {
        Ok(_) => 0,
        Err(e) => e,
    }
}

/// Status and storage of an instruction that changes the storage.
pub open spec fn as_status(o: (Result<(), u64>, StorageMap)) -> (u64, StorageMap) {
    (status(o.0), o.1)
}

/// Status and storage after an instruction (the caller is the zero
/// address).
pub open spec fn instruction_outcome(m: StorageMap, input: Seq<u8>) -> (u64, StorageMap) {
    let caller = zeros(32);
    if input.len() == 0 {
        (ERROR_INVALID_INSTRUCTION, m)
    } else {
        let op = input[0];
        if op == 0 {
            as_status(initialize_outcome(m, input))
        } else if op == 1 {
            as_status(mint_outcome(m, input))
        } else if op == 2 {
            as_status(transfer_outcome(m, input, caller, true))
        } else if op == 3 {
            as_status(approve_outcome(m, input, caller))
        } else if op == 4 || op == 6 {
            as_status(transfer_outcome(m, input, caller, false))
        } else if op == 5 {
            as_status(approval_for_all_outcome(m, input, caller))
        } else if op == 7 {
            as_status(burn_outcome(m, input, caller))
        } else if op == 8 {
            as_status(token_uri_outcome(m, input, caller))
        } else if op == 9 {
            as_status(base_uri_outcome(m, input))
        } else if op == 0x10 {
            (status(query(m, input, 33, Ok::<(), u64>(()))), m)
        } else if op == 0x11 {
            (status(query(m, input, 9, owner_answer(m, input))), m)
        } else if op == 0x12 {
            (status(query(m, input, 9, approved_answer(m, input))), m)
        } else if op == 0x13 {
            (status(query(m, input, 65, Ok::<(), u64>(()))), m)
        } else if op == 0x14 {
            (status(query(m, input, 9, token_uri_answer(m, input))), m)
        } else if 0x15 <= op <= 0x17 {
            (status(query(m, input, 0, Ok::<(), u64>(()))), m)
        } else {
            (ERROR_INVALID_INSTRUCTION, m)
        }
    }
}

/// The counts an instruction raises do not overflow.
pub open spec fn instruction_completes(m: StorageMap, input: Seq<u8>) -> bool {
    input.len() > 0 ==> {
        &&& input[0] == 1 ==> mint_completes(m, input)
        &&& (input[0] == 2 || input[0] == 4 || input[0] == 6) ==> transfer_completes(m, input)
    }
}

fn code_of<T>(r: Result<T, u64>) -> (c: u64)
    ensures
        c == (match r {
            Ok(_) => 0,
            Err(e) => e,
        }),
{
    match r {
        Ok(_) => 0,
        Err(e) => e,
    }
}

/// Runs one instruction and returns its status.
pub fn entrypoint(st: &mut Storage, input: &[u8]) -> (r: u64)
    requires
        instruction_completes(old(st)@, input@),
    ensures
        (r, final(st)@) == instruction_outcome(old(st)@, input@),
{
    if input.len() == 0 {
        return ERROR_INVALID_INSTRUCTION;
    }
    let caller = [0u8; 32];
    assert(caller@ =~= zeros(32));
    let instruction = input[0];
    if instruction == 0x00 {
        code_of(handle_initialize(st, input))
    } else if instruction == 0x01 {
        code_of(handle_mint(st, input, &caller))
    } else if instruction == 0x02 {
        code_of(handle_transfer(st, input, &caller))
    } else if instruction == 0x03 {
        code_of(handle_approve(st, input, &caller))
    } else if instruction == 0x04 {
        code_of(handle_transfer_from(st, input, &caller))
    } else if instruction == 0x05 {
        code_of(handle_set_approval_for_all(st, input, &caller))
    } else if instruction == 0x06 {
        code_of(handle_safe_transfer_from(st, input, &caller))
    } else if instruction == 0x07 {
        code_of(handle_burn(st, input, &caller))
    } else if instruction == 0x08 {
        code_of(handle_set_token_uri(st, input, &caller))
    } else if instruction == 0x09 {
        code_of(handle_set_base_uri(st, input, &caller))
    } else if instruction == 0x10 {
        code_of(handle_balance_of(st, input))
    } else if instruction == 0x11 {
        code_of(handle_owner_of(st, input))
    } else if instruction == 0x12 {
        code_of(handle_get_approved(st, input))
    } else if instruction == 0x13 {
        code_of(handle_is_approved_for_all(st, input))
    } else if instruction == 0x14 {
        code_of(handle_token_uri(st, input))
    } else if instruction == 0x15 {
        code_of(handle_name(st, input))
    } else if instruction == 0x16 {
        code_of(handle_symbol(st, input))
    } else if instruction == 0x17 {
        code_of(handle_total_supply(st, input))
    } else {
        ERROR_INVALID_INSTRUCTION
    }
}

// ---------------------------------------------------------------------------
// Laws
// ---------------------------------------------------------------------------

/// After an ownership change the token belongs to the receiver, its
/// single-token approval is cleared, and a different, non-zero receiver's
/// count rises by one.
pub proof fn law_ownership_moves(m: StorageMap, to: Seq<u8>, token_id: u64, from: Option<Seq<u8>>)
    requires
        to.len() == 32,
        ownership_fits(m, to, token_id, from),
        from matches Some(f) ==> f.len() == 32,
    ensures
        owner_of(ownership_updated(m, to, token_id, from), token_id) == Some(to),
        approved_for(ownership_updated(m, to, token_id, from), token_id) == Some(zeros(32)),
        !all_zero(to) && (from matches Some(f) ==> f != to) ==> balance(
            ownership_updated(m, to, token_id, from),
            to,
        ) == balance(m, to) + 1,
        match from {
            Some(f) => (f != to && balance(m, f) > 0) ==> balance(
                ownership_updated(m, to, token_id, from),
                f,
            ) == balance(m, f) - 1,
            None => true,
        },
{
    lemma_le_bytes_len(token_id as nat, 8);
    let m0 = m.insert(approval_slot(token_id), zeros(32));
    let m1 = debit_previous(m0, from);
    let mu = ownership_updated(m, to, token_id, from);
    assert(owner_slot(token_id) != approval_slot(token_id)) by {
        assert(owner_slot(token_id)[0] != approval_slot(token_id)[0]);
    }
    assert(to.take(32) =~= to);
    assert(zeros(32).take(32) =~= zeros(32));
    assert(balance_slot(to).len() == 64);
    assert(balance_slot(to) != approval_slot(token_id)) by {
        assert(balance_slot(to)[0] != approval_slot(token_id)[0]);
    }
    assert(balance_slot(to) != owner_slot(token_id)) by {
        assert(balance_slot(to)[0] != owner_slot(token_id)[0]);
    }
    assert(approval_slot(token_id) != owner_slot(token_id));
    lemma_pow256_values();
    match from {
        Some(f) => {
            assert(balance_slot(f) != approval_slot(token_id)) by {
                assert(balance_slot(f)[0] != approval_slot(token_id)[0]);
            }
            assert(balance_slot(f) != owner_slot(token_id)) by {
                assert(balance_slot(f)[0] != owner_slot(token_id)[0]);
            }
            if f != to {
                assert(balance_slot(f) != balance_slot(to)) by {
                    assert(balance_slot(f).subrange(8, 40) =~= f);
                    assert(balance_slot(to).subrange(8, 40) =~= to);
                }
            }
            lemma_u64_cell_roundtrip((balance(m, f) - 1) as u64);
        },
        None => {},
    }
    lemma_u64_cell_roundtrip((balance(m1, to) + 1) as u64);
}

/// A spender that is neither the owner, nor an operator of the owner, nor
/// approved for the token, is not authorized; the zero address never is.
pub proof fn law_authorization(m: StorageMap, owner: Seq<u8>, spender: Seq<u8>, token_id: u64)
    ensures
        all_zero(spender) ==> !authorized(m, owner, spender, token_id),
        (!all_zero(spender) && owner == spender) ==> authorized(m, owner, spender, token_id),
        (owner != spender && !approved_for_all(m, owner, spender) && approved_for(m, token_id)
            != Some(spender)) ==> !authorized(m, owner, spender, token_id),
{
}

/// Initialization happens once: after an initialization with a non-empty
/// name succeeded, the contract is initialized, every further
/// initialization is refused with `ERROR_ALREADY_INITIALIZED` leaving the
/// storage (name, symbol, total supply) unchanged, and no mint is refused
/// as uninitialized any more.  An empty name writes no byte, so it does not
/// read back and the contract still counts as uninitialized.
pub proof fn law_initialize_once(m: StorageMap, p: Seq<u8>, p2: Seq<u8>, p3: Seq<u8>)
    requires
        initialize_outcome(m, p).0 is Ok,
    ensures
        string_at(p, 1) is Some,
        string_at(p, 1)->0.len() > 0 ==> {
            let m2 = initialize_outcome(m, p).1;
            &&& initialized(m2)
            &&& initialize_outcome(m2, p2) == (Err::<(), u64>(ERROR_ALREADY_INITIALIZED), m2)
            &&& mint_outcome(m2, p3).0 != Err::<(), u64>(ERROR_NOT_INITIALIZED)
        },
        string_at(p, 1)->0.len() == 0 ==> !initialized(initialize_outcome(m, p).1),
{
    assert(key_name().len() == 13);
    assert(key_symbol().len() == 15);
    assert(key_base_uri().len() == 17);
    assert(key_total_supply().len() == 18);
    let m2 = initialize_outcome(m, p).1;
    assert(m2.get(key_name()) == Some(string_at(p, 1)->0));
}

} // verus!

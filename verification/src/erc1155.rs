//! An ERC1155 multi-token contract in the OpenZeppelin style: an owner who
//! mints and sets URIs, balances per account and token id, operators
//! approved for all of an owner's tokens, and batch operations.
//!
//! Each handler takes the whole instruction (its first byte is the opcode)
//! and the caller, and answers `Ok` or an error code.  A failed batch keeps
//! the items applied before the failure.

use vstd::prelude::*;
use crate::bytes::{
    le_bytes, le_nat, address_at, read_u16_at, read_u128_at, copy_range, u128_le, append_bytes,
    all_zero, is_zero_address, bytes_eq, lemma_le_bytes_len, lemma_pow256_values,
    lemma_le_bytes_injective,
};
use crate::storage::{Storage, read_buffer, read_len};
use crate::cells::lemma_u128_cell_roundtrip;
use crate::cells::{u128_cell, bool_cell, bool_bytes, read_u128, write_u128, read_bool, write_bool,
    read_buffer_filled};
use crate::stablecoin::StorageMap;

verus! {

pub const ERR_ALREADY_INITIALIZED: u64 = 1000;
pub const ERR_NOT_INITIALIZED: u64 = 1001;
pub const ERR_INSUFFICIENT_BALANCE: u64 = 1002;
pub const ERR_UNAUTHORIZED: u64 = 1003;
pub const ERR_INVALID_RECEIVER: u64 = 1005;
pub const ERR_INVALID_SENDER: u64 = 1006;
pub const ERR_INVALID_OPERATOR: u64 = 1007;
pub const ERR_INVALID_INSTRUCTION: u64 = 1009;
pub const ERR_SELF_APPROVAL: u64 = 1010;

// ---------------------------------------------------------------------------
// Storage keys
// ---------------------------------------------------------------------------

/// `"owner"`.
pub open spec fn key_owner() -> Seq<u8> {
    seq![111u8, 119, 110, 101, 114]
}

/// `"uri:base"`.
pub open spec fn key_base_uri() -> Seq<u8> {
    seq![117u8, 114, 105, 58, 98, 97, 115, 101]
}

/// `n` zero bytes.
pub open spec fn zeros(n: nat) -> Seq<u8> {
    Seq::new(n, |i: int| 0u8)
}

/// The 64-byte balance key: `"balance:"`, the owner, the token id
/// (little-endian), then zeros.
pub open spec fn balance_slot(owner: Seq<u8>, token_id: u128) -> Seq<u8> {
    seq![98u8, 97, 108, 97, 110, 99, 101, 58] + owner + le_bytes(token_id as nat, 16) + zeros(8)
}

/// The 96-byte approval key: `"operator:"`, the owner, the operator, then
/// zeros.
pub open spec fn operator_slot(owner: Seq<u8>, operator: Seq<u8>) -> Seq<u8> {
    seq![111u8, 112, 101, 114, 97, 116, 111, 114, 58] + owner + operator + zeros(23)
}

/// The 32-byte URI key: `"uri:"`, the token id (little-endian), then zeros.
pub open spec fn uri_slot(token_id: u128) -> Seq<u8> {
    seq![117u8, 114, 105, 58] + le_bytes(token_id as nat, 16) + zeros(12)
}

fn zeros_vec(n: usize) -> (r: Vec<u8>)
    ensures
        r@ == zeros(n as nat),
{
    let mut v: Vec<u8> = Vec::new();
    let mut i: usize = 0;
    while i < n
        invariant
            i <= n,
            v@ == zeros(i as nat),
        decreases n - i,
    {
        v.push(0u8);
        i = i + 1;
        proof {
            assert(v@ =~= zeros(i as nat));
        }
    }
    v
}

fn key_owner_vec() -> (r: Vec<u8>)
    ensures
        r@ == key_owner(),
{
    let v = vec![111u8, 119, 110, 101, 114];
    assert(v@ =~= key_owner());
    v
}

fn key_base_uri_vec() -> (r: Vec<u8>)
    ensures
        r@ == key_base_uri(),
{
    let v = vec![117u8, 114, 105, 58, 98, 97, 115, 101];
    assert(v@ =~= key_base_uri());
    v
}

/// Storage key of an owner's balance of a token.
pub fn balance_key(owner: &[u8; 32], token_id: u128) -> (r: [u8; 64])
    ensures
        r@ == balance_slot(owner@, token_id),
{
    let mut v = vec![98u8, 97, 108, 97, 110, 99, 101, 58];
    append_bytes(&mut v, owner.as_slice());
    append_bytes(&mut v, u128_le(token_id).as_slice());
    append_bytes(&mut v, zeros_vec(8).as_slice());
    proof {
        lemma_le_bytes_len(token_id as nat, 16);
    }
    let mut key = [0u8; 64];
    let mut i: usize = 0;
    while i < 64
        invariant
            i <= 64,
            v@.len() == 64,
            key@.len() == 64,
            forall|j: int| 0 <= j < i ==> key@[j] == v@[j],
        decreases 64 - i,
    {
        key[i] = v[i];
        i = i + 1;
    }
    assert(key@ =~= balance_slot(owner@, token_id));
    key
}

/// Storage key of an owner's approval of an operator.
pub fn operator_key(owner: &[u8; 32], operator: &[u8; 32]) -> (r: [u8; 96])
    ensures
        r@ == operator_slot(owner@, operator@),
{
    let mut v = vec![111u8, 112, 101, 114, 97, 116, 111, 114, 58];
    append_bytes(&mut v, owner.as_slice());
    append_bytes(&mut v, operator.as_slice());
    append_bytes(&mut v, zeros_vec(23).as_slice());
    let mut key = [0u8; 96];
    let mut i: usize = 0;
    while i < 96
        invariant
            i <= 96,
            v@.len() == 96,
            key@.len() == 96,
            forall|j: int| 0 <= j < i ==> key@[j] == v@[j],
        decreases 96 - i,
    {
        key[i] = v[i];
        i = i + 1;
    }
    assert(key@ =~= operator_slot(owner@, operator@));
    key
}

/// Storage key of a token's URI.
pub fn uri_key(token_id: u128) -> (r: [u8; 32])
    ensures
        r@ == uri_slot(token_id),
{
    let mut v = vec![117u8, 114, 105, 58];
    append_bytes(&mut v, u128_le(token_id).as_slice());
    append_bytes(&mut v, zeros_vec(12).as_slice());
    proof {
        lemma_le_bytes_len(token_id as nat, 16);
    }
    let mut key = [0u8; 32];
    let mut i: usize = 0;
    while i < 32
        invariant
            i <= 32,
            v@.len() == 32,
            key@.len() == 32,
            forall|j: int| 0 <= j < i ==> key@[j] == v@[j],
        decreases 32 - i,
    {
        key[i] = v[i];
        i = i + 1;
    }
    assert(key@ =~= uri_slot(token_id));
    key
}

// ---------------------------------------------------------------------------
// State
// ---------------------------------------------------------------------------

/// Initialized once an owner is stored.
pub open spec fn initialized(m: StorageMap) -> bool {
    read_len(m.get(key_owner()), 256) > 0
}

/// The first 32 bytes of the owner as read through a 256-byte buffer.
pub open spec fn owner_bytes(m: StorageMap) -> Seq<u8> {
    read_buffer(m.get(key_owner()), 256).take(32)
}

/// An owner's balance of a token (0 when fewer than 16 bytes are stored).
pub open spec fn balance(m: StorageMap, owner: Seq<u8>, token_id: u128) -> u128 {
    match u128_cell(m.get(balance_slot(owner, token_id))) {
        Some(b) => b,
        None => 0,
    }
}

/// Whether the owner approved the operator for all its tokens.
pub open spec fn approved(m: StorageMap, owner: Seq<u8>, operator: Seq<u8>) -> bool {
    bool_cell(m.get(operator_slot(owner, operator)))
}

/// The owner itself, or an operator it approved.
pub open spec fn authorized(m: StorageMap, owner: Seq<u8>, spender: Seq<u8>) -> bool {
    owner == spender || approved(m, owner, spender)
}

pub fn is_initialized(st: &Storage) -> (r: bool)
    ensures
        r == initialized(st@),
{
    read_buffer_filled(st, key_owner_vec().as_slice(), 256).is_some()
}

/// Whether the stored owner's first 32 bytes are the caller.
fn is_owner(st: &Storage, caller: &[u8; 32]) -> (r: bool)
    requires
        initialized(st@),
    ensures
        r == (owner_bytes(st@) == caller@),
{
    let owner = read_buffer_filled(st, key_owner_vec().as_slice(), 256);
    match owner {
        Some(buf) => {
            let head = copy_range(buf.as_slice(), 0, 32);
            assert(head@ =~= owner_bytes(st@));
            bytes_eq(head.as_slice(), caller.as_slice())
        },
        None => false,
    }
}

pub fn balance_of_internal(st: &Storage, owner: &[u8; 32], token_id: u128) -> (r: u128)
    ensures
        r == balance(st@, owner@, token_id),
{
    let key = balance_key(owner, token_id);
    match read_u128(st, key.as_slice()) {
        Some(b) => b,
        None => 0,
    }
}

pub fn set_balance(st: &mut Storage, owner: &[u8; 32], token_id: u128, amount: u128)
    ensures
        final(st)@ == old(st)@.insert(balance_slot(owner@, token_id), le_bytes(amount as nat, 16)),
{
    let key = balance_key(owner, token_id);
    write_u128(st, key.as_slice(), amount);
}

pub fn is_approved_for_all_internal(st: &Storage, owner: &[u8; 32], operator: &[u8; 32]) -> (r: bool)
    ensures
        r == approved(st@, owner@, operator@),
{
    let key = operator_key(owner, operator);
    read_bool(st, key.as_slice())
}

pub fn set_approval_for_all_internal(st: &mut Storage, owner: &[u8; 32], operator: &[u8; 32], value: bool)
    ensures
        final(st)@ == old(st)@.insert(operator_slot(owner@, operator@), bool_bytes(value)),
{
    let key = operator_key(owner, operator);
    write_bool(st, key.as_slice(), value);
}

pub fn is_authorized(st: &Storage, owner: &[u8; 32], spender: &[u8; 32]) -> (r: bool)
    ensures
        r == authorized(st@, owner@, spender@),
{
    if bytes_eq(owner.as_slice(), spender.as_slice()) {
        return true;
    }
    is_approved_for_all_internal(st, owner, spender)
}

// ---------------------------------------------------------------------------
// Balance updates
// ---------------------------------------------------------------------------

/// The storage after debiting `from` (unless it is the zero address).
pub open spec fn debited(m: StorageMap, from: Seq<u8>, token_id: u128, amount: u128) -> StorageMap {
    if all_zero(from) {
        m
    } else {
        m.insert(
            balance_slot(from, token_id),
            le_bytes((balance(m, from, token_id) - amount) as nat, 16),
        )
    }
}

/// Moves `amount` of a token from `from` to `to`; the zero address on
/// either side makes it a mint or a burn.  Refused when `from` holds less.
pub open spec fn update_outcome(m: StorageMap, from: Seq<u8>, to: Seq<u8>, token_id: u128, amount: u128) -> (
    Result<(), u64>,
    StorageMap,
) {
    if !all_zero(from) && balance(m, from, token_id) < amount {
        (Err(ERR_INSUFFICIENT_BALANCE), m)
    } else {
        let m1 = debited(m, from, token_id, amount);
        if all_zero(to) {
            (Ok(()), m1)
        } else {
            (
                Ok(()),
                m1.insert(
                    balance_slot(to, token_id),
                    le_bytes((balance(m1, to, token_id) + amount) as nat, 16),
                ),
            )
        }
    }
}

/// The receiver's balance does not overflow (the contract aborts
/// otherwise).
pub open spec fn update_fits(m: StorageMap, from: Seq<u8>, to: Seq<u8>, token_id: u128, amount: u128) -> bool {
    (!all_zero(to) && (all_zero(from) || balance(m, from, token_id) >= amount)) ==> balance(
        debited(m, from, token_id, amount),
        to,
        token_id,
    ) + amount <= u128::MAX
}

pub fn update_balances(st: &mut Storage, from: &[u8; 32], to: &[u8; 32], token_id: u128, amount: u128) -> (r: Result<(), u64>)
    requires
        update_fits(old(st)@, from@, to@, token_id, amount),
    ensures
        (r, final(st)@) == update_outcome(old(st)@, from@, to@, token_id, amount),
{
    if !is_zero_address(from) {
        let from_balance = balance_of_internal(st, from, token_id);
        if from_balance < amount {
            return Err(ERR_INSUFFICIENT_BALANCE);
        }
        set_balance(st, from, token_id, from_balance - amount);
    }
    if !is_zero_address(to) {
        let to_balance = balance_of_internal(st, to, token_id);
        set_balance(st, to, token_id, to_balance + amount);
    }
    Ok(())
}

// ---------------------------------------------------------------------------
// Instruction fields
// ---------------------------------------------------------------------------

/// The 32-byte address at `off` of the instruction.
pub open spec fn addr_at(p: Seq<u8>, off: int) -> Seq<u8> {
    p.subrange(off, off + 32)
}

/// The little-endian `u128` at `off` of the instruction.
pub open spec fn u128_at(p: Seq<u8>, off: int) -> u128 {
    le_nat(p.subrange(off, off + 16)) as u128
}

/// The little-endian `u16` at `off` of the instruction.
pub open spec fn u16_at(p: Seq<u8>, off: int) -> nat {
    le_nat(p.subrange(off, off + 2))
}

fn u128_field(input: &[u8], off: usize) -> (r: u128)
    requires
        off + 16 <= input@.len(),
    ensures
        r == u128_at(input@, off as int),
{
    let v = read_u128_at(input, off);
    proof {
        crate::bytes::lemma_le_nat_bound(input@.subrange(off as int, off + 16));
        lemma_pow256_values();
    }
    v
}

fn u16_field(input: &[u8], off: usize) -> (r: usize)
    requires
        off + 2 <= input@.len(),
    ensures
        r as nat == u16_at(input@, off as int),
        r < 65536,
{
    let v = read_u16_at(input, off);
    v as usize
}

/// The zero address.
pub open spec fn zero_address() -> Seq<u8> {
    zeros(32)
}

// ---------------------------------------------------------------------------
// Batches
// ---------------------------------------------------------------------------

/// Applies the batch items `i..count` (each `[token_id:16][amount:16]`,
/// starting at byte `base`), stopping at the first failure.
pub open spec fn apply_items(m: StorageMap, from: Seq<u8>, to: Seq<u8>, p: Seq<u8>, base: int, i: nat, count: nat) -> (
    Result<(), u64>,
    StorageMap,
)
    decreases count - i,
{
    if i >= count {
        (Ok(()), m)
    } else {
        let off = base + 32 * i;
        let r = update_outcome(m, from, to, u128_at(p, off), u128_at(p, off + 16));
        if r.0 is Err {
            r
        } else {
            apply_items(r.1, from, to, p, base, i + 1, count)
        }
    }
}

/// No receiver balance overflows while the batch items `i..count` are
/// applied.
pub open spec fn items_fit(m: StorageMap, from: Seq<u8>, to: Seq<u8>, p: Seq<u8>, base: int, i: nat, count: nat) -> bool
    decreases count - i,
{
    i >= count || {
        let off = base + 32 * i;
        let r = update_outcome(m, from, to, u128_at(p, off), u128_at(p, off + 16));
        &&& update_fits(m, from, to, u128_at(p, off), u128_at(p, off + 16))
        &&& (r.0 is Ok ==> items_fit(r.1, from, to, p, base, i + 1, count))
    }
}

/// Burns never overflow a receiver.
proof fn lemma_items_fit_burn(m: StorageMap, from: Seq<u8>, p: Seq<u8>, base: int, i: nat, count: nat)
    ensures
        items_fit(m, from, zero_address(), p, base, i, count),
    decreases count - i,
{
    if i < count {
        let off = base + 32 * i;
        let r = update_outcome(m, from, zero_address(), u128_at(p, off), u128_at(p, off + 16));
        assert(all_zero(zero_address()));
        lemma_items_fit_burn(r.1, from, p, base, i + 1, count);
    }
}

fn apply_batch(st: &mut Storage, from: &[u8; 32], to: &[u8; 32], input: &[u8], base: usize, count: usize) -> (r: Result<(), u64>)
    requires
        base + 32 * count <= input@.len(),
        items_fit(old(st)@, from@, to@, input@, base as int, 0, count as nat),
    ensures
        (r, final(st)@) == apply_items(old(st)@, from@, to@, input@, base as int, 0, count as nat),
{
    let ghost m0 = st@;
    let ilen = input.len();
    let mut offset: usize = base;
    let mut i: usize = 0;
    while i < count
        invariant
            i <= count,
            offset == base + 32 * i,
            ilen == input@.len(),
            m0 == old(st)@,
            base + 32 * count <= input@.len(),
            apply_items(m0, from@, to@, input@, base as int, 0, count as nat) == apply_items(
                st@,
                from@,
                to@,
                input@,
                base as int,
                i as nat,
                count as nat,
            ),
            items_fit(st@, from@, to@, input@, base as int, i as nat, count as nat),
        decreases count - i,
    {
        let token_id = u128_field(input, offset);
        let amount = u128_field(input, offset + 16);
        let ghost pre = st@;
        let r = update_balances(st, from, to, token_id, amount);
        proof {
            assert(apply_items(pre, from@, to@, input@, base as int, i as nat, count as nat) == (
                if r is Err {
                    (r, st@)
                } else {
                    apply_items(st@, from@, to@, input@, base as int, (i + 1) as nat, count as nat)
                }
            ));
        }
        if r.is_err() {
            return r;
        }
        offset = offset + 32;
        i = i + 1;
    }
    Ok(())
}

// ---------------------------------------------------------------------------
// Write instructions
// ---------------------------------------------------------------------------

/// Outcome of `INITIALIZE` (`[0x00][uri_len:2][base_uri]`): the caller
/// becomes the owner; a non-empty base URI that fits is stored.
pub open spec fn initialize_outcome(m: StorageMap, caller: Seq<u8>, p: Seq<u8>) -> (Result<(), u64>, StorageMap) {
    if initialized(m) {
        (Err(ERR_ALREADY_INITIALIZED), m)
    } else {
        let m1 = m.insert(key_owner(), caller);
        if p.len() > 3 && u16_at(p, 1) > 0 && p.len() >= 3 + u16_at(p, 1) {
            (Ok(()), m1.insert(key_base_uri(), p.subrange(3, 3 + u16_at(p, 1) as int)))
        } else {
            (Ok(()), m1)
        }
    }
}

pub fn handle_initialize(st: &mut Storage, input: &[u8], caller: &[u8; 32]) -> (r: Result<(), u64>)
    ensures
        (r, final(st)@) == initialize_outcome(old(st)@, caller@, input@),
{
    if is_initialized(st) {
        return Err(ERR_ALREADY_INITIALIZED);
    }
    st.write(key_owner_vec().as_slice(), caller.as_slice());
    if input.len() > 3 {
        let uri_len = u16_field(input, 1);
        if uri_len > 0 && input.len() >= 3 + uri_len {
            let uri = copy_range(input, 3, uri_len);
            st.write(key_base_uri_vec().as_slice(), uri.as_slice());
        }
    }
    Ok(())
}

/// Whether a mint by the owner to a non-zero receiver overflows nothing.
pub open spec fn mint_fits(m: StorageMap, caller: Seq<u8>, p: Seq<u8>) -> bool {
    (initialized(m) && p.len() >= 65 && owner_bytes(m) == caller && !all_zero(addr_at(p, 1)))
        ==> update_fits(m, zero_address(), addr_at(p, 1), u128_at(p, 33), u128_at(p, 49))
}

/// Outcome of `MINT` (`[0x01][to:32][token_id:16][amount:16]`), owner only.
pub open spec fn mint_outcome(m: StorageMap, caller: Seq<u8>, p: Seq<u8>) -> (Result<(), u64>, StorageMap) {
    if !initialized(m) {
        (Err(ERR_NOT_INITIALIZED), m)
    } else if p.len() < 65 {
        (Err(ERR_INVALID_INSTRUCTION), m)
    } else if owner_bytes(m) != caller {
        (Err(ERR_UNAUTHORIZED), m)
    } else if all_zero(addr_at(p, 1)) {
        (Err(ERR_INVALID_RECEIVER), m)
    } else {
        update_outcome(m, zero_address(), addr_at(p, 1), u128_at(p, 33), u128_at(p, 49))
    }
}

pub fn handle_mint(st: &mut Storage, input: &[u8], caller: &[u8; 32]) -> (r: Result<(), u64>)
    requires
        mint_fits(old(st)@, caller@, input@),
    ensures
        (r, final(st)@) == mint_outcome(old(st)@, caller@, input@),
{
    if !is_initialized(st) {
        return Err(ERR_NOT_INITIALIZED);
    }
    if input.len() < 65 {
        return Err(ERR_INVALID_INSTRUCTION);
    }
    if !is_owner(st, caller) {
        return Err(ERR_UNAUTHORIZED);
    }
    let to = address_at(input, 1);
    if is_zero_address(&to) {
        return Err(ERR_INVALID_RECEIVER);
    }
    let token_id = u128_field(input, 33);
    let amount = u128_field(input, 49);
    let zero = [0u8; 32];
    assert(zero@ =~= zero_address());
    update_balances(st, &zero, &to, token_id, amount)
}

/// The items of a batch starting at `base`, when the instruction holds
/// them all.
pub open spec fn batch_fits(m: StorageMap, from: Seq<u8>, to: Seq<u8>, p: Seq<u8>, base: int) -> bool {
    p.len() >= base + 32 * u16_at(p, base - 2) ==> items_fit(m, from, to, p, base, 0, u16_at(p, base - 2))
}

/// Whether an owner's batch mint to a non-zero receiver overflows nothing.
pub open spec fn mint_batch_fits(m: StorageMap, caller: Seq<u8>, p: Seq<u8>) -> bool {
    (initialized(m) && p.len() >= 35 && owner_bytes(m) == caller && !all_zero(addr_at(p, 1)))
        ==> batch_fits(m, zero_address(), addr_at(p, 1), p, 35)
}

/// Outcome of `MINT_BATCH` (`[0x02][to:32][count:2]` then `count` items),
/// owner only.
pub open spec fn mint_batch_outcome(m: StorageMap, caller: Seq<u8>, p: Seq<u8>) -> (Result<(), u64>, StorageMap) {
    if !initialized(m) {
        (Err(ERR_NOT_INITIALIZED), m)
    } else if p.len() < 35 {
        (Err(ERR_INVALID_INSTRUCTION), m)
    } else if owner_bytes(m) != caller {
        (Err(ERR_UNAUTHORIZED), m)
    } else if all_zero(addr_at(p, 1)) {
        (Err(ERR_INVALID_RECEIVER), m)
    } else if p.len() < 35 + u16_at(p, 33) * 32 {
        (Err(ERR_INVALID_INSTRUCTION), m)
    } else {
        apply_items(m, zero_address(), addr_at(p, 1), p, 35, 0, u16_at(p, 33))
    }
}

pub fn handle_mint_batch(st: &mut Storage, input: &[u8], caller: &[u8; 32]) -> (r: Result<(), u64>)
    requires
        mint_batch_fits(old(st)@, caller@, input@),
    ensures
        (r, final(st)@) == mint_batch_outcome(old(st)@, caller@, input@),
{
    if !is_initialized(st) {
        return Err(ERR_NOT_INITIALIZED);
    }
    if input.len() < 35 {
        return Err(ERR_INVALID_INSTRUCTION);
    }
    if !is_owner(st, caller) {
        return Err(ERR_UNAUTHORIZED);
    }
    let to = address_at(input, 1);
    if is_zero_address(&to) {
        return Err(ERR_INVALID_RECEIVER);
    }
    let count = u16_field(input, 33);
    if input.len() < 35 + count * 32 {
        return Err(ERR_INVALID_INSTRUCTION);
    }
    let zero = [0u8; 32];
    assert(zero@ =~= zero_address());
    apply_batch(st, &zero, &to, input, 35, count)
}

/// Outcome of `BURN` (`[0x03][from:32][token_id:16][amount:16]`) by the
/// holder or an approved operator.
pub open spec fn burn_outcome(m: StorageMap, caller: Seq<u8>, p: Seq<u8>) -> (Result<(), u64>, StorageMap) {
    if !initialized(m) {
        (Err(ERR_NOT_INITIALIZED), m)
    } else if p.len() < 65 {
        (Err(ERR_INVALID_INSTRUCTION), m)
    } else if all_zero(addr_at(p, 1)) {
        (Err(ERR_INVALID_SENDER), m)
    } else if !authorized(m, addr_at(p, 1), caller) {
        (Err(ERR_UNAUTHORIZED), m)
    } else {
        update_outcome(m, addr_at(p, 1), zero_address(), u128_at(p, 33), u128_at(p, 49))
    }
}

pub fn handle_burn(st: &mut Storage, input: &[u8], caller: &[u8; 32]) -> (r: Result<(), u64>)
    ensures
        (r, final(st)@) == burn_outcome(old(st)@, caller@, input@),
{
    if !is_initialized(st) {
        return Err(ERR_NOT_INITIALIZED);
    }
    if input.len() < 65 {
        return Err(ERR_INVALID_INSTRUCTION);
    }
    let from = address_at(input, 1);
    if is_zero_address(&from) {
        return Err(ERR_INVALID_SENDER);
    }
    if !is_authorized(st, &from, caller) {
        return Err(ERR_UNAUTHORIZED);
    }
    let token_id = u128_field(input, 33);
    let amount = u128_field(input, 49);
    let zero = [0u8; 32];
    assert(zero@ =~= zero_address());
    assert(all_zero(zero_address()));
    update_balances(st, &from, &zero, token_id, amount)
}

/// Outcome of `BURN_BATCH` (`[0x04][from:32][count:2]` then `count` items)
/// by the holder or an approved operator.
pub open spec fn burn_batch_outcome(m: StorageMap, caller: Seq<u8>, p: Seq<u8>) -> (Result<(), u64>, StorageMap) {
    if !initialized(m) {
        (Err(ERR_NOT_INITIALIZED), m)
    } else if p.len() < 35 {
        (Err(ERR_INVALID_INSTRUCTION), m)
    } else if all_zero(addr_at(p, 1)) {
        (Err(ERR_INVALID_SENDER), m)
    } else if !authorized(m, addr_at(p, 1), caller) {
        (Err(ERR_UNAUTHORIZED), m)
    } else if p.len() < 35 + u16_at(p, 33) * 32 {
        (Err(ERR_INVALID_INSTRUCTION), m)
    } else {
        apply_items(m, addr_at(p, 1), zero_address(), p, 35, 0, u16_at(p, 33))
    }
}

pub fn handle_burn_batch(st: &mut Storage, input: &[u8], caller: &[u8; 32]) -> (r: Result<(), u64>)
    ensures
        (r, final(st)@) == burn_batch_outcome(old(st)@, caller@, input@),
{
    if !is_initialized(st) {
        return Err(ERR_NOT_INITIALIZED);
    }
    if input.len() < 35 {
        return Err(ERR_INVALID_INSTRUCTION);
    }
    let from = address_at(input, 1);
    if is_zero_address(&from) {
        return Err(ERR_INVALID_SENDER);
    }
    if !is_authorized(st, &from, caller) {
        return Err(ERR_UNAUTHORIZED);
    }
    let count = u16_field(input, 33);
    if input.len() < 35 + count * 32 {
        return Err(ERR_INVALID_INSTRUCTION);
    }
    let zero = [0u8; 32];
    assert(zero@ =~= zero_address());
    proof {
        lemma_items_fit_burn(st@, from@, input@, 35, 0, count as nat);
    }
    apply_batch(st, &from, &zero, input, 35, count)
}

/// `SAFE_TRANSFER_FROM` completes when the receiver's balance does not
/// overflow, whenever it gets that far.
pub open spec fn transfer_completes(m: StorageMap, caller: Seq<u8>, p: Seq<u8>) -> bool {
    (initialized(m) && p.len() >= 97 && !all_zero(addr_at(p, 1)) && !all_zero(addr_at(p, 33))
        && authorized(m, addr_at(p, 1), caller)) ==> update_fits(
        m,
        addr_at(p, 1),
        addr_at(p, 33),
        u128_at(p, 65),
        u128_at(p, 81),
    )
}

/// Outcome of `SAFE_TRANSFER_FROM` (`[0x05][from:32][to:32][token_id:16]
/// [amount:16]...`) by the holder or an approved operator; an instruction
/// too short to hold the token id and amount is invalid.
pub open spec fn transfer_outcome(m: StorageMap, caller: Seq<u8>, p: Seq<u8>) -> (Result<(), u64>, StorageMap) {
    if !initialized(m) {
        (Err(ERR_NOT_INITIALIZED), m)
    } else if p.len() < 65 {
        (Err(ERR_INVALID_INSTRUCTION), m)
    } else if all_zero(addr_at(p, 1)) {
        (Err(ERR_INVALID_SENDER), m)
    } else if all_zero(addr_at(p, 33)) {
        (Err(ERR_INVALID_RECEIVER), m)
    } else if !authorized(m, addr_at(p, 1), caller) {
        (Err(ERR_UNAUTHORIZED), m)
    } else if p.len() < 97 {
        (Err(ERR_INVALID_INSTRUCTION), m)
    } else {
        update_outcome(m, addr_at(p, 1), addr_at(p, 33), u128_at(p, 65), u128_at(p, 81))
    }
}

pub fn handle_safe_transfer_from(st: &mut Storage, input: &[u8], caller: &[u8; 32]) -> (r: Result<(), u64>)
    requires
        transfer_completes(old(st)@, caller@, input@),
    ensures
        (r, final(st)@) == transfer_outcome(old(st)@, caller@, input@),
{
    if !is_initialized(st) {
        return Err(ERR_NOT_INITIALIZED);
    }
    if input.len() < 65 {
        return Err(ERR_INVALID_INSTRUCTION);
    }
    let from = address_at(input, 1);
    let to = address_at(input, 33);
    if is_zero_address(&from) {
        return Err(ERR_INVALID_SENDER);
    }
    if is_zero_address(&to) {
        return Err(ERR_INVALID_RECEIVER);
    }
    if !is_authorized(st, &from, caller) {
        return Err(ERR_UNAUTHORIZED);
    }
    if input.len() < 97 {
        return Err(ERR_INVALID_INSTRUCTION);
    }
    let token_id = u128_field(input, 65);
    let amount = u128_field(input, 81);
    update_balances(st, &from, &to, token_id, amount)
}

/// Whether an authorized batch transfer between non-zero addresses
/// overflows nothing.
pub open spec fn batch_transfer_fits(m: StorageMap, caller: Seq<u8>, p: Seq<u8>) -> bool {
    (initialized(m) && p.len() >= 67 && !all_zero(addr_at(p, 1)) && !all_zero(addr_at(p, 33))
        && authorized(m, addr_at(p, 1), caller)) ==> batch_fits(m, addr_at(p, 1), addr_at(p, 33), p, 67)
}

/// Outcome of `SAFE_BATCH_TRANSFER_FROM` (`[0x06][from:32][to:32][count:2]`
/// then `count` items) by the holder or an approved operator.
pub open spec fn batch_transfer_outcome(m: StorageMap, caller: Seq<u8>, p: Seq<u8>) -> (Result<(), u64>, StorageMap) {
    if !initialized(m) {
        (Err(ERR_NOT_INITIALIZED), m)
    } else if p.len() < 67 {
        (Err(ERR_INVALID_INSTRUCTION), m)
    } else if all_zero(addr_at(p, 1)) {
        (Err(ERR_INVALID_SENDER), m)
    } else if all_zero(addr_at(p, 33)) {
        (Err(ERR_INVALID_RECEIVER), m)
    } else if !authorized(m, addr_at(p, 1), caller) {
        (Err(ERR_UNAUTHORIZED), m)
    } else if p.len() < 67 + u16_at(p, 65) * 32 {
        (Err(ERR_INVALID_INSTRUCTION), m)
    } else {
        apply_items(m, addr_at(p, 1), addr_at(p, 33), p, 67, 0, u16_at(p, 65))
    }
}

pub fn handle_safe_batch_transfer_from(st: &mut Storage, input: &[u8], caller: &[u8; 32]) -> (r: Result<(), u64>)
    requires
        batch_transfer_fits(old(st)@, caller@, input@),
    ensures
        (r, final(st)@) == batch_transfer_outcome(old(st)@, caller@, input@),
{
    if !is_initialized(st) {
        return Err(ERR_NOT_INITIALIZED);
    }
    if input.len() < 67 {
        return Err(ERR_INVALID_INSTRUCTION);
    }
    let from = address_at(input, 1);
    let to = address_at(input, 33);
    if is_zero_address(&from) {
        return Err(ERR_INVALID_SENDER);
    }
    if is_zero_address(&to) {
        return Err(ERR_INVALID_RECEIVER);
    }
    if !is_authorized(st, &from, caller) {
        return Err(ERR_UNAUTHORIZED);
    }
    let count = u16_field(input, 65);
    if input.len() < 67 + count * 32 {
        return Err(ERR_INVALID_INSTRUCTION);
    }
    apply_batch(st, &from, &to, input, 67, count)
}

/// Outcome of `SET_APPROVAL_FOR_ALL` (`[0x07][operator:32][approved:1]`):
/// any non-zero byte approves.
pub open spec fn set_approval_outcome(m: StorageMap, caller: Seq<u8>, p: Seq<u8>) -> (Result<(), u64>, StorageMap) {
    if !initialized(m) {
        (Err(ERR_NOT_INITIALIZED), m)
    } else if p.len() < 34 {
        (Err(ERR_INVALID_INSTRUCTION), m)
    } else if all_zero(addr_at(p, 1)) {
        (Err(ERR_INVALID_OPERATOR), m)
    } else if addr_at(p, 1) == caller {
        (Err(ERR_SELF_APPROVAL), m)
    } else {
        (Ok(()), m.insert(operator_slot(caller, addr_at(p, 1)), bool_bytes(p[33] != 0)))
    }
}

pub fn handle_set_approval_for_all(st: &mut Storage, input: &[u8], caller: &[u8; 32]) -> (r: Result<(), u64>)
    ensures
        (r, final(st)@) == set_approval_outcome(old(st)@, caller@, input@),
{
    if !is_initialized(st) {
        return Err(ERR_NOT_INITIALIZED);
    }
    if input.len() < 34 {
        return Err(ERR_INVALID_INSTRUCTION);
    }
    let operator = address_at(input, 1);
    if is_zero_address(&operator) {
        return Err(ERR_INVALID_OPERATOR);
    }
    if bytes_eq(operator.as_slice(), caller.as_slice()) {
        return Err(ERR_SELF_APPROVAL);
    }
    let approved = input[33] != 0;
    set_approval_for_all_internal(st, caller, &operator, approved);
    Ok(())
}

/// Outcome of `SET_URI` (`[0x08][token_id:16][uri_len:2][uri]`), owner only.
pub open spec fn set_uri_outcome(m: StorageMap, caller: Seq<u8>, p: Seq<u8>) -> (Result<(), u64>, StorageMap) {
    if !initialized(m) {
        (Err(ERR_NOT_INITIALIZED), m)
    } else if p.len() < 19 {
        (Err(ERR_INVALID_INSTRUCTION), m)
    } else if owner_bytes(m) != caller {
        (Err(ERR_UNAUTHORIZED), m)
    } else if p.len() < 19 + u16_at(p, 17) {
        (Err(ERR_INVALID_INSTRUCTION), m)
    } else {
        (Ok(()), m.insert(uri_slot(u128_at(p, 1)), p.subrange(19, 19 + u16_at(p, 17) as int)))
    }
}

pub fn handle_set_uri(st: &mut Storage, input: &[u8], caller: &[u8; 32]) -> (r: Result<(), u64>)
    ensures
        (r, final(st)@) == set_uri_outcome(old(st)@, caller@, input@),
{
    if !is_initialized(st) {
        return Err(ERR_NOT_INITIALIZED);
    }
    if input.len() < 19 {
        return Err(ERR_INVALID_INSTRUCTION);
    }
    if !is_owner(st, caller) {
        return Err(ERR_UNAUTHORIZED);
    }
    let token_id = u128_field(input, 1);
    let uri_len = u16_field(input, 17);
    if input.len() < 19 + uri_len {
        return Err(ERR_INVALID_INSTRUCTION);
    }
    let key = uri_key(token_id);
    let uri = copy_range(input, 19, uri_len);
    st.write(key.as_slice(), uri.as_slice());
    Ok(())
}

/// Outcome of `SET_BASE_URI` (`[0x09][uri_len:2][uri]`), owner only.
pub open spec fn set_base_uri_outcome(m: StorageMap, caller: Seq<u8>, p: Seq<u8>) -> (Result<(), u64>, StorageMap) {
    if !initialized(m) {
        (Err(ERR_NOT_INITIALIZED), m)
    } else if p.len() < 3 {
        (Err(ERR_INVALID_INSTRUCTION), m)
    } else if owner_bytes(m) != caller {
        (Err(ERR_UNAUTHORIZED), m)
    } else if p.len() < 3 + u16_at(p, 1) {
        (Err(ERR_INVALID_INSTRUCTION), m)
    } else {
        (Ok(()), m.insert(key_base_uri(), p.subrange(3, 3 + u16_at(p, 1) as int)))
    }
}

pub fn handle_set_base_uri(st: &mut Storage, input: &[u8], caller: &[u8; 32]) -> (r: Result<(), u64>)
    ensures
        (r, final(st)@) == set_base_uri_outcome(old(st)@, caller@, input@),
{
    if !is_initialized(st) {
        return Err(ERR_NOT_INITIALIZED);
    }
    if input.len() < 3 {
        return Err(ERR_INVALID_INSTRUCTION);
    }
    if !is_owner(st, caller) {
        return Err(ERR_UNAUTHORIZED);
    }
    let uri_len = u16_field(input, 1);
    if input.len() < 3 + uri_len {
        return Err(ERR_INVALID_INSTRUCTION);
    }
    let uri = copy_range(input, 3, uri_len);
    st.write(key_base_uri_vec().as_slice(), uri.as_slice());
    Ok(())
}

// ---------------------------------------------------------------------------
// Queries
// ---------------------------------------------------------------------------

/// Answer of `BALANCE_OF` (`[0x10][owner:32][token_id:16]`).
pub open spec fn balance_of_result(m: StorageMap, p: Seq<u8>) -> Result<u128, u64> {
    if !initialized(m) {
        Err(ERR_NOT_INITIALIZED)
    } else if p.len() < 49 {
        Err(ERR_INVALID_INSTRUCTION)
    } else {
        Ok(balance(m, addr_at(p, 1), u128_at(p, 33)))
    }
}

pub fn handle_balance_of(st: &Storage, input: &[u8]) -> (r: Result<u128, u64>)
    ensures
        r == balance_of_result(st@, input@),
{
    if !is_initialized(st) {
        return Err(ERR_NOT_INITIALIZED);
    }
    if input.len() < 49 {
        return Err(ERR_INVALID_INSTRUCTION);
    }
    let owner = address_at(input, 1);
    let token_id = u128_field(input, 33);
    Ok(balance_of_internal(st, &owner, token_id))
}

/// Answer of `BALANCE_OF_BATCH` (`[0x11][count:2]` then `count` pairs
/// `[owner:32][token_id:16]`): the first pair's balance, 0 for an empty
/// batch.
pub open spec fn balance_of_batch_result(m: StorageMap, p: Seq<u8>) -> Result<u128, u64> {
    if !initialized(m) {
        Err(ERR_NOT_INITIALIZED)
    } else if p.len() < 3 {
        Err(ERR_INVALID_INSTRUCTION)
    } else if u16_at(p, 1) == 0 {
        Ok(0)
    } else if p.len() < 3 + u16_at(p, 1) * 48 {
        Err(ERR_INVALID_INSTRUCTION)
    } else {
        Ok(balance(m, addr_at(p, 3), u128_at(p, 35)))
    }
}

pub fn handle_balance_of_batch(st: &Storage, input: &[u8]) -> (r: Result<u128, u64>)
    ensures
        r == balance_of_batch_result(st@, input@),
{
    if !is_initialized(st) {
        return Err(ERR_NOT_INITIALIZED);
    }
    if input.len() < 3 {
        return Err(ERR_INVALID_INSTRUCTION);
    }
    let count = u16_field(input, 1);
    if count == 0 {
        return Ok(0);
    }
    if input.len() < 3 + count * 48 {
        return Err(ERR_INVALID_INSTRUCTION);
    }
    let owner = address_at(input, 3);
    let token_id = u128_field(input, 35);
    Ok(balance_of_internal(st, &owner, token_id))
}

/// Answer of `IS_APPROVED_FOR_ALL` (`[0x12][owner:32][operator:32]`).
pub open spec fn is_approved_result(m: StorageMap, p: Seq<u8>) -> Result<bool, u64> {
    if !initialized(m) {
        Err(ERR_NOT_INITIALIZED)
    } else if p.len() < 65 {
        Err(ERR_INVALID_INSTRUCTION)
    } else {
        Ok(approved(m, addr_at(p, 1), addr_at(p, 33)))
    }
}

pub fn handle_is_approved_for_all(st: &Storage, input: &[u8]) -> (r: Result<bool, u64>)
    ensures
        r == is_approved_result(st@, input@),
{
    if !is_initialized(st) {
        return Err(ERR_NOT_INITIALIZED);
    }
    if input.len() < 65 {
        return Err(ERR_INVALID_INSTRUCTION);
    }
    let owner = address_at(input, 1);
    let operator = address_at(input, 33);
    Ok(is_approved_for_all_internal(st, &owner, &operator))
}

/// Answer of `URI` (`[0x13][token_id:16]`): the token's URI buffer, else
/// the base URI buffer, else 256 zero bytes.
pub open spec fn uri_result(m: StorageMap, p: Seq<u8>) -> Result<Seq<u8>, u64> {
    if !initialized(m) {
        Err(ERR_NOT_INITIALIZED)
    } else if p.len() < 17 {
        Err(ERR_INVALID_INSTRUCTION)
    } else if read_len(m.get(uri_slot(u128_at(p, 1))), 256) > 0 {
        Ok(read_buffer(m.get(uri_slot(u128_at(p, 1))), 256))
    } else if read_len(m.get(key_base_uri()), 256) > 0 {
        Ok(read_buffer(m.get(key_base_uri()), 256))
    } else {
        Ok(zeros(256))
    }
}

pub fn handle_uri(st: &Storage, input: &[u8]) -> (r: Result<Vec<u8>, u64>)
    ensures
        match r {
            Ok(v) => uri_result(st@, input@) == Ok::<Seq<u8>, u64>(v@),
            Err(e) => uri_result(st@, input@) == Err::<Seq<u8>, u64>(e),
        },
{
    if !is_initialized(st) {
        return Err(ERR_NOT_INITIALIZED);
    }
    if input.len() < 17 {
        return Err(ERR_INVALID_INSTRUCTION);
    }
    let token_id = u128_field(input, 1);
    let key = uri_key(token_id);
    if let Some(uri) = read_buffer_filled(st, key.as_slice(), 256) {
        return Ok(uri);
    }
    if let Some(base_uri) = read_buffer_filled(st, key_base_uri_vec().as_slice(), 256) {
        return Ok(base_uri);
    }
    Ok(zeros_vec(256))
}

/// Answer of `OWNER` (`[0x14]`).
pub open spec fn owner_result(m: StorageMap) -> Result<Seq<u8>, u64> {
    if !initialized(m) {
        Err(ERR_NOT_INITIALIZED)
    } else {
        Ok(owner_bytes(m))
    }
}

pub fn handle_owner(st: &Storage, input: &[u8]) -> (r: Result<[u8; 32], u64>)
    ensures
        match r {
            Ok(a) => owner_result(st@) == Ok::<Seq<u8>, u64>(a@),
            Err(e) => owner_result(st@) == Err::<Seq<u8>, u64>(e),
        },
{
    if !is_initialized(st) {
        return Err(ERR_NOT_INITIALIZED);
    }
    let owner = read_buffer_filled(st, key_owner_vec().as_slice(), 256);
    match owner {
        Some(buf) => {
            let a = address_at(buf.as_slice(), 0);
            assert(a@ =~= owner_bytes(st@));
            Ok(a)
        },
        None => Err(ERR_NOT_INITIALIZED),
    }
}

// ---------------------------------------------------------------------------
// Entry point
// ---------------------------------------------------------------------------

/// The status of an answer: 0 for success, else the error code.
pub open spec fn status<T>(r: Result<T, u64>) -> u64 {
    match r {
        Ok(_) => 0,
        Err(e) => e,
    }
}

/// What an instruction needs to complete.
pub open spec fn instruction_completes(m: StorageMap, caller: Seq<u8>, input: Seq<u8>) -> bool {
    0 < input.len() <= 1024 ==> {
        let op = input[0];
        &&& op == 1 ==> mint_fits(m, caller, input)
        &&& op == 2 ==> mint_batch_fits(m, caller, input)
        &&& op == 5 ==> transfer_completes(m, caller, input)
        &&& op == 6 ==> batch_transfer_fits(m, caller, input)
    }
}

/// Status and storage after an instruction of at most 1024 bytes.
pub open spec fn instruction_outcome(m: StorageMap, caller: Seq<u8>, input: Seq<u8>) -> (u64, StorageMap) {
    if input.len() == 0 || input.len() > 1024 {
        (ERR_INVALID_INSTRUCTION, m)
    } else {
        let op = input[0];
        if op == 0 {
            let r = initialize_outcome(m, caller, input);
            (status(r.0), r.1)
        } else if op == 1 {
            let r = mint_outcome(m, caller, input);
            (status(r.0), r.1)
        } else if op == 2 {
            let r = mint_batch_outcome(m, caller, input);
            (status(r.0), r.1)
        } else if op == 3 {
            let r = burn_outcome(m, caller, input);
            (status(r.0), r.1)
        } else if op == 4 {
            let r = burn_batch_outcome(m, caller, input);
            (status(r.0), r.1)
        } else if op == 5 {
            let r = transfer_outcome(m, caller, input);
            (status(r.0), r.1)
        } else if op == 6 {
            let r = batch_transfer_outcome(m, caller, input);
            (status(r.0), r.1)
        } else if op == 7 {
            let r = set_approval_outcome(m, caller, input);
            (status(r.0), r.1)
        } else if op == 8 {
            let r = set_uri_outcome(m, caller, input);
            (status(r.0), r.1)
        } else if op == 9 {
            let r = set_base_uri_outcome(m, caller, input);
            (status(r.0), r.1)
        } else if op == 0x10 {
            (status(balance_of_result(m, input)), m)
        } else if op == 0x11 {
            (status(balance_of_batch_result(m, input)), m)
        } else if op == 0x12 {
            (status(is_approved_result(m, input)), m)
        } else if op == 0x13 {
            (status(uri_result(m, input)), m)
        } else if op == 0x14 {
            (status(owner_result(m)), m)
        } else {
            (ERR_INVALID_INSTRUCTION, m)
        }
    }
}

fn code_of<T>(r: Result<T, u64>) -> (c: u64)
    ensures
        c == status(r),
{
    match r {
        Ok(_) => 0,
        Err(e) => e,
    }
}

/// Runs one instruction from `caller` and returns its status.
pub fn entrypoint(st: &mut Storage, caller: &[u8; 32], input: &[u8]) -> (r: u64)
    requires
        instruction_completes(old(st)@, caller@, input@),
    ensures
        (r, final(st)@) == instruction_outcome(old(st)@, caller@, input@),
{
    if input.len() == 0 || input.len() > 1024 {
        return ERR_INVALID_INSTRUCTION;
    }
    let instruction = input[0];
    if instruction == 0 {
        code_of(handle_initialize(st, input, caller))
    } else if instruction == 1 {
        code_of(handle_mint(st, input, caller))
    } else if instruction == 2 {
        code_of(handle_mint_batch(st, input, caller))
    } else if instruction == 3 {
        code_of(handle_burn(st, input, caller))
    } else if instruction == 4 {
        code_of(handle_burn_batch(st, input, caller))
    } else if instruction == 5 {
        code_of(handle_safe_transfer_from(st, input, caller))
    } else if instruction == 6 {
        code_of(handle_safe_batch_transfer_from(st, input, caller))
    } else if instruction == 7 {
        code_of(handle_set_approval_for_all(st, input, caller))
    } else if instruction == 8 {
        code_of(handle_set_uri(st, input, caller))
    } else if instruction == 9 {
        code_of(handle_set_base_uri(st, input, caller))
    } else if instruction == 0x10 {
        code_of(handle_balance_of(st, input))
    } else if instruction == 0x11 {
        code_of(handle_balance_of_batch(st, input))
    } else if instruction == 0x12 {
        code_of(handle_is_approved_for_all(st, input))
    } else if instruction == 0x13 {
        code_of(handle_uri(st, input))
    } else if instruction == 0x14 {
        code_of(handle_owner(st, input))
    } else {
        ERR_INVALID_INSTRUCTION
    }
}

// ---------------------------------------------------------------------------
// Laws
// ---------------------------------------------------------------------------

/// Balance keys of different holders or tokens are different.
pub proof fn lemma_balance_slot_injective(a: Seq<u8>, i: u128, b: Seq<u8>, j: u128)
    requires
        a.len() == 32,
        b.len() == 32,
        balance_slot(a, i) == balance_slot(b, j),
    ensures
        a == b,
        i == j,
{
    lemma_le_bytes_len(i as nat, 16);
    lemma_le_bytes_len(j as nat, 16);
    let ka = balance_slot(a, i);
    let kb = balance_slot(b, j);
    assert(ka.subrange(8, 40) =~= a);
    assert(kb.subrange(8, 40) =~= b);
    assert(ka.subrange(40, 56) =~= le_bytes(i as nat, 16));
    assert(kb.subrange(40, 56) =~= le_bytes(j as nat, 16));
    lemma_pow256_values();
    lemma_le_bytes_injective(i as nat, j as nat, 16);
}

/// A successful transfer between two different holders moves exactly the
/// amount: the sender's balance falls by it, the receiver's rises by it,
/// and every other balance stays as it was.
pub proof fn law_transfer_conserves(m: StorageMap, caller: Seq<u8>, p: Seq<u8>, holder: Seq<u8>, id: u128)
    requires
        transfer_completes(m, caller, p),
        transfer_outcome(m, caller, p).0 is Ok,
        addr_at(p, 1) != addr_at(p, 33),
        holder.len() == 32,
    ensures
        ({
            let m2 = transfer_outcome(m, caller, p).1;
            let from = addr_at(p, 1);
            let to = addr_at(p, 33);
            let tid = u128_at(p, 65);
            let amount = u128_at(p, 81);
            &&& balance(m2, from, tid) == balance(m, from, tid) - amount
            &&& balance(m2, to, tid) == balance(m, to, tid) + amount
            &&& ((holder != from && holder != to) || id != tid) ==> balance(m2, holder, id)
                == balance(m, holder, id)
        }),
{
    let from = addr_at(p, 1);
    let to = addr_at(p, 33);
    let tid = u128_at(p, 65);
    let amount = u128_at(p, 81);
    let m1 = debited(m, from, tid, amount);
    let fb = balance(m, from, tid);
    lemma_u128_cell_roundtrip((fb - amount) as u128);
    lemma_u128_cell_roundtrip((balance(m1, to, tid) + amount) as u128);
    if balance_slot(from, tid) == balance_slot(to, tid) {
        lemma_balance_slot_injective(from, tid, to, tid);
    }
    if balance_slot(holder, id) == balance_slot(from, tid) {
        lemma_balance_slot_injective(holder, id, from, tid);
    }
    if balance_slot(holder, id) == balance_slot(to, tid) {
        lemma_balance_slot_injective(holder, id, to, tid);
    }
}

/// A successful mint raises the receiver's balance of the token by the
/// amount and leaves every other balance as it was.
pub proof fn law_mint_credits(m: StorageMap, caller: Seq<u8>, p: Seq<u8>, holder: Seq<u8>, id: u128)
    requires
        mint_fits(m, caller, p),
        mint_outcome(m, caller, p).0 is Ok,
        holder.len() == 32,
    ensures
        ({
            let m2 = mint_outcome(m, caller, p).1;
            let to = addr_at(p, 1);
            let tid = u128_at(p, 33);
            &&& balance(m2, to, tid) == balance(m, to, tid) + u128_at(p, 49)
            &&& (holder != to || id != tid) ==> balance(m2, holder, id) == balance(m, holder, id)
        }),
{
    let to = addr_at(p, 1);
    let tid = u128_at(p, 33);
    let amount = u128_at(p, 49);
    assert(all_zero(zero_address()));
    let m1 = debited(m, zero_address(), tid, amount);
    assert(m1 == m);
    let v = (balance(m, to, tid) + amount) as u128;
    lemma_u128_cell_roundtrip(v);
    if balance_slot(holder, id) == balance_slot(to, tid) {
        lemma_balance_slot_injective(holder, id, to, tid);
    }
}

/// Neither a burn nor a transfer moves tokens for a caller that is neither
/// the holder nor an operator it approved: the request is refused with
/// `ERR_UNAUTHORIZED` and nothing changes.
pub proof fn law_unauthorized_refused(m: StorageMap, caller: Seq<u8>, p: Seq<u8>)
    requires
        initialized(m),
        p.len() >= 67,
        !all_zero(addr_at(p, 1)),
        !all_zero(addr_at(p, 33)),
        !authorized(m, addr_at(p, 1), caller),
    ensures
        burn_outcome(m, caller, p) == (Err::<(), u64>(ERR_UNAUTHORIZED), m),
        transfer_outcome(m, caller, p) == (Err::<(), u64>(ERR_UNAUTHORIZED), m),
        batch_transfer_outcome(m, caller, p) == (Err::<(), u64>(ERR_UNAUTHORIZED), m),
{
}

/// After a successful `SET_APPROVAL_FOR_ALL`, the approval reads back as
/// set (a non-zero byte) or cleared.
pub proof fn law_approval_reads_back(m: StorageMap, caller: Seq<u8>, p: Seq<u8>)
    requires
        set_approval_outcome(m, caller, p).0 is Ok,
    ensures
        approved(set_approval_outcome(m, caller, p).1, caller, addr_at(p, 1)) == (p[33] != 0),
{
}

/// The contract initializes once: afterwards `INITIALIZE` is refused.
pub proof fn law_initialize_once(m: StorageMap, caller: Seq<u8>, p: Seq<u8>, caller2: Seq<u8>, p2: Seq<u8>)
    requires
        initialize_outcome(m, caller, p).0 is Ok,
        caller.len() == 32,
    ensures
        initialize_outcome(initialize_outcome(m, caller, p).1, caller2, p2).0 == Err::<(), u64>(
            ERR_ALREADY_INITIALIZED,
        ),
{
    let m1 = m.insert(key_owner(), caller);
    assert(key_base_uri().len() == 8);
    assert(initialize_outcome(m, caller, p).1.get(key_owner()) == Some(caller));
}

/// A successful burn lowers the holder's balance of the token by the
/// amount and leaves every other balance as it was.
pub proof fn law_burn_debits(m: StorageMap, caller: Seq<u8>, p: Seq<u8>, holder: Seq<u8>, id: u128)
    requires
        burn_outcome(m, caller, p).0 is Ok,
        holder.len() == 32,
    ensures
        ({
            let m2 = burn_outcome(m, caller, p).1;
            let from = addr_at(p, 1);
            let tid = u128_at(p, 33);
            &&& balance(m2, from, tid) == balance(m, from, tid) - u128_at(p, 49)
            &&& (holder != from || id != tid) ==> balance(m2, holder, id) == balance(m, holder, id)
        }),
{
    let from = addr_at(p, 1);
    let tid = u128_at(p, 33);
    let amount = u128_at(p, 49);
    assert(all_zero(zero_address()));
    lemma_u128_cell_roundtrip((balance(m, from, tid) - amount) as u128);
    if balance_slot(holder, id) == balance_slot(from, tid) {
        lemma_balance_slot_injective(holder, id, from, tid);
    }
}

} // verus!

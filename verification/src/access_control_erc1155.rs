//! A multi-token (ERC-1155) contract with role-based access control and a
//! reentrancy guard.
//!
//! Every operation is a function of the contract storage, the transaction
//! sender and the instruction bytes; it returns a status code (0 on success)
//! and leaves the storage as its specification says.  Failed operations may
//! keep the writes made before the failure, as the contract does.

use vstd::prelude::*;
use crate::bytes::{
    le_bytes, le_nat, all_zero, is_zero_address, address_at, read_u128_at, read_u32_at, u128_le,
    append_bytes, bytes_eq, copy_range, lemma_le_bytes_len,
};
use crate::cells::{
    lemma_u128_cell_roundtrip, u128_cell, bool_cell, address_cell, bytes_cell, bool_bytes, read_u128, write_u128, read_bool,
    write_bool, read_address, write_address, read_bytes,
};
use crate::storage::Storage;

verus! {

pub type StorageMap = Map<Seq<u8>, Seq<u8>>;

// Status codes.
pub const ERR_INSUFFICIENT_BALANCE: u64 = 1001;
pub const ERR_NOT_OWNER_OR_APPROVED: u64 = 1002;
pub const ERR_ZERO_ADDRESS: u64 = 1003;
pub const ERR_ARRAY_LENGTH_MISMATCH: u64 = 1004;
pub const ERR_MISSING_ROLE: u64 = 1005;
pub const ERR_INVALID_ROLE: u64 = 1006;
pub const ERR_REENTRANT_CALL: u64 = 1007;
pub const ERR_ALREADY_INITIALIZED: u64 = 1008;
pub const ERR_NOT_INITIALIZED: u64 = 1009;
pub const ERR_INVALID_INSTRUCTION: u64 = 1010;
pub const ERR_INVALID_PARAMS: u64 = 1011;
pub const ERR_UNAUTHORIZED: u64 = 1012;

// Reentrancy guard states.
pub const NOT_ENTERED: u8 = 1;
pub const ENTERED: u8 = 2;

// Opcodes.
pub const OP_INITIALIZE: u8 = 0x00;
pub const OP_MINT: u8 = 0x01;
pub const OP_MINT_BATCH: u8 = 0x02;
pub const OP_BURN: u8 = 0x03;
pub const OP_BURN_BATCH: u8 = 0x04;
pub const OP_SAFE_TRANSFER_FROM: u8 = 0x05;
pub const OP_SAFE_BATCH_TRANSFER_FROM: u8 = 0x06;
pub const OP_SET_APPROVAL_FOR_ALL: u8 = 0x07;
pub const OP_SET_URI: u8 = 0x08;
pub const OP_BALANCE_OF: u8 = 0x10;
pub const OP_BALANCE_OF_BATCH: u8 = 0x11;
pub const OP_IS_APPROVED_FOR_ALL: u8 = 0x12;
pub const OP_URI: u8 = 0x13;
pub const OP_TOTAL_MINTED: u8 = 0x14;
pub const OP_TOTAL_BURNED: u8 = 0x15;
pub const OP_GRANT_ROLE: u8 = 0x20;
pub const OP_REVOKE_ROLE: u8 = 0x21;
pub const OP_RENOUNCE_ROLE: u8 = 0x22;
pub const OP_HAS_ROLE: u8 = 0x23;
pub const OP_GET_ROLE_ADMIN: u8 = 0x24;
pub const OP_SET_ROLE_ADMIN: u8 = 0x25;

// ---------------------------------------------------------------------------
// Roles
// ---------------------------------------------------------------------------

/// The default admin role: 32 zero bytes.
pub open spec fn default_admin_role() -> Seq<u8> {
    Seq::new(32, |i: int| 0u8)
}

/// keccak256("MINTER_ROLE").
pub open spec fn minter_role() -> Seq<u8> {
    seq![
        0x9fu8, 0x2d, 0xf0, 0xfe, 0xd2, 0xc7, 0x7a, 0x88, 0x84, 0x66, 0xf1, 0x70, 0xb1, 0xbb, 0x5d,
        0xd8, 0xed, 0x6d, 0x52, 0xa4, 0xae, 0x9d, 0xcc, 0xad, 0x04, 0xda, 0xa9, 0xab, 0x96, 0xc1,
        0x5c, 0xfe,
    ]
}

/// keccak256("BURNER_ROLE").
pub open spec fn burner_role() -> Seq<u8> {
    seq![
        0x3cu8, 0x11, 0xd1, 0x6c, 0xba, 0xa5, 0x26, 0x65, 0xd1, 0x94, 0x9c, 0x9a, 0xf6, 0x3b, 0xe5,
        0x44, 0xf5, 0x5c, 0x78, 0x89, 0x6c, 0xf5, 0x50, 0xde, 0x40, 0xd6, 0x41, 0x8b, 0x8b, 0x2e,
        0xd8, 0xb8,
    ]
}

/// keccak256("URI_SETTER_ROLE").
pub open spec fn uri_setter_role() -> Seq<u8> {
    seq![
        0x7du8, 0xf1, 0xa5, 0xf6, 0x0b, 0x8a, 0x5e, 0x5d, 0x8a, 0x8e, 0xb9, 0x8f, 0x71, 0x0d, 0x87,
        0x35, 0xa7, 0x9c, 0x3b, 0x4e, 0x9a, 0x84, 0x9d, 0x3c, 0x09, 0x32, 0x6f, 0x41, 0x5e, 0x6e,
        0x0b, 0x65,
    ]
}

pub fn default_admin_role_bytes() -> (r: [u8; 32])
    ensures
        r@ == default_admin_role(),
{
    let a = [0u8; 32];
    assert(a@ =~= default_admin_role());
    a
}

pub fn minter_role_bytes() -> (r: [u8; 32])
    ensures
        r@ == minter_role(),
{
    let a: [u8; 32] = [
        0x9f, 0x2d, 0xf0, 0xfe, 0xd2, 0xc7, 0x7a, 0x88, 0x84, 0x66, 0xf1, 0x70, 0xb1, 0xbb, 0x5d,
        0xd8, 0xed, 0x6d, 0x52, 0xa4, 0xae, 0x9d, 0xcc, 0xad, 0x04, 0xda, 0xa9, 0xab, 0x96, 0xc1,
        0x5c, 0xfe,
    ];
    assert(a@ =~= minter_role());
    a
}

pub fn burner_role_bytes() -> (r: [u8; 32])
    ensures
        r@ == burner_role(),
{
    let a: [u8; 32] = [
        0x3c, 0x11, 0xd1, 0x6c, 0xba, 0xa5, 0x26, 0x65, 0xd1, 0x94, 0x9c, 0x9a, 0xf6, 0x3b, 0xe5,
        0x44, 0xf5, 0x5c, 0x78, 0x89, 0x6c, 0xf5, 0x50, 0xde, 0x40, 0xd6, 0x41, 0x8b, 0x8b, 0x2e,
        0xd8, 0xb8,
    ];
    assert(a@ =~= burner_role());
    a
}

pub fn uri_setter_role_bytes() -> (r: [u8; 32])
    ensures
        r@ == uri_setter_role(),
{
    let a: [u8; 32] = [
        0x7d, 0xf1, 0xa5, 0xf6, 0x0b, 0x8a, 0x5e, 0x5d, 0x8a, 0x8e, 0xb9, 0x8f, 0x71, 0x0d, 0x87,
        0x35, 0xa7, 0x9c, 0x3b, 0x4e, 0x9a, 0x84, 0x9d, 0x3c, 0x09, 0x32, 0x6f, 0x41, 0x5e, 0x6e,
        0x0b, 0x65,
    ];
    assert(a@ =~= uri_setter_role());
    a
}

// ---------------------------------------------------------------------------
// Storage keys
// ---------------------------------------------------------------------------

/// `balance:`
pub open spec fn prefix_balance() -> Seq<u8> {
    seq![98u8, 97, 108, 97, 110, 99, 101, 58]
}

/// `operator:`
pub open spec fn prefix_operator() -> Seq<u8> {
    seq![111u8, 112, 101, 114, 97, 116, 111, 114, 58]
}

/// `uri:`
pub open spec fn prefix_uri() -> Seq<u8> {
    seq![117u8, 114, 105, 58]
}

/// `total_minted:`
pub open spec fn prefix_total_minted() -> Seq<u8> {
    seq![116u8, 111, 116, 97, 108, 95, 109, 105, 110, 116, 101, 100, 58]
}

/// `total_burned:`
pub open spec fn prefix_total_burned() -> Seq<u8> {
    seq![116u8, 111, 116, 97, 108, 95, 98, 117, 114, 110, 101, 100, 58]
}

/// `role:`
pub open spec fn prefix_role() -> Seq<u8> {
    seq![114u8, 111, 108, 101, 58]
}

/// `role_admin:`
pub open spec fn prefix_role_admin() -> Seq<u8> {
    seq![114u8, 111, 108, 101, 95, 97, 100, 109, 105, 110, 58]
}

/// `initialized`
pub open spec fn key_initialized() -> Seq<u8> {
    seq![105u8, 110, 105, 116, 105, 97, 108, 105, 122, 101, 100]
}

/// `owner`
pub open spec fn key_owner() -> Seq<u8> {
    seq![111u8, 119, 110, 101, 114]
}

/// `reentrancy_status`
pub open spec fn key_reentrancy_status() -> Seq<u8> {
    seq![114u8, 101, 101, 110, 116, 114, 97, 110, 99, 121, 95, 115, 116, 97, 116, 117, 115]
}

/// `uri:base`
pub open spec fn key_base_uri() -> Seq<u8> {
    seq![117u8, 114, 105, 58, 98, 97, 115, 101]
}

/// `return_data`
pub open spec fn key_return_data() -> Seq<u8> {
    seq![114u8, 101, 116, 117, 114, 110, 95, 100, 97, 116, 97]
}

/// The separator byte `:`.
pub open spec fn colon() -> Seq<u8> {
    seq![58u8]
}

/// `balance:{owner}:{token_id}` (token id in 16 little-endian bytes).
pub open spec fn balance_key(owner: Seq<u8>, token_id: u128) -> Seq<u8> {
    prefix_balance() + owner + colon() + le_bytes(token_id as nat, 16)
}

/// `operator:{owner}:{operator}`.
pub open spec fn operator_key(owner: Seq<u8>, operator: Seq<u8>) -> Seq<u8> {
    prefix_operator() + owner + colon() + operator
}

/// `uri:{token_id}`.
pub open spec fn uri_key(token_id: u128) -> Seq<u8> {
    prefix_uri() + le_bytes(token_id as nat, 16)
}

/// `total_minted:{token_id}`.
pub open spec fn total_minted_key(token_id: u128) -> Seq<u8> {
    prefix_total_minted() + le_bytes(token_id as nat, 16)
}

/// `total_burned:{token_id}`.
pub open spec fn total_burned_key(token_id: u128) -> Seq<u8> {
    prefix_total_burned() + le_bytes(token_id as nat, 16)
}

/// `role:{role}:{account}`.
pub open spec fn role_key(role: Seq<u8>, account: Seq<u8>) -> Seq<u8> {
    prefix_role() + role + colon() + account
}

/// `role_admin:{role}`.
pub open spec fn role_admin_key(role: Seq<u8>) -> Seq<u8> {
    prefix_role_admin() + role
}

fn key_initialized_vec() -> (r: Vec<u8>)
    ensures
        r@ == key_initialized(),
{
    let v = vec![105u8, 110, 105, 116, 105, 97, 108, 105, 122, 101, 100];
    assert(v@ =~= key_initialized());
    v
}

fn key_owner_vec() -> (r: Vec<u8>)
    ensures
        r@ == key_owner(),
{
    let v = vec![111u8, 119, 110, 101, 114];
    assert(v@ =~= key_owner());
    v
}

fn key_reentrancy_status_vec() -> (r: Vec<u8>)
    ensures
        r@ == key_reentrancy_status(),
{
    let v = vec![114u8, 101, 101, 110, 116, 114, 97, 110, 99, 121, 95, 115, 116, 97, 116, 117, 115];
    assert(v@ =~= key_reentrancy_status());
    v
}

fn key_base_uri_vec() -> (r: Vec<u8>)
    ensures
        r@ == key_base_uri(),
{
    let v = vec![117u8, 114, 105, 58, 98, 97, 115, 101];
    assert(v@ =~= key_base_uri());
    v
}

fn key_return_data_vec() -> (r: Vec<u8>)
    ensures
        r@ == key_return_data(),
{
    let v = vec![114u8, 101, 116, 117, 114, 110, 95, 100, 97, 116, 97];
    assert(v@ =~= key_return_data());
    v
}

fn balance_key_vec(owner: &[u8; 32], token_id: u128) -> (r: Vec<u8>)
    ensures
        r@ == balance_key(owner@, token_id),
{
    let mut key = vec![98u8, 97, 108, 97, 110, 99, 101, 58];
    append_bytes(&mut key, owner.as_slice());
    key.push(58u8);
    let id = u128_le(token_id);
    append_bytes(&mut key, id.as_slice());
    assert(key@ =~= balance_key(owner@, token_id));
    key
}

fn operator_key_vec(owner: &[u8; 32], operator: &[u8; 32]) -> (r: Vec<u8>)
    ensures
        r@ == operator_key(owner@, operator@),
{
    let mut key = vec![111u8, 112, 101, 114, 97, 116, 111, 114, 58];
    append_bytes(&mut key, owner.as_slice());
    key.push(58u8);
    append_bytes(&mut key, operator.as_slice());
    assert(key@ =~= operator_key(owner@, operator@));
    key
}

fn uri_key_vec(token_id: u128) -> (r: Vec<u8>)
    ensures
        r@ == uri_key(token_id),
{
    let mut key = vec![117u8, 114, 105, 58];
    let id = u128_le(token_id);
    append_bytes(&mut key, id.as_slice());
    assert(key@ =~= uri_key(token_id));
    key
}

fn total_minted_key_vec(token_id: u128) -> (r: Vec<u8>)
    ensures
        r@ == total_minted_key(token_id),
{
    let mut key = vec![116u8, 111, 116, 97, 108, 95, 109, 105, 110, 116, 101, 100, 58];
    let id = u128_le(token_id);
    append_bytes(&mut key, id.as_slice());
    assert(key@ =~= total_minted_key(token_id));
    key
}

fn total_burned_key_vec(token_id: u128) -> (r: Vec<u8>)
    ensures
        r@ == total_burned_key(token_id),
{
    let mut key = vec![116u8, 111, 116, 97, 108, 95, 98, 117, 114, 110, 101, 100, 58];
    let id = u128_le(token_id);
    append_bytes(&mut key, id.as_slice());
    assert(key@ =~= total_burned_key(token_id));
    key
}

fn role_key_vec(role: &[u8; 32], account: &[u8; 32]) -> (r: Vec<u8>)
    ensures
        r@ == role_key(role@, account@),
{
    let mut key = vec![114u8, 111, 108, 101, 58];
    append_bytes(&mut key, role.as_slice());
    key.push(58u8);
    append_bytes(&mut key, account.as_slice());
    assert(key@ =~= role_key(role@, account@));
    key
}

fn role_admin_key_vec(role: &[u8; 32]) -> (r: Vec<u8>)
    ensures
        r@ == role_admin_key(role@),
{
    let mut key = vec![114u8, 111, 108, 101, 95, 97, 100, 109, 105, 110, 58];
    append_bytes(&mut key, role.as_slice());
    assert(key@ =~= role_admin_key(role@));
    key
}

// ---------------------------------------------------------------------------
// What the storage holds
// ---------------------------------------------------------------------------

pub open spec fn zero_address() -> Seq<u8> {
    Seq::new(32, |i: int| 0u8)
}

pub open spec fn initialized(m: StorageMap) -> bool {
    bool_cell(m.get(key_initialized()))
}

pub open spec fn contract_owner(m: StorageMap) -> Seq<u8> {
    match address_cell(m.get(key_owner())) {
        Some(a) => a,
        None => zero_address(),
    }
}

pub open spec fn balance(m: StorageMap, owner: Seq<u8>, token_id: u128) -> u128 {
    match u128_cell(m.get(balance_key(owner, token_id))) {
        Some(b) => b,
        None => 0,
    }
}

pub open spec fn operator_approved(m: StorageMap, owner: Seq<u8>, operator: Seq<u8>) -> bool {
    bool_cell(m.get(operator_key(owner, operator)))
}

pub open spec fn token_uri(m: StorageMap, token_id: u128) -> Option<Seq<u8>> {
    bytes_cell(m.get(uri_key(token_id)), 256)
}

pub open spec fn base_uri(m: StorageMap) -> Option<Seq<u8>> {
    bytes_cell(m.get(key_base_uri()), 256)
}

pub open spec fn total_minted(m: StorageMap, token_id: u128) -> u128 {
    match u128_cell(m.get(total_minted_key(token_id))) {
        Some(b) => b,
        None => 0,
    }
}

pub open spec fn total_burned(m: StorageMap, token_id: u128) -> u128 {
    match u128_cell(m.get(total_burned_key(token_id))) {
        Some(b) => b,
        None => 0,
    }
}

pub open spec fn has_role(m: StorageMap, role: Seq<u8>, account: Seq<u8>) -> bool {
    bool_cell(m.get(role_key(role, account)))
}

pub open spec fn role_admin(m: StorageMap, role: Seq<u8>) -> Seq<u8> {
    match address_cell(m.get(role_admin_key(role))) {
        Some(a) => a,
        None => default_admin_role(),
    }
}

pub open spec fn reentrancy_status(m: StorageMap) -> u8 {
    match m.get(key_reentrancy_status()) {
        Some(s) => if s.len() > 0 {
            s[0]
        } else {
            NOT_ENTERED
        },
        None => NOT_ENTERED,
    }
}

pub open spec fn entered(m: StorageMap) -> bool {
    reentrancy_status(m) == ENTERED
}

/// The storage after a `u128` write.
pub open spec fn put_u128(m: StorageMap, k: Seq<u8>, v: nat) -> StorageMap {
    m.insert(k, le_bytes(v, 16))
}

pub open spec fn put_status(m: StorageMap, status: u8) -> StorageMap {
    m.insert(key_reentrancy_status(), seq![status])
}

// ---------------------------------------------------------------------------
// Storage access
// ---------------------------------------------------------------------------

pub fn is_initialized(st: &Storage) -> (r: bool)
    ensures
        r == initialized(st@),
{
    let k = key_initialized_vec();
    read_bool(st, k.as_slice())
}

pub fn set_initialized(st: &mut Storage)
    ensures
        final(st)@ == old(st)@.insert(key_initialized(), bool_bytes(true)),
{
    let k = key_initialized_vec();
    write_bool(st, k.as_slice(), true);
}

pub fn get_owner(st: &Storage) -> (r: [u8; 32])
    ensures
        r@ == contract_owner(st@),
{
    let k = key_owner_vec();
    match read_address(st, k.as_slice()) {
        Some(a) => a,
        None => {
            let z = [0u8; 32];
            assert(z@ =~= zero_address());
            z
        },
    }
}

pub fn set_owner(st: &mut Storage, owner: &[u8; 32])
    ensures
        final(st)@ == old(st)@.insert(key_owner(), owner@),
{
    let k = key_owner_vec();
    write_address(st, k.as_slice(), owner);
}

pub fn get_balance(st: &Storage, owner: &[u8; 32], token_id: u128) -> (r: u128)
    ensures
        r == balance(st@, owner@, token_id),
{
    let k = balance_key_vec(owner, token_id);
    match read_u128(st, k.as_slice()) {
        Some(b) => b,
        None => 0,
    }
}

pub fn set_balance(st: &mut Storage, owner: &[u8; 32], token_id: u128, amount: u128)
    ensures
        final(st)@ == put_u128(old(st)@, balance_key(owner@, token_id), amount as nat),
{
    let k = balance_key_vec(owner, token_id);
    write_u128(st, k.as_slice(), amount);
}

pub fn get_operator_approval(st: &Storage, owner: &[u8; 32], operator: &[u8; 32]) -> (r: bool)
    ensures
        r == operator_approved(st@, owner@, operator@),
{
    let k = operator_key_vec(owner, operator);
    read_bool(st, k.as_slice())
}

pub fn set_operator_approval(
    st: &mut Storage,
    owner: &[u8; 32],
    operator: &[u8; 32],
    approved: bool,
)
    ensures
        final(st)@ == old(st)@.insert(operator_key(owner@, operator@), bool_bytes(approved)),
{
    let k = operator_key_vec(owner, operator);
    write_bool(st, k.as_slice(), approved);
}

pub fn get_token_uri(st: &Storage, token_id: u128) -> (r: Option<Vec<u8>>)
    ensures
        match r {
            Some(v) => token_uri(st@, token_id) == Some(v@),
            None => token_uri(st@, token_id) is None,
        },
{
    let k = uri_key_vec(token_id);
    read_bytes(st, k.as_slice(), 256)
}

pub fn set_token_uri(st: &mut Storage, token_id: u128, uri: &[u8])
    ensures
        final(st)@ == old(st)@.insert(uri_key(token_id), uri@),
{
    let k = uri_key_vec(token_id);
    st.write(k.as_slice(), uri);
}

pub fn get_base_uri(st: &Storage) -> (r: Option<Vec<u8>>)
    ensures
        match r {
            Some(v) => base_uri(st@) == Some(v@),
            None => base_uri(st@) is None,
        },
{
    let k = key_base_uri_vec();
    read_bytes(st, k.as_slice(), 256)
}

pub fn set_base_uri(st: &mut Storage, uri: &[u8])
    ensures
        final(st)@ == old(st)@.insert(key_base_uri(), uri@),
{
    let k = key_base_uri_vec();
    st.write(k.as_slice(), uri);
}

pub fn get_total_minted(st: &Storage, token_id: u128) -> (r: u128)
    ensures
        r == total_minted(st@, token_id),
{
    let k = total_minted_key_vec(token_id);
    match read_u128(st, k.as_slice()) {
        Some(b) => b,
        None => 0,
    }
}

pub fn set_total_minted(st: &mut Storage, token_id: u128, amount: u128)
    ensures
        final(st)@ == put_u128(old(st)@, total_minted_key(token_id), amount as nat),
{
    let k = total_minted_key_vec(token_id);
    write_u128(st, k.as_slice(), amount);
}

pub fn get_total_burned(st: &Storage, token_id: u128) -> (r: u128)
    ensures
        r == total_burned(st@, token_id),
{
    let k = total_burned_key_vec(token_id);
    match read_u128(st, k.as_slice()) {
        Some(b) => b,
        None => 0,
    }
}

pub fn set_total_burned(st: &mut Storage, token_id: u128, amount: u128)
    ensures
        final(st)@ == put_u128(old(st)@, total_burned_key(token_id), amount as nat),
{
    let k = total_burned_key_vec(token_id);
    write_u128(st, k.as_slice(), amount);
}

pub fn has_role_exec(st: &Storage, role: &[u8; 32], account: &[u8; 32]) -> (r: bool)
    ensures
        r == has_role(st@, role@, account@),
{
    let k = role_key_vec(role, account);
    read_bool(st, k.as_slice())
}

pub fn grant_role_internal(st: &mut Storage, role: &[u8; 32], account: &[u8; 32])
    ensures
        final(st)@ == old(st)@.insert(role_key(role@, account@), bool_bytes(true)),
{
    let k = role_key_vec(role, account);
    write_bool(st, k.as_slice(), true);
}

pub fn revoke_role_internal(st: &mut Storage, role: &[u8; 32], account: &[u8; 32])
    ensures
        final(st)@ == old(st)@.insert(role_key(role@, account@), bool_bytes(false)),
{
    let k = role_key_vec(role, account);
    write_bool(st, k.as_slice(), false);
}

pub fn get_role_admin(st: &Storage, role: &[u8; 32]) -> (r: [u8; 32])
    ensures
        r@ == role_admin(st@, role@),
{
    let k = role_admin_key_vec(role);
    match read_address(st, k.as_slice()) {
        Some(a) => a,
        None => default_admin_role_bytes(),
    }
}

pub fn set_role_admin_internal(st: &mut Storage, role: &[u8; 32], admin_role: &[u8; 32])
    ensures
        final(st)@ == old(st)@.insert(role_admin_key(role@), admin_role@),
{
    let k = role_admin_key_vec(role);
    write_address(st, k.as_slice(), admin_role);
}

pub fn get_reentrancy_status(st: &Storage) -> (r: u8)
    ensures
        r == reentrancy_status(st@),
{
    let k = key_reentrancy_status_vec();
    let (buf, len) = st.read(k.as_slice(), 1);
    if len > 0 {
        buf[0]
    } else {
        NOT_ENTERED
    }
}

pub fn set_reentrancy_status(st: &mut Storage, status: u8)
    ensures
        final(st)@ == put_status(old(st)@, status),
{
    let k = key_reentrancy_status_vec();
    let v = vec![status];
    assert(v@ =~= seq![status]);
    st.write(k.as_slice(), v.as_slice());
}

pub fn is_entered(st: &Storage) -> (r: bool)
    ensures
        r == entered(st@),
{
    get_reentrancy_status(st) == ENTERED
}

/// Takes the guard; false, with nothing written, when it is already held.
pub fn enter(st: &mut Storage) -> (r: bool)
    ensures
        r == !entered(old(st)@),
        r ==> final(st)@ == put_status(old(st)@, ENTERED),
        !r ==> final(st)@ == old(st)@,
{
    if is_entered(st) {
        return false;
    }
    set_reentrancy_status(st, ENTERED);
    true
}

/// Releases the guard; false, with nothing written, when it is not held.
pub fn leave(st: &mut Storage) -> (r: bool)
    ensures
        r == entered(old(st)@),
        r ==> final(st)@ == put_status(old(st)@, NOT_ENTERED),
        !r ==> final(st)@ == old(st)@,
{
    if !is_entered(st) {
        return false;
    }
    set_reentrancy_status(st, NOT_ENTERED);
    true
}

// ---------------------------------------------------------------------------
// Parameter parsing
// ---------------------------------------------------------------------------

pub fn parse_address(data: &[u8], offset: usize) -> (r: Result<[u8; 32], u64>)
    ensures
        data@.len() < offset + 32 ==> r == Err::<[u8; 32], u64>(ERR_INVALID_PARAMS),
        data@.len() >= offset + 32 ==> r is Ok && r->Ok_0@ == data@.subrange(
            offset as int,
            offset + 32,
        ),
{
    if offset > data.len() || data.len() - offset < 32 {
        return Err(ERR_INVALID_PARAMS);
    }
    Ok(address_at(data, offset))
}

pub fn parse_u128(data: &[u8], offset: usize) -> (r: Result<u128, u64>)
    ensures
        data@.len() < offset + 16 ==> r == Err::<u128, u64>(ERR_INVALID_PARAMS),
        data@.len() >= offset + 16 ==> r == Ok::<u128, u64>(
            le_nat(data@.subrange(offset as int, offset + 16)) as u128,
        ),
{
    if offset > data.len() || data.len() - offset < 16 {
        return Err(ERR_INVALID_PARAMS);
    }
    Ok(read_u128_at(data, offset))
}

pub fn parse_u32(data: &[u8], offset: usize) -> (r: Result<u32, u64>)
    ensures
        data@.len() < offset + 4 ==> r == Err::<u32, u64>(ERR_INVALID_PARAMS),
        data@.len() >= offset + 4 ==> r == Ok::<u32, u64>(
            le_nat(data@.subrange(offset as int, offset + 4)) as u32,
        ),
{
    if offset > data.len() || data.len() - offset < 4 {
        return Err(ERR_INVALID_PARAMS);
    }
    Ok(read_u32_at(data, offset))
}

/// The `u128` at `offset` of the parameters.
pub open spec fn u128_param(p: Seq<u8>, offset: int) -> u128 {
    le_nat(p.subrange(offset, offset + 16)) as u128
}

/// The `u32` at `offset` of the parameters.
pub open spec fn u32_param(p: Seq<u8>, offset: int) -> u32 {
    le_nat(p.subrange(offset, offset + 4)) as u32
}


// ---------------------------------------------------------------------------
// Key facts
// ---------------------------------------------------------------------------

pub proof fn lemma_key_lengths(a: Seq<u8>, b: Seq<u8>, id: u128)
    requires
        a.len() == 32,
        b.len() == 32,
    ensures
        balance_key(a, id).len() == 57,
        operator_key(a, b).len() == 74,
        uri_key(id).len() == 20,
        total_minted_key(id).len() == 29,
        total_burned_key(id).len() == 29,
        role_key(a, b).len() == 70,
        role_admin_key(a).len() == 43,
        key_initialized().len() == 11,
        key_owner().len() == 5,
        key_reentrancy_status().len() == 17,
        key_base_uri().len() == 8,
        key_return_data().len() == 11,
        total_minted_key(id)[6] != total_burned_key(id)[6],
        key_initialized()[0] != key_return_data()[0],
{
    lemma_le_bytes_len(id as nat, 16);
}

/// Balance keys of different holders or tokens are different.
pub proof fn lemma_balance_key_injective(a: Seq<u8>, i: u128, b: Seq<u8>, j: u128)
    requires
        a.len() == 32,
        b.len() == 32,
        balance_key(a, i) == balance_key(b, j),
    ensures
        a == b,
        i == j,
{
    lemma_le_bytes_len(i as nat, 16);
    lemma_le_bytes_len(j as nat, 16);
    let ka = balance_key(a, i);
    let kb = balance_key(b, j);
    assert(ka.subrange(8, 40) =~= a);
    assert(kb.subrange(8, 40) =~= b);
    assert(ka.subrange(41, 57) =~= le_bytes(i as nat, 16));
    assert(kb.subrange(41, 57) =~= le_bytes(j as nat, 16));
    crate::bytes::lemma_pow256_values();
    crate::bytes::lemma_le_bytes_injective(i as nat, j as nat, 16);
}

// ---------------------------------------------------------------------------
// Operations
// ---------------------------------------------------------------------------

/// Credits `amount` of `token_id` to `to` and counts it as minted; fails
/// with `ERR_INVALID_PARAMS` on overflow, keeping the balance write when the
/// minted total overflows.
pub open spec fn credit_minted(m: StorageMap, to: Seq<u8>, token_id: u128, amount: u128) -> (
    u64,
    StorageMap,
) {
    let b = balance(m, to, token_id);
    if b + amount > u128::MAX {
        (ERR_INVALID_PARAMS, m)
    } else {
        let m1 = put_u128(m, balance_key(to, token_id), (b + amount) as nat);
        let t = total_minted(m, token_id);
        if t + amount > u128::MAX {
            (ERR_INVALID_PARAMS, m1)
        } else {
            (0, put_u128(m1, total_minted_key(token_id), (t + amount) as nat))
        }
    }
}

/// Debits `amount` of `token_id` from `from` and counts it as burned.
pub open spec fn debit_burned(m: StorageMap, from: Seq<u8>, token_id: u128, amount: u128) -> (
    u64,
    StorageMap,
) {
    let b = balance(m, from, token_id);
    if b < amount {
        (ERR_INSUFFICIENT_BALANCE, m)
    } else {
        let m1 = put_u128(m, balance_key(from, token_id), (b - amount) as nat);
        let t = total_burned(m, token_id);
        if t + amount > u128::MAX {
            (ERR_INVALID_PARAMS, m1)
        } else {
            (0, put_u128(m1, total_burned_key(token_id), (t + amount) as nat))
        }
    }
}

/// Moves `amount` of `token_id` from `from` to `to` (the receiver's balance
/// is read after the sender's is written, so a self-transfer leaves the
/// balance as it was).
pub open spec fn move_tokens(
    m: StorageMap,
    from: Seq<u8>,
    to: Seq<u8>,
    token_id: u128,
    amount: u128,
) -> (u64, StorageMap) {
    let fb = balance(m, from, token_id);
    if fb < amount {
        (ERR_INSUFFICIENT_BALANCE, m)
    } else {
        let m1 = put_u128(m, balance_key(from, token_id), (fb - amount) as nat);
        let tb = balance(m1, to, token_id);
        if tb + amount > u128::MAX {
            (ERR_INVALID_PARAMS, m1)
        } else {
            (0, put_u128(m1, balance_key(to, token_id), (tb + amount) as nat))
        }
    }
}

proof fn lemma_credit_minted_keys(m: StorageMap, to: Seq<u8>, token_id: u128)
    requires
        to.len() == 32,
    ensures
        balance_key(to, token_id) != total_minted_key(token_id),
        balance_key(to, token_id) != total_burned_key(token_id),
{
    lemma_key_lengths(to, to, token_id);
}

fn mint_one(st: &mut Storage, to: &[u8; 32], token_id: u128, amount: u128) -> (r: u64)
    ensures
        (r, final(st)@) == credit_minted(old(st)@, to@, token_id, amount),
{
    proof {
        lemma_credit_minted_keys(st@, to@, token_id);
    }
    let current_balance = get_balance(st, to, token_id);
    let new_balance = match current_balance.checked_add(amount) {
        Some(b) => b,
        None => return ERR_INVALID_PARAMS,
    };
    set_balance(st, to, token_id, new_balance);
    let total = get_total_minted(st, token_id);
    let new_total = match total.checked_add(amount) {
        Some(t) => t,
        None => return ERR_INVALID_PARAMS,
    };
    set_total_minted(st, token_id, new_total);
    0
}

fn burn_one(st: &mut Storage, from: &[u8; 32], token_id: u128, amount: u128) -> (r: u64)
    ensures
        (r, final(st)@) == debit_burned(old(st)@, from@, token_id, amount),
{
    proof {
        lemma_credit_minted_keys(st@, from@, token_id);
    }
    let current_balance = get_balance(st, from, token_id);
    if current_balance < amount {
        return ERR_INSUFFICIENT_BALANCE;
    }
    set_balance(st, from, token_id, current_balance - amount);
    let total = get_total_burned(st, token_id);
    let new_total = match total.checked_add(amount) {
        Some(t) => t,
        None => return ERR_INVALID_PARAMS,
    };
    set_total_burned(st, token_id, new_total);
    0
}

fn move_one(st: &mut Storage, from: &[u8; 32], to: &[u8; 32], token_id: u128, amount: u128) -> (r:
    u64)
    ensures
        (r, final(st)@) == move_tokens(old(st)@, from@, to@, token_id, amount),
{
    let from_balance = get_balance(st, from, token_id);
    if from_balance < amount {
        return ERR_INSUFFICIENT_BALANCE;
    }
    set_balance(st, from, token_id, from_balance - amount);
    let to_balance = get_balance(st, to, token_id);
    let new_to_balance = match to_balance.checked_add(amount) {
        Some(b) => b,
        None => return ERR_INVALID_PARAMS,
    };
    set_balance(st, to, token_id, new_to_balance);
    0
}


/// The receiver address of the parameters (bytes 0..32).
pub open spec fn addr_param(p: Seq<u8>, offset: int) -> Seq<u8> {
    p.subrange(offset, offset + 32)
}

/// Outcome of `MINT`: `[to:32][token_id:16][amount:16]`, minter role only.
pub open spec fn mint_outcome(m: StorageMap, sender: Seq<u8>, p: Seq<u8>) -> (u64, StorageMap) {
    if !initialized(m) {
        (ERR_NOT_INITIALIZED, m)
    } else if !has_role(m, minter_role(), sender) {
        (ERR_MISSING_ROLE, m)
    } else if p.len() < 64 {
        (ERR_INVALID_PARAMS, m)
    } else if all_zero(addr_param(p, 0)) {
        (ERR_ZERO_ADDRESS, m)
    } else {
        credit_minted(m, addr_param(p, 0), u128_param(p, 32), u128_param(p, 48))
    }
}

pub fn op_mint(st: &mut Storage, sender: &[u8; 32], params: &[u8]) -> (r: u64)
    ensures
        (r, final(st)@) == mint_outcome(old(st)@, sender@, params@),
{
    if !is_initialized(st) {
        return ERR_NOT_INITIALIZED;
    }
    let minter = minter_role_bytes();
    if !has_role_exec(st, &minter, sender) {
        return ERR_MISSING_ROLE;
    }
    if params.len() < 32 + 16 + 16 {
        return ERR_INVALID_PARAMS;
    }
    let to = match parse_address(params, 0) {
        Ok(addr) => addr,
        Err(e) => return e,
    };
    if is_zero_address(&to) {
        return ERR_ZERO_ADDRESS;
    }
    let token_id = match parse_u128(params, 32) {
        Ok(id) => id,
        Err(e) => return e,
    };
    let amount = match parse_u128(params, 48) {
        Ok(amt) => amt,
        Err(e) => return e,
    };
    mint_one(st, &to, token_id, amount)
}

/// Mints the batch items `i..count` (each `[token_id:16][amount:16]`,
/// starting at byte 36), stopping at the first failure.
pub open spec fn mint_items(m: StorageMap, to: Seq<u8>, p: Seq<u8>, i: nat, count: nat) -> (
    u64,
    StorageMap,
)
    decreases count - i,
{
    if i >= count {
        (0, m)
    } else {
        let off = (36 + 32 * i) as int;
        let r = credit_minted(m, to, u128_param(p, off), u128_param(p, off + 16));
        if r.0 != 0 {
            r
        } else {
            mint_items(r.1, to, p, i + 1, count)
        }
    }
}

/// Outcome of `MINT_BATCH`: `[to:32][count:4]` then `count` items.
pub open spec fn mint_batch_outcome(m: StorageMap, sender: Seq<u8>, p: Seq<u8>) -> (
    u64,
    StorageMap,
) {
    if !initialized(m) {
        (ERR_NOT_INITIALIZED, m)
    } else if !has_role(m, minter_role(), sender) {
        (ERR_MISSING_ROLE, m)
    } else if p.len() < 36 {
        (ERR_INVALID_PARAMS, m)
    } else if all_zero(addr_param(p, 0)) {
        (ERR_ZERO_ADDRESS, m)
    } else if p.len() < 36 + u32_param(p, 32) * 32 {
        (ERR_INVALID_PARAMS, m)
    } else {
        mint_items(m, addr_param(p, 0), p, 0, u32_param(p, 32) as nat)
    }
}

pub fn op_mint_batch(st: &mut Storage, sender: &[u8; 32], params: &[u8]) -> (r: u64)
    ensures
        (r, final(st)@) == mint_batch_outcome(old(st)@, sender@, params@),
{
    if !is_initialized(st) {
        return ERR_NOT_INITIALIZED;
    }
    let minter = minter_role_bytes();
    if !has_role_exec(st, &minter, sender) {
        return ERR_MISSING_ROLE;
    }
    if params.len() < 32 + 4 {
        return ERR_INVALID_PARAMS;
    }
    let to = match parse_address(params, 0) {
        Ok(addr) => addr,
        Err(e) => return e,
    };
    if is_zero_address(&to) {
        return ERR_ZERO_ADDRESS;
    }
    let count = match parse_u32(params, 32) {
        Ok(c) => c,
        Err(e) => return e,
    };
    if (params.len() as u64) < 36 + (count as u64) * 32 {
        return ERR_INVALID_PARAMS;
    }
    let plen = params.len();
    let ghost m0 = st@;
    let mut offset: usize = 36;
    let mut i: u32 = 0;
    while i < count
        invariant
            i <= count,
            offset == 36 + 32 * i,
            plen == params@.len(),
            params@.len() >= 36 + count * 32,
            mint_batch_outcome(old(st)@, sender@, params@) == mint_items(m0, to@, params@, 0, count as nat),
            mint_items(m0, to@, params@, 0, count as nat) == mint_items(
                st@,
                to@,
                params@,
                i as nat,
                count as nat,
            ),
        decreases count - i,
    {
        let token_id = match parse_u128(params, offset) {
            Ok(id) => id,
            Err(e) => return e,
        };
        let amount = match parse_u128(params, offset + 16) {
            Ok(amt) => amt,
            Err(e) => return e,
        };
        let ghost pre = st@;
        let c = mint_one(st, &to, token_id, amount);
        proof {
            assert(token_id == u128_param(params@, offset as int));
            assert(amount == u128_param(params@, offset + 16));
            if c != 0 {
                assert(mint_items(pre, to@, params@, i as nat, count as nat) == (c, st@));
            }
        }
        if c != 0 {
            return c;
        }
        offset = offset + 32;
        i = i + 1;
    }
    0
}

/// Outcome of `BURN`: `[from:32][token_id:16][amount:16]`, burner role only.
pub open spec fn burn_outcome(m: StorageMap, sender: Seq<u8>, p: Seq<u8>) -> (u64, StorageMap) {
    if !initialized(m) {
        (ERR_NOT_INITIALIZED, m)
    } else if !has_role(m, burner_role(), sender) {
        (ERR_MISSING_ROLE, m)
    } else if p.len() < 64 {
        (ERR_INVALID_PARAMS, m)
    } else if all_zero(addr_param(p, 0)) {
        (ERR_ZERO_ADDRESS, m)
    } else {
        debit_burned(m, addr_param(p, 0), u128_param(p, 32), u128_param(p, 48))
    }
}

pub fn op_burn(st: &mut Storage, sender: &[u8; 32], params: &[u8]) -> (r: u64)
    ensures
        (r, final(st)@) == burn_outcome(old(st)@, sender@, params@),
{
    if !is_initialized(st) {
        return ERR_NOT_INITIALIZED;
    }
    let burner = burner_role_bytes();
    if !has_role_exec(st, &burner, sender) {
        return ERR_MISSING_ROLE;
    }
    if params.len() < 32 + 16 + 16 {
        return ERR_INVALID_PARAMS;
    }
    let from = match parse_address(params, 0) {
        Ok(addr) => addr,
        Err(e) => return e,
    };
    if is_zero_address(&from) {
        return ERR_ZERO_ADDRESS;
    }
    let token_id = match parse_u128(params, 32) {
        Ok(id) => id,
        Err(e) => return e,
    };
    let amount = match parse_u128(params, 48) {
        Ok(amt) => amt,
        Err(e) => return e,
    };
    burn_one(st, &from, token_id, amount)
}

/// Burns the batch items `i..count`, stopping at the first failure.
pub open spec fn burn_items(m: StorageMap, from: Seq<u8>, p: Seq<u8>, i: nat, count: nat) -> (
    u64,
    StorageMap,
)
    decreases count - i,
{
    if i >= count {
        (0, m)
    } else {
        let off = (36 + 32 * i) as int;
        let r = debit_burned(m, from, u128_param(p, off), u128_param(p, off + 16));
        if r.0 != 0 {
            r
        } else {
            burn_items(r.1, from, p, i + 1, count)
        }
    }
}

/// Outcome of `BURN_BATCH`: `[from:32][count:4]` then `count` items.
pub open spec fn burn_batch_outcome(m: StorageMap, sender: Seq<u8>, p: Seq<u8>) -> (
    u64,
    StorageMap,
) {
    if !initialized(m) {
        (ERR_NOT_INITIALIZED, m)
    } else if !has_role(m, burner_role(), sender) {
        (ERR_MISSING_ROLE, m)
    } else if p.len() < 36 {
        (ERR_INVALID_PARAMS, m)
    } else if all_zero(addr_param(p, 0)) {
        (ERR_ZERO_ADDRESS, m)
    } else if p.len() < 36 + u32_param(p, 32) * 32 {
        (ERR_INVALID_PARAMS, m)
    } else {
        burn_items(m, addr_param(p, 0), p, 0, u32_param(p, 32) as nat)
    }
}

pub fn op_burn_batch(st: &mut Storage, sender: &[u8; 32], params: &[u8]) -> (r: u64)
    ensures
        (r, final(st)@) == burn_batch_outcome(old(st)@, sender@, params@),
{
    if !is_initialized(st) {
        return ERR_NOT_INITIALIZED;
    }
    let burner = burner_role_bytes();
    if !has_role_exec(st, &burner, sender) {
        return ERR_MISSING_ROLE;
    }
    if params.len() < 32 + 4 {
        return ERR_INVALID_PARAMS;
    }
    let from = match parse_address(params, 0) {
        Ok(addr) => addr,
        Err(e) => return e,
    };
    if is_zero_address(&from) {
        return ERR_ZERO_ADDRESS;
    }
    let count = match parse_u32(params, 32) {
        Ok(c) => c,
        Err(e) => return e,
    };
    if (params.len() as u64) < 36 + (count as u64) * 32 {
        return ERR_INVALID_PARAMS;
    }
    let plen = params.len();
    let ghost m0 = st@;
    let mut offset: usize = 36;
    let mut i: u32 = 0;
    while i < count
        invariant
            i <= count,
            offset == 36 + 32 * i,
            plen == params@.len(),
            params@.len() >= 36 + count * 32,
            burn_batch_outcome(old(st)@, sender@, params@) == burn_items(m0, from@, params@, 0, count as nat),
            burn_items(m0, from@, params@, 0, count as nat) == burn_items(
                st@,
                from@,
                params@,
                i as nat,
                count as nat,
            ),
        decreases count - i,
    {
        let token_id = match parse_u128(params, offset) {
            Ok(id) => id,
            Err(e) => return e,
        };
        let amount = match parse_u128(params, offset + 16) {
            Ok(amt) => amt,
            Err(e) => return e,
        };
        let ghost pre = st@;
        let c = burn_one(st, &from, token_id, amount);
        proof {
            assert(token_id == u128_param(params@, offset as int));
            assert(amount == u128_param(params@, offset + 16));
            if c != 0 {
                assert(burn_items(pre, from@, params@, i as nat, count as nat) == (c, st@));
            }
        }
        if c != 0 {
            return c;
        }
        offset = offset + 32;
        i = i + 1;
    }
    0
}

/// Outcome of the transfer itself: `[from:32][to:32][token_id:16][amount:16]`;
/// the sender must be `from` or an operator approved by `from`.
pub open spec fn transfer_internal_outcome(m: StorageMap, sender: Seq<u8>, p: Seq<u8>) -> (
    u64,
    StorageMap,
) {
    if p.len() < 96 {
        (ERR_INVALID_PARAMS, m)
    } else if all_zero(addr_param(p, 32)) {
        (ERR_ZERO_ADDRESS, m)
    } else if sender != addr_param(p, 0) && !operator_approved(m, addr_param(p, 0), sender) {
        (ERR_NOT_OWNER_OR_APPROVED, m)
    } else {
        move_tokens(m, addr_param(p, 0), addr_param(p, 32), u128_param(p, 64), u128_param(p, 80))
    }
}

pub fn safe_transfer_from_internal(st: &mut Storage, sender: &[u8; 32], params: &[u8]) -> (r: u64)
    ensures
        (r, final(st)@) == transfer_internal_outcome(old(st)@, sender@, params@),
{
    if params.len() < 32 + 32 + 16 + 16 {
        return ERR_INVALID_PARAMS;
    }
    let from = match parse_address(params, 0) {
        Ok(addr) => addr,
        Err(e) => return e,
    };
    let to = match parse_address(params, 32) {
        Ok(addr) => addr,
        Err(e) => return e,
    };
    if is_zero_address(&to) {
        return ERR_ZERO_ADDRESS;
    }
    let token_id = match parse_u128(params, 64) {
        Ok(id) => id,
        Err(e) => return e,
    };
    let amount = match parse_u128(params, 80) {
        Ok(amt) => amt,
        Err(e) => return e,
    };
    if !bytes_eq(sender.as_slice(), from.as_slice()) && !get_operator_approval(st, &from, sender) {
        return ERR_NOT_OWNER_OR_APPROVED;
    }
    move_one(st, &from, &to, token_id, amount)
}

/// Runs a guarded operation: refuses while the guard is held, takes it,
/// runs the operation and releases it.
pub open spec fn guarded(m: StorageMap, inner: spec_fn(StorageMap) -> (u64, StorageMap)) -> (
    u64,
    StorageMap,
) {
    if !initialized(m) {
        (ERR_NOT_INITIALIZED, m)
    } else if entered(m) {
        (ERR_REENTRANT_CALL, m)
    } else {
        let r = inner(put_status(m, ENTERED));
        if !entered(r.1) {
            (ERR_REENTRANT_CALL, r.1)
        } else {
            (r.0, put_status(r.1, NOT_ENTERED))
        }
    }
}

/// Outcome of `SAFE_TRANSFER_FROM`.
pub open spec fn safe_transfer_outcome(m: StorageMap, sender: Seq<u8>, p: Seq<u8>) -> (
    u64,
    StorageMap,
) {
    guarded(m, |m1: StorageMap| transfer_internal_outcome(m1, sender, p))
}

pub fn op_safe_transfer_from(st: &mut Storage, sender: &[u8; 32], params: &[u8]) -> (r: u64)
    ensures
        (r, final(st)@) == safe_transfer_outcome(old(st)@, sender@, params@),
{
    if !is_initialized(st) {
        return ERR_NOT_INITIALIZED;
    }
    if is_entered(st) {
        return ERR_REENTRANT_CALL;
    }
    if !enter(st) {
        return ERR_REENTRANT_CALL;
    }
    let result = safe_transfer_from_internal(st, sender, params);
    if !leave(st) {
        return ERR_REENTRANT_CALL;
    }
    result
}

/// Moves the batch items `i..count` (starting at byte 68), stopping at the
/// first failure.
pub open spec fn move_items(
    m: StorageMap,
    from: Seq<u8>,
    to: Seq<u8>,
    p: Seq<u8>,
    i: nat,
    count: nat,
) -> (u64, StorageMap)
    decreases count - i,
{
    if i >= count {
        (0, m)
    } else {
        let off = (68 + 32 * i) as int;
        let r = move_tokens(m, from, to, u128_param(p, off), u128_param(p, off + 16));
        if r.0 != 0 {
            r
        } else {
            move_items(r.1, from, to, p, i + 1, count)
        }
    }
}

/// Outcome of the batch transfer itself: `[from:32][to:32][count:4]` then
/// `count` items.
pub open spec fn batch_transfer_internal_outcome(m: StorageMap, sender: Seq<u8>, p: Seq<u8>) -> (
    u64,
    StorageMap,
) {
    if p.len() < 68 {
        (ERR_INVALID_PARAMS, m)
    } else if all_zero(addr_param(p, 32)) {
        (ERR_ZERO_ADDRESS, m)
    } else if p.len() < 68 + u32_param(p, 64) * 32 {
        (ERR_INVALID_PARAMS, m)
    } else if sender != addr_param(p, 0) && !operator_approved(m, addr_param(p, 0), sender) {
        (ERR_NOT_OWNER_OR_APPROVED, m)
    } else {
        move_items(m, addr_param(p, 0), addr_param(p, 32), p, 0, u32_param(p, 64) as nat)
    }
}

pub fn safe_batch_transfer_from_internal(st: &mut Storage, sender: &[u8; 32], params: &[u8]) -> (r:
    u64)
    ensures
        (r, final(st)@) == batch_transfer_internal_outcome(old(st)@, sender@, params@),
{
    if params.len() < 32 + 32 + 4 {
        return ERR_INVALID_PARAMS;
    }
    let from = match parse_address(params, 0) {
        Ok(addr) => addr,
        Err(e) => return e,
    };
    let to = match parse_address(params, 32) {
        Ok(addr) => addr,
        Err(e) => return e,
    };
    if is_zero_address(&to) {
        return ERR_ZERO_ADDRESS;
    }
    let count = match parse_u32(params, 64) {
        Ok(c) => c,
        Err(e) => return e,
    };
    if (params.len() as u64) < 68 + (count as u64) * 32 {
        return ERR_INVALID_PARAMS;
    }
    if !bytes_eq(sender.as_slice(), from.as_slice()) && !get_operator_approval(st, &from, sender) {
        return ERR_NOT_OWNER_OR_APPROVED;
    }
    let plen = params.len();
    let ghost m0 = st@;
    let mut offset: usize = 68;
    let mut i: u32 = 0;
    while i < count
        invariant
            i <= count,
            offset == 68 + 32 * i,
            plen == params@.len(),
            params@.len() >= 68 + count * 32,
            batch_transfer_internal_outcome(old(st)@, sender@, params@) == move_items(m0, from@, to@, params@, 0, count as nat),
            move_items(m0, from@, to@, params@, 0, count as nat) == move_items(
                st@,
                from@,
                to@,
                params@,
                i as nat,
                count as nat,
            ),
        decreases count - i,
    {
        let token_id = match parse_u128(params, offset) {
            Ok(id) => id,
            Err(e) => return e,
        };
        let amount = match parse_u128(params, offset + 16) {
            Ok(amt) => amt,
            Err(e) => return e,
        };
        let ghost pre = st@;
        let c = move_one(st, &from, &to, token_id, amount);
        proof {
            assert(token_id == u128_param(params@, offset as int));
            assert(amount == u128_param(params@, offset + 16));
            if c != 0 {
                assert(move_items(pre, from@, to@, params@, i as nat, count as nat) == (c, st@));
            }
        }
        if c != 0 {
            return c;
        }
        offset = offset + 32;
        i = i + 1;
    }
    0
}

/// Outcome of `SAFE_BATCH_TRANSFER_FROM`.
pub open spec fn safe_batch_transfer_outcome(m: StorageMap, sender: Seq<u8>, p: Seq<u8>) -> (
    u64,
    StorageMap,
) {
    guarded(m, |m1: StorageMap| batch_transfer_internal_outcome(m1, sender, p))
}

pub fn op_safe_batch_transfer_from(st: &mut Storage, sender: &[u8; 32], params: &[u8]) -> (r: u64)
    ensures
        (r, final(st)@) == safe_batch_transfer_outcome(old(st)@, sender@, params@),
{
    if !is_initialized(st) {
        return ERR_NOT_INITIALIZED;
    }
    if is_entered(st) {
        return ERR_REENTRANT_CALL;
    }
    if !enter(st) {
        return ERR_REENTRANT_CALL;
    }
    let result = safe_batch_transfer_from_internal(st, sender, params);
    if !leave(st) {
        return ERR_REENTRANT_CALL;
    }
    result
}


/// Outcome of `SET_APPROVAL_FOR_ALL`: `[operator:32][approved:1]`, for the
/// sender's own tokens.
pub open spec fn set_approval_outcome(m: StorageMap, sender: Seq<u8>, p: Seq<u8>) -> (
    u64,
    StorageMap,
) {
    if !initialized(m) {
        (ERR_NOT_INITIALIZED, m)
    } else if p.len() < 33 {
        (ERR_INVALID_PARAMS, m)
    } else {
        (0, m.insert(operator_key(sender, addr_param(p, 0)), bool_bytes(p[32] != 0)))
    }
}

pub fn op_set_approval_for_all(st: &mut Storage, sender: &[u8; 32], params: &[u8]) -> (r: u64)
    ensures
        (r, final(st)@) == set_approval_outcome(old(st)@, sender@, params@),
{
    if !is_initialized(st) {
        return ERR_NOT_INITIALIZED;
    }
    if params.len() < 32 + 1 {
        return ERR_INVALID_PARAMS;
    }
    let operator = match parse_address(params, 0) {
        Ok(addr) => addr,
        Err(e) => return e,
    };
    let approved = params[32] != 0;
    set_operator_approval(st, sender, &operator, approved);
    0
}

/// Outcome of `SET_URI`: `[token_id:16][uri_len:4][uri]`, URI setter role
/// only.
pub open spec fn set_uri_outcome(m: StorageMap, sender: Seq<u8>, p: Seq<u8>) -> (u64, StorageMap) {
    if !initialized(m) {
        (ERR_NOT_INITIALIZED, m)
    } else if !has_role(m, uri_setter_role(), sender) {
        (ERR_MISSING_ROLE, m)
    } else if p.len() < 20 {
        (ERR_INVALID_PARAMS, m)
    } else if p.len() < 20 + u32_param(p, 16) {
        (ERR_INVALID_PARAMS, m)
    } else {
        (0, m.insert(uri_key(u128_param(p, 0)), p.subrange(20, 20 + u32_param(p, 16))))
    }
}

pub fn op_set_uri(st: &mut Storage, sender: &[u8; 32], params: &[u8]) -> (r: u64)
    ensures
        (r, final(st)@) == set_uri_outcome(old(st)@, sender@, params@),
{
    if !is_initialized(st) {
        return ERR_NOT_INITIALIZED;
    }
    let setter = uri_setter_role_bytes();
    if !has_role_exec(st, &setter, sender) {
        return ERR_MISSING_ROLE;
    }
    if params.len() < 16 + 4 {
        return ERR_INVALID_PARAMS;
    }
    let token_id = match parse_u128(params, 0) {
        Ok(id) => id,
        Err(e) => return e,
    };
    let uri_len = match parse_u32(params, 16) {
        Ok(len) => len,
        Err(e) => return e,
    };
    if (params.len() as u64) < 20 + (uri_len as u64) {
        return ERR_INVALID_PARAMS;
    }
    let uri = copy_range(params, 20, uri_len as usize);
    set_token_uri(st, token_id, uri.as_slice());
    0
}

/// Writes a query's answer under `return_data`.
pub fn write_return_data(st: &mut Storage, data: &[u8])
    ensures
        final(st)@ == old(st)@.insert(key_return_data(), data@),
{
    let k = key_return_data_vec();
    st.write(k.as_slice(), data);
}

/// Outcome of `BALANCE_OF`: `[owner:32][token_id:16]`; the balance is
/// returned in 16 little-endian bytes.
pub open spec fn balance_of_outcome(m: StorageMap, p: Seq<u8>) -> (u64, StorageMap) {
    if !initialized(m) {
        (ERR_NOT_INITIALIZED, m)
    } else if p.len() < 48 {
        (ERR_INVALID_PARAMS, m)
    } else {
        (
            0,
            m.insert(
                key_return_data(),
                le_bytes(balance(m, addr_param(p, 0), u128_param(p, 32)) as nat, 16),
            ),
        )
    }
}

pub fn op_balance_of(st: &mut Storage, params: &[u8]) -> (r: u64)
    ensures
        (r, final(st)@) == balance_of_outcome(old(st)@, params@),
{
    if !is_initialized(st) {
        return ERR_NOT_INITIALIZED;
    }
    if params.len() < 32 + 16 {
        return ERR_INVALID_PARAMS;
    }
    let owner = match parse_address(params, 0) {
        Ok(addr) => addr,
        Err(e) => return e,
    };
    let token_id = match parse_u128(params, 32) {
        Ok(id) => id,
        Err(e) => return e,
    };
    let balance = get_balance(st, &owner, token_id);
    let bytes = u128_le(balance);
    write_return_data(st, bytes.as_slice());
    0
}

/// The balances of the first `k` `[owner:32][token_id:16]` entries (from
/// byte 4), each in 16 little-endian bytes.
pub open spec fn batch_balances(m: StorageMap, p: Seq<u8>, k: nat) -> Seq<u8>
    decreases k,
{
    if k == 0 {
        Seq::empty()
    } else {
        let off = (4 + 48 * (k - 1)) as int;
        batch_balances(m, p, (k - 1) as nat) + le_bytes(
            balance(m, addr_param(p, off), u128_param(p, off + 32)) as nat,
            16,
        )
    }
}

/// Outcome of `BALANCE_OF_BATCH`: `[count:4]` then `count` entries.
pub open spec fn balance_of_batch_outcome(m: StorageMap, p: Seq<u8>) -> (u64, StorageMap) {
    if !initialized(m) {
        (ERR_NOT_INITIALIZED, m)
    } else if p.len() < 4 {
        (ERR_INVALID_PARAMS, m)
    } else if p.len() < 4 + u32_param(p, 0) * 48 {
        (ERR_INVALID_PARAMS, m)
    } else {
        (0, m.insert(key_return_data(), batch_balances(m, p, u32_param(p, 0) as nat)))
    }
}

pub fn op_balance_of_batch(st: &mut Storage, params: &[u8]) -> (r: u64)
    ensures
        (r, final(st)@) == balance_of_batch_outcome(old(st)@, params@),
{
    if !is_initialized(st) {
        return ERR_NOT_INITIALIZED;
    }
    if params.len() < 4 {
        return ERR_INVALID_PARAMS;
    }
    let count = match parse_u32(params, 0) {
        Ok(c) => c,
        Err(e) => return e,
    };
    if (params.len() as u64) < 4 + (count as u64) * 48 {
        return ERR_INVALID_PARAMS;
    }
    let plen = params.len();
    let mut result: Vec<u8> = Vec::new();
    let mut offset: usize = 4;
    let mut i: u32 = 0;
    while i < count
        invariant
            i <= count,
            offset == 4 + 48 * i,
            plen == params@.len(),
            params@.len() >= 4 + count * 48,
            result@ == batch_balances(st@, params@, i as nat),
        decreases count - i,
    {
        let owner = match parse_address(params, offset) {
            Ok(addr) => addr,
            Err(e) => return e,
        };
        let token_id = match parse_u128(params, offset + 32) {
            Ok(id) => id,
            Err(e) => return e,
        };
        let balance = get_balance(st, &owner, token_id);
        let b = u128_le(balance);
        append_bytes(&mut result, b.as_slice());
        offset = offset + 48;
        i = i + 1;
    }
    write_return_data(st, result.as_slice());
    0
}

/// The one-byte answer of a yes/no query.
pub open spec fn flag_byte(b: bool) -> Seq<u8> {
    if b {
        seq![1u8]
    } else {
        seq![0u8]
    }
}

fn flag_vec(b: bool) -> (r: Vec<u8>)
    ensures
        r@ == flag_byte(b),
{
    let v = if b {
        vec![1u8]
    } else {
        vec![0u8]
    };
    assert(v@ =~= flag_byte(b));
    v
}

/// Outcome of `IS_APPROVED_FOR_ALL`: `[owner:32][operator:32]`.
pub open spec fn is_approved_outcome(m: StorageMap, p: Seq<u8>) -> (u64, StorageMap) {
    if !initialized(m) {
        (ERR_NOT_INITIALIZED, m)
    } else if p.len() < 64 {
        (ERR_INVALID_PARAMS, m)
    } else {
        (
            0,
            m.insert(
                key_return_data(),
                flag_byte(operator_approved(m, addr_param(p, 0), addr_param(p, 32))),
            ),
        )
    }
}

pub fn op_is_approved_for_all(st: &mut Storage, params: &[u8]) -> (r: u64)
    ensures
        (r, final(st)@) == is_approved_outcome(old(st)@, params@),
{
    if !is_initialized(st) {
        return ERR_NOT_INITIALIZED;
    }
    if params.len() < 32 + 32 {
        return ERR_INVALID_PARAMS;
    }
    let owner = match parse_address(params, 0) {
        Ok(addr) => addr,
        Err(e) => return e,
    };
    let operator = match parse_address(params, 32) {
        Ok(addr) => addr,
        Err(e) => return e,
    };
    let approved = get_operator_approval(st, &owner, &operator);
    let v = flag_vec(approved);
    write_return_data(st, v.as_slice());
    0
}

/// The URI of a token: its own, else the base URI, else empty.
pub open spec fn uri_of(m: StorageMap, token_id: u128) -> Seq<u8> {
    match token_uri(m, token_id) {
        Some(u) => u,
        None => match base_uri(m) {
            Some(b) => b,
            None => Seq::empty(),
        },
    }
}

/// Outcome of `URI`: `[token_id:16]`.
pub open spec fn uri_outcome(m: StorageMap, p: Seq<u8>) -> (u64, StorageMap) {
    if !initialized(m) {
        (ERR_NOT_INITIALIZED, m)
    } else if p.len() < 16 {
        (ERR_INVALID_PARAMS, m)
    } else {
        (0, m.insert(key_return_data(), uri_of(m, u128_param(p, 0))))
    }
}

pub fn op_uri(st: &mut Storage, params: &[u8]) -> (r: u64)
    ensures
        (r, final(st)@) == uri_outcome(old(st)@, params@),
{
    if !is_initialized(st) {
        return ERR_NOT_INITIALIZED;
    }
    if params.len() < 16 {
        return ERR_INVALID_PARAMS;
    }
    let token_id = match parse_u128(params, 0) {
        Ok(id) => id,
        Err(e) => return e,
    };
    if let Some(uri) = get_token_uri(st, token_id) {
        write_return_data(st, uri.as_slice());
        return 0;
    }
    if let Some(base) = get_base_uri(st) {
        write_return_data(st, base.as_slice());
        return 0;
    }
    let empty: Vec<u8> = Vec::new();
    write_return_data(st, empty.as_slice());
    0
}

/// Outcome of `TOTAL_MINTED`: `[token_id:16]`.
pub open spec fn total_minted_outcome(m: StorageMap, p: Seq<u8>) -> (u64, StorageMap) {
    if !initialized(m) {
        (ERR_NOT_INITIALIZED, m)
    } else if p.len() < 16 {
        (ERR_INVALID_PARAMS, m)
    } else {
        (0, m.insert(key_return_data(), le_bytes(total_minted(m, u128_param(p, 0)) as nat, 16)))
    }
}

pub fn op_total_minted(st: &mut Storage, params: &[u8]) -> (r: u64)
    ensures
        (r, final(st)@) == total_minted_outcome(old(st)@, params@),
{
    if !is_initialized(st) {
        return ERR_NOT_INITIALIZED;
    }
    if params.len() < 16 {
        return ERR_INVALID_PARAMS;
    }
    let token_id = match parse_u128(params, 0) {
        Ok(id) => id,
        Err(e) => return e,
    };
    let total = get_total_minted(st, token_id);
    let b = u128_le(total);
    write_return_data(st, b.as_slice());
    0
}

/// Outcome of `TOTAL_BURNED`: `[token_id:16]`.
pub open spec fn total_burned_outcome(m: StorageMap, p: Seq<u8>) -> (u64, StorageMap) {
    if !initialized(m) {
        (ERR_NOT_INITIALIZED, m)
    } else if p.len() < 16 {
        (ERR_INVALID_PARAMS, m)
    } else {
        (0, m.insert(key_return_data(), le_bytes(total_burned(m, u128_param(p, 0)) as nat, 16)))
    }
}

pub fn op_total_burned(st: &mut Storage, params: &[u8]) -> (r: u64)
    ensures
        (r, final(st)@) == total_burned_outcome(old(st)@, params@),
{
    if !is_initialized(st) {
        return ERR_NOT_INITIALIZED;
    }
    if params.len() < 16 {
        return ERR_INVALID_PARAMS;
    }
    let token_id = match parse_u128(params, 0) {
        Ok(id) => id,
        Err(e) => return e,
    };
    let total = get_total_burned(st, token_id);
    let b = u128_le(total);
    write_return_data(st, b.as_slice());
    0
}

/// Outcome of `GRANT_ROLE` (`grant == true`) and `REVOKE_ROLE`:
/// `[role:32][account:32]`; the sender must hold the role's admin role.
pub open spec fn set_role_outcome(m: StorageMap, sender: Seq<u8>, p: Seq<u8>, grant: bool) -> (
    u64,
    StorageMap,
) {
    if !initialized(m) {
        (ERR_NOT_INITIALIZED, m)
    } else if p.len() < 64 {
        (ERR_INVALID_PARAMS, m)
    } else if !has_role(m, role_admin(m, addr_param(p, 0)), sender) {
        (ERR_MISSING_ROLE, m)
    } else {
        (0, m.insert(role_key(addr_param(p, 0), addr_param(p, 32)), bool_bytes(grant)))
    }
}

pub fn op_grant_role(st: &mut Storage, sender: &[u8; 32], params: &[u8]) -> (r: u64)
    ensures
        (r, final(st)@) == set_role_outcome(old(st)@, sender@, params@, true),
{
    if !is_initialized(st) {
        return ERR_NOT_INITIALIZED;
    }
    if params.len() < 32 + 32 {
        return ERR_INVALID_PARAMS;
    }
    let role = match parse_address(params, 0) {
        Ok(r) => r,
        Err(e) => return e,
    };
    let account = match parse_address(params, 32) {
        Ok(a) => a,
        Err(e) => return e,
    };
    let admin_role = get_role_admin(st, &role);
    if !has_role_exec(st, &admin_role, sender) {
        return ERR_MISSING_ROLE;
    }
    grant_role_internal(st, &role, &account);
    0
}

pub fn op_revoke_role(st: &mut Storage, sender: &[u8; 32], params: &[u8]) -> (r: u64)
    ensures
        (r, final(st)@) == set_role_outcome(old(st)@, sender@, params@, false),
{
    if !is_initialized(st) {
        return ERR_NOT_INITIALIZED;
    }
    if params.len() < 32 + 32 {
        return ERR_INVALID_PARAMS;
    }
    let role = match parse_address(params, 0) {
        Ok(r) => r,
        Err(e) => return e,
    };
    let account = match parse_address(params, 32) {
        Ok(a) => a,
        Err(e) => return e,
    };
    let admin_role = get_role_admin(st, &role);
    if !has_role_exec(st, &admin_role, sender) {
        return ERR_MISSING_ROLE;
    }
    revoke_role_internal(st, &role, &account);
    0
}

/// Outcome of `RENOUNCE_ROLE`: `[role:32]`; the sender gives up the role.
pub open spec fn renounce_outcome(m: StorageMap, sender: Seq<u8>, p: Seq<u8>) -> (u64, StorageMap) {
    if !initialized(m) {
        (ERR_NOT_INITIALIZED, m)
    } else if p.len() < 32 {
        (ERR_INVALID_PARAMS, m)
    } else {
        (0, m.insert(role_key(addr_param(p, 0), sender), bool_bytes(false)))
    }
}

pub fn op_renounce_role(st: &mut Storage, sender: &[u8; 32], params: &[u8]) -> (r: u64)
    ensures
        (r, final(st)@) == renounce_outcome(old(st)@, sender@, params@),
{
    if !is_initialized(st) {
        return ERR_NOT_INITIALIZED;
    }
    if params.len() < 32 {
        return ERR_INVALID_PARAMS;
    }
    let role = match parse_address(params, 0) {
        Ok(r) => r,
        Err(e) => return e,
    };
    revoke_role_internal(st, &role, sender);
    0
}

/// Outcome of `HAS_ROLE`: `[role:32][account:32]`.
pub open spec fn has_role_outcome(m: StorageMap, p: Seq<u8>) -> (u64, StorageMap) {
    if !initialized(m) {
        (ERR_NOT_INITIALIZED, m)
    } else if p.len() < 64 {
        (ERR_INVALID_PARAMS, m)
    } else {
        (
            0,
            m.insert(
                key_return_data(),
                flag_byte(has_role(m, addr_param(p, 0), addr_param(p, 32))),
            ),
        )
    }
}

pub fn op_has_role(st: &mut Storage, params: &[u8]) -> (r: u64)
    ensures
        (r, final(st)@) == has_role_outcome(old(st)@, params@),
{
    if !is_initialized(st) {
        return ERR_NOT_INITIALIZED;
    }
    if params.len() < 32 + 32 {
        return ERR_INVALID_PARAMS;
    }
    let role = match parse_address(params, 0) {
        Ok(r) => r,
        Err(e) => return e,
    };
    let account = match parse_address(params, 32) {
        Ok(a) => a,
        Err(e) => return e,
    };
    let has = has_role_exec(st, &role, &account);
    let v = flag_vec(has);
    write_return_data(st, v.as_slice());
    0
}

/// Outcome of `GET_ROLE_ADMIN`: `[role:32]`.
pub open spec fn get_role_admin_outcome(m: StorageMap, p: Seq<u8>) -> (u64, StorageMap) {
    if !initialized(m) {
        (ERR_NOT_INITIALIZED, m)
    } else if p.len() < 32 {
        (ERR_INVALID_PARAMS, m)
    } else {
        (0, m.insert(key_return_data(), role_admin(m, addr_param(p, 0))))
    }
}

pub fn op_get_role_admin(st: &mut Storage, params: &[u8]) -> (r: u64)
    ensures
        (r, final(st)@) == get_role_admin_outcome(old(st)@, params@),
{
    if !is_initialized(st) {
        return ERR_NOT_INITIALIZED;
    }
    if params.len() < 32 {
        return ERR_INVALID_PARAMS;
    }
    let role = match parse_address(params, 0) {
        Ok(r) => r,
        Err(e) => return e,
    };
    let admin = get_role_admin(st, &role);
    write_return_data(st, admin.as_slice());
    0
}

/// Outcome of `SET_ROLE_ADMIN`: `[role:32][admin_role:32]`; the sender must
/// hold the role's current admin role.
pub open spec fn set_role_admin_outcome(m: StorageMap, sender: Seq<u8>, p: Seq<u8>) -> (
    u64,
    StorageMap,
) {
    if !initialized(m) {
        (ERR_NOT_INITIALIZED, m)
    } else if p.len() < 64 {
        (ERR_INVALID_PARAMS, m)
    } else if !has_role(m, role_admin(m, addr_param(p, 0)), sender) {
        (ERR_MISSING_ROLE, m)
    } else {
        (0, m.insert(role_admin_key(addr_param(p, 0)), addr_param(p, 32)))
    }
}

pub fn op_set_role_admin(st: &mut Storage, sender: &[u8; 32], params: &[u8]) -> (r: u64)
    ensures
        (r, final(st)@) == set_role_admin_outcome(old(st)@, sender@, params@),
{
    if !is_initialized(st) {
        return ERR_NOT_INITIALIZED;
    }
    if params.len() < 32 + 32 {
        return ERR_INVALID_PARAMS;
    }
    let role = match parse_address(params, 0) {
        Ok(r) => r,
        Err(e) => return e,
    };
    let admin_role = match parse_address(params, 32) {
        Ok(a) => a,
        Err(e) => return e,
    };
    let current_admin = get_role_admin(st, &role);
    if !has_role_exec(st, &current_admin, sender) {
        return ERR_MISSING_ROLE;
    }
    set_role_admin_internal(st, &role, &admin_role);
    0
}

/// The base URI length of `INITIALIZE` (0 when fewer than 4 bytes are given).
pub open spec fn init_uri_len(p: Seq<u8>) -> nat {
    if p.len() >= 4 {
        u32_param(p, 0) as nat
    } else {
        0
    }
}

/// What `INITIALIZE` writes after the optional base URI: the deployer holds
/// the admin role, which administers the minter, burner and URI setter
/// roles; the deployer owns the contract; the guard is released.
pub open spec fn init_writes(m: StorageMap, sender: Seq<u8>) -> StorageMap {
    put_status(
        m.insert(role_key(default_admin_role(), sender), bool_bytes(true)).insert(
            role_admin_key(minter_role()),
            default_admin_role(),
        ).insert(role_admin_key(burner_role()), default_admin_role()).insert(
            role_admin_key(uri_setter_role()),
            default_admin_role(),
        ).insert(key_owner(), sender).insert(key_initialized(), bool_bytes(true)),
        NOT_ENTERED,
    )
}

/// Outcome of `INITIALIZE`: `[uri_len:4][base_uri]`.
pub open spec fn initialize_outcome(m: StorageMap, sender: Seq<u8>, p: Seq<u8>) -> (
    u64,
    StorageMap,
) {
    if initialized(m) {
        (ERR_ALREADY_INITIALIZED, m)
    } else if p.len() < 4 + init_uri_len(p) {
        (ERR_INVALID_PARAMS, m)
    } else if init_uri_len(p) > 0 {
        (0, init_writes(m.insert(key_base_uri(), p.subrange(4, (4 + init_uri_len(p)) as int)), sender))
    } else {
        (0, init_writes(m, sender))
    }
}

pub fn op_initialize(st: &mut Storage, sender: &[u8; 32], params: &[u8]) -> (r: u64)
    ensures
        (r, final(st)@) == initialize_outcome(old(st)@, sender@, params@),
{
    if is_initialized(st) {
        return ERR_ALREADY_INITIALIZED;
    }
    let uri_len: u32 = if params.len() >= 4 {
        match parse_u32(params, 0) {
            Ok(len) => len,
            Err(e) => return e,
        }
    } else {
        0
    };
    if (params.len() as u64) < 4 + (uri_len as u64) {
        return ERR_INVALID_PARAMS;
    }
    if uri_len > 0 {
        let uri = copy_range(params, 4, uri_len as usize);
        set_base_uri(st, uri.as_slice());
    }
    let admin = default_admin_role_bytes();
    grant_role_internal(st, &admin, sender);
    let minter = minter_role_bytes();
    let burner = burner_role_bytes();
    let setter = uri_setter_role_bytes();
    set_role_admin_internal(st, &minter, &admin);
    set_role_admin_internal(st, &burner, &admin);
    set_role_admin_internal(st, &setter, &admin);
    set_owner(st, sender);
    set_initialized(st);
    set_reentrancy_status(st, NOT_ENTERED);
    0
}

/// Outcome of a whole instruction `[opcode:1][params]`.
pub open spec fn instruction_outcome(m: StorageMap, sender: Seq<u8>, data: Seq<u8>) -> (
    u64,
    StorageMap,
) {
    if data.len() == 0 {
        (ERR_INVALID_INSTRUCTION, m)
    } else {
        let p = data.subrange(1, data.len() as int);
        let op = data[0];
        if op == OP_INITIALIZE {
            initialize_outcome(m, sender, p)
        } else if op == OP_MINT {
            mint_outcome(m, sender, p)
        } else if op == OP_MINT_BATCH {
            mint_batch_outcome(m, sender, p)
        } else if op == OP_BURN {
            burn_outcome(m, sender, p)
        } else if op == OP_BURN_BATCH {
            burn_batch_outcome(m, sender, p)
        } else if op == OP_SAFE_TRANSFER_FROM {
            safe_transfer_outcome(m, sender, p)
        } else if op == OP_SAFE_BATCH_TRANSFER_FROM {
            safe_batch_transfer_outcome(m, sender, p)
        } else if op == OP_SET_APPROVAL_FOR_ALL {
            set_approval_outcome(m, sender, p)
        } else if op == OP_SET_URI {
            set_uri_outcome(m, sender, p)
        } else if op == OP_BALANCE_OF {
            balance_of_outcome(m, p)
        } else if op == OP_BALANCE_OF_BATCH {
            balance_of_batch_outcome(m, p)
        } else if op == OP_IS_APPROVED_FOR_ALL {
            is_approved_outcome(m, p)
        } else if op == OP_URI {
            uri_outcome(m, p)
        } else if op == OP_TOTAL_MINTED {
            total_minted_outcome(m, p)
        } else if op == OP_TOTAL_BURNED {
            total_burned_outcome(m, p)
        } else if op == OP_GRANT_ROLE {
            set_role_outcome(m, sender, p, true)
        } else if op == OP_REVOKE_ROLE {
            set_role_outcome(m, sender, p, false)
        } else if op == OP_RENOUNCE_ROLE {
            renounce_outcome(m, sender, p)
        } else if op == OP_HAS_ROLE {
            has_role_outcome(m, p)
        } else if op == OP_GET_ROLE_ADMIN {
            get_role_admin_outcome(m, p)
        } else if op == OP_SET_ROLE_ADMIN {
            set_role_admin_outcome(m, sender, p)
        } else {
            (ERR_INVALID_INSTRUCTION, m)
        }
    }
}

/// Runs one instruction sent by `sender` against the contract storage and
/// returns its status code.
pub fn entrypoint(st: &mut Storage, sender: &[u8; 32], instruction_data: &[u8]) -> (r: u64)
    ensures
        (r, final(st)@) == instruction_outcome(old(st)@, sender@, instruction_data@),
{
    if instruction_data.len() == 0 {
        return ERR_INVALID_INSTRUCTION;
    }
    let opcode = instruction_data[0];
    let params = copy_range(instruction_data, 1, instruction_data.len() - 1);
    let p = params.as_slice();
    if opcode == OP_INITIALIZE {
        op_initialize(st, sender, p)
    } else if opcode == OP_MINT {
        op_mint(st, sender, p)
    } else if opcode == OP_MINT_BATCH {
        op_mint_batch(st, sender, p)
    } else if opcode == OP_BURN {
        op_burn(st, sender, p)
    } else if opcode == OP_BURN_BATCH {
        op_burn_batch(st, sender, p)
    } else if opcode == OP_SAFE_TRANSFER_FROM {
        op_safe_transfer_from(st, sender, p)
    } else if opcode == OP_SAFE_BATCH_TRANSFER_FROM {
        op_safe_batch_transfer_from(st, sender, p)
    } else if opcode == OP_SET_APPROVAL_FOR_ALL {
        op_set_approval_for_all(st, sender, p)
    } else if opcode == OP_SET_URI {
        op_set_uri(st, sender, p)
    } else if opcode == OP_BALANCE_OF {
        op_balance_of(st, p)
    } else if opcode == OP_BALANCE_OF_BATCH {
        op_balance_of_batch(st, p)
    } else if opcode == OP_IS_APPROVED_FOR_ALL {
        op_is_approved_for_all(st, p)
    } else if opcode == OP_URI {
        op_uri(st, p)
    } else if opcode == OP_TOTAL_MINTED {
        op_total_minted(st, p)
    } else if opcode == OP_TOTAL_BURNED {
        op_total_burned(st, p)
    } else if opcode == OP_GRANT_ROLE {
        op_grant_role(st, sender, p)
    } else if opcode == OP_REVOKE_ROLE {
        op_revoke_role(st, sender, p)
    } else if opcode == OP_RENOUNCE_ROLE {
        op_renounce_role(st, sender, p)
    } else if opcode == OP_HAS_ROLE {
        op_has_role(st, p)
    } else if opcode == OP_GET_ROLE_ADMIN {
        op_get_role_admin(st, p)
    } else if opcode == OP_SET_ROLE_ADMIN {
        op_set_role_admin(st, sender, p)
    } else {
        ERR_INVALID_INSTRUCTION
    }
}


// ---------------------------------------------------------------------------
// Laws
// ---------------------------------------------------------------------------

/// A successful mint credits exactly the receiver's balance of the token
/// and the token's minted total, by the minted amount; every other balance
/// stays as it was.
pub proof fn law_mint_credits(m: StorageMap, sender: Seq<u8>, p: Seq<u8>, owner: Seq<u8>, id: u128)
    requires
        mint_outcome(m, sender, p).0 == 0,
        owner.len() == 32,
    ensures
        ({
            let m2 = mint_outcome(m, sender, p).1;
            let to = addr_param(p, 0);
            let tid = u128_param(p, 32);
            let amount = u128_param(p, 48);
            &&& balance(m2, to, tid) == balance(m, to, tid) + amount
            &&& total_minted(m2, tid) == total_minted(m, tid) + amount
            &&& (owner != to || id != tid) ==> balance(m2, owner, id) == balance(m, owner, id)
        }),
{
    let to = addr_param(p, 0);
    let tid = u128_param(p, 32);
    let amount = u128_param(p, 48);
    let b = balance(m, to, tid);
    let t = total_minted(m, tid);
    lemma_key_lengths(to, owner, tid);
    lemma_key_lengths(owner, to, id);
    lemma_u128_cell_roundtrip((b + amount) as u128);
    lemma_u128_cell_roundtrip((t + amount) as u128);
    if balance_key(owner, id) == balance_key(to, tid) {
        lemma_balance_key_injective(owner, id, to, tid);
    }
}

/// A successful single transfer moves the amount from the sender's balance
/// to the receiver's (leaving a self-transfer's balance as it was), keeps
/// every other balance, and releases the reentrancy guard.
pub proof fn law_transfer_moves_balance(
    m: StorageMap,
    sender: Seq<u8>,
    p: Seq<u8>,
    owner: Seq<u8>,
    id: u128,
)
    requires
        safe_transfer_outcome(m, sender, p).0 == 0,
        owner.len() == 32,
    ensures
        ({
            let m2 = safe_transfer_outcome(m, sender, p).1;
            let from = addr_param(p, 0);
            let to = addr_param(p, 32);
            let tid = u128_param(p, 64);
            let amount = u128_param(p, 80);
            &&& from != to ==> balance(m2, from, tid) == balance(m, from, tid) - amount
            &&& from != to ==> balance(m2, to, tid) == balance(m, to, tid) + amount
            &&& from == to ==> balance(m2, from, tid) == balance(m, from, tid)
            &&& (owner != from || id != tid) && (owner != to || id != tid) ==> balance(m2, owner, id)
                == balance(m, owner, id)
            &&& reentrancy_status(m2) == NOT_ENTERED
        }),
{
    let from = addr_param(p, 0);
    let to = addr_param(p, 32);
    let tid = u128_param(p, 64);
    let amount = u128_param(p, 80);
    let m1 = put_status(m, ENTERED);
    lemma_key_lengths(from, to, tid);
    lemma_key_lengths(owner, to, id);
    let fb = balance(m1, from, tid);
    assert(fb == balance(m, from, tid));
    let ma = put_u128(m1, balance_key(from, tid), (fb - amount) as nat);
    lemma_u128_cell_roundtrip((fb - amount) as u128);
    let tb = balance(ma, to, tid);
    lemma_u128_cell_roundtrip((tb + amount) as u128);
    if from != to {
        if balance_key(from, tid) == balance_key(to, tid) {
            lemma_balance_key_injective(from, tid, to, tid);
        }
        assert(tb == balance(m, to, tid));
    }
    if balance_key(owner, id) == balance_key(from, tid) {
        lemma_balance_key_injective(owner, id, from, tid);
    }
    if balance_key(owner, id) == balance_key(to, tid) {
        lemma_balance_key_injective(owner, id, to, tid);
    }
}

/// Minting needs the minter role: a sender without it changes nothing.
pub proof fn law_mint_requires_minter(m: StorageMap, sender: Seq<u8>, p: Seq<u8>)
    requires
        initialized(m),
        !has_role(m, minter_role(), sender),
    ensures
        mint_outcome(m, sender, p) == (ERR_MISSING_ROLE, m),
        mint_batch_outcome(m, sender, p) == (ERR_MISSING_ROLE, m),
{
}

/// Burning needs the burner role: a sender without it changes nothing.
pub proof fn law_burn_requires_burner(m: StorageMap, sender: Seq<u8>, p: Seq<u8>)
    requires
        initialized(m),
        !has_role(m, burner_role(), sender),
    ensures
        burn_outcome(m, sender, p) == (ERR_MISSING_ROLE, m),
        burn_batch_outcome(m, sender, p) == (ERR_MISSING_ROLE, m),
{
}

/// A granted role is held afterwards; a revoked or renounced one is not.
pub proof fn law_grant_revoke(m: StorageMap, sender: Seq<u8>, p: Seq<u8>)
    requires
        p.len() >= 64,
    ensures
        set_role_outcome(m, sender, p, true).0 == 0 ==> has_role(
            set_role_outcome(m, sender, p, true).1,
            addr_param(p, 0),
            addr_param(p, 32),
        ),
        set_role_outcome(m, sender, p, false).0 == 0 ==> !has_role(
            set_role_outcome(m, sender, p, false).1,
            addr_param(p, 0),
            addr_param(p, 32),
        ),
        renounce_outcome(m, sender, p).0 == 0 ==> !has_role(
            renounce_outcome(m, sender, p).1,
            addr_param(p, 0),
            sender,
        ),
{
}

/// Batch transfers never touch the reentrancy guard.
proof fn lemma_move_items_keep_status(
    m: StorageMap,
    from: Seq<u8>,
    to: Seq<u8>,
    p: Seq<u8>,
    i: nat,
    count: nat,
)
    requires
        from.len() == 32,
        to.len() == 32,
    ensures
        move_items(m, from, to, p, i, count).1.get(key_reentrancy_status()) == m.get(
            key_reentrancy_status(),
        ),
        move_items(m, from, to, p, i, count).0 != ERR_REENTRANT_CALL,
    decreases count - i,
{
    if i < count {
        let off = (68 + 32 * i) as int;
        lemma_key_lengths(from, to, u128_param(p, off));
        let r = move_tokens(m, from, to, u128_param(p, off), u128_param(p, off + 16));
        if r.0 == 0 {
            lemma_move_items_keep_status(r.1, from, to, p, i + 1, count);
        }
    }
}

/// The guard of the transfers is always released: from an initialized,
/// unguarded state, a transfer or batch transfer ends unguarded whether it
/// succeeds or fails.
pub proof fn law_guard_released(m: StorageMap, sender: Seq<u8>, p: Seq<u8>)
    requires
        initialized(m),
        !entered(m),
    ensures
        reentrancy_status(safe_transfer_outcome(m, sender, p).1) == NOT_ENTERED,
        reentrancy_status(safe_batch_transfer_outcome(m, sender, p).1) == NOT_ENTERED,
        safe_transfer_outcome(m, sender, p).0 != ERR_REENTRANT_CALL,
        safe_batch_transfer_outcome(m, sender, p).0 != ERR_REENTRANT_CALL,
{
    let m1 = put_status(m, ENTERED);
    if p.len() >= 96 {
        lemma_key_lengths(addr_param(p, 0), addr_param(p, 32), u128_param(p, 64));
    }
    if p.len() >= 68 {
        lemma_move_items_keep_status(
            m1,
            addr_param(p, 0),
            addr_param(p, 32),
            p,
            0,
            u32_param(p, 64) as nat,
        );
    }
}

/// A successful burn lowers the holder's balance of the token by the
/// amount, counts the amount as burned, and keeps every other balance.
pub proof fn law_burn_debits(m: StorageMap, sender: Seq<u8>, p: Seq<u8>, owner: Seq<u8>, id: u128)
    requires
        burn_outcome(m, sender, p).0 == 0,
        owner.len() == 32,
    ensures
        ({
            let m2 = burn_outcome(m, sender, p).1;
            let from = addr_param(p, 0);
            let tid = u128_param(p, 32);
            let amount = u128_param(p, 48);
            &&& balance(m2, from, tid) == balance(m, from, tid) - amount
            &&& total_burned(m2, tid) == total_burned(m, tid) + amount
            &&& (owner != from || id != tid) ==> balance(m2, owner, id) == balance(m, owner, id)
        }),
{
    let from = addr_param(p, 0);
    let tid = u128_param(p, 32);
    let amount = u128_param(p, 48);
    let b = balance(m, from, tid);
    let t = total_burned(m, tid);
    lemma_key_lengths(from, owner, tid);
    lemma_key_lengths(owner, from, id);
    lemma_u128_cell_roundtrip((b - amount) as u128);
    lemma_u128_cell_roundtrip((t + amount) as u128);
    if balance_key(owner, id) == balance_key(from, tid) {
        lemma_balance_key_injective(owner, id, from, tid);
    }
}

} // verus!

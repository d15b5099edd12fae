//! Storage layout shared by the two stablecoin contracts: metadata keys,
//! balances, allowances, the blacklist and the pause flag, each read back
//! through a 256-byte buffer.

use vstd::prelude::*;
use crate::bytes::{le_bytes, le_nat, append_bytes, read_u64_at, u64_le, lemma_le_bytes_len};
use crate::cells::{bytes_cell, read_bytes};
use crate::storage::Storage;

verus! {

pub type StorageMap = Map<Seq<u8>, Seq<u8>>;

/// `name`
pub open spec fn key_name() -> Seq<u8> {
    seq![110u8, 97, 109, 101]
}

/// `symbol`
pub open spec fn key_symbol() -> Seq<u8> {
    seq![115u8, 121, 109, 98, 111, 108]
}

/// `decimals`
pub open spec fn key_decimals() -> Seq<u8> {
    seq![100u8, 101, 99, 105, 109, 97, 108, 115]
}

/// `total_supply`
pub open spec fn key_total_supply() -> Seq<u8> {
    seq![116u8, 111, 116, 97, 108, 95, 115, 117, 112, 112, 108, 121]
}

/// `owner`
pub open spec fn key_owner() -> Seq<u8> {
    seq![111u8, 119, 110, 101, 114]
}

/// `paused`
pub open spec fn key_paused() -> Seq<u8> {
    seq![112u8, 97, 117, 115, 101, 100]
}

/// `balance_{account}`
pub open spec fn balance_key(account: Seq<u8>) -> Seq<u8> {
    seq![98u8, 97, 108, 97, 110, 99, 101, 95] + account
}

/// `allowance{owner}{spender}`
pub open spec fn allowance_key(owner: Seq<u8>, spender: Seq<u8>) -> Seq<u8> {
    seq![97u8, 108, 108, 111, 119, 97, 110, 99, 101] + owner + spender
}

/// `blacklist_{account}`
pub open spec fn blacklist_key(account: Seq<u8>) -> Seq<u8> {
    seq![98u8, 108, 97, 99, 107, 108, 105, 115, 116, 95] + account
}

pub fn key_name_vec() -> (r: Vec<u8>)
    ensures
        r@ == key_name(),
{
    let v = vec![110u8, 97, 109, 101];
    assert(v@ =~= key_name());
    v
}

pub fn key_symbol_vec() -> (r: Vec<u8>)
    ensures
        r@ == key_symbol(),
{
    let v = vec![115u8, 121, 109, 98, 111, 108];
    assert(v@ =~= key_symbol());
    v
}

pub fn key_decimals_vec() -> (r: Vec<u8>)
    ensures
        r@ == key_decimals(),
{
    let v = vec![100u8, 101, 99, 105, 109, 97, 108, 115];
    assert(v@ =~= key_decimals());
    v
}

pub fn key_total_supply_vec() -> (r: Vec<u8>)
    ensures
        r@ == key_total_supply(),
{
    let v = vec![116u8, 111, 116, 97, 108, 95, 115, 117, 112, 112, 108, 121];
    assert(v@ =~= key_total_supply());
    v
}

pub fn key_owner_vec() -> (r: Vec<u8>)
    ensures
        r@ == key_owner(),
{
    let v = vec![111u8, 119, 110, 101, 114];
    assert(v@ =~= key_owner());
    v
}

pub fn key_paused_vec() -> (r: Vec<u8>)
    ensures
        r@ == key_paused(),
{
    let v = vec![112u8, 97, 117, 115, 101, 100];
    assert(v@ =~= key_paused());
    v
}

pub fn balance_key_vec(account: &[u8; 32]) -> (r: Vec<u8>)
    ensures
        r@ == balance_key(account@),
{
    let mut v = vec![98u8, 97, 108, 97, 110, 99, 101, 95];
    append_bytes(&mut v, account.as_slice());
    assert(v@ =~= balance_key(account@));
    v
}

pub fn allowance_key_vec(owner: &[u8; 32], spender: &[u8; 32]) -> (r: Vec<u8>)
    ensures
        r@ == allowance_key(owner@, spender@),
{
    let mut v = vec![97u8, 108, 108, 111, 119, 97, 110, 99, 101];
    append_bytes(&mut v, owner.as_slice());
    append_bytes(&mut v, spender.as_slice());
    assert(v@ =~= allowance_key(owner@, spender@));
    v
}

pub fn blacklist_key_vec(account: &[u8; 32]) -> (r: Vec<u8>)
    ensures
        r@ == blacklist_key(account@),
{
    let mut v = vec![98u8, 108, 97, 99, 107, 108, 105, 115, 116, 95];
    append_bytes(&mut v, account.as_slice());
    assert(v@ =~= blacklist_key(account@));
    v
}

/// What a read of `k` through a 256-byte buffer gives: the copied bytes,
/// or nothing when no byte was copied.
pub open spec fn stored(m: StorageMap, k: Seq<u8>) -> Option<Seq<u8>> {
    bytes_cell(m.get(k), 256)
}

/// A stored flag: set when its first byte is 1.
pub open spec fn flag(m: StorageMap, k: Seq<u8>) -> bool {
    match stored(m, k) {
        Some(b) => b[0] == 1,
        None => false,
    }
}

/// A stored `u64`: the little-endian value of the first 8 bytes, 0 when
/// fewer are stored.
pub open spec fn amount(m: StorageMap, k: Seq<u8>) -> u64 {
    match stored(m, k) {
        Some(b) => if b.len() >= 8 {
            le_nat(b.take(8)) as u64
        } else {
            0
        },
        None => 0,
    }
}

pub open spec fn balance(m: StorageMap, account: Seq<u8>) -> u64 {
    amount(m, balance_key(account))
}

pub open spec fn allowance(m: StorageMap, owner: Seq<u8>, spender: Seq<u8>) -> u64 {
    amount(m, allowance_key(owner, spender))
}

pub open spec fn blacklisted(m: StorageMap, account: Seq<u8>) -> bool {
    flag(m, blacklist_key(account))
}

pub open spec fn paused(m: StorageMap) -> bool {
    flag(m, key_paused())
}

/// The storage after writing a `u64`.
pub open spec fn put_amount(m: StorageMap, k: Seq<u8>, v: u64) -> StorageMap {
    m.insert(k, le_bytes(v as nat, 8))
}

/// Reads `key` through a 256-byte buffer (`Err(1)` when nothing is read).
pub fn get_storage(st: &Storage, key: &[u8]) -> (r: Result<Vec<u8>, u64>)
    ensures
        match r {
            Ok(v) => stored(st@, key@) == Some(v@),
            Err(e) => e == 1 && stored(st@, key@) is None,
        },
{
    match read_bytes(st, key, 256) {
        Some(v) => Ok(v),
        None => Err(1),
    }
}

pub fn set_storage(st: &mut Storage, key: &[u8], value: &[u8])
    ensures
        final(st)@ == old(st)@.insert(key@, value@),
{
    st.write(key, value);
}

/// Whether the flag under `key` is set.
pub fn read_flag(st: &Storage, key: &[u8]) -> (r: bool)
    ensures
        r == flag(st@, key@),
{
    match get_storage(st, key) {
        Ok(b) => b[0] == 1,
        Err(_) => false,
    }
}

/// The `u64` under `key`, 0 when fewer than 8 bytes are stored.
pub fn read_amount(st: &Storage, key: &[u8]) -> (r: u64)
    ensures
        r == amount(st@, key@),
{
    match get_storage(st, key) {
        Ok(b) => {
            if b.len() >= 8 {
                let v = read_u64_at(b.as_slice(), 0);
                assert(b@.subrange(0, 8) =~= b@.take(8));
                v
            } else {
                0
            }
        },
        Err(_) => 0,
    }
}

pub fn write_amount(st: &mut Storage, key: &[u8], value: u64)
    ensures
        final(st)@ == put_amount(old(st)@, key@, value),
{
    let b = u64_le(value);
    st.write(key, b.as_slice());
}

pub fn get_balance(st: &Storage, account: &[u8; 32]) -> (r: u64)
    ensures
        r == balance(st@, account@),
{
    let k = balance_key_vec(account);
    read_amount(st, k.as_slice())
}

pub fn set_balance(st: &mut Storage, account: &[u8; 32], value: u64)
    ensures
        final(st)@ == put_amount(old(st)@, balance_key(account@), value),
{
    let k = balance_key_vec(account);
    write_amount(st, k.as_slice(), value);
}

pub fn get_allowance(st: &Storage, owner: &[u8; 32], spender: &[u8; 32]) -> (r: u64)
    ensures
        r == allowance(st@, owner@, spender@),
{
    let k = allowance_key_vec(owner, spender);
    read_amount(st, k.as_slice())
}

pub fn set_allowance(st: &mut Storage, owner: &[u8; 32], spender: &[u8; 32], value: u64)
    ensures
        final(st)@ == put_amount(old(st)@, allowance_key(owner@, spender@), value),
{
    let k = allowance_key_vec(owner, spender);
    write_amount(st, k.as_slice(), value);
}

pub fn is_blacklisted(st: &Storage, account: &[u8; 32]) -> (r: bool)
    ensures
        r == blacklisted(st@, account@),
{
    let k = blacklist_key_vec(account);
    read_flag(st, k.as_slice())
}

pub fn is_paused(st: &Storage) -> (r: bool)
    ensures
        r == paused(st@),
{
    let k = key_paused_vec();
    read_flag(st, k.as_slice())
}

/// Key lengths, which tell the keys of different kinds apart.
pub proof fn lemma_key_lengths(a: Seq<u8>, b: Seq<u8>)
    requires
        a.len() == 32,
        b.len() == 32,
    ensures
        balance_key(a).len() == 40,
        allowance_key(a, b).len() == 73,
        blacklist_key(a).len() == 42,
        key_name().len() == 4,
        key_symbol().len() == 6,
        key_decimals().len() == 8,
        key_total_supply().len() == 12,
        key_owner().len() == 5,
        key_paused().len() == 6,
        key_paused()[0] != key_symbol()[0],
{
}

/// Balance keys of different accounts are different.
pub proof fn lemma_balance_key_injective(a: Seq<u8>, b: Seq<u8>)
    requires
        a.len() == 32,
        b.len() == 32,
        balance_key(a) == balance_key(b),
    ensures
        a == b,
{
    assert(balance_key(a).subrange(8, 40) =~= a);
    assert(balance_key(b).subrange(8, 40) =~= b);
}

/// A `u64` written reads back as itself.
pub proof fn lemma_amount_roundtrip(m: StorageMap, k: Seq<u8>, v: u64)
    ensures
        amount(put_amount(m, k, v), k) == v,
{
    lemma_le_bytes_len(v as nat, 8);
    crate::bytes::lemma_pow256_values();
    crate::bytes::lemma_le_roundtrip(v as nat, 8);
    assert(le_bytes(v as nat, 8).take(8) =~= le_bytes(v as nat, 8));
    assert(le_bytes(v as nat, 8).take(8 as int) =~= le_bytes(v as nat, 8));
}

} // verus!

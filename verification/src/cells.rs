//! Typed values in contract storage: how integers, flags, addresses and
//! byte strings are written and read back through a fixed-size buffer.

use vstd::prelude::*;
use crate::bytes::{le_bytes, le_nat, le_decode, u128_le, u64_le, lemma_le_nat_bound, lemma_pow256_values};
use crate::storage::{Storage, read_buffer, read_len};

verus! {

/// A `u128` read through a 16-byte buffer: present when at least 16 bytes
/// are stored, and then the little-endian value of the first 16.
pub open spec fn u128_cell(v: Option<Seq<u8>>) -> Option<u128> {
    match v {
        Some(s) => if s.len() >= 16 {
            Some(le_nat(s.take(16)) as u128)
        } else {
            None
        },
        None => None,
    }
}

/// A `u64` read through an 8-byte buffer.
pub open spec fn u64_cell(v: Option<Seq<u8>>) -> Option<u64> {
    match v {
        Some(s) => if s.len() >= 8 {
            Some(le_nat(s.take(8)) as u64)
        } else {
            None
        },
        None => None,
    }
}

/// A flag read through a 1-byte buffer: set when a non-zero first byte is
/// stored.
pub open spec fn bool_cell(v: Option<Seq<u8>>) -> bool {
    match v {
        Some(s) => s.len() > 0 && s[0] != 0,
        None => false,
    }
}

/// An address read through a 32-byte buffer: the first 32 bytes when at
/// least 32 are stored.
pub open spec fn address_cell(v: Option<Seq<u8>>) -> Option<Seq<u8>> {
    match v {
        Some(s) => if s.len() >= 32 {
            Some(s.take(32))
        } else {
            None
        },
        None => None,
    }
}

/// Bytes read through a buffer of `cap` bytes: the first `min(len, cap)`
/// stored bytes, when that is not zero.
pub open spec fn bytes_cell(v: Option<Seq<u8>>, cap: nat) -> Option<Seq<u8>> {
    if read_len(v, cap) > 0 {
        Some(v->0.take(read_len(v, cap) as int))
    } else {
        None
    }
}

/// The encoding a flag is stored with.
pub open spec fn bool_bytes(b: bool) -> Seq<u8> {
    if b {
        seq![1u8]
    } else {
        seq![0u8]
    }
}

pub fn read_u128(st: &Storage, key: &[u8]) -> (r: Option<u128>)
    ensures
        r == u128_cell(st@.get(key@)),
{
    let (buf, len) = st.read(key, 16);
    if len >= 16 {
        let v = le_decode(buf.as_slice(), 0, 16);
        proof {
            let s = st@.get(key@)->0;
            assert(buf@.subrange(0, 16) =~= s.take(16));
        }
        Some(v)
    } else {
        None
    }
}

pub fn write_u128(st: &mut Storage, key: &[u8], value: u128)
    ensures
        final(st)@ == old(st)@.insert(key@, le_bytes(value as nat, 16)),
{
    let b = u128_le(value);
    st.write(key, b.as_slice());
}

pub fn read_u64(st: &Storage, key: &[u8]) -> (r: Option<u64>)
    ensures
        r == u64_cell(st@.get(key@)),
{
    let (buf, len) = st.read(key, 8);
    if len >= 8 {
        let v = le_decode(buf.as_slice(), 0, 8);
        proof {
            let s = st@.get(key@)->0;
            assert(buf@.subrange(0, 8) =~= s.take(8));
            lemma_le_nat_bound(s.take(8));
            lemma_pow256_values();
        }
        Some(v as u64)
    } else {
        None
    }
}

pub fn write_u64(st: &mut Storage, key: &[u8], value: u64)
    ensures
        final(st)@ == old(st)@.insert(key@, le_bytes(value as nat, 8)),
{
    let b = u64_le(value);
    st.write(key, b.as_slice());
}

pub fn read_bool(st: &Storage, key: &[u8]) -> (r: bool)
    ensures
        r == bool_cell(st@.get(key@)),
{
    let (buf, len) = st.read(key, 1);
    len > 0 && buf[0] != 0
}

pub fn write_bool(st: &mut Storage, key: &[u8], value: bool)
    ensures
        final(st)@ == old(st)@.insert(key@, bool_bytes(value)),
{
    let v: Vec<u8> = if value {
        vec![1u8]
    } else {
        vec![0u8]
    };
    assert(v@ =~= bool_bytes(value));
    st.write(key, v.as_slice());
}

pub fn read_address(st: &Storage, key: &[u8]) -> (r: Option<[u8; 32]>)
    ensures
        match r {
            Some(a) => address_cell(st@.get(key@)) == Some(a@),
            None => address_cell(st@.get(key@)) is None,
        },
{
    let (buf, len) = st.read(key, 32);
    if len >= 32 {
        let a = crate::bytes::address_at(buf.as_slice(), 0);
        proof {
            let s = st@.get(key@)->0;
            assert(buf@.subrange(0, 32) =~= s.take(32));
        }
        Some(a)
    } else {
        None
    }
}

pub fn write_address(st: &mut Storage, key: &[u8], addr: &[u8; 32])
    ensures
        final(st)@ == old(st)@.insert(key@, addr@),
{
    st.write(key, addr.as_slice());
}

/// Bytes stored under `key`, read through a buffer of `cap` bytes.
pub fn read_bytes(st: &Storage, key: &[u8], cap: usize) -> (r: Option<Vec<u8>>)
    ensures
        match r {
            Some(v) => bytes_cell(st@.get(key@), cap as nat) == Some(v@),
            None => bytes_cell(st@.get(key@), cap as nat) is None,
        },
{
    let (buf, len) = st.read(key, cap);
    if len > 0 {
        let v = crate::bytes::copy_range(buf.as_slice(), 0, len);
        proof {
            let s = st@.get(key@)->0;
            assert(v@ =~= s.take(len as int));
        }
        Some(v)
    } else {
        None
    }
}

/// The whole buffer of `cap` bytes a read of `key` fills, when anything was
/// read.
pub fn read_buffer_filled(st: &Storage, key: &[u8], cap: usize) -> (r: Option<Vec<u8>>)
    ensures
        match r {
            Some(v) => read_len(st@.get(key@), cap as nat) > 0 && v@ == read_buffer(
                st@.get(key@),
                cap as nat,
            ),
            None => read_len(st@.get(key@), cap as nat) == 0,
        },
{
    let (buf, len) = st.read(key, cap);
    if len > 0 {
        Some(buf)
    } else {
        None
    }
}


/// A `u64` written in 8 bytes reads back.
pub proof fn lemma_u64_cell_roundtrip(x: u64)
    ensures
        u64_cell(Some(le_bytes(x as nat, 8))) == Some(x),
{
    crate::bytes::lemma_le_bytes_len(x as nat, 8);
    lemma_pow256_values();
    crate::bytes::lemma_le_roundtrip(x as nat, 8);
    assert(le_bytes(x as nat, 8).take(8) =~= le_bytes(x as nat, 8));
}

/// A `u128` written in 16 bytes reads back.
pub proof fn lemma_u128_cell_roundtrip(x: u128)
    ensures
        u128_cell(Some(le_bytes(x as nat, 16))) == Some(x),
{
    crate::bytes::lemma_le_bytes_len(x as nat, 16);
    crate::bytes::lemma_pow256_values();
    crate::bytes::lemma_le_roundtrip(x as nat, 16);
    assert(le_bytes(x as nat, 16).take(16) =~= le_bytes(x as nat, 16));
}

} // verus!

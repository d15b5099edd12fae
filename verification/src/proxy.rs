//! An upgradeable counter behind a proxy: the proxy keeps the state (the
//! counter, the owner, the implementation's address) and hands the
//! counter's logic to an implementation contract by a delegate call, which
//! runs that code on the proxy's storage.  The first caller becomes the
//! owner, who alone may point the proxy at another implementation.
//!
//! The delegate call is made by the host: the proxy answers either a
//! status, or the call to make; the status of a delegated instruction is
//! then what `delegate_status` makes of the call's result.

use vstd::prelude::*;
use crate::bytes::{le_bytes, address_at, copy_range, append_bytes, bytes_eq, u64_le};
use crate::storage::Storage;
use crate::cells::{u64_cell, address_cell, read_u64, write_u64, read_address};
use crate::stablecoin::StorageMap;

verus! {

/// The call flag that asks for delegate-call semantics.
pub const CALL_FLAG_DELEGATE: u32 = 0x2;

pub const OP_GET_COUNTER: u8 = 0;
pub const OP_INCREMENT: u8 = 1;
pub const OP_SET_IMPLEMENTATION: u8 = 2;
pub const OP_GET_IMPLEMENTATION: u8 = 3;

/// Statuses of the proxy.
pub const ERR_NO_IMPLEMENTATION: u64 = 1;
pub const ERR_NOT_OWNER: u64 = 2;
pub const ERR_SHORT_INPUT: u64 = 3;
pub const ERR_IMPLEMENTATION_NOT_SET: u64 = 5;

/// The most input bytes the proxy reads.
pub const MAX_INPUT: usize = 256;

/// `impl_addr`
pub open spec fn key_implementation() -> Seq<u8> {
    seq![0x69u8, 0x6du8, 0x70u8, 0x6cu8, 0x5fu8, 0x61u8, 0x64u8, 0x64u8, 0x72u8]
}

fn key_implementation_vec() -> (r: Vec<u8>)
    ensures
        r@ == key_implementation(),
{
    let v = vec![0x69u8, 0x6du8, 0x70u8, 0x6cu8, 0x5fu8, 0x61u8, 0x64u8, 0x64u8, 0x72u8];
    assert(v@ =~= key_implementation());
    v
}

/// `counter`
pub open spec fn key_counter() -> Seq<u8> {
    seq![0x63u8, 0x6fu8, 0x75u8, 0x6eu8, 0x74u8, 0x65u8, 0x72u8]
}

fn key_counter_vec() -> (r: Vec<u8>)
    ensures
        r@ == key_counter(),
{
    let v = vec![0x63u8, 0x6fu8, 0x75u8, 0x6eu8, 0x74u8, 0x65u8, 0x72u8];
    assert(v@ =~= key_counter());
    v
}

/// `owner`
pub open spec fn key_owner() -> Seq<u8> {
    seq![0x6fu8, 0x77u8, 0x6eu8, 0x65u8, 0x72u8]
}

fn key_owner_vec() -> (r: Vec<u8>)
    ensures
        r@ == key_owner(),
{
    let v = vec![0x6fu8, 0x77u8, 0x6eu8, 0x65u8, 0x72u8];
    assert(v@ =~= key_owner());
    v
}

proof fn lemma_keys_distinct()
    ensures
        key_implementation() != key_counter(),
        key_implementation() != key_owner(),
        key_counter() != key_owner(),
{
    assert(key_implementation().len() != key_counter().len());
    assert(key_implementation().len() != key_owner().len());
    assert(key_counter().len() != key_owner().len());
}

pub open spec fn counter(m: StorageMap) -> u64 {
    match u64_cell(m.get(key_counter())) {
        Some(v) => v,
        None => 0,
    }
}

/// The implementation's address, when 32 bytes are stored for it.
pub open spec fn implementation(m: StorageMap) -> Option<Seq<u8>> {
    address_cell(m.get(key_implementation()))
}

/// The owner, when 32 bytes are stored for it.
pub open spec fn owner(m: StorageMap) -> Option<Seq<u8>> {
    address_cell(m.get(key_owner()))
}

pub fn read_counter(st: &Storage) -> (r: u64)
    ensures
        r == counter(st@),
{
    match read_u64(st, key_counter_vec().as_slice()) {
        Some(v) => v,
        None => 0,
    }
}

pub fn write_counter(st: &mut Storage, value: u64)
    ensures
        final(st)@ == old(st)@.insert(key_counter(), le_bytes(value as nat, 8)),
{
    write_u64(st, key_counter_vec().as_slice(), value);
}

pub fn read_implementation(st: &Storage) -> (r: Option<[u8; 32]>)
    ensures
        match r {
            Some(a) => implementation(st@) == Some(a@),
            None => implementation(st@) is None,
        },
{
    read_address(st, key_implementation_vec().as_slice())
}

pub fn write_implementation(st: &mut Storage, addr: &[u8; 32])
    ensures
        final(st)@ == old(st)@.insert(key_implementation(), addr@),
{
    st.write(key_implementation_vec().as_slice(), addr.as_slice());
}

pub fn is_owner(st: &Storage, caller: &[u8; 32]) -> (r: bool)
    ensures
        r == (owner(st@) == Some(caller@)),
{
    match read_address(st, key_owner_vec().as_slice()) {
        Some(o) => bytes_eq(caller.as_slice(), o.as_slice()),
        None => false,
    }
}

/// The first caller becomes the owner.
pub open spec fn owner_initialized(m: StorageMap, caller: Seq<u8>) -> StorageMap {
    if owner(m) is None {
        m.insert(key_owner(), caller)
    } else {
        m
    }
}

pub fn initialize_owner(st: &mut Storage, caller: &[u8; 32])
    ensures
        final(st)@ == owner_initialized(old(st)@, caller@),
{
    if read_address(st, key_owner_vec().as_slice()).is_none() {
        st.write(key_owner_vec().as_slice(), caller.as_slice());
    }
}

// ---------------------------------------------------------------------------
// The proxy
// ---------------------------------------------------------------------------

/// What the proxy answers.
pub enum ProxyStep {
    /// A status and return data.
    Done(u64, Vec<u8>),
    /// The host is to delegate the given input to the implementation at
    /// the given address; the status is then what `delegate_status` makes
    /// of the call's result.
    Delegate([u8; 32], Vec<u8>),
}

/// The proxy's answer, by its views.
pub enum ProxyAnswer {
    Done(u64, Seq<u8>),
    Delegate(Seq<u8>, Seq<u8>),
}

pub open spec fn answer_of(s: ProxyStep) -> ProxyAnswer {
    match s {
        ProxyStep::Done(c, d) => ProxyAnswer::Done(c, d@),
        ProxyStep::Delegate(a, i) => ProxyAnswer::Delegate(a@, i@),
    }
}

/// The status of a delegated instruction: 0 when the call succeeded, else
/// the call's error code.
pub fn delegate_status(result: Result<(), u64>) -> (r: u64)
    ensures
        r == match result {
            Ok(_) => 0,
            Err(e) => e,
        },
{
    match result {
        Ok(_) => 0,
        Err(e) => e,
    }
}

/// Delegating the input: to the stored implementation, of which there
/// must be one.
pub open spec fn delegated(m: StorageMap, input: Seq<u8>) -> ProxyAnswer {
    match implementation(m) {
        Some(a) => ProxyAnswer::Delegate(a, input),
        None => ProxyAnswer::Done(ERR_NO_IMPLEMENTATION, Seq::empty()),
    }
}

pub fn delegate_to_implementation(st: &Storage, input: &[u8]) -> (r: ProxyStep)
    ensures
        answer_of(r) == delegated(st@, input@),
{
    match read_implementation(st) {
        Some(addr) => {
            let data = copy_range(input, 0, input.len());
            proof {
                assert(data@ =~= input@);
            }
            ProxyStep::Delegate(addr, data)
        },
        None => ProxyStep::Done(ERR_NO_IMPLEMENTATION, Vec::new()),
    }
}

/// The proxy's instruction from `caller` (at most 256 bytes read), after
/// the first caller became the owner: an empty input changes nothing;
/// `0` answers the counter in 8 bytes; `3` the implementation's address;
/// `2` lets the owner set the implementation (`[address:32]`); `1` and
/// every other opcode are delegated with the whole input.
pub open spec fn proxy_outcome(m0: StorageMap, caller: Seq<u8>, data: Seq<u8>) -> (ProxyAnswer, StorageMap) {
    let m = owner_initialized(m0, caller);
    let input = if data.len() <= MAX_INPUT {
        data
    } else {
        data.take(MAX_INPUT as int)
    };
    if input.len() == 0 {
        (ProxyAnswer::Done(0, Seq::empty()), m)
    } else if input[0] == OP_GET_COUNTER {
        (ProxyAnswer::Done(0, le_bytes(counter(m) as nat, 8)), m)
    } else if input[0] == OP_SET_IMPLEMENTATION {
        if owner(m) != Some(caller) {
            (ProxyAnswer::Done(ERR_NOT_OWNER, Seq::empty()), m)
        } else if input.len() < 33 {
            (ProxyAnswer::Done(ERR_SHORT_INPUT, Seq::empty()), m)
        } else {
            (ProxyAnswer::Done(0, Seq::empty()), m.insert(key_implementation(), input.subrange(1, 33)))
        }
    } else if input[0] == OP_GET_IMPLEMENTATION {
        match implementation(m) {
            Some(a) => (ProxyAnswer::Done(0, a), m),
            None => (ProxyAnswer::Done(ERR_IMPLEMENTATION_NOT_SET, Seq::empty()), m),
        }
    } else {
        (delegated(m, input), m)
    }
}

pub fn entrypoint(st: &mut Storage, caller: &[u8; 32], data: &[u8]) -> (r: ProxyStep)
    ensures
        (answer_of(r), final(st)@) == proxy_outcome(old(st)@, caller@, data@),
{
    initialize_owner(st, caller);
    let len = if data.len() <= MAX_INPUT {
        data.len()
    } else {
        MAX_INPUT
    };
    if len == 0 {
        return demo_mode(st);
    }
    let input = copy_range(data, 0, len);
    proof {
        assert(input@ =~= (if data@.len() <= MAX_INPUT { data@ } else { data@.take(MAX_INPUT as int) }));
    }
    let op = input[0];
    if op == OP_GET_COUNTER {
        ProxyStep::Done(0, u64_le(read_counter(st)))
    } else if op == OP_SET_IMPLEMENTATION {
        if !is_owner(st, caller) {
            return ProxyStep::Done(ERR_NOT_OWNER, Vec::new());
        }
        if len < 33 {
            return ProxyStep::Done(ERR_SHORT_INPUT, Vec::new());
        }
        let new_impl = address_at(input.as_slice(), 1);
        write_implementation(st, &new_impl);
        ProxyStep::Done(0, Vec::new())
    } else if op == OP_GET_IMPLEMENTATION {
        match read_implementation(st) {
            Some(addr) => {
                let mut v = Vec::new();
                append_bytes(&mut v, addr.as_slice());
                proof {
                    assert(v@ =~= addr@);
                }
                ProxyStep::Done(0, v)
            },
            None => ProxyStep::Done(ERR_IMPLEMENTATION_NOT_SET, Vec::new()),
        }
    } else {
        delegate_to_implementation(st, input.as_slice())
    }
}

/// What an empty input does: it only reads the state.
pub fn demo_mode(st: &Storage) -> (r: ProxyStep)
    ensures
        answer_of(r) == ProxyAnswer::Done(0, Seq::empty()),
{
    let _counter = read_counter(st);
    let _implementation = read_implementation(st);
    ProxyStep::Done(0, Vec::new())
}

// ---------------------------------------------------------------------------
// Laws
// ---------------------------------------------------------------------------

/// The owner is the first caller and never changes; only the owner points
/// the proxy at another implementation.
pub proof fn law_owner_fixed(m: StorageMap, caller: Seq<u8>, data: Seq<u8>)
    ensures
        owner(m) is Some ==> owner(proxy_outcome(m, caller, data).1) == owner(m),
        owner(m) is None ==> proxy_outcome(m, caller, data).1.get(key_owner()) == Some(caller),
        implementation(proxy_outcome(m, caller, data).1) != implementation(m)
            ==> owner(owner_initialized(m, caller)) == Some(caller),
{
    lemma_keys_distinct();
}


} // verus!

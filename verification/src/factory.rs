//! A contract factory in the CREATE2 style: users request deployments of
//! the owner's template bytecode under a salt; each request is recorded
//! with its predicted address, and the owner's off-chain service marks it
//! deployed.
//!
//! A refused call aborts the contract with a message; here it answers the
//! matching [`FactoryError`].  The predicted address is the host's
//! Keccak-256 of [`create2_preimage`]; it is passed in by the caller of the
//! library, like the caller, the call value and the time.

use vstd::prelude::*;
use crate::bytes::{
    le_bytes, le_nat, address_at, read_u64_at, copy_range, u64_le, append_bytes, all_zero,
    is_zero_address, bytes_eq, lemma_le_bytes_len,
};
use crate::storage::{Storage, read_buffer, read_len};
use crate::stablecoin::StorageMap;
use crate::deployment_service::{plan_outcome, hex_encoding, law_relayed_request_planned, DeployError};

verus! {

/// Largest deployment fee: 10 TOS in nanoTOS.
pub const MAX_DEPLOYMENT_FEE: u64 = 10_000_000_000;

/// Size of a stored deployment record.
pub const RECORD_SIZE: usize = 112;

/// Why a factory call is refused (the message it aborts with).
#[derive(Clone, Copy, PartialEq, Eq, Structural, Debug)]
pub enum FactoryError {
    ConstructorInputTooShort,
    TemplateHashZero,
    FeeExceedsMaximum,
    OwnerNotSet,
    OnlyOwnerSetsTemplate,
    OnlyOwnerSetsFee,
    OnlyOwnerMarksDeployed,
    TemplateInputTooShort,
    FeeInputTooShort,
    InsufficientFee,
    RequestInputTooShort,
    BytecodeHashZero,
    TemplateHashNotSet,
    TemplateMismatch,
    SaltAlreadyUsed,
    MarkInputTooShort,
    DeploymentNotFound,
    QueryInputTooShort,
}

impl FactoryError {
    /// The abort message.
    pub fn message(&self) -> (r: &'static str)
        ensures
            r@ == match *self {
                FactoryError::ConstructorInputTooShort => "Constructor requires 40 bytes input"@,
                FactoryError::TemplateHashZero => "Template hash cannot be zero"@,
                FactoryError::FeeExceedsMaximum => "Fee exceeds maximum"@,
                FactoryError::OwnerNotSet => "Owner not set"@,
                FactoryError::OnlyOwnerSetsTemplate => "Only owner can set template"@,
                FactoryError::OnlyOwnerSetsFee => "Only owner can set fee"@,
                FactoryError::OnlyOwnerMarksDeployed => "Only owner can mark deployed"@,
                FactoryError::TemplateInputTooShort => "Template hash requires 32 bytes"@,
                FactoryError::FeeInputTooShort => "Fee requires 8 bytes"@,
                FactoryError::InsufficientFee => "Insufficient deployment fee"@,
                FactoryError::RequestInputTooShort => "request_deployment requires 64 bytes"@,
                FactoryError::BytecodeHashZero => "Bytecode hash cannot be zero"@,
                FactoryError::TemplateHashNotSet => "Template hash not set"@,
                FactoryError::TemplateMismatch => "Bytecode hash must match template"@,
                FactoryError::SaltAlreadyUsed => "Salt already used"@,
                FactoryError::MarkInputTooShort => "mark_deployed requires 32 bytes salt"@,
                FactoryError::DeploymentNotFound => "Deployment not found"@,
                FactoryError::QueryInputTooShort => "is_deployed requires 32 bytes salt"@,
            },
    {
        match self {
            FactoryError::ConstructorInputTooShort => "Constructor requires 40 bytes input",
            FactoryError::TemplateHashZero => "Template hash cannot be zero",
            FactoryError::FeeExceedsMaximum => "Fee exceeds maximum",
            FactoryError::OwnerNotSet => "Owner not set",
            FactoryError::OnlyOwnerSetsTemplate => "Only owner can set template",
            FactoryError::OnlyOwnerSetsFee => "Only owner can set fee",
            FactoryError::OnlyOwnerMarksDeployed => "Only owner can mark deployed",
            FactoryError::TemplateInputTooShort => "Template hash requires 32 bytes",
            FactoryError::FeeInputTooShort => "Fee requires 8 bytes",
            FactoryError::InsufficientFee => "Insufficient deployment fee",
            FactoryError::RequestInputTooShort => "request_deployment requires 64 bytes",
            FactoryError::BytecodeHashZero => "Bytecode hash cannot be zero",
            FactoryError::TemplateHashNotSet => "Template hash not set",
            FactoryError::TemplateMismatch => "Bytecode hash must match template",
            FactoryError::SaltAlreadyUsed => "Salt already used",
            FactoryError::MarkInputTooShort => "mark_deployed requires 32 bytes salt",
            FactoryError::DeploymentNotFound => "Deployment not found",
            FactoryError::QueryInputTooShort => "is_deployed requires 32 bytes salt",
        }
    }
}

// ---------------------------------------------------------------------------
// Storage
// ---------------------------------------------------------------------------

pub open spec fn key_owner() -> Seq<u8> {
    seq![0x02u8]
}

pub open spec fn key_template_hash() -> Seq<u8> {
    seq![0x03u8]
}

pub open spec fn key_deployment_count() -> Seq<u8> {
    seq![0x04u8]
}

pub open spec fn key_deployment_fee() -> Seq<u8> {
    seq![0x05u8]
}

/// `0x01` and the salt.
pub open spec fn record_key(salt: Seq<u8>) -> Seq<u8> {
    seq![0x01u8] + salt
}

/// A read of `k` into a zeroed buffer of `cap` bytes: the buffer, when at
/// least one byte was read.
pub open spec fn read_into(m: StorageMap, k: Seq<u8>, cap: nat) -> Option<Seq<u8>> {
    if read_len(m.get(k), cap) > 0 {
        Some(read_buffer(m.get(k), cap))
    } else {
        None
    }
}

/// A stored `u64` (read into a zeroed 8-byte buffer), 0 when nothing is read.
pub open spec fn stored_u64(m: StorageMap, k: Seq<u8>) -> u64 {
    match read_into(m, k, 8) {
        Some(b) => le_nat(b) as u64,
        None => 0,
    }
}

pub open spec fn owner(m: StorageMap) -> Option<Seq<u8>> {
    read_into(m, key_owner(), 32)
}

pub open spec fn template_hash(m: StorageMap) -> Option<Seq<u8>> {
    read_into(m, key_template_hash(), 32)
}

pub open spec fn deployment_count(m: StorageMap) -> u64 {
    stored_u64(m, key_deployment_count())
}

pub open spec fn deployment_fee(m: StorageMap) -> u64 {
    stored_u64(m, key_deployment_fee())
}

/// The stored record of a salt, as read into a 112-byte buffer.
pub open spec fn record(m: StorageMap, salt: Seq<u8>) -> Option<Seq<u8>> {
    read_into(m, record_key(salt), RECORD_SIZE as nat)
}

/// A deployment record: deployer, predicted address, bytecode hash, time,
/// the deployed flag, then padding.
pub open spec fn record_bytes(deployer: Seq<u8>, address: Seq<u8>, hash: Seq<u8>, timestamp: u64, deployed: bool) -> Seq<u8> {
    deployer + address + hash + le_bytes(timestamp as nat, 8) + seq![if deployed { 1u8 } else { 0u8 }] + Seq::new(7, |i: int| 0u8)
}

fn read_into_exec(st: &Storage, key: &[u8], cap: usize) -> (r: Option<Vec<u8>>)
    ensures
        match r {
            Some(b) => read_into(st@, key@, cap as nat) == Some(b@),
            None => read_into(st@, key@, cap as nat) is None,
        },
{
    crate::cells::read_buffer_filled(st, key, cap)
}

fn stored_u64_exec(st: &Storage, key: &[u8]) -> (r: u64)
    ensures
        r == stored_u64(st@, key@),
{
    match read_into_exec(st, key, 8) {
        Some(b) => {
            let v = read_u64_at(b.as_slice(), 0);
            assert(b@.subrange(0, 8) =~= b@);
            v
        },
        None => 0,
    }
}

fn read_owner(st: &Storage) -> (r: Option<[u8; 32]>)
    ensures
        match r {
            Some(a) => owner(st@) == Some(a@),
            None => owner(st@) is None,
        },
{
    match read_into_exec(st, byte_key(0x02u8).as_slice(), 32) {
        Some(b) => {
            let a = address_at(b.as_slice(), 0);
            assert(a@ =~= b@);
            Some(a)
        },
        None => None,
    }
}

fn read_template_hash(st: &Storage) -> (r: Option<[u8; 32]>)
    ensures
        match r {
            Some(a) => template_hash(st@) == Some(a@),
            None => template_hash(st@) is None,
        },
{
    match read_into_exec(st, byte_key(0x03u8).as_slice(), 32) {
        Some(b) => {
            let a = address_at(b.as_slice(), 0);
            assert(a@ =~= b@);
            Some(a)
        },
        None => None,
    }
}

pub fn read_deployment_count(st: &Storage) -> (r: u64)
    ensures
        r == deployment_count(st@),
{
    stored_u64_exec(st, byte_key(0x04u8).as_slice())
}

pub fn read_deployment_fee(st: &Storage) -> (r: u64)
    ensures
        r == deployment_fee(st@),
{
    stored_u64_exec(st, byte_key(0x05u8).as_slice())
}

/// The one-byte key `[b]`.
fn byte_key(b: u8) -> (r: Vec<u8>)
    ensures
        r@ == seq![b],
{
    let v = vec![b];
    assert(v@ =~= seq![b]);
    v
}

fn record_key_vec(salt: &[u8; 32]) -> (r: Vec<u8>)
    ensures
        r@ == record_key(salt@),
{
    let mut k = vec![0x01u8];
    append_bytes(&mut k, salt.as_slice());
    k
}

fn record_vec(deployer: &[u8; 32], address: &[u8; 32], hash: &[u8; 32], timestamp: u64, deployed: bool) -> (r: Vec<u8>)
    ensures
        r@ == record_bytes(deployer@, address@, hash@, timestamp, deployed),
        r@.len() == RECORD_SIZE,
{
    let mut v = copy_range(deployer.as_slice(), 0, 32);
    assert(v@ =~= deployer@);
    append_bytes(&mut v, address.as_slice());
    append_bytes(&mut v, hash.as_slice());
    append_bytes(&mut v, u64_le(timestamp).as_slice());
    v.push(if deployed { 1u8 } else { 0u8 });
    let mut i: usize = 0;
    while i < 7
        invariant
            i <= 7,
            v@ == deployer@ + address@ + hash@ + le_bytes(timestamp as nat, 8) + seq![
                if deployed { 1u8 } else { 0u8 },
            ] + Seq::new(i as nat, |j: int| 0u8),
        decreases 7 - i,
    {
        v.push(0u8);
        i = i + 1;
        assert(v@ =~= deployer@ + address@ + hash@ + le_bytes(timestamp as nat, 8) + seq![
            if deployed { 1u8 } else { 0u8 },
        ] + Seq::new(i as nat, |j: int| 0u8));
    }
    proof {
        lemma_le_bytes_len(timestamp as nat, 8);
    }
    v
}

// ---------------------------------------------------------------------------
// CREATE2 preimage
// ---------------------------------------------------------------------------

/// `0xff`, the factory, the salt and the bytecode hash: what the predicted
/// address is the Keccak-256 hash of.
pub open spec fn create2_bytes(factory: Seq<u8>, salt: Seq<u8>, hash: Seq<u8>) -> Seq<u8> {
    seq![0xffu8] + factory + salt + hash
}

pub fn create2_preimage(factory: &[u8; 32], salt: &[u8; 32], bytecode_hash: &[u8; 32]) -> (r: Vec<u8>)
    ensures
        r@ == create2_bytes(factory@, salt@, bytecode_hash@),
        r@.len() == 97,
{
    let mut v = vec![0xffu8];
    append_bytes(&mut v, factory.as_slice());
    append_bytes(&mut v, salt.as_slice());
    append_bytes(&mut v, bytecode_hash.as_slice());
    assert(v@ =~= create2_bytes(factory@, salt@, bytecode_hash@));
    v
}

// ---------------------------------------------------------------------------
// Events
// ---------------------------------------------------------------------------

/// An event the factory emits: its topic (the event's name) and its data.
pub struct FactoryEvent {
    pub topic: Vec<u8>,
    pub data: Vec<u8>,
}

pub open spec fn event_view(e: FactoryEvent) -> (Seq<u8>, Seq<u8>) {
    (e.topic@, e.data@)
}

/// `FactoryInitialized`
pub open spec fn topic_initialized() -> Seq<u8> {
    seq![0x46u8, 0x61u8, 0x63u8, 0x74u8, 0x6fu8, 0x72u8, 0x79u8, 0x49u8, 0x6eu8, 0x69u8, 0x74u8, 0x69u8, 0x61u8, 0x6cu8, 0x69u8, 0x7au8, 0x65u8, 0x64u8]
}

fn topic_initialized_vec() -> (r: Vec<u8>)
    ensures
        r@ == topic_initialized(),
{
    let v = vec![0x46u8, 0x61u8, 0x63u8, 0x74u8, 0x6fu8, 0x72u8, 0x79u8, 0x49u8, 0x6eu8, 0x69u8, 0x74u8, 0x69u8, 0x61u8, 0x6cu8, 0x69u8, 0x7au8, 0x65u8, 0x64u8];
    assert(v@ =~= topic_initialized());
    v
}

/// `TemplateHashUpdated`
pub open spec fn topic_template_updated() -> Seq<u8> {
    seq![0x54u8, 0x65u8, 0x6du8, 0x70u8, 0x6cu8, 0x61u8, 0x74u8, 0x65u8, 0x48u8, 0x61u8, 0x73u8, 0x68u8, 0x55u8, 0x70u8, 0x64u8, 0x61u8, 0x74u8, 0x65u8, 0x64u8]
}

fn topic_template_updated_vec() -> (r: Vec<u8>)
    ensures
        r@ == topic_template_updated(),
{
    let v = vec![0x54u8, 0x65u8, 0x6du8, 0x70u8, 0x6cu8, 0x61u8, 0x74u8, 0x65u8, 0x48u8, 0x61u8, 0x73u8, 0x68u8, 0x55u8, 0x70u8, 0x64u8, 0x61u8, 0x74u8, 0x65u8, 0x64u8];
    assert(v@ =~= topic_template_updated());
    v
}

/// `DeploymentFeeUpdated`
pub open spec fn topic_fee_updated() -> Seq<u8> {
    seq![0x44u8, 0x65u8, 0x70u8, 0x6cu8, 0x6fu8, 0x79u8, 0x6du8, 0x65u8, 0x6eu8, 0x74u8, 0x46u8, 0x65u8, 0x65u8, 0x55u8, 0x70u8, 0x64u8, 0x61u8, 0x74u8, 0x65u8, 0x64u8]
}

fn topic_fee_updated_vec() -> (r: Vec<u8>)
    ensures
        r@ == topic_fee_updated(),
{
    let v = vec![0x44u8, 0x65u8, 0x70u8, 0x6cu8, 0x6fu8, 0x79u8, 0x6du8, 0x65u8, 0x6eu8, 0x74u8, 0x46u8, 0x65u8, 0x65u8, 0x55u8, 0x70u8, 0x64u8, 0x61u8, 0x74u8, 0x65u8, 0x64u8];
    assert(v@ =~= topic_fee_updated());
    v
}

/// `DeploymentRequested`
pub open spec fn topic_requested() -> Seq<u8> {
    seq![0x44u8, 0x65u8, 0x70u8, 0x6cu8, 0x6fu8, 0x79u8, 0x6du8, 0x65u8, 0x6eu8, 0x74u8, 0x52u8, 0x65u8, 0x71u8, 0x75u8, 0x65u8, 0x73u8, 0x74u8, 0x65u8, 0x64u8]
}

fn topic_requested_vec() -> (r: Vec<u8>)
    ensures
        r@ == topic_requested(),
{
    let v = vec![0x44u8, 0x65u8, 0x70u8, 0x6cu8, 0x6fu8, 0x79u8, 0x6du8, 0x65u8, 0x6eu8, 0x74u8, 0x52u8, 0x65u8, 0x71u8, 0x75u8, 0x65u8, 0x73u8, 0x74u8, 0x65u8, 0x64u8];
    assert(v@ =~= topic_requested());
    v
}

/// `DeploymentCompleted`
pub open spec fn topic_completed() -> Seq<u8> {
    seq![0x44u8, 0x65u8, 0x70u8, 0x6cu8, 0x6fu8, 0x79u8, 0x6du8, 0x65u8, 0x6eu8, 0x74u8, 0x43u8, 0x6fu8, 0x6du8, 0x70u8, 0x6cu8, 0x65u8, 0x74u8, 0x65u8, 0x64u8]
}

fn topic_completed_vec() -> (r: Vec<u8>)
    ensures
        r@ == topic_completed(),
{
    let v = vec![0x44u8, 0x65u8, 0x70u8, 0x6cu8, 0x6fu8, 0x79u8, 0x6du8, 0x65u8, 0x6eu8, 0x74u8, 0x43u8, 0x6fu8, 0x6du8, 0x70u8, 0x6cu8, 0x65u8, 0x74u8, 0x65u8, 0x64u8];
    assert(v@ =~= topic_completed());
    v
}

/// The constructor's event: the owner, then the template hash and the fee
/// as given (`[template_hash:32][fee:8]`).
pub open spec fn initialized_event(owner: Seq<u8>, p: Seq<u8>) -> (Seq<u8>, Seq<u8>) {
    (topic_initialized(), owner + p.subrange(0, 40))
}

/// The event of a new template hash: the hash.
pub open spec fn template_event(p: Seq<u8>) -> (Seq<u8>, Seq<u8>) {
    (topic_template_updated(), p.subrange(0, 32))
}

/// The event of a new fee: its eight bytes.
pub open spec fn fee_event(p: Seq<u8>) -> (Seq<u8>, Seq<u8>) {
    (topic_fee_updated(), p.subrange(0, 8))
}

/// The event the off-chain service listens for: the deployer, the salt,
/// the bytecode hash and the predicted address.
pub open spec fn requested_event(deployer: Seq<u8>, p: Seq<u8>, predicted: Seq<u8>) -> (Seq<u8>, Seq<u8>) {
    (topic_requested(), deployer + p.subrange(0, 64) + predicted)
}

/// The event of a completed deployment: the salt.
pub open spec fn completed_event(p: Seq<u8>) -> (Seq<u8>, Seq<u8>) {
    (topic_completed(), p.subrange(0, 32))
}

// ---------------------------------------------------------------------------
// Calls
// ---------------------------------------------------------------------------

/// Outcome of the constructor with input `[template_hash:32][fee:8]` from
/// `caller`: the template must be non-zero and the fee at most the maximum
/// (a refusal aborts the call, so nothing is written); the caller becomes
/// owner and the count starts at 0.
pub open spec fn constructor_outcome(m: StorageMap, caller: Seq<u8>, p: Seq<u8>) -> (Result<(), FactoryError>, StorageMap) {
    if p.len() < 40 {
        (Err(FactoryError::ConstructorInputTooShort), m)
    } else if all_zero(p.subrange(0, 32)) {
        (Err(FactoryError::TemplateHashZero), m)
    } else if le_nat(p.subrange(32, 40)) > MAX_DEPLOYMENT_FEE {
        (Err(FactoryError::FeeExceedsMaximum), m)
    } else {
        (
            Ok(()),
            m.insert(key_owner(), caller).insert(key_template_hash(), p.subrange(0, 32)).insert(
                key_deployment_fee(),
                p.subrange(32, 40),
            ).insert(key_deployment_count(), le_bytes(0, 8)),
        )
    }
}

pub fn constructor(st: &mut Storage, caller: &[u8; 32], input: &[u8]) -> (r: Result<FactoryEvent, FactoryError>)
    ensures
        (match r {
            Ok(_) => Ok(()),
            Err(e) => Err(e),
        }, final(st)@) == constructor_outcome(old(st)@, caller@, input@),
        r matches Ok(e) ==> event_view(e) == initialized_event(caller@, input@),
{
    if input.len() < 40 {
        return Err(FactoryError::ConstructorInputTooShort);
    }
    let template_hash = address_at(input, 0);
    if is_zero_address(&template_hash) {
        return Err(FactoryError::TemplateHashZero);
    }
    let fee = read_u64_at(input, 32);
    if fee > MAX_DEPLOYMENT_FEE {
        return Err(FactoryError::FeeExceedsMaximum);
    }
    st.write(byte_key(0x02u8).as_slice(), caller.as_slice());
    st.write(byte_key(0x03u8).as_slice(), template_hash.as_slice());
    let fee_bytes = copy_range(input, 32, 8);
    st.write(byte_key(0x05u8).as_slice(), fee_bytes.as_slice());
    st.write(byte_key(0x04u8).as_slice(), u64_le(0).as_slice());
    let mut data = copy_range(caller.as_slice(), 0, 32);
    append_bytes(&mut data, copy_range(input, 0, 40).as_slice());
    proof {
        assert(data@ =~= caller@ + input@.subrange(0, 40));
    }
    Ok(FactoryEvent { topic: topic_initialized_vec(), data })
}

/// The owner check of the owner-only calls.
/// The owner check of an owner-only call, refused with `refusal` for
/// another caller.
pub open spec fn owner_check(m: StorageMap, caller: Seq<u8>, refusal: FactoryError) -> Result<(), FactoryError> {
    match owner(m) {
        None => Err(FactoryError::OwnerNotSet),
        Some(o) => if o != caller {
            Err(refusal)
        } else {
            Ok(())
        },
    }
}

fn require_owner(st: &Storage, caller: &[u8; 32], refusal: FactoryError) -> (r: Result<(), FactoryError>)
    ensures
        r == owner_check(st@, caller@, refusal),
{
    let owner = match read_owner(st) {
        Some(o) => o,
        None => return Err(FactoryError::OwnerNotSet),
    };
    if !bytes_eq(caller.as_slice(), owner.as_slice()) {
        return Err(refusal);
    }
    Ok(())
}

/// Outcome of `set_template_hash` (`[hash:32]`), owner only; answers 1.
pub open spec fn set_template_outcome(m: StorageMap, caller: Seq<u8>, p: Seq<u8>) -> (Result<u64, FactoryError>, StorageMap) {
    match owner_check(m, caller, FactoryError::OnlyOwnerSetsTemplate) {
        Err(e) => (Err(e), m),
        Ok(_) => if p.len() < 32 {
            (Err(FactoryError::TemplateInputTooShort), m)
        } else if all_zero(p.subrange(0, 32)) {
            (Err(FactoryError::TemplateHashZero), m)
        } else {
            (Ok(1), m.insert(key_template_hash(), p.subrange(0, 32)))
        },
    }
}

pub fn set_template_hash(st: &mut Storage, caller: &[u8; 32], input: &[u8]) -> (r: Result<(u64, FactoryEvent), FactoryError>)
    ensures
        (match r {
            Ok((v, _)) => Ok(v),
            Err(e) => Err(e),
        }, final(st)@) == set_template_outcome(old(st)@, caller@, input@),
        r matches Ok((_, e)) ==> event_view(e) == template_event(input@),
{
    require_owner(st, caller, FactoryError::OnlyOwnerSetsTemplate)?;
    if input.len() < 32 {
        return Err(FactoryError::TemplateInputTooShort);
    }
    let template_hash = address_at(input, 0);
    if is_zero_address(&template_hash) {
        return Err(FactoryError::TemplateHashZero);
    }
    st.write(byte_key(0x03u8).as_slice(), template_hash.as_slice());
    Ok((1, FactoryEvent { topic: topic_template_updated_vec(), data: copy_range(input, 0, 32) }))
}

/// Outcome of `set_deployment_fee` (`[fee:8]`), owner only; answers 1.
pub open spec fn set_fee_outcome(m: StorageMap, caller: Seq<u8>, p: Seq<u8>) -> (Result<u64, FactoryError>, StorageMap) {
    match owner_check(m, caller, FactoryError::OnlyOwnerSetsFee) {
        Err(e) => (Err(e), m),
        Ok(_) => if p.len() < 8 {
            (Err(FactoryError::FeeInputTooShort), m)
        } else if le_nat(p.subrange(0, 8)) > MAX_DEPLOYMENT_FEE {
            (Err(FactoryError::FeeExceedsMaximum), m)
        } else {
            (Ok(1), m.insert(key_deployment_fee(), p.subrange(0, 8)))
        },
    }
}

pub fn set_deployment_fee(st: &mut Storage, caller: &[u8; 32], input: &[u8]) -> (r: Result<(u64, FactoryEvent), FactoryError>)
    ensures
        (match r {
            Ok((v, _)) => Ok(v),
            Err(e) => Err(e),
        }, final(st)@) == set_fee_outcome(old(st)@, caller@, input@),
        r matches Ok((_, e)) ==> event_view(e) == fee_event(input@),
{
    require_owner(st, caller, FactoryError::OnlyOwnerSetsFee)?;
    if input.len() < 8 {
        return Err(FactoryError::FeeInputTooShort);
    }
    let fee = read_u64_at(input, 0);
    if fee > MAX_DEPLOYMENT_FEE {
        return Err(FactoryError::FeeExceedsMaximum);
    }
    let fee_bytes = copy_range(input, 0, 8);
    st.write(byte_key(0x05u8).as_slice(), fee_bytes.as_slice());
    Ok((1, FactoryEvent { topic: topic_fee_updated_vec(), data: fee_bytes }))
}

/// Outcome of `request_deployment` (`[salt:32][bytecode_hash:32]`) from
/// `caller` sending `value` at `timestamp`, with the host's predicted
/// address: the fee must be paid, the hash non-zero and equal to the
/// template, the salt unused; the record is stored, the count raised, and
/// the predicted address answered.
pub open spec fn request_outcome(
    m: StorageMap,
    caller: Seq<u8>,
    value: u64,
    timestamp: u64,
    p: Seq<u8>,
    predicted: Seq<u8>,
) -> (Result<Seq<u8>, FactoryError>, StorageMap) {
    if deployment_fee(m) > 0 && value < deployment_fee(m) {
        (Err(FactoryError::InsufficientFee), m)
    } else if p.len() < 64 {
        (Err(FactoryError::RequestInputTooShort), m)
    } else {
        let salt = p.subrange(0, 32);
        let hash = p.subrange(32, 64);
        if all_zero(hash) {
            (Err(FactoryError::BytecodeHashZero), m)
        } else {
            match template_hash(m) {
                None => (Err(FactoryError::TemplateHashNotSet), m),
                Some(t) => if hash != t {
                    (Err(FactoryError::TemplateMismatch), m)
                } else if record(m, salt) is Some {
                    (Err(FactoryError::SaltAlreadyUsed), m)
                } else {
                    let m1 = m.insert(
                        record_key(salt),
                        record_bytes(caller, predicted, hash, timestamp, false),
                    );
                    (
                        Ok(predicted),
                        m1.insert(
                            key_deployment_count(),
                            le_bytes((deployment_count(m1) + 1) as nat, 8),
                        ),
                    )
                },
            }
        }
    }
}

/// Requests a deployment; `predicted_address` is the host's Keccak-256 of
/// [`create2_preimage`] of the factory, the salt and the bytecode hash.
pub fn request_deployment(
    st: &mut Storage,
    caller: &[u8; 32],
    value: u64,
    timestamp: u64,
    input: &[u8],
    predicted_address: &[u8; 32],
) -> (r: Result<([u8; 32], FactoryEvent), FactoryError>)
    requires
        deployment_count(old(st)@.insert(
            record_key(input@.subrange(0, 32)),
            record_bytes(caller@, predicted_address@, input@.subrange(32, 64), timestamp, false),
        )) < u64::MAX || input@.len() < 64,
    ensures
        match r {
            Ok((a, e)) => {
                &&& request_outcome(old(st)@, caller@, value, timestamp, input@, predicted_address@)
                    == (Ok::<Seq<u8>, FactoryError>(a@), final(st)@)
                &&& event_view(e) == requested_event(caller@, input@, predicted_address@)
            },
            Err(e) => request_outcome(old(st)@, caller@, value, timestamp, input@, predicted_address@)
                == (Err::<Seq<u8>, FactoryError>(e), final(st)@),
        },
{
    let fee = read_deployment_fee(st);
    if fee > 0 && value < fee {
        return Err(FactoryError::InsufficientFee);
    }
    if input.len() < 64 {
        return Err(FactoryError::RequestInputTooShort);
    }
    let salt = address_at(input, 0);
    let bytecode_hash = address_at(input, 32);
    if is_zero_address(&bytecode_hash) {
        return Err(FactoryError::BytecodeHashZero);
    }
    let template_hash = match read_template_hash(st) {
        Some(t) => t,
        None => return Err(FactoryError::TemplateHashNotSet),
    };
    if !bytes_eq(bytecode_hash.as_slice(), template_hash.as_slice()) {
        return Err(FactoryError::TemplateMismatch);
    }
    let key = record_key_vec(&salt);
    if read_into_exec(st, key.as_slice(), RECORD_SIZE).is_some() {
        return Err(FactoryError::SaltAlreadyUsed);
    }
    let rec = record_vec(caller, predicted_address, &bytecode_hash, timestamp, false);
    st.write(key.as_slice(), rec.as_slice());
    let count = read_deployment_count(st);
    st.write(byte_key(0x04u8).as_slice(), u64_le(count + 1).as_slice());
    let mut data = copy_range(caller.as_slice(), 0, 32);
    append_bytes(&mut data, copy_range(input, 0, 64).as_slice());
    append_bytes(&mut data, predicted_address.as_slice());
    proof {
        assert(data@ =~= caller@ + input@.subrange(0, 64) + predicted_address@);
    }
    Ok((*predicted_address, FactoryEvent { topic: topic_requested_vec(), data }))
}

/// Outcome of `mark_deployed` (`[salt:32]`), owner only: the record's
/// deployed flag is set.
pub open spec fn mark_outcome(m: StorageMap, caller: Seq<u8>, p: Seq<u8>) -> (Result<(), FactoryError>, StorageMap) {
    match owner_check(m, caller, FactoryError::OnlyOwnerMarksDeployed) {
        Err(e) => (Err(e), m),
        Ok(_) => if p.len() < 32 {
            (Err(FactoryError::MarkInputTooShort), m)
        } else {
            match record(m, p.subrange(0, 32)) {
                None => (Err(FactoryError::DeploymentNotFound), m),
                Some(b) => (Ok(()), m.insert(record_key(p.subrange(0, 32)), b.update(104int, 1u8))),
            }
        },
    }
}

pub fn mark_deployed(st: &mut Storage, caller: &[u8; 32], input: &[u8]) -> (r: Result<FactoryEvent, FactoryError>)
    ensures
        (match r {
            Ok(_) => Ok(()),
            Err(e) => Err(e),
        }, final(st)@) == mark_outcome(old(st)@, caller@, input@),
        r matches Ok(e) ==> event_view(e) == completed_event(input@),
{
    require_owner(st, caller, FactoryError::OnlyOwnerMarksDeployed)?;
    if input.len() < 32 {
        return Err(FactoryError::MarkInputTooShort);
    }
    let salt = address_at(input, 0);
    let key = record_key_vec(&salt);
    let mut rec = match read_into_exec(st, key.as_slice(), RECORD_SIZE) {
        Some(b) => b,
        None => return Err(FactoryError::DeploymentNotFound),
    };
    rec.set(104, 1u8);
    st.write(key.as_slice(), rec.as_slice());
    Ok(FactoryEvent { topic: topic_completed_vec(), data: copy_range(input, 0, 32) })
}

pub fn get_deployment_count(st: &Storage) -> (r: u64)
    ensures
        r == deployment_count(st@),
{
    read_deployment_count(st)
}

pub fn get_deployment_fee(st: &Storage) -> (r: u64)
    ensures
        r == deployment_fee(st@),
{
    read_deployment_fee(st)
}

/// Answer of `is_deployed` (`[salt:32]`): 1 when the salt's record has its
/// deployed flag set, else 0.
pub open spec fn is_deployed_result(m: StorageMap, p: Seq<u8>) -> Result<u64, FactoryError> {
    if p.len() < 32 {
        Err(FactoryError::QueryInputTooShort)
    } else {
        match record(m, p.subrange(0, 32)) {
            Some(b) => if b[104] != 0 {
                Ok(1)
            } else {
                Ok(0)
            },
            None => Ok(0),
        }
    }
}

pub fn is_deployed(st: &Storage, input: &[u8]) -> (r: Result<u64, FactoryError>)
    ensures
        r == is_deployed_result(st@, input@),
{
    if input.len() < 32 {
        return Err(FactoryError::QueryInputTooShort);
    }
    let salt = address_at(input, 0);
    let key = record_key_vec(&salt);
    match read_into_exec(st, key.as_slice(), RECORD_SIZE) {
        Some(b) => {
            if b[104] != 0 {
                Ok(1)
            } else {
                Ok(0)
            }
        },
        None => Ok(0),
    }
}

// ---------------------------------------------------------------------------
// Laws
// ---------------------------------------------------------------------------

/// A salt is used once: after a successful request, a second request with
/// the same salt is refused (if it gets as far as the salt check).
pub proof fn law_salt_used_once(
    m: StorageMap,
    caller: Seq<u8>,
    value: u64,
    timestamp: u64,
    p: Seq<u8>,
    predicted: Seq<u8>,
    caller2: Seq<u8>,
    value2: u64,
    timestamp2: u64,
    p2: Seq<u8>,
    predicted2: Seq<u8>,
)
    requires
        request_outcome(m, caller, value, timestamp, p, predicted).0 is Ok,
        caller.len() == 32,
        predicted.len() == 32,
        p2.len() >= 64,
        p2.subrange(0, 32) == p.subrange(0, 32),
    ensures
        ({
            let m2 = request_outcome(m, caller, value, timestamp, p, predicted).1;
            request_outcome(m2, caller2, value2, timestamp2, p2, predicted2).0 is Err
        }),
{
    let salt = p.subrange(0, 32);
    let hash = p.subrange(32, 64);
    let rec = record_bytes(caller, predicted, hash, timestamp, false);
    let m1 = m.insert(record_key(salt), rec);
    let m2 = request_outcome(m, caller, value, timestamp, p, predicted).1;
    lemma_le_bytes_len(timestamp as nat, 8);
    assert(record_key(salt).len() == 33);
    assert(m2.get(record_key(salt)) == Some(rec));
    assert(rec.len() == 112);
    assert(key_template_hash()[0] != key_deployment_count()[0]);
    assert(key_deployment_fee()[0] != key_deployment_count()[0]);
    assert(key_template_hash() != record_key(salt));
    assert(key_deployment_fee() != record_key(salt));
    assert(m2.get(key_template_hash()) == m.get(key_template_hash()));
    assert(m2.get(key_deployment_fee()) == m.get(key_deployment_fee()));
    assert(p2.subrange(0, 32) == salt);
}

/// After a successful `mark_deployed`, the salt reads as deployed.
pub proof fn law_marked_is_deployed(m: StorageMap, caller: Seq<u8>, p: Seq<u8>)
    requires
        mark_outcome(m, caller, p).0 is Ok,
    ensures
        is_deployed_result(mark_outcome(m, caller, p).1, p) == Ok::<u64, FactoryError>(1),
{
    let salt = p.subrange(0, 32);
    let b = record(m, salt)->0;
    let nb = b.update(104, 1u8);
    assert(nb.len() == 112);
    assert(nb.take(112) =~= nb);
}

/// An accepted request, relayed to a deployment service that holds the
/// template's bytecode as the hex of its event's fields, is planned as the
/// deployment of the template under the request's salt.
pub proof fn law_request_served(
    m: StorageMap,
    caller: Seq<u8>,
    value: u64,
    timestamp: u64,
    p: Seq<u8>,
    predicted: Seq<u8>,
    stored: Map<Seq<u8>, Seq<u8>>,
)
    requires
        request_outcome(m, caller, value, timestamp, p, predicted).0 is Ok,
        caller.len() == 32,
        template_hash(m) is Some,
        stored.contains_key(template_hash(m)->0),
    ensures
        ({
            let data = requested_event(caller, p, predicted).1;
            plan_outcome(stored, hex_encoding(data.subrange(64, 96)), hex_encoding(data.subrange(32, 64)))
                == Ok::<(Seq<u8>, Seq<u8>), DeployError>((stored[template_hash(m)->0], p.subrange(0, 32)))
        }),
{
    let data = requested_event(caller, p, predicted).1;
    assert(data.subrange(64, 96) =~= p.subrange(32, 64));
    assert(data.subrange(32, 64) =~= p.subrange(0, 32));
    law_relayed_request_planned(stored, p.subrange(32, 64), p.subrange(0, 32));
}

} // verus!

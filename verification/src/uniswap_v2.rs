//! A Uniswap V2-style factory: creates one pair per unordered token pair,
//! records it under the sorted tokens and in an enumerable list, and keeps
//! a fee recipient set by a fee-setter role.
//!
//! A pair's id is the host's Blake3 hash of [`pair_hash_input`] (the two
//! sorted tokens); it is passed to [`create_pair`] by the caller of the
//! library.  Values are read back as in the lending pool (see
//! [`crate::aave::fetched`]): through a 256-byte buffer.

use vstd::prelude::*;
use crate::bytes::{le_bytes, le_nat, address_at, read_u64_at, copy_range, u64_le, append_bytes,
    all_zero, is_zero_address, bytes_eq, lemma_le_bytes_len};
use crate::storage::Storage;
use crate::stablecoin::{StorageMap, set_storage};
use crate::text::{lex_less, bytes_less, lemma_lex_total, lemma_lex_irreflexive, lemma_lex_asymmetric};
use crate::aave::{fetched, fetched_or_empty, get_storage, get_or_empty, read_u64_or, u64_or};
use crate::usdt::{Outcome, answer, done, account_arg};

verus! {

/// Errors of the factory, with their codes (see [`TakoError::code`]).
#[derive(Clone, Copy, PartialEq, Eq, Structural, Debug)]
pub enum TakoError {
    StorageError,
    InvalidInput,
    Unauthorized,
    AlreadyExists,
    NotFound,
    CustomError(u64),
}

pub open spec fn error_code(e: TakoError) -> u64 {
    match e {
        TakoError::StorageError => 1,
        TakoError::InvalidInput => 2,
        TakoError::Unauthorized => 3,
        TakoError::AlreadyExists => 4,
        TakoError::NotFound => 5,
        TakoError::CustomError(c) => c,
    }
}

impl TakoError {
    pub fn code(&self) -> (r: u64)
        ensures
            r == error_code(*self),
    {
        match self {
            TakoError::StorageError => 1,
            TakoError::InvalidInput => 2,
            TakoError::Unauthorized => 3,
            TakoError::AlreadyExists => 4,
            TakoError::NotFound => 5,
            TakoError::CustomError(c) => *c,
        }
    }
}

/// Factory instructions.
#[derive(Clone, Copy, PartialEq, Eq, Structural, Debug)]
pub enum Instruction {
    Initialize,
    CreatePair,
    SetFeeTo,
    SetFeeToSetter,
    GetPair,
    AllPairsLength,
    FeeTo,
    GetPairAtIndex,
}

pub open spec fn instruction_of(value: u8) -> Option<Instruction> {
    if value == 0 {
        Some(Instruction::Initialize)
    } else if value == 1 {
        Some(Instruction::CreatePair)
    } else if value == 2 {
        Some(Instruction::SetFeeTo)
    } else if value == 3 {
        Some(Instruction::SetFeeToSetter)
    } else if value == 100 {
        Some(Instruction::GetPair)
    } else if value == 101 {
        Some(Instruction::AllPairsLength)
    } else if value == 102 {
        Some(Instruction::FeeTo)
    } else if value == 103 {
        Some(Instruction::GetPairAtIndex)
    } else {
        None
    }
}

impl Instruction {
    pub fn from_u8(value: u8) -> (r: Option<Instruction>)
        ensures
            r == instruction_of(value),
            r is None <==> !(value <= 3 || (100 <= value <= 103)),
    {
        match value {
            0 => Some(Instruction::Initialize),
            1 => Some(Instruction::CreatePair),
            2 => Some(Instruction::SetFeeTo),
            3 => Some(Instruction::SetFeeToSetter),
            100 => Some(Instruction::GetPair),
            101 => Some(Instruction::AllPairsLength),
            102 => Some(Instruction::FeeTo),
            103 => Some(Instruction::GetPairAtIndex),
            _ => None,
        }
    }
}

// ---------------------------------------------------------------------------
// Keys
// ---------------------------------------------------------------------------

pub open spec fn key_fee_to() -> Seq<u8> {
    seq![102u8, 101, 101, 95, 116, 111]
}

pub open spec fn key_fee_to_setter() -> Seq<u8> {
    seq![102u8, 101, 101, 95, 116, 111, 95, 115, 101, 116, 116, 101, 114]
}

pub open spec fn key_all_pairs_length() -> Seq<u8> {
    seq![97u8, 108, 108, 95, 112, 97, 105, 114, 115, 95, 108, 101, 110, 103, 116, 104]
}

/// The two tokens in ascending (lexicographic) order.
pub open spec fn sorted(a: Seq<u8>, b: Seq<u8>) -> (Seq<u8>, Seq<u8>) {
    if lex_less(a, b) {
        (a, b)
    } else {
        (b, a)
    }
}

/// `"pair_idx"` and the index (little-endian).
pub open spec fn pair_index_slot(index: u64) -> Seq<u8> {
    seq![112u8, 97, 105, 114, 95, 105, 100, 120] + le_bytes(index as nat, 8)
}

/// `"pair_key"` and the two tokens in ascending order.
pub open spec fn pair_slot(a: Seq<u8>, b: Seq<u8>) -> Seq<u8> {
    seq![112u8, 97, 105, 114, 95, 107, 101, 121] + sorted(a, b).0 + sorted(a, b).1
}

fn key_fee_to_vec() -> (r: Vec<u8>)
    ensures
        r@ == key_fee_to(),
{
    let v = vec![102u8, 101, 101, 95, 116, 111];
    assert(v@ =~= key_fee_to());
    v
}

fn key_fee_to_setter_vec() -> (r: Vec<u8>)
    ensures
        r@ == key_fee_to_setter(),
{
    let v = vec![102u8, 101, 101, 95, 116, 111, 95, 115, 101, 116, 116, 101, 114];
    assert(v@ =~= key_fee_to_setter());
    v
}

fn key_all_pairs_length_vec() -> (r: Vec<u8>)
    ensures
        r@ == key_all_pairs_length(),
{
    let v = vec![97u8, 108, 108, 95, 112, 97, 105, 114, 115, 95, 108, 101, 110, 103, 116, 104];
    assert(v@ =~= key_all_pairs_length());
    v
}

pub fn pair_index_key(index: u64) -> (r: [u8; 16])
    ensures
        r@ == pair_index_slot(index),
{
    let mut v = vec![112u8, 97, 105, 114, 95, 105, 100, 120];
    append_bytes(&mut v, u64_le(index).as_slice());
    let mut key = [0u8; 16];
    let mut i: usize = 0;
    while i < 16
        invariant
            i <= 16,
            v@.len() == 16,
            key@.len() == 16,
            forall|j: int| 0 <= j < i ==> key@[j] == v@[j],
        decreases 16 - i,
    {
        key[i] = v[i];
        i = i + 1;
    }
    assert(key@ =~= pair_index_slot(index));
    key
}

/// The two tokens in ascending order.
fn sort_tokens(a: &[u8; 32], b: &[u8; 32]) -> (r: ([u8; 32], [u8; 32]))
    ensures
        (r.0@, r.1@) == sorted(a@, b@),
{
    if bytes_less(a.as_slice(), b.as_slice()) {
        (*a, *b)
    } else {
        (*b, *a)
    }
}

pub fn pair_key(token_a: &[u8; 32], token_b: &[u8; 32]) -> (r: [u8; 72])
    ensures
        r@ == pair_slot(token_a@, token_b@),
{
    let (token0, token1) = sort_tokens(token_a, token_b);
    let mut v = vec![112u8, 97, 105, 114, 95, 107, 101, 121];
    append_bytes(&mut v, token0.as_slice());
    append_bytes(&mut v, token1.as_slice());
    let mut key = [0u8; 72];
    let mut i: usize = 0;
    while i < 72
        invariant
            i <= 72,
            v@.len() == 72,
            key@.len() == 72,
            forall|j: int| 0 <= j < i ==> key@[j] == v@[j],
        decreases 72 - i,
    {
        key[i] = v[i];
        i = i + 1;
    }
    assert(key@ =~= pair_slot(token_a@, token_b@));
    key
}

/// What the pair id is hashed from: the two tokens in ascending order.
pub open spec fn pair_hash_bytes(a: Seq<u8>, b: Seq<u8>) -> Seq<u8> {
    sorted(a, b).0 + sorted(a, b).1
}

/// The bytes whose Blake3 hash is the pair id of `token_a` and `token_b`.
pub fn pair_hash_input(token_a: &[u8; 32], token_b: &[u8; 32]) -> (r: Vec<u8>)
    ensures
        r@ == pair_hash_bytes(token_a@, token_b@),
{
    let (token0, token1) = sort_tokens(token_a, token_b);
    let mut v = copy_range(token0.as_slice(), 0, 32);
    assert(v@ =~= token0@);
    append_bytes(&mut v, token1.as_slice());
    v
}

fn done_vec() -> (r: Vec<u8>)
    ensures
        Ok::<Seq<u8>, u64>(r@) == done(),
{
    let v = vec![1u8];
    assert(v@ =~= seq![1u8]);
    v
}

// ---------------------------------------------------------------------------
// Instructions
// ---------------------------------------------------------------------------

/// Outcome of `INITIALIZE`: refused once a fee setter reads back; else the
/// caller becomes the fee setter and the pair count is zero.
pub open spec fn initialize_outcome(m: StorageMap, caller: Seq<u8>) -> Outcome {
    if fetched(m, key_fee_to_setter()) is Some {
        (Err(999), m)
    } else {
        (
            done(),
            m.insert(key_fee_to_setter(), caller).insert(key_all_pairs_length(), le_bytes(0, 8)),
        )
    }
}

pub fn initialize(st: &mut Storage, caller: &[u8; 32], input: &[u8]) -> (r: Result<Vec<u8>, u64>)
    ensures
        (answer(r), final(st)@) == initialize_outcome(old(st)@, caller@),
{
    if get_storage(st, key_fee_to_setter_vec().as_slice()).is_ok() {
        return Err(TakoError::CustomError(999).code());
    }
    set_storage(st, key_fee_to_setter_vec().as_slice(), caller.as_slice());
    set_storage(st, key_all_pairs_length_vec().as_slice(), u64_le(0).as_slice());
    Ok(done_vec())
}

/// The pair count as read back: 0 when nothing is read, else the first 8
/// bytes.
pub open spec fn pair_count(m: StorageMap) -> u64 {
    let b = fetched_or_empty(m, key_all_pairs_length());
    if b.len() == 0 {
        0
    } else {
        le_nat(b.take(8)) as u64
    }
}

/// The storage once the pair is recorded under its key.
pub open spec fn pair_recorded(m: StorageMap, p: Seq<u8>, pair_id: Seq<u8>) -> StorageMap {
    m.insert(pair_slot(account_arg(p, 0), account_arg(p, 32)), pair_id)
}

/// `CREATE_PAIR` completes unless, once the pair is recorded, the pair
/// count reads back with 1 to 7 bytes or is `u64::MAX`.
pub open spec fn create_pair_completes(m: StorageMap, p: Seq<u8>, pair_id: Seq<u8>) -> bool {
    let m1 = pair_recorded(m, p, pair_id);
    let b = fetched_or_empty(m1, key_all_pairs_length());
    (b.len() == 0 || b.len() >= 8) && pair_count(m1) < u64::MAX
}

/// Outcome of `CREATE_PAIR` (`[token_a:32][token_b:32]`) with the host's
/// pair id: the sorted tokens must be different and the lower one non-zero,
/// and the pair new; records the pair, appends it to the list and answers
/// its id.
pub open spec fn create_pair_outcome(m: StorageMap, p: Seq<u8>, pair_id: Seq<u8>) -> Outcome {
    if p.len() < 64 {
        (Err(2), m)
    } else {
        let t = sorted(account_arg(p, 0), account_arg(p, 32));
        if all_zero(t.0) {
            (Err(5), m)
        } else if t.0 == t.1 {
            (Err(2), m)
        } else if fetched(m, pair_slot(account_arg(p, 0), account_arg(p, 32))) is Some {
            (Err(3), m)
        } else {
            let m1 = pair_recorded(m, p, pair_id);
            let n = pair_count(m1);
            (
                Ok(pair_id),
                m1.insert(pair_index_slot(n), pair_id).insert(
                    key_all_pairs_length(),
                    le_bytes((n + 1) as nat, 8),
                ),
            )
        }
    }
}

/// Creates a pair; `pair_id` is the host's Blake3 hash of
/// [`pair_hash_input`] of the two tokens.
pub fn create_pair(st: &mut Storage, input: &[u8], pair_id: &[u8; 32]) -> (r: Result<Vec<u8>, u64>)
    requires
        input@.len() >= 64 ==> create_pair_completes(old(st)@, input@, pair_id@),
    ensures
        (answer(r), final(st)@) == create_pair_outcome(old(st)@, input@, pair_id@),
{
    if input.len() < 64 {
        return Err(TakoError::InvalidInput.code());
    }
    let token_a = address_at(input, 0);
    let token_b = address_at(input, 32);
    let (token0, token1) = sort_tokens(&token_a, &token_b);
    if is_zero_address(&token0) {
        return Err(TakoError::CustomError(5).code());
    }
    if bytes_eq(token0.as_slice(), token1.as_slice()) {
        return Err(TakoError::CustomError(2).code());
    }
    let key = pair_key(&token0, &token1);
    proof {
        assert(token_a@ == account_arg(input@, 0));
        assert(token_b@ == account_arg(input@, 32));
        lemma_pair_slot_symmetric(token_a@, token_b@);
    }
    if get_storage(st, key.as_slice()).is_ok() {
        return Err(TakoError::CustomError(3).code());
    }
    set_storage(st, key.as_slice(), pair_id.as_slice());
    let length_bytes = match get_storage(st, key_all_pairs_length_vec().as_slice()) {
        Ok(b) => b,
        Err(_) => Vec::new(),
    };
    let length: u64 = if length_bytes.len() > 0 {
        let v = read_u64_at(length_bytes.as_slice(), 0);
        assert(length_bytes@.subrange(0, 8) =~= length_bytes@.take(8));
        v
    } else {
        0
    };
    let idx_key = pair_index_key(length);
    set_storage(st, idx_key.as_slice(), pair_id.as_slice());
    let new_pair_count = length + 1;
    set_storage(st, key_all_pairs_length_vec().as_slice(), u64_le(new_pair_count).as_slice());
    let id = copy_range(pair_id.as_slice(), 0, 32);
    assert(id@ =~= pair_id@);
    Ok(id)
}

/// Sorting the sorted tokens again changes nothing, so the key of the
/// sorted pair is the key of the pair.
pub proof fn lemma_pair_slot_symmetric(a: Seq<u8>, b: Seq<u8>)
    ensures
        pair_slot(sorted(a, b).0, sorted(a, b).1) == pair_slot(a, b),
        pair_slot(a, b) == pair_slot(b, a),
{
    lemma_lex_total(a, b);
    lemma_lex_irreflexive(a);
    if lex_less(a, b) {
        lemma_lex_asymmetric(a, b);
    }
    if lex_less(b, a) {
        lemma_lex_asymmetric(b, a);
    }
}

/// The fee setter's first 32 bytes are read back (the contract aborts when
/// fewer come back).
pub open spec fn setter_readable(m: StorageMap) -> bool {
    match fetched(m, key_fee_to_setter()) {
        Some(b) => b.len() >= 32,
        None => true,
    }
}

/// Outcome of a fee-setter action (`[account:32]`): only the current fee
/// setter may store `account` under `key`.
pub open spec fn setter_action_outcome(m: StorageMap, caller: Seq<u8>, p: Seq<u8>, key: Seq<u8>) -> Outcome {
    if p.len() < 32 {
        (Err(2), m)
    } else {
        match fetched(m, key_fee_to_setter()) {
            None => (Err(5), m),
            Some(b) => if caller != b.take(32) {
                (Err(4), m)
            } else {
                (done(), m.insert(key, account_arg(p, 0)))
            },
        }
    }
}

fn setter_action(st: &mut Storage, caller: &[u8; 32], input: &[u8], key: &[u8]) -> (r: Result<Vec<u8>, u64>)
    requires
        setter_readable(old(st)@),
    ensures
        (answer(r), final(st)@) == setter_action_outcome(old(st)@, caller@, input@, key@),
{
    if input.len() < 32 {
        return Err(TakoError::InvalidInput.code());
    }
    let setter_bytes = get_storage(st, key_fee_to_setter_vec().as_slice())?;
    let setter = address_at(setter_bytes.as_slice(), 0);
    assert(setter@ =~= setter_bytes@.take(32));
    if !bytes_eq(caller.as_slice(), setter.as_slice()) {
        return Err(TakoError::CustomError(4).code());
    }
    let account = address_at(input, 0);
    set_storage(st, key, account.as_slice());
    Ok(done_vec())
}

/// `SET_FEE_TO` (`[fee_to:32]`), by the fee setter.
pub fn set_fee_to(st: &mut Storage, caller: &[u8; 32], input: &[u8]) -> (r: Result<Vec<u8>, u64>)
    requires
        setter_readable(old(st)@),
    ensures
        (answer(r), final(st)@) == setter_action_outcome(old(st)@, caller@, input@, key_fee_to()),
{
    setter_action(st, caller, input, key_fee_to_vec().as_slice())
}

/// `SET_FEE_TO_SETTER` (`[new_setter:32]`), by the fee setter.
pub fn set_fee_to_setter(st: &mut Storage, caller: &[u8; 32], input: &[u8]) -> (r: Result<Vec<u8>, u64>)
    requires
        setter_readable(old(st)@),
    ensures
        (answer(r), final(st)@) == setter_action_outcome(
            old(st)@,
            caller@,
            input@,
            key_fee_to_setter(),
        ),
{
    setter_action(st, caller, input, key_fee_to_setter_vec().as_slice())
}

/// What a lookup of `key` answers: the bytes read back, or `NotFound`.
pub open spec fn lookup(m: StorageMap, key: Seq<u8>) -> Result<Seq<u8>, u64> {
    match fetched(m, key) {
        Some(b) => Ok(b),
        None => Err(5),
    }
}

/// Answer of `GET_PAIR` (`[token_a:32][token_b:32]`), in either order.
pub open spec fn get_pair_result(m: StorageMap, p: Seq<u8>) -> Result<Seq<u8>, u64> {
    if p.len() < 64 {
        Err(2)
    } else {
        lookup(m, pair_slot(account_arg(p, 0), account_arg(p, 32)))
    }
}

pub fn get_pair(st: &Storage, input: &[u8]) -> (r: Result<Vec<u8>, u64>)
    ensures
        answer(r) == get_pair_result(st@, input@),
{
    if input.len() < 64 {
        return Err(TakoError::InvalidInput.code());
    }
    let token_a = address_at(input, 0);
    let token_b = address_at(input, 32);
    let key = pair_key(&token_a, &token_b);
    get_storage(st, key.as_slice())
}

pub fn all_pairs_length(st: &Storage, input: &[u8]) -> (r: Result<Vec<u8>, u64>)
    ensures
        answer(r) == lookup(st@, key_all_pairs_length()),
{
    get_storage(st, key_all_pairs_length_vec().as_slice())
}

/// Answer of `FEE_TO`: the fee recipient, 32 zero bytes when none reads
/// back.
pub open spec fn fee_to_result(m: StorageMap) -> Seq<u8> {
    match fetched(m, key_fee_to()) {
        Some(b) => b,
        None => Seq::new(32, |i: int| 0u8),
    }
}

pub fn fee_to(st: &Storage, input: &[u8]) -> (r: Result<Vec<u8>, u64>)
    ensures
        answer(r) == Ok::<Seq<u8>, u64>(fee_to_result(st@)),
{
    match get_storage(st, key_fee_to_vec().as_slice()) {
        Ok(b) => Ok(b),
        Err(_) => {
            let z = vec![0u8, 0, 0, 0, 0, 0, 0, 0, 0, 0, 0, 0, 0, 0, 0, 0, 0, 0, 0, 0, 0, 0, 0, 0, 0, 0, 0, 0, 0, 0, 0, 0];
            assert(z@ =~= Seq::new(32, |i: int| 0u8));
            Ok(z)
        },
    }
}

/// Answer of `GET_PAIR_AT_INDEX` (`[index:8]`).
pub open spec fn pair_at_index_result(m: StorageMap, p: Seq<u8>) -> Result<Seq<u8>, u64> {
    if p.len() < 8 {
        Err(2)
    } else {
        lookup(m, pair_index_slot(le_nat(p.subrange(0, 8)) as u64))
    }
}

pub fn get_pair_at_index(st: &Storage, input: &[u8]) -> (r: Result<Vec<u8>, u64>)
    ensures
        answer(r) == pair_at_index_result(st@, input@),
{
    if input.len() < 8 {
        return Err(TakoError::InvalidInput.code());
    }
    let index = read_u64_at(input, 0);
    let idx_key = pair_index_key(index);
    get_storage(st, idx_key.as_slice())
}

// ---------------------------------------------------------------------------
// Dispatch
// ---------------------------------------------------------------------------

/// What an instruction needs to complete.
pub open spec fn instruction_completes(m: StorageMap, input: Seq<u8>, pair_id: Seq<u8>) -> bool {
    input.len() > 0 ==> {
        let p = input.subrange(1, input.len() as int);
        match instruction_of(input[0]) {
            Some(Instruction::CreatePair) => p.len() >= 64 ==> create_pair_completes(m, p, pair_id),
            Some(Instruction::SetFeeTo) => setter_readable(m),
            Some(Instruction::SetFeeToSetter) => setter_readable(m),
            _ => true,
        }
    }
}

/// Outcome of an instruction; `pair_id` is used by `CREATE_PAIR` only.
pub open spec fn instruction_outcome(m: StorageMap, caller: Seq<u8>, input: Seq<u8>, pair_id: Seq<u8>) -> Outcome {
    if input.len() == 0 {
        (Err(2), m)
    } else {
        let p = input.subrange(1, input.len() as int);
        match instruction_of(input[0]) {
            None => (Err(0), m),
            Some(Instruction::Initialize) => initialize_outcome(m, caller),
            Some(Instruction::CreatePair) => create_pair_outcome(m, p, pair_id),
            Some(Instruction::SetFeeTo) => setter_action_outcome(m, caller, p, key_fee_to()),
            Some(Instruction::SetFeeToSetter) => setter_action_outcome(
                m,
                caller,
                p,
                key_fee_to_setter(),
            ),
            Some(Instruction::GetPair) => (get_pair_result(m, p), m),
            Some(Instruction::AllPairsLength) => (lookup(m, key_all_pairs_length()), m),
            Some(Instruction::FeeTo) => (Ok(fee_to_result(m)), m),
            Some(Instruction::GetPairAtIndex) => (pair_at_index_result(m, p), m),
        }
    }
}

pub fn process_instruction(st: &mut Storage, caller: &[u8; 32], input: &[u8], pair_id: &[u8; 32]) -> (r: Result<Vec<u8>, u64>)
    requires
        instruction_completes(old(st)@, input@, pair_id@),
    ensures
        (answer(r), final(st)@) == instruction_outcome(old(st)@, caller@, input@, pair_id@),
{
    if input.len() == 0 {
        return Err(TakoError::InvalidInput.code());
    }
    let instruction = match Instruction::from_u8(input[0]) {
        Some(i) => i,
        None => return Err(0u64),
    };
    let args = copy_range(input, 1, input.len() - 1);
    let a = args.as_slice();
    match instruction {
        Instruction::Initialize => initialize(st, caller, a),
        Instruction::CreatePair => create_pair(st, a, pair_id),
        Instruction::SetFeeTo => set_fee_to(st, caller, a),
        Instruction::SetFeeToSetter => set_fee_to_setter(st, caller, a),
        Instruction::GetPair => get_pair(st, a),
        Instruction::AllPairsLength => all_pairs_length(st, a),
        Instruction::FeeTo => fee_to(st, a),
        Instruction::GetPairAtIndex => get_pair_at_index(st, a),
    }
}

/// The event of a created pair: the sorted tokens, the pair's id and the
/// number of pairs once it was added.
#[derive(Debug)]
pub struct PairCreated {
    pub token0: [u8; 32],
    pub token1: [u8; 32],
    pub pair: [u8; 32],
    pub pair_count: u64,
}

/// The event a successful `CREATE_PAIR` emits, given the pair count as
/// stored after it.
pub open spec fn pair_created(input: Seq<u8>, pair_id: Seq<u8>, count_after: Seq<u8>) -> (Seq<u8>, Seq<u8>, Seq<u8>, u64) {
    let p = input.subrange(1, input.len() as int);
    let t = sorted(account_arg(p, 0), account_arg(p, 32));
    (t.0, t.1, pair_id, u64_or(count_after, 0, 0))
}

/// Runs one instruction as [`process_instruction`] does, and answers the
/// event it emits: a successful `CREATE_PAIR` emits [`PairCreated`] (see
/// [`pair_created`]), any other instruction none.
pub fn execute(st: &mut Storage, caller: &[u8; 32], input: &[u8], pair_id: &[u8; 32]) -> (r: (Result<Vec<u8>, u64>, Option<PairCreated>))
    requires
        instruction_completes(old(st)@, input@, pair_id@),
    ensures
        (answer(r.0), final(st)@) == instruction_outcome(old(st)@, caller@, input@, pair_id@),
        match r.1 {
            Some(e) => r.0 is Ok && input@.len() > 0 && instruction_of(input@[0]) == Some(Instruction::CreatePair)
                && (e.token0@, e.token1@, e.pair@, e.pair_count) == pair_created(
                input@,
                pair_id@,
                fetched_or_empty(final(st)@, key_all_pairs_length()),
            ),
            None => !(r.0 is Ok && input@.len() > 0 && instruction_of(input@[0]) == Some(Instruction::CreatePair)),
        },
{
    let r = process_instruction(st, caller, input, pair_id);
    if r.is_err() || input.len() < 65 || input[0] != 1 {
        return (r, None);
    }
    let token_a = address_at(input, 1);
    let token_b = address_at(input, 33);
    let (token0, token1) = sort_tokens(&token_a, &token_b);
    let count_bytes = get_or_empty(st, key_all_pairs_length_vec().as_slice());
    let count = read_u64_or(&count_bytes, 0, 0);
    proof {
        let p = input@.subrange(1, input@.len() as int);
        assert(token_a@ =~= account_arg(p, 0));
        assert(token_b@ =~= account_arg(p, 32));
    }
    (r, Some(PairCreated { token0, token1, pair: *pair_id, pair_count: count }))
}

/// Runs the instruction in the first 128 bytes of `input` and returns its
/// status: 0 on success, else the error code.
pub fn entrypoint(st: &mut Storage, caller: &[u8; 32], input: &[u8], pair_id: &[u8; 32]) -> (r: u64)
    requires
        instruction_completes(old(st)@, crate::aave::entry_input(input@), pair_id@),
    ensures
        r == (match instruction_outcome(old(st)@, caller@, crate::aave::entry_input(input@), pair_id@).0 {
            Ok(_) => 0,
            Err(e) => e,
        }),
        final(st)@ == instruction_outcome(old(st)@, caller@, crate::aave::entry_input(input@), pair_id@).1,
{
    let len = if input.len() <= 128 {
        input.len()
    } else {
        128
    };
    let data = copy_range(input, 0, len);
    proof {
        assert(data@ =~= crate::aave::entry_input(input@));
    }
    match process_instruction(st, caller, data.as_slice(), pair_id) {
        Ok(_) => 0,
        Err(e) => e,
    }
}

// ---------------------------------------------------------------------------
// Laws
// ---------------------------------------------------------------------------

/// A pair is looked up the same in either token order.
pub proof fn law_get_pair_symmetric(m: StorageMap, a: Seq<u8>, b: Seq<u8>)
    requires
        a.len() == 32,
        b.len() == 32,
    ensures
        get_pair_result(m, a + b) == get_pair_result(m, b + a),
{
    assert((a + b).subrange(0, 32) =~= a);
    assert((a + b).subrange(32, 64) =~= b);
    assert((b + a).subrange(0, 32) =~= b);
    assert((b + a).subrange(32, 64) =~= a);
    lemma_pair_slot_symmetric(a, b);
}

/// A created pair can be found by its tokens in either order, and a second
/// creation of the same pair, in either order, is refused.
pub proof fn law_created_pair_found(m: StorageMap, p: Seq<u8>, pair_id: Seq<u8>, p2: Seq<u8>, pair_id2: Seq<u8>)
    requires
        create_pair_outcome(m, p, pair_id).0 is Ok,
        pair_id.len() == 32,
        pair_id.last() != 0,
        p2.len() >= 64,
        pair_slot(account_arg(p2, 0), account_arg(p2, 32)) == pair_slot(account_arg(p, 0), account_arg(p, 32)),
    ensures
        get_pair_result(create_pair_outcome(m, p, pair_id).1, p2) == Ok::<Seq<u8>, u64>(pair_id),
        create_pair_outcome(create_pair_outcome(m, p, pair_id).1, p2, pair_id2).0 == Err::<Seq<u8>, u64>(3),
{
    let m1 = pair_recorded(m, p, pair_id);
    let n = pair_count(m1);
    let key = pair_slot(account_arg(p, 0), account_arg(p, 32));
    lemma_le_bytes_len(n as nat, 8);
    lemma_le_bytes_len((n + 1) as nat, 8);
    assert(key.len() == 72);
    assert(pair_index_slot(n).len() == 16);
    assert(key_all_pairs_length().len() == 16);
    assert(key != pair_index_slot(n)) by {
        assert(key[5] != pair_index_slot(n)[5]);
    }
    assert(key != key_all_pairs_length());
    assert(pair_id.take(32) =~= pair_id);
    let t = sorted(account_arg(p, 0), account_arg(p, 32));
    let t2 = sorted(account_arg(p2, 0), account_arg(p2, 32));
    let key2 = pair_slot(account_arg(p2, 0), account_arg(p2, 32));
    assert(key.subrange(8, 40) =~= t.0);
    assert(key.subrange(40, 72) =~= t.1);
    assert(key2.subrange(8, 40) =~= t2.0);
    assert(key2.subrange(40, 72) =~= t2.1);
}

} // verus!

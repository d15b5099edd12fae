//! A contract factory: creates tracked contract instances of a given type
//! for their creator, lets the creator or the admin deactivate one and the
//! admin reactivate it, and lets the admin pause creation.
//!
//! An instance is stored as 34 bytes: its type, whether it is active, and
//! its creator.

use vstd::prelude::*;
use crate::bytes::{le_bytes, append_bytes, bytes_eq, address_at, u64_le};
use crate::storage::{Storage, read_len};
use crate::cells::{u64_cell, bool_cell, address_cell, read_u64, write_u64, read_address, read_bool,
    lemma_u64_cell_roundtrip};
use crate::stablecoin::StorageMap;

verus! {

pub const CONTRACT_TYPE_TOKEN: u8 = 0;
pub const CONTRACT_TYPE_NFT: u8 = 1;
pub const CONTRACT_TYPE_MULTISIG: u8 = 2;
pub const CONTRACT_TYPE_GOVERNANCE: u8 = 3;
pub const CONTRACT_TYPE_CUSTOM: u8 = 255;

pub const ERR_FACTORY_PAUSED: u64 = 1301;
pub const ERR_CONTRACT_EXISTS: u64 = 1302;
pub const ERR_CONTRACT_NOT_FOUND: u64 = 1303;
pub const ERR_NOT_AUTHORIZED: u64 = 1304;
pub const ERR_ALREADY_INACTIVE: u64 = 1305;
pub const ERR_ALREADY_ACTIVE: u64 = 1306;
pub const ERR_ONLY_ADMIN: u64 = 1307;
pub const ERR_ALREADY_PAUSED: u64 = 1308;
pub const ERR_NOT_PAUSED: u64 = 1309;
pub const ERR_STORAGE: u64 = 1310;
pub const ERR_INVALID_INPUT: u64 = 1311;

/// The length of a stored instance.
pub const RECORD_LEN: usize = 34;

// ---------------------------------------------------------------------------
// Storage
// ---------------------------------------------------------------------------

/// `admin`
pub open spec fn key_admin() -> Seq<u8> {
    seq![0x61u8, 0x64u8, 0x6du8, 0x69u8, 0x6eu8]
}

fn key_admin_vec() -> (r: Vec<u8>)
    ensures
        r@ == key_admin(),
{
    let v = vec![0x61u8, 0x64u8, 0x6du8, 0x69u8, 0x6eu8];
    assert(v@ =~= key_admin());
    v
}

/// `paused`
pub open spec fn key_paused() -> Seq<u8> {
    seq![0x70u8, 0x61u8, 0x75u8, 0x73u8, 0x65u8, 0x64u8]
}

fn key_paused_vec() -> (r: Vec<u8>)
    ensures
        r@ == key_paused(),
{
    let v = vec![0x70u8, 0x61u8, 0x75u8, 0x73u8, 0x65u8, 0x64u8];
    assert(v@ =~= key_paused());
    v
}

/// `count`
pub open spec fn key_count() -> Seq<u8> {
    seq![0x63u8, 0x6fu8, 0x75u8, 0x6eu8, 0x74u8]
}

fn key_count_vec() -> (r: Vec<u8>)
    ensures
        r@ == key_count(),
{
    let v = vec![0x63u8, 0x6fu8, 0x75u8, 0x6eu8, 0x74u8];
    assert(v@ =~= key_count());
    v
}

/// `con:` and the contract hash.
pub open spec fn contract_key(hash: Seq<u8>) -> Seq<u8> {
    seq![0x63u8, 0x6fu8, 0x6eu8, 0x3au8] + hash
}

fn contract_key_vec(hash: &[u8; 32]) -> (r: Vec<u8>)
    ensures
        r@ == contract_key(hash@),
{
    let mut v = vec![0x63u8, 0x6fu8, 0x6eu8, 0x3au8];
    append_bytes(&mut v, hash.as_slice());
    proof {
        assert(v@ =~= contract_key(hash@));
    }
    v
}

/// The keys of the factory are pairwise distinct.
proof fn lemma_keys_distinct(hash: Seq<u8>)
    requires
        hash.len() == 32,
    ensures
        contract_key(hash) != key_admin(),
        contract_key(hash) != key_paused(),
        contract_key(hash) != key_count(),
        key_admin() != key_paused(),
        key_admin() != key_count(),
        key_paused() != key_count(),
{
    assert(contract_key(hash).len() == 36);
    assert(key_admin()[0] != key_paused()[0]);
    assert(key_admin()[0] != key_count()[0]);
    assert(key_paused()[0] != key_count()[0]);
}

pub open spec fn count(m: StorageMap) -> u64 {
    match u64_cell(m.get(key_count())) {
        Some(v) => v,
        None => 0,
    }
}

/// Paused when a non-zero first byte is stored.
pub open spec fn paused(m: StorageMap) -> bool {
    bool_cell(m.get(key_paused()))
}

/// The admin, when 32 bytes are stored for it.
pub open spec fn admin(m: StorageMap) -> Option<Seq<u8>> {
    address_cell(m.get(key_admin()))
}

/// The stored instance: the first 34 bytes under its key, when there are
/// that many.
pub open spec fn instance(m: StorageMap, hash: Seq<u8>) -> Option<Seq<u8>> {
    match m.get(contract_key(hash)) {
        Some(s) => if s.len() >= 34 {
            Some(s.take(34))
        } else {
            None
        },
        None => None,
    }
}

/// Something is stored under the instance's key.
pub open spec fn hash_taken(m: StorageMap, hash: Seq<u8>) -> bool {
    read_len(m.get(contract_key(hash)), 1) > 0
}

pub open spec fn active(d: Seq<u8>) -> bool {
    d[1] != 0
}

pub open spec fn creator_of(d: Seq<u8>) -> Seq<u8> {
    d.subrange(2, 34)
}

pub fn is_paused(st: &Storage) -> (r: bool)
    ensures
        r == paused(st@),
{
    read_bool(st, key_paused_vec().as_slice())
}

pub fn read_admin(st: &Storage) -> (r: Result<[u8; 32], u64>)
    ensures
        match r {
            Ok(a) => admin(st@) == Some(a@),
            Err(e) => admin(st@) is None && e == ERR_STORAGE,
        },
{
    match read_address(st, key_admin_vec().as_slice()) {
        Some(a) => Ok(a),
        None => Err(ERR_STORAGE),
    }
}

pub fn read_count(st: &Storage) -> (r: u64)
    ensures
        r == count(st@),
{
    match read_u64(st, key_count_vec().as_slice()) {
        Some(v) => v,
        None => 0,
    }
}

fn read_instance(st: &Storage, hash: &[u8; 32]) -> (r: Option<Vec<u8>>)
    ensures
        match r {
            Some(d) => instance(st@, hash@) == Some(d@) && d@.len() == 34,
            None => instance(st@, hash@) is None,
        },
{
    let (buf, len) = st.read(contract_key_vec(hash).as_slice(), RECORD_LEN);
    if len == RECORD_LEN {
        proof {
            let s = st@.get(contract_key(hash@))->0;
            assert(buf@ =~= s.take(34));
        }
        Some(buf)
    } else {
        None
    }
}

// ---------------------------------------------------------------------------
// Operations
// ---------------------------------------------------------------------------

/// The hash of a new instance: the creator xored with the block hash, then
/// its first byte with the type and the next two with the two low bytes of
/// the count.
pub open spec fn instance_hash(creator: Seq<u8>, contract_type: u8, count: u64, block_hash: Seq<u8>) -> Seq<u8> {
    let x = Seq::new(32, |i: int| creator[i] ^ block_hash[i]);
    x.update(0, x[0] ^ contract_type).update(1, x[1] ^ ((count % 256) as u8)).update(
        2,
        x[2] ^ (((count / 256) % 256) as u8),
    )
}

pub fn generate_hash(creator: &[u8; 32], contract_type: u8, count: u64, block_hash: &[u8; 32]) -> (r: [u8; 32])
    ensures
        r@ == instance_hash(creator@, contract_type, count, block_hash@),
{
    let mut hash = [0u8; 32];
    let mut i: usize = 0;
    while i < 32
        invariant
            i <= 32,
            forall|j: int| 0 <= j < i ==> hash@[j] == creator@[j] ^ block_hash@[j],
        decreases 32 - i,
    {
        hash[i] = creator[i] ^ block_hash[i];
        i = i + 1;
    }
    let low = (count & 0xFF) as u8;
    let high = ((count >> 8) & 0xFF) as u8;
    assert(low == (count % 256) as u8) by (bit_vector)
        requires
            low == (count & 0xFF) as u8,
    ;
    assert(high == ((count / 256) % 256) as u8) by (bit_vector)
        requires
            high == ((count >> 8) & 0xFF) as u8,
    ;
    hash[0] = hash[0] ^ contract_type;
    hash[1] = hash[1] ^ low;
    hash[2] = hash[2] ^ high;
    proof {
        assert(hash@ =~= instance_hash(creator@, contract_type, count, block_hash@));
    }
    hash
}

/// `init`: stores the admin, unpauses, and zeroes the count.
pub open spec fn init_state(m: StorageMap, admin: Seq<u8>) -> StorageMap {
    m.insert(key_admin(), admin).insert(key_paused(), seq![0u8]).insert(key_count(), le_bytes(0, 8))
}

pub fn init(st: &mut Storage, admin: &[u8; 32])
    ensures
        final(st)@ == init_state(old(st)@, admin@),
{
    st.write(key_admin_vec().as_slice(), admin.as_slice());
    let zero = vec![0u8];
    assert(zero@ =~= seq![0u8]);
    st.write(key_paused_vec().as_slice(), zero.as_slice());
    write_u64(st, key_count_vec().as_slice(), 0);
}

/// A new active instance.
pub open spec fn new_instance(contract_type: u8, creator: Seq<u8>) -> Seq<u8> {
    seq![contract_type, 1u8] + creator
}

/// `create_contract`: unless paused, records a new active instance of the
/// type for the creator under a hash not yet in use (made from the creator,
/// the type, the count and the current block hash), counts it, and answers
/// the hash.
pub open spec fn create_outcome(m: StorageMap, creator: Seq<u8>, contract_type: u8, block_hash: Seq<u8>) -> (Result<Seq<u8>, u64>, StorageMap) {
    let hash = instance_hash(creator, contract_type, count(m), block_hash);
    if paused(m) {
        (Err(ERR_FACTORY_PAUSED), m)
    } else if hash_taken(m, hash) {
        (Err(ERR_CONTRACT_EXISTS), m)
    } else {
        (Ok(hash), m.insert(contract_key(hash), new_instance(contract_type, creator)).insert(
            key_count(),
            le_bytes((count(m) + 1) as nat, 8),
        ))
    }
}

pub fn create_contract(st: &mut Storage, creator: &[u8; 32], contract_type: u8, block_hash: &[u8; 32]) -> (r: Result<[u8; 32], u64>)
    requires
        count(old(st)@) + 1 <= u64::MAX,
    ensures
        final(st)@ == create_outcome(old(st)@, creator@, contract_type, block_hash@).1,
        match r {
            Ok(h) => create_outcome(old(st)@, creator@, contract_type, block_hash@).0 == Ok::<Seq<u8>, u64>(h@),
            Err(e) => create_outcome(old(st)@, creator@, contract_type, block_hash@).0 == Err::<Seq<u8>, u64>(e),
        },
{
    if is_paused(st) {
        return Err(ERR_FACTORY_PAUSED);
    }
    let count = read_count(st);
    let contract_hash = generate_hash(creator, contract_type, count, block_hash);
    let key = contract_key_vec(&contract_hash);
    let (_, len) = st.read(key.as_slice(), 1);
    if len > 0 {
        return Err(ERR_CONTRACT_EXISTS);
    }
    let mut data = vec![contract_type, 1u8];
    append_bytes(&mut data, creator.as_slice());
    proof {
        assert(data@ =~= new_instance(contract_type, creator@));
    }
    st.write(key.as_slice(), data.as_slice());
    write_u64(st, key_count_vec().as_slice(), count + 1);
    Ok(contract_hash)
}

/// `deactivate_contract`: the creator or the admin deactivates an active
/// instance.
pub open spec fn deactivate_outcome(m: StorageMap, caller: Seq<u8>, hash: Seq<u8>) -> (Result<(), u64>, StorageMap) {
    match instance(m, hash) {
        None => (Err(ERR_CONTRACT_NOT_FOUND), m),
        Some(d) => match admin(m) {
            None => (Err(ERR_STORAGE), m),
            Some(a) => if caller != creator_of(d) && caller != a {
                (Err(ERR_NOT_AUTHORIZED), m)
            } else if !active(d) {
                (Err(ERR_ALREADY_INACTIVE), m)
            } else {
                (Ok(()), m.insert(contract_key(hash), d.update(1, 0u8)))
            },
        },
    }
}

pub fn deactivate_contract(st: &mut Storage, caller: &[u8; 32], contract_hash: &[u8; 32]) -> (r: Result<(), u64>)
    ensures
        (r, final(st)@) == deactivate_outcome(old(st)@, caller@, contract_hash@),
{
    let mut data = match read_instance(st, contract_hash) {
        Some(d) => d,
        None => return Err(ERR_CONTRACT_NOT_FOUND),
    };
    let admin = match read_admin(st) {
        Ok(a) => a,
        Err(e) => return Err(e),
    };
    let creator = address_at(data.as_slice(), 2);
    if !bytes_eq(caller.as_slice(), creator.as_slice()) && !bytes_eq(caller.as_slice(), admin.as_slice()) {
        return Err(ERR_NOT_AUTHORIZED);
    }
    if data[1] == 0 {
        return Err(ERR_ALREADY_INACTIVE);
    }
    data.set(1, 0);
    st.write(contract_key_vec(contract_hash).as_slice(), data.as_slice());
    Ok(())
}

/// `reactivate_contract`: the admin reactivates an inactive instance.
pub open spec fn reactivate_outcome(m: StorageMap, caller: Seq<u8>, hash: Seq<u8>) -> (Result<(), u64>, StorageMap) {
    match admin(m) {
        None => (Err(ERR_STORAGE), m),
        Some(a) => if caller != a {
            (Err(ERR_ONLY_ADMIN), m)
        } else {
            match instance(m, hash) {
                None => (Err(ERR_CONTRACT_NOT_FOUND), m),
                Some(d) => if active(d) {
                    (Err(ERR_ALREADY_ACTIVE), m)
                } else {
                    (Ok(()), m.insert(contract_key(hash), d.update(1, 1u8)))
                },
            }
        },
    }
}

pub fn reactivate_contract(st: &mut Storage, caller: &[u8; 32], contract_hash: &[u8; 32]) -> (r: Result<(), u64>)
    ensures
        (r, final(st)@) == reactivate_outcome(old(st)@, caller@, contract_hash@),
{
    let admin = match read_admin(st) {
        Ok(a) => a,
        Err(e) => return Err(e),
    };
    if !bytes_eq(caller.as_slice(), admin.as_slice()) {
        return Err(ERR_ONLY_ADMIN);
    }
    let mut data = match read_instance(st, contract_hash) {
        Some(d) => d,
        None => return Err(ERR_CONTRACT_NOT_FOUND),
    };
    if data[1] != 0 {
        return Err(ERR_ALREADY_ACTIVE);
    }
    data.set(1, 1);
    st.write(contract_key_vec(contract_hash).as_slice(), data.as_slice());
    Ok(())
}

/// `pause` (when `on`) or `unpause`: the admin flips the pause flag, which
/// must be in the other state.
pub open spec fn pause_outcome(m: StorageMap, caller: Seq<u8>, on: bool) -> (Result<(), u64>, StorageMap) {
    match admin(m) {
        None => (Err(ERR_STORAGE), m),
        Some(a) => if caller != a {
            (Err(ERR_ONLY_ADMIN), m)
        } else if on && paused(m) {
            (Err(ERR_ALREADY_PAUSED), m)
        } else if !on && !paused(m) {
            (Err(ERR_NOT_PAUSED), m)
        } else {
            (Ok(()), m.insert(key_paused(), if on { seq![1u8] } else { seq![0u8] }))
        },
    }
}

fn set_pause(st: &mut Storage, caller: &[u8; 32], on: bool) -> (r: Result<(), u64>)
    ensures
        (r, final(st)@) == pause_outcome(old(st)@, caller@, on),
{
    let admin = match read_admin(st) {
        Ok(a) => a,
        Err(e) => return Err(e),
    };
    if !bytes_eq(caller.as_slice(), admin.as_slice()) {
        return Err(ERR_ONLY_ADMIN);
    }
    let paused = is_paused(st);
    if on && paused {
        return Err(ERR_ALREADY_PAUSED);
    }
    if !on && !paused {
        return Err(ERR_NOT_PAUSED);
    }
    let flag: Vec<u8> = if on {
        vec![1u8]
    } else {
        vec![0u8]
    };
    proof {
        assert(flag@ =~= if on { seq![1u8] } else { seq![0u8] });
    }
    st.write(key_paused_vec().as_slice(), flag.as_slice());
    Ok(())
}

pub fn pause(st: &mut Storage, caller: &[u8; 32]) -> (r: Result<(), u64>)
    ensures
        (r, final(st)@) == pause_outcome(old(st)@, caller@, true),
{
    set_pause(st, caller, true)
}

pub fn unpause(st: &mut Storage, caller: &[u8; 32]) -> (r: Result<(), u64>)
    ensures
        (r, final(st)@) == pause_outcome(old(st)@, caller@, false),
{
    set_pause(st, caller, false)
}

// ---------------------------------------------------------------------------
// Instructions
// ---------------------------------------------------------------------------

pub open spec fn account(input: Seq<u8>, off: int) -> Seq<u8> {
    input.subrange(off, off + 32)
}

/// An instruction: `0` initializes (`[admin:32]`), `1` creates an instance
/// (`[creator:32][type:1]`, answering its hash), `2` deactivates and `3`
/// reactivates one (`[caller:32][hash:32]`), `4` pauses and `5` unpauses
/// (`[caller:32]`), `6` answers the count in 8 bytes; a short input is
/// invalid, an empty input or another opcode does nothing.  `block_hash` is
/// the hash of the current block.
pub open spec fn instruction_outcome(m: StorageMap, input: Seq<u8>, block_hash: Seq<u8>) -> (Result<Seq<u8>, u64>, StorageMap) {
    let unit = |o: (Result<(), u64>, StorageMap)|
        (match o.0 {
            Ok(_) => Ok(Seq::<u8>::empty()),
            Err(e) => Err(e),
        }, o.1);
    if input.len() == 0 {
        (Ok(Seq::empty()), m)
    } else if input[0] == 0 {
        if input.len() < 33 {
            (Err(ERR_INVALID_INPUT), m)
        } else {
            (Ok(Seq::empty()), init_state(m, account(input, 1)))
        }
    } else if input[0] == 1 {
        if input.len() < 34 {
            (Err(ERR_INVALID_INPUT), m)
        } else {
            create_outcome(m, account(input, 1), input[33], block_hash)
        }
    } else if input[0] == 2 || input[0] == 3 {
        if input.len() < 65 {
            (Err(ERR_INVALID_INPUT), m)
        } else if input[0] == 2 {
            unit(deactivate_outcome(m, account(input, 1), account(input, 33)))
        } else {
            unit(reactivate_outcome(m, account(input, 1), account(input, 33)))
        }
    } else if input[0] == 4 || input[0] == 5 {
        if input.len() < 33 {
            (Err(ERR_INVALID_INPUT), m)
        } else {
            unit(pause_outcome(m, account(input, 1), input[0] == 4))
        }
    } else if input[0] == 6 {
        (Ok(le_bytes(count(m) as nat, 8)), m)
    } else {
        (Ok(Seq::empty()), m)
    }
}

fn no_data(r: Result<(), u64>) -> (o: Result<Vec<u8>, u64>)
    ensures
        match r {
            Ok(_) => o matches Ok(v) && v@ == Seq::<u8>::empty(),
            Err(e) => o == Err::<Vec<u8>, u64>(e),
        },
{
    match r {
        Ok(_) => Ok(Vec::new()),
        Err(e) => Err(e),
    }
}

pub fn process_instruction(st: &mut Storage, input: &[u8], block_hash: &[u8; 32]) -> (r: Result<Vec<u8>, u64>)
    requires
        input@.len() > 0 && input@[0] == 1 && input@.len() >= 34 ==> count(old(st)@) + 1 <= u64::MAX,
    ensures
        final(st)@ == instruction_outcome(old(st)@, input@, block_hash@).1,
        match r {
            Ok(v) => instruction_outcome(old(st)@, input@, block_hash@).0 == Ok::<Seq<u8>, u64>(v@),
            Err(e) => instruction_outcome(old(st)@, input@, block_hash@).0 == Err::<Seq<u8>, u64>(e),
        },
{
    if input.len() == 0 {
        return Ok(Vec::new());
    }
    match input[0] {
        0 => {
            if input.len() < 33 {
                return Err(ERR_INVALID_INPUT);
            }
            let admin = address_at(input, 1);
            init(st, &admin);
            Ok(Vec::new())
        },
        1 => {
            if input.len() < 34 {
                return Err(ERR_INVALID_INPUT);
            }
            let creator = address_at(input, 1);
            match create_contract(st, &creator, input[33], block_hash) {
                Ok(h) => {
                    let mut v = Vec::new();
                    append_bytes(&mut v, h.as_slice());
                    proof {
                        assert(v@ =~= h@);
                    }
                    Ok(v)
                },
                Err(e) => Err(e),
            }
        },
        2 | 3 => {
            if input.len() < 65 {
                return Err(ERR_INVALID_INPUT);
            }
            let caller = address_at(input, 1);
            let contract_hash = address_at(input, 33);
            if input[0] == 2 {
                no_data(deactivate_contract(st, &caller, &contract_hash))
            } else {
                no_data(reactivate_contract(st, &caller, &contract_hash))
            }
        },
        4 | 5 => {
            if input.len() < 33 {
                return Err(ERR_INVALID_INPUT);
            }
            let caller = address_at(input, 1);
            if input[0] == 4 {
                no_data(pause(st, &caller))
            } else {
                no_data(unpause(st, &caller))
            }
        },
        6 => Ok(u64_le(read_count(st))),
        _ => Ok(Vec::new()),
    }
}

// ---------------------------------------------------------------------------
// Laws
// ---------------------------------------------------------------------------

/// While the factory is paused nothing is created.
pub proof fn law_paused_blocks_creation(m: StorageMap, creator: Seq<u8>, contract_type: u8, block_hash: Seq<u8>)
    requires
        paused(m),
    ensures
        create_outcome(m, creator, contract_type, block_hash) == (Err::<Seq<u8>, u64>(ERR_FACTORY_PAUSED), m),
{
}

/// A created instance is active, records its type and creator, and its hash
/// cannot be created again.
pub proof fn law_created_instance(m: StorageMap, creator: Seq<u8>, contract_type: u8, block_hash: Seq<u8>)
    requires
        creator.len() == 32,
        block_hash.len() == 32,
        create_outcome(m, creator, contract_type, block_hash).0 is Ok,
    ensures
        ({
            let hash = create_outcome(m, creator, contract_type, block_hash).0->Ok_0;
            let m2 = create_outcome(m, creator, contract_type, block_hash).1;
            &&& instance(m2, hash) == Some(new_instance(contract_type, creator))
            &&& active(instance(m2, hash)->0)
            &&& creator_of(instance(m2, hash)->0) == creator
            &&& hash_taken(m2, hash)
            &&& count(m2) == count(m) + 1 || count(m) == u64::MAX
        }),
{
    let hash = instance_hash(creator, contract_type, count(m), block_hash);
    lemma_keys_distinct(hash);
    let d = new_instance(contract_type, creator);
    assert(d.take(34) =~= d);
    assert(creator_of(d) =~= creator);
    if count(m) < u64::MAX {
        lemma_u64_cell_roundtrip((count(m) + 1) as u64);
    }
}

/// Deactivating and then reactivating an instance restores it, marked
/// active with the flag byte 1 that creation writes.
pub proof fn law_deactivate_reactivate(m: StorageMap, caller: Seq<u8>, admin_caller: Seq<u8>, hash: Seq<u8>)
    requires
        hash.len() == 32,
        deactivate_outcome(m, caller, hash).0 is Ok,
        reactivate_outcome(deactivate_outcome(m, caller, hash).1, admin_caller, hash).0 is Ok,
    ensures
        instance(reactivate_outcome(deactivate_outcome(m, caller, hash).1, admin_caller, hash).1, hash)
            == Some(instance(m, hash)->0.update(1, 1u8)),
        admin(m) == Some(admin_caller),
{
    lemma_keys_distinct(hash);
    let d = instance(m, hash)->0;
    assert(d.update(1, 0u8).take(34) =~= d.update(1, 0u8));
    assert(d.update(1, 0u8).update(1, 1u8).take(34) =~= d.update(1, 0u8).update(1, 1u8));
    assert(d.update(1, 0u8).update(1, 1u8) =~= d.update(1, 1u8));
}

} // verus!

//! On-chain governance: an admin assigns voting power, anyone proposes,
//! holders of voting power vote once per proposal while it is open, and a
//! proposal that reached quorum with a majority is executed after its
//! voting period; its proposer or the admin may cancel it until then.
//!
//! A proposal is stored as 57 bytes: its status, the votes for and against,
//! the end of voting (three little-endian `u64`s) and the proposer.

use vstd::prelude::*;
use crate::bytes::{le_bytes, le_nat, append_bytes, bytes_eq, address_at, read_u64_at, copy_range,
    u64_le, lemma_le_bytes_len};
use crate::storage::{Storage, read_len};
use crate::cells::{u64_cell, address_cell, read_u64, write_u64, read_address, lemma_u64_cell_roundtrip};
use crate::stablecoin::StorageMap;

verus! {

pub const STATUS_ACTIVE: u8 = 1;
pub const STATUS_SUCCEEDED: u8 = 2;
pub const STATUS_DEFEATED: u8 = 3;
pub const STATUS_EXECUTED: u8 = 4;
pub const STATUS_CANCELLED: u8 = 5;

pub const ERR_ONLY_ADMIN: u64 = 1401;
pub const ERR_PROPOSAL_NOT_FOUND: u64 = 1402;
pub const ERR_VOTING_NOT_STARTED: u64 = 1403;
pub const ERR_VOTING_ENDED: u64 = 1404;
pub const ERR_ALREADY_VOTED: u64 = 1405;
pub const ERR_INSUFFICIENT_VOTING_POWER: u64 = 1406;
pub const ERR_CANNOT_EXECUTE: u64 = 1407;
pub const ERR_NOT_AUTHORIZED: u64 = 1408;
pub const ERR_STORAGE: u64 = 1409;
pub const ERR_INVALID_INPUT: u64 = 1410;

/// The length of a stored proposal.
pub const RECORD_LEN: usize = 57;

// ---------------------------------------------------------------------------
// Storage
// ---------------------------------------------------------------------------

/// `admin`
pub open spec fn key_admin() -> Seq<u8> {
    seq![0x61u8, 0x64u8, 0x6du8, 0x69u8, 0x6eu8]
}

fn key_admin_vec() -> (r: Vec<u8>)
    ensures
        r@ == key_admin(),
{
    let v = vec![0x61u8, 0x64u8, 0x6du8, 0x69u8, 0x6eu8];
    assert(v@ =~= key_admin());
    v
}

/// `quorum`
pub open spec fn key_quorum() -> Seq<u8> {
    seq![0x71u8, 0x75u8, 0x6fu8, 0x72u8, 0x75u8, 0x6du8]
}

fn key_quorum_vec() -> (r: Vec<u8>)
    ensures
        r@ == key_quorum(),
{
    let v = vec![0x71u8, 0x75u8, 0x6fu8, 0x72u8, 0x75u8, 0x6du8];
    assert(v@ =~= key_quorum());
    v
}

/// `vp`
pub open spec fn key_voting_period() -> Seq<u8> {
    seq![0x76u8, 0x70u8]
}

fn key_voting_period_vec() -> (r: Vec<u8>)
    ensures
        r@ == key_voting_period(),
{
    let v = vec![0x76u8, 0x70u8];
    assert(v@ =~= key_voting_period());
    v
}

/// `pc`
pub open spec fn key_proposal_count() -> Seq<u8> {
    seq![0x70u8, 0x63u8]
}

fn key_proposal_count_vec() -> (r: Vec<u8>)
    ensures
        r@ == key_proposal_count(),
{
    let v = vec![0x70u8, 0x63u8];
    assert(v@ =~= key_proposal_count());
    v
}

/// `pow:` and the user.
pub open spec fn voting_power_key(user: Seq<u8>) -> Seq<u8> {
    seq![0x70u8, 0x6fu8, 0x77u8, 0x3au8] + user
}

fn voting_power_key_vec(user: &[u8; 32]) -> (r: Vec<u8>)
    ensures
        r@ == voting_power_key(user@),
{
    let mut v = vec![0x70u8, 0x6fu8, 0x77u8, 0x3au8];
    append_bytes(&mut v, user.as_slice());
    proof {
        assert(v@ =~= voting_power_key(user@));
    }
    v
}

/// `prop:` and the proposal id.
pub open spec fn proposal_key(id: Seq<u8>) -> Seq<u8> {
    seq![0x70u8, 0x72u8, 0x6fu8, 0x70u8, 0x3au8] + id
}

fn proposal_key_vec(id: &[u8; 32]) -> (r: Vec<u8>)
    ensures
        r@ == proposal_key(id@),
{
    let mut v = vec![0x70u8, 0x72u8, 0x6fu8, 0x70u8, 0x3au8];
    append_bytes(&mut v, id.as_slice());
    proof {
        assert(v@ =~= proposal_key(id@));
    }
    v
}

/// `vote:`, the proposal id and the voter.
pub open spec fn vote_key(proposal_id: Seq<u8>, voter: Seq<u8>) -> Seq<u8> {
    seq![0x76u8, 0x6fu8, 0x74u8, 0x65u8, 0x3au8] + proposal_id + voter
}

fn vote_key_vec(proposal_id: &[u8; 32], voter: &[u8; 32]) -> (r: Vec<u8>)
    ensures
        r@ == vote_key(proposal_id@, voter@),
{
    let mut v = vec![0x76u8, 0x6fu8, 0x74u8, 0x65u8, 0x3au8];
    append_bytes(&mut v, proposal_id.as_slice());
    append_bytes(&mut v, voter.as_slice());
    proof {
        assert(v@ =~= vote_key(proposal_id@, voter@));
    }
    v
}

/// The keys of the contract are pairwise distinct.
proof fn lemma_keys_distinct(a: Seq<u8>, b: Seq<u8>, c: Seq<u8>)
    requires
        a.len() == 32,
        b.len() == 32,
        c.len() == 32,
    ensures
        vote_key(a, b) != proposal_key(c),
        vote_key(a, b) != voting_power_key(c),
        proposal_key(a) != voting_power_key(b),
        proposal_key(a) != key_proposal_count(),
        proposal_key(a) != key_quorum(),
        proposal_key(a) != key_admin(),
        vote_key(a, b) != key_admin(),
        key_admin() != key_quorum(),
        key_admin() != key_voting_period(),
        key_admin() != key_proposal_count(),
        key_quorum() != key_voting_period(),
        key_quorum() != key_proposal_count(),
        key_voting_period() != key_proposal_count(),
{
    assert(vote_key(a, b).len() != proposal_key(c).len());
    assert(vote_key(a, b).len() != voting_power_key(c).len());
    assert(proposal_key(a).len() != voting_power_key(b).len());
    assert(proposal_key(a).len() != key_proposal_count().len());
    assert(proposal_key(a).len() != key_quorum().len());
    assert(proposal_key(a).len() != key_admin().len());
    assert(vote_key(a, b).len() != key_admin().len());
    assert(key_admin().len() != key_quorum().len());
    assert(key_admin().len() != key_voting_period().len());
    assert(key_admin().len() != key_proposal_count().len());
    assert(key_quorum().len() != key_voting_period().len());
    assert(key_quorum().len() != key_proposal_count().len());
    assert(key_voting_period()[0] != key_proposal_count()[0]);
}

/// A stored `u64`: 0 unless at least 8 bytes are stored.
pub open spec fn stored(m: StorageMap, k: Seq<u8>) -> u64 {
    match u64_cell(m.get(k)) {
        Some(v) => v,
        None => 0,
    }
}

pub open spec fn quorum(m: StorageMap) -> u64 {
    stored(m, key_quorum())
}

pub open spec fn voting_period(m: StorageMap) -> u64 {
    stored(m, key_voting_period())
}

pub open spec fn proposal_count(m: StorageMap) -> u64 {
    stored(m, key_proposal_count())
}

pub open spec fn voting_power(m: StorageMap, user: Seq<u8>) -> u64 {
    stored(m, voting_power_key(user))
}

/// The admin, when 32 bytes are stored for it.
pub open spec fn admin(m: StorageMap) -> Option<Seq<u8>> {
    address_cell(m.get(key_admin()))
}

/// The stored proposal: the first 57 bytes stored under its key, when
/// there are that many.
pub open spec fn record(m: StorageMap, id: Seq<u8>) -> Option<Seq<u8>> {
    match m.get(proposal_key(id)) {
        Some(s) => if s.len() >= 57 {
            Some(s.take(57))
        } else {
            None
        },
        None => None,
    }
}

/// Whether the voter has voted on the proposal: something is stored under
/// its vote key.
pub open spec fn has_voted(m: StorageMap, id: Seq<u8>, voter: Seq<u8>) -> bool {
    read_len(m.get(vote_key(id, voter)), 1) > 0
}

/// The `u64` at `off` in a record.
pub open spec fn field(d: Seq<u8>, off: int) -> u64 {
    le_nat(d.subrange(off, off + 8)) as u64
}

pub open spec fn votes_for(d: Seq<u8>) -> u64 {
    field(d, 1)
}

pub open spec fn votes_against(d: Seq<u8>) -> u64 {
    field(d, 9)
}

pub open spec fn end_time(d: Seq<u8>) -> u64 {
    field(d, 17)
}

pub open spec fn proposer(d: Seq<u8>) -> Seq<u8> {
    d.subrange(25, 57)
}

/// A record with the `u64` at `off` replaced by `v`.
pub open spec fn with_field(d: Seq<u8>, off: int, v: u64) -> Seq<u8> {
    d.subrange(0, off) + le_bytes(v as nat, 8) + d.subrange(off + 8, d.len() as int)
}

/// A record with its status replaced.
pub open spec fn with_status(d: Seq<u8>, status: u8) -> Seq<u8> {
    d.update(0, status)
}

/// A new proposal's record.
pub open spec fn new_record(end: u64, proposer: Seq<u8>) -> Seq<u8> {
    seq![STATUS_ACTIVE] + le_bytes(0, 8) + le_bytes(0, 8) + le_bytes(end as nat, 8) + proposer
}

fn read_stored(st: &Storage, key: &[u8]) -> (r: u64)
    ensures
        r == stored(st@, key@),
{
    match read_u64(st, key) {
        Some(v) => v,
        None => 0,
    }
}

pub fn read_voting_power(st: &Storage, user: &[u8; 32]) -> (r: u64)
    ensures
        r == voting_power(st@, user@),
{
    read_stored(st, voting_power_key_vec(user).as_slice())
}

pub fn read_admin(st: &Storage) -> (r: Result<[u8; 32], u64>)
    ensures
        match r {
            Ok(a) => admin(st@) == Some(a@),
            Err(e) => admin(st@) is None && e == ERR_STORAGE,
        },
{
    match read_address(st, key_admin_vec().as_slice()) {
        Some(a) => Ok(a),
        None => Err(ERR_STORAGE),
    }
}

fn read_record(st: &Storage, id: &[u8; 32]) -> (r: Option<Vec<u8>>)
    ensures
        match r {
            Some(d) => record(st@, id@) == Some(d@) && d@.len() == 57,
            None => record(st@, id@) is None,
        },
{
    let (buf, len) = st.read(proposal_key_vec(id).as_slice(), RECORD_LEN);
    if len == RECORD_LEN {
        proof {
            let s = st@.get(proposal_key(id@))->0;
            assert(buf@ =~= s.take(57));
        }
        Some(buf)
    } else {
        None
    }
}

fn write_field(d: &[u8], off: usize, v: u64) -> (r: Vec<u8>)
    requires
        off + 8 <= d@.len(),
    ensures
        r@ == with_field(d@, off as int, v),
        r@.len() == d@.len(),
{
    let n = d.len();
    let mut r = copy_range(d, 0, off);
    append_bytes(&mut r, u64_le(v).as_slice());
    append_bytes(&mut r, copy_range(d, off + 8, n - off - 8).as_slice());
    r
}

// ---------------------------------------------------------------------------
// Operations
// ---------------------------------------------------------------------------

/// `init`: stores the admin, the quorum and the voting period, and zeroes
/// the proposal count.
pub open spec fn init_state(m: StorageMap, admin: Seq<u8>, quorum: u64, period: u64) -> StorageMap {
    m.insert(key_admin(), admin).insert(key_quorum(), le_bytes(quorum as nat, 8)).insert(
        key_voting_period(),
        le_bytes(period as nat, 8),
    ).insert(key_proposal_count(), le_bytes(0, 8))
}

pub fn init(st: &mut Storage, admin: &[u8; 32], quorum: u64, voting_period: u64)
    ensures
        final(st)@ == init_state(old(st)@, admin@, quorum, voting_period),
{
    st.write(key_admin_vec().as_slice(), admin.as_slice());
    write_u64(st, key_quorum_vec().as_slice(), quorum);
    write_u64(st, key_voting_period_vec().as_slice(), voting_period);
    write_u64(st, key_proposal_count_vec().as_slice(), 0);
}

/// `set_voting_power`: the admin sets a user's voting power.
pub open spec fn set_voting_power_outcome(m: StorageMap, caller: Seq<u8>, user: Seq<u8>, power: u64) -> (Result<(), u64>, StorageMap) {
    match admin(m) {
        None => (Err(ERR_STORAGE), m),
        Some(a) => if caller != a {
            (Err(ERR_ONLY_ADMIN), m)
        } else {
            (Ok(()), m.insert(voting_power_key(user), le_bytes(power as nat, 8)))
        },
    }
}

pub fn set_voting_power(st: &mut Storage, caller: &[u8; 32], user: &[u8; 32], power: u64) -> (r: Result<(), u64>)
    ensures
        (r, final(st)@) == set_voting_power_outcome(old(st)@, caller@, user@, power),
{
    let admin = match read_admin(st) {
        Ok(a) => a,
        Err(e) => return Err(e),
    };
    if !bytes_eq(caller.as_slice(), admin.as_slice()) {
        return Err(ERR_ONLY_ADMIN);
    }
    write_u64(st, voting_power_key_vec(user).as_slice(), power);
    Ok(())
}

/// The id of the proposal numbered `count` by `proposer`: the proposer with
/// its first two bytes xored with the two low bytes of the count.
pub open spec fn proposal_id(proposer: Seq<u8>, count: u64) -> Seq<u8> {
    proposer.update(0, proposer[0] ^ ((count % 256) as u8)).update(1, proposer[1] ^ (((count / 256) % 256) as u8))
}

/// The inputs on which `create_proposal` runs to its end: neither the end
/// of voting nor the next count overflows.
pub open spec fn create_proposal_completes(m: StorageMap, current_time: u64) -> bool {
    current_time + voting_period(m) <= u64::MAX && proposal_count(m) + 1 <= u64::MAX
}

/// `create_proposal`: stores an active proposal whose voting ends a voting
/// period from now, counts it, and answers its id.
pub open spec fn create_proposal_outcome(m: StorageMap, proposer: Seq<u8>, current_time: u64) -> (Seq<u8>, StorageMap) {
    let count = proposal_count(m);
    let id = proposal_id(proposer, count);
    let end = (current_time + voting_period(m)) as u64;
    (id, m.insert(proposal_key(id), new_record(end, proposer)).insert(
        key_proposal_count(),
        le_bytes((count + 1) as nat, 8),
    ))
}

fn make_proposal_id(proposer: &[u8; 32], count: u64) -> (r: [u8; 32])
    ensures
        r@ == proposal_id(proposer@, count),
{
    let mut id = [0u8; 32];
    let mut i: usize = 0;
    while i < 32
        invariant
            i <= 32,
            forall|j: int| 0 <= j < i ==> id@[j] == proposer@[j],
        decreases 32 - i,
    {
        id[i] = proposer[i];
        i = i + 1;
    }
    let low = (count & 0xFF) as u8;
    let high = ((count >> 8) & 0xFF) as u8;
    assert(low == (count % 256) as u8) by (bit_vector)
        requires
            low == (count & 0xFF) as u8,
    ;
    assert(high == ((count / 256) % 256) as u8) by (bit_vector)
        requires
            high == ((count >> 8) & 0xFF) as u8,
    ;
    id[0] = id[0] ^ low;
    id[1] = id[1] ^ high;
    proof {
        assert(id@ =~= proposal_id(proposer@, count));
    }
    id
}

pub fn create_proposal(st: &mut Storage, proposer: &[u8; 32], current_time: u64) -> (r: [u8; 32])
    requires
        create_proposal_completes(old(st)@, current_time),
    ensures
        (r@, final(st)@) == create_proposal_outcome(old(st)@, proposer@, current_time),
{
    let count = read_stored(st, key_proposal_count_vec().as_slice());
    let voting_period = read_stored(st, key_voting_period_vec().as_slice());
    let proposal_id = make_proposal_id(proposer, count);
    let end_time = current_time + voting_period;
    let mut data: Vec<u8> = vec![STATUS_ACTIVE];
    append_bytes(&mut data, u64_le(0).as_slice());
    append_bytes(&mut data, u64_le(0).as_slice());
    append_bytes(&mut data, u64_le(end_time).as_slice());
    append_bytes(&mut data, proposer.as_slice());
    proof {
        assert(data@ =~= new_record(end_time, proposer@));
    }
    st.write(proposal_key_vec(&proposal_id).as_slice(), data.as_slice());
    write_u64(st, key_proposal_count_vec().as_slice(), count + 1);
    proposal_id
}

/// The inputs on which `vote` runs to its end: the tally it adds to does
/// not overflow.
pub open spec fn vote_completes(m: StorageMap, voter: Seq<u8>, id: Seq<u8>, support: bool) -> bool {
    match record(m, id) {
        Some(d) => (if support {
            votes_for(d)
        } else {
            votes_against(d)
        }) + voting_power(m, voter) <= u64::MAX,
        None => true,
    }
}

/// `vote`: on an active proposal whose voting has not ended, a voter with
/// voting power who has not voted adds it to the votes for or against, and
/// is recorded as having voted.
pub open spec fn vote_outcome(m: StorageMap, voter: Seq<u8>, id: Seq<u8>, support: bool, current_time: u64) -> (Result<(), u64>, StorageMap) {
    match record(m, id) {
        None => (Err(ERR_PROPOSAL_NOT_FOUND), m),
        Some(d) => if d[0] != STATUS_ACTIVE || current_time >= end_time(d) {
            (Err(ERR_VOTING_ENDED), m)
        } else if has_voted(m, id, voter) {
            (Err(ERR_ALREADY_VOTED), m)
        } else if voting_power(m, voter) == 0 {
            (Err(ERR_INSUFFICIENT_VOTING_POWER), m)
        } else {
            let power = voting_power(m, voter);
            let d2 = if support {
                with_field(d, 1, (votes_for(d) + power) as u64)
            } else {
                with_field(d, 9, (votes_against(d) + power) as u64)
            };
            (Ok(()), m.insert(proposal_key(id), d2).insert(vote_key(id, voter), seq![1u8]))
        },
    }
}

pub fn vote(st: &mut Storage, voter: &[u8; 32], proposal_id: &[u8; 32], support: bool, current_time: u64) -> (r: Result<(), u64>)
    requires
        vote_completes(old(st)@, voter@, proposal_id@, support),
    ensures
        (r, final(st)@) == vote_outcome(old(st)@, voter@, proposal_id@, support, current_time),
{
    let data = match read_record(st, proposal_id) {
        Some(d) => d,
        None => return Err(ERR_PROPOSAL_NOT_FOUND),
    };
    if data[0] != STATUS_ACTIVE {
        return Err(ERR_VOTING_ENDED);
    }
    let end = read_u64_at(data.as_slice(), 17);
    if current_time >= end {
        return Err(ERR_VOTING_ENDED);
    }
    let vote_key = vote_key_vec(proposal_id, voter);
    let (_, voted_len) = st.read(vote_key.as_slice(), 1);
    if voted_len > 0 {
        return Err(ERR_ALREADY_VOTED);
    }
    let voting_power = read_voting_power(st, voter);
    if voting_power == 0 {
        return Err(ERR_INSUFFICIENT_VOTING_POWER);
    }
    let updated = if support {
        let votes = read_u64_at(data.as_slice(), 1);
        write_field(data.as_slice(), 1, votes + voting_power)
    } else {
        let votes = read_u64_at(data.as_slice(), 9);
        write_field(data.as_slice(), 9, votes + voting_power)
    };
    st.write(proposal_key_vec(proposal_id).as_slice(), updated.as_slice());
    let one = vec![1u8];
    assert(one@ =~= seq![1u8]);
    st.write(vote_key.as_slice(), one.as_slice());
    Ok(())
}

/// `execute_proposal`: once voting has ended, a proposal whose votes for
/// reach the quorum and exceed the votes against is marked executed.
pub open spec fn execute_outcome(m: StorageMap, id: Seq<u8>, current_time: u64) -> (Result<(), u64>, StorageMap) {
    match record(m, id) {
        None => (Err(ERR_PROPOSAL_NOT_FOUND), m),
        Some(d) => if current_time < end_time(d) {
            (Err(ERR_VOTING_NOT_STARTED), m)
        } else if votes_for(d) < quorum(m) || votes_for(d) <= votes_against(d) {
            (Err(ERR_CANNOT_EXECUTE), m)
        } else {
            (Ok(()), m.insert(proposal_key(id), with_status(d, STATUS_EXECUTED)))
        },
    }
}

pub fn execute_proposal(st: &mut Storage, proposal_id: &[u8; 32], current_time: u64) -> (r: Result<(), u64>)
    ensures
        (r, final(st)@) == execute_outcome(old(st)@, proposal_id@, current_time),
{
    let mut data = match read_record(st, proposal_id) {
        Some(d) => d,
        None => return Err(ERR_PROPOSAL_NOT_FOUND),
    };
    let end = read_u64_at(data.as_slice(), 17);
    if current_time < end {
        return Err(ERR_VOTING_NOT_STARTED);
    }
    let votes_for = read_u64_at(data.as_slice(), 1);
    let votes_against = read_u64_at(data.as_slice(), 9);
    let quorum = read_stored(st, key_quorum_vec().as_slice());
    if votes_for < quorum || votes_for <= votes_against {
        return Err(ERR_CANNOT_EXECUTE);
    }
    data.set(0, STATUS_EXECUTED);
    st.write(proposal_key_vec(proposal_id).as_slice(), data.as_slice());
    Ok(())
}

/// `cancel_proposal`: the proposer or the admin marks a proposal that was
/// not executed as cancelled.
pub open spec fn cancel_outcome(m: StorageMap, caller: Seq<u8>, id: Seq<u8>) -> (Result<(), u64>, StorageMap) {
    match record(m, id) {
        None => (Err(ERR_PROPOSAL_NOT_FOUND), m),
        Some(d) => match admin(m) {
            None => (Err(ERR_STORAGE), m),
            Some(a) => if caller != proposer(d) && caller != a {
                (Err(ERR_NOT_AUTHORIZED), m)
            } else if d[0] == STATUS_EXECUTED {
                (Err(ERR_CANNOT_EXECUTE), m)
            } else {
                (Ok(()), m.insert(proposal_key(id), with_status(d, STATUS_CANCELLED)))
            },
        },
    }
}

pub fn cancel_proposal(st: &mut Storage, caller: &[u8; 32], proposal_id: &[u8; 32]) -> (r: Result<(), u64>)
    ensures
        (r, final(st)@) == cancel_outcome(old(st)@, caller@, proposal_id@),
{
    let mut data = match read_record(st, proposal_id) {
        Some(d) => d,
        None => return Err(ERR_PROPOSAL_NOT_FOUND),
    };
    let admin = match read_admin(st) {
        Ok(a) => a,
        Err(e) => return Err(e),
    };
    let proposer = address_at(data.as_slice(), 25);
    if !bytes_eq(caller.as_slice(), proposer.as_slice()) && !bytes_eq(caller.as_slice(), admin.as_slice()) {
        return Err(ERR_NOT_AUTHORIZED);
    }
    if data[0] == STATUS_EXECUTED {
        return Err(ERR_CANNOT_EXECUTE);
    }
    data.set(0, STATUS_CANCELLED);
    st.write(proposal_key_vec(proposal_id).as_slice(), data.as_slice());
    Ok(())
}


// ---------------------------------------------------------------------------
// Instructions
// ---------------------------------------------------------------------------

pub open spec fn word(input: Seq<u8>, off: int) -> u64 {
    le_nat(input.subrange(off, off + 8)) as u64
}

pub open spec fn account(input: Seq<u8>, off: int) -> Seq<u8> {
    input.subrange(off, off + 32)
}

/// The inputs on which an instruction runs to its end.
pub open spec fn instruction_completes(m: StorageMap, input: Seq<u8>) -> bool {
    if input.len() == 0 {
        true
    } else if input[0] == 2 && input.len() >= 41 {
        create_proposal_completes(m, word(input, 33))
    } else if input[0] == 3 && input.len() >= 74 {
        vote_completes(m, account(input, 1), account(input, 33), input[65] != 0)
    } else {
        true
    }
}

/// An instruction: `0` initializes (`[admin:32][quorum:8][period:8]`), `1`
/// sets voting power (`[caller:32][user:32][power:8]`), `2` creates a
/// proposal (`[proposer:32][now:8]`, answering its id), `3` votes
/// (`[voter:32][id:32][support:1][now:8]`), `4` executes (`[caller:32]
/// [id:32][now:8]`), `5` cancels (`[caller:32][id:32]`); a short input is
/// invalid, an empty input or another opcode does nothing.
pub open spec fn instruction_outcome(m: StorageMap, input: Seq<u8>) -> (Result<Seq<u8>, u64>, StorageMap) {
    let unit = |o: (Result<(), u64>, StorageMap)|
        (match o.0 {
            Ok(_) => Ok(Seq::<u8>::empty()),
            Err(e) => Err(e),
        }, o.1);
    if input.len() == 0 {
        (Ok(Seq::empty()), m)
    } else if input[0] == 0 {
        if input.len() < 49 {
            (Err(ERR_INVALID_INPUT), m)
        } else {
            (Ok(Seq::empty()), init_state(m, account(input, 1), word(input, 33), word(input, 41)))
        }
    } else if input[0] == 1 {
        if input.len() < 73 {
            (Err(ERR_INVALID_INPUT), m)
        } else {
            unit(set_voting_power_outcome(m, account(input, 1), account(input, 33), word(input, 65)))
        }
    } else if input[0] == 2 {
        if input.len() < 41 {
            (Err(ERR_INVALID_INPUT), m)
        } else {
            let (id, m2) = create_proposal_outcome(m, account(input, 1), word(input, 33));
            (Ok(id), m2)
        }
    } else if input[0] == 3 {
        if input.len() < 74 {
            (Err(ERR_INVALID_INPUT), m)
        } else {
            unit(vote_outcome(m, account(input, 1), account(input, 33), input[65] != 0, word(input, 66)))
        }
    } else if input[0] == 4 {
        if input.len() < 73 {
            (Err(ERR_INVALID_INPUT), m)
        } else {
            unit(execute_outcome(m, account(input, 33), word(input, 65)))
        }
    } else if input[0] == 5 {
        if input.len() < 65 {
            (Err(ERR_INVALID_INPUT), m)
        } else {
            unit(cancel_outcome(m, account(input, 1), account(input, 33)))
        }
    } else {
        (Ok(Seq::empty()), m)
    }
}

fn no_data(r: Result<(), u64>) -> (o: Result<Vec<u8>, u64>)
    ensures
        match r {
            Ok(_) => o matches Ok(v) && v@ == Seq::<u8>::empty(),
            Err(e) => o == Err::<Vec<u8>, u64>(e),
        },
{
    match r {
        Ok(_) => Ok(Vec::new()),
        Err(e) => Err(e),
    }
}

pub fn process_instruction(st: &mut Storage, input: &[u8]) -> (r: Result<Vec<u8>, u64>)
    requires
        instruction_completes(old(st)@, input@),
    ensures
        final(st)@ == instruction_outcome(old(st)@, input@).1,
        match r {
            Ok(v) => instruction_outcome(old(st)@, input@).0 == Ok::<Seq<u8>, u64>(v@),
            Err(e) => instruction_outcome(old(st)@, input@).0 == Err::<Seq<u8>, u64>(e),
        },
{
    if input.len() == 0 {
        return Ok(Vec::new());
    }
    match input[0] {
        0 => {
            if input.len() < 49 {
                return Err(ERR_INVALID_INPUT);
            }
            let admin = address_at(input, 1);
            let quorum = read_u64_at(input, 33);
            let voting_period = read_u64_at(input, 41);
            init(st, &admin, quorum, voting_period);
            Ok(Vec::new())
        },
        1 => {
            if input.len() < 73 {
                return Err(ERR_INVALID_INPUT);
            }
            let caller = address_at(input, 1);
            let user = address_at(input, 33);
            let power = read_u64_at(input, 65);
            no_data(set_voting_power(st, &caller, &user, power))
        },
        2 => {
            if input.len() < 41 {
                return Err(ERR_INVALID_INPUT);
            }
            let proposer = address_at(input, 1);
            let current_time = read_u64_at(input, 33);
            let id = create_proposal(st, &proposer, current_time);
            let mut data = Vec::new();
            append_bytes(&mut data, id.as_slice());
            proof {
                assert(data@ =~= id@);
            }
            Ok(data)
        },
        3 => {
            if input.len() < 74 {
                return Err(ERR_INVALID_INPUT);
            }
            let voter = address_at(input, 1);
            let proposal_id = address_at(input, 33);
            let support = input[65] != 0;
            let current_time = read_u64_at(input, 66);
            no_data(vote(st, &voter, &proposal_id, support, current_time))
        },
        4 => {
            if input.len() < 73 {
                return Err(ERR_INVALID_INPUT);
            }
            let proposal_id = address_at(input, 33);
            let current_time = read_u64_at(input, 65);
            no_data(execute_proposal(st, &proposal_id, current_time))
        },
        5 => {
            if input.len() < 65 {
                return Err(ERR_INVALID_INPUT);
            }
            let caller = address_at(input, 1);
            let proposal_id = address_at(input, 33);
            no_data(cancel_proposal(st, &caller, &proposal_id))
        },
        _ => Ok(Vec::new()),
    }
}

// ---------------------------------------------------------------------------
// Laws
// ---------------------------------------------------------------------------

/// Replacing a field of a record keeps its length and reads back.
proof fn lemma_with_field(d: Seq<u8>, off: int, v: u64)
    requires
        d.len() == 57,
        0 <= off,
        off + 8 <= 57,
    ensures
        with_field(d, off, v).len() == 57,
        field(with_field(d, off, v), off) == v,
        with_field(d, off, v)[0] == d[0] || off == 0,
        forall|o: int| 0 <= o && (o + 8 <= off || off + 8 <= o) && o + 8 <= 57
            ==> #[trigger] field(with_field(d, off, v), o) == field(d, o),
{
    lemma_le_bytes_len(v as nat, 8);
    crate::bytes::lemma_pow256_values();
    crate::bytes::lemma_le_roundtrip(v as nat, 8);
    let w = with_field(d, off, v);
    assert(w.subrange(off, off + 8) =~= le_bytes(v as nat, 8));
    assert forall|o: int| 0 <= o && (o + 8 <= off || off + 8 <= o) && o + 8 <= 57
        implies #[trigger] field(w, o) == field(d, o) by {
        assert(w.subrange(o, o + 8) =~= d.subrange(o, o + 8));
    }
}

/// A successful vote adds the voter's power to the chosen tally, and the
/// voter can never vote on that proposal again.
pub proof fn law_vote_once(m: StorageMap, voter: Seq<u8>, id: Seq<u8>, support: bool, now: u64, support2: bool, now2: u64)
    requires
        voter.len() == 32,
        id.len() == 32,
        vote_completes(m, voter, id, support),
        vote_outcome(m, voter, id, support, now).0 is Ok,
    ensures
        ({
            let m2 = vote_outcome(m, voter, id, support, now).1;
            let d = record(m, id)->0;
            let d2 = record(m2, id)->0;
            &&& record(m2, id) is Some
            &&& support ==> votes_for(d2) == votes_for(d) + voting_power(m, voter)
                && votes_against(d2) == votes_against(d)
            &&& !support ==> votes_against(d2) == votes_against(d) + voting_power(m, voter)
                && votes_for(d2) == votes_for(d)
            &&& vote_outcome(m2, voter, id, support2, now2).0 is Err
        }),
{
    lemma_keys_distinct(id, voter, id);
    let d = record(m, id)->0;
    let power = voting_power(m, voter);
    let m2 = vote_outcome(m, voter, id, support, now).1;
    if support {
        lemma_with_field(d, 1, (votes_for(d) + power) as u64);
        assert(field(with_field(d, 1, (votes_for(d) + power) as u64), 9) == field(d, 9));
        assert(with_field(d, 1, (votes_for(d) + power) as u64).take(57) =~= with_field(d, 1, (votes_for(d) + power) as u64));
    } else {
        lemma_with_field(d, 9, (votes_against(d) + power) as u64);
        assert(field(with_field(d, 9, (votes_against(d) + power) as u64), 1) == field(d, 1));
        assert(with_field(d, 9, (votes_against(d) + power) as u64).take(57) =~= with_field(d, 9, (votes_against(d) + power) as u64));
    }
    assert(has_voted(m2, id, voter));
    assert(record(m2, id) is Some);
    let d2 = record(m2, id)->0;
    assert(d2[0] == d[0]);
    assert(end_time(d2) == end_time(d));
}

/// Execution needs the voting period over, the quorum reached and a
/// majority; once executed, a proposal can no longer be cancelled or voted
/// on.
pub proof fn law_executed_is_final(m: StorageMap, id: Seq<u8>, now: u64, caller: Seq<u8>, voter: Seq<u8>, support: bool, now2: u64)
    requires
        id.len() == 32,
        voter.len() == 32,
        execute_outcome(m, id, now).0 is Ok,
    ensures
        ({
            let d = record(m, id)->0;
            let m2 = execute_outcome(m, id, now).1;
            &&& now >= end_time(d)
            &&& votes_for(d) >= quorum(m)
            &&& votes_for(d) > votes_against(d)
            &&& cancel_outcome(m2, caller, id).0 is Err
            &&& vote_outcome(m2, voter, id, support, now2).0 is Err
        }),
{
    lemma_keys_distinct(id, voter, id);
    let d = record(m, id)->0;
    assert(with_status(d, STATUS_EXECUTED).take(57) =~= with_status(d, STATUS_EXECUTED));
}

/// Only the admin sets voting power.
pub proof fn law_only_admin_sets_power(m: StorageMap, caller: Seq<u8>, user: Seq<u8>, power: u64)
    requires
        set_voting_power_outcome(m, caller, user, power).0 is Ok,
    ensures
        admin(m) == Some(caller),
        voting_power(set_voting_power_outcome(m, caller, user, power).1, user) == power,
{
    lemma_u64_cell_roundtrip(power);
}

} // verus!

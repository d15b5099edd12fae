//! Role-based access control in the OpenZeppelin style: accounts hold
//! 32-byte roles, each role has an admin role whose holders grant and
//! revoke it, and the deployer holds the default admin role (all zeros).
//!
//! Each operation takes the parameters after the opcode and answers a
//! status code (0 for success); queries also answer their return data.

use vstd::prelude::*;
use crate::bytes::{address_at, copy_range, append_bytes};
use crate::storage::Storage;
use crate::cells::{address_cell, read_address};
use crate::stablecoin::StorageMap;

verus! {

pub const OP_INITIALIZE: u8 = 0x00;
pub const OP_GRANT_ROLE: u8 = 0x01;
pub const OP_REVOKE_ROLE: u8 = 0x02;
pub const OP_RENOUNCE_ROLE: u8 = 0x03;
pub const OP_SET_ROLE_ADMIN: u8 = 0x04;
pub const OP_HAS_ROLE: u8 = 0x10;
pub const OP_GET_ROLE_ADMIN: u8 = 0x11;

pub const SUCCESS: u64 = 0;
pub const ERR_MISSING_ROLE: u64 = 1001;
pub const ERR_ALREADY_INITIALIZED: u64 = 1003;
pub const ERR_NOT_INITIALIZED: u64 = 1004;
pub const ERR_INVALID_INSTRUCTION: u64 = 1005;
pub const ERR_INVALID_PARAMS: u64 = 1006;

/// The default admin role: 32 zero bytes.
pub open spec fn default_admin_role() -> Seq<u8> {
    Seq::new(32, |i: int| 0u8)
}

pub open spec fn key_initialized() -> Seq<u8> {
    seq![0x01u8]
}

/// `0x10`, the role and the account.
pub open spec fn member_key(role: Seq<u8>, account: Seq<u8>) -> Seq<u8> {
    seq![0x10u8] + role + account
}

/// `0x20` and the role.
pub open spec fn admin_key(role: Seq<u8>) -> Seq<u8> {
    seq![0x20u8] + role
}

fn byte_key(b: u8) -> (r: Vec<u8>)
    ensures
        r@ == seq![b],
{
    let v = vec![b];
    assert(v@ =~= seq![b]);
    v
}

fn member_key_vec(role: &[u8; 32], account: &[u8; 32]) -> (r: Vec<u8>)
    ensures
        r@ == member_key(role@, account@),
{
    let mut k = byte_key(0x10);
    append_bytes(&mut k, role.as_slice());
    append_bytes(&mut k, account.as_slice());
    k
}

fn admin_key_vec(role: &[u8; 32]) -> (r: Vec<u8>)
    ensures
        r@ == admin_key(role@),
{
    let mut k = byte_key(0x20);
    append_bytes(&mut k, role.as_slice());
    k
}

/// A flag read through a one-byte buffer: set when the first byte is 1.
pub open spec fn flag(m: StorageMap, k: Seq<u8>) -> bool {
    match m.get(k) {
        Some(b) => b.len() > 0 && b[0] == 1,
        None => false,
    }
}

pub open spec fn initialized(m: StorageMap) -> bool {
    flag(m, key_initialized())
}

/// Whether the account holds the role.
pub open spec fn holds(m: StorageMap, role: Seq<u8>, account: Seq<u8>) -> bool {
    flag(m, member_key(role, account))
}

/// The role's admin role: the stored one when 32 bytes are stored, else the
/// default admin role.
pub open spec fn role_admin(m: StorageMap, role: Seq<u8>) -> Seq<u8> {
    match address_cell(m.get(admin_key(role))) {
        Some(a) => a,
        None => default_admin_role(),
    }
}

fn read_flag(st: &Storage, key: &[u8]) -> (r: bool)
    ensures
        r == flag(st@, key@),
{
    let (buf, len) = st.read(key, 1);
    len > 0 && buf[0] == 1
}

pub fn is_initialized(st: &Storage) -> (r: bool)
    ensures
        r == initialized(st@),
{
    read_flag(st, byte_key(0x01).as_slice())
}

pub fn set_initialized(st: &mut Storage)
    ensures
        final(st)@ == old(st)@.insert(key_initialized(), seq![1u8]),
{
    st.write(byte_key(0x01).as_slice(), byte_key(1).as_slice());
}

pub fn has_role(st: &Storage, role: &[u8; 32], account: &[u8; 32]) -> (r: bool)
    ensures
        r == holds(st@, role@, account@),
{
    read_flag(st, member_key_vec(role, account).as_slice())
}

/// Grants the role; answers whether the account did not hold it before.
pub fn grant_role_internal(st: &mut Storage, role: &[u8; 32], account: &[u8; 32]) -> (r: bool)
    ensures
        r == !holds(old(st)@, role@, account@),
        final(st)@ == (if r {
            old(st)@.insert(member_key(role@, account@), seq![1u8])
        } else {
            old(st)@
        }),
{
    if has_role(st, role, account) {
        return false;
    }
    st.write(member_key_vec(role, account).as_slice(), byte_key(1).as_slice());
    true
}

/// Revokes the role; answers whether the account held it before.
pub fn revoke_role_internal(st: &mut Storage, role: &[u8; 32], account: &[u8; 32]) -> (r: bool)
    ensures
        r == holds(old(st)@, role@, account@),
        final(st)@ == (if r {
            old(st)@.insert(member_key(role@, account@), seq![0u8])
        } else {
            old(st)@
        }),
{
    if !has_role(st, role, account) {
        return false;
    }
    st.write(member_key_vec(role, account).as_slice(), byte_key(0).as_slice());
    true
}

pub fn get_role_admin(st: &Storage, role: &[u8; 32]) -> (r: [u8; 32])
    ensures
        r@ == role_admin(st@, role@),
{
    match read_address(st, admin_key_vec(role).as_slice()) {
        Some(a) => a,
        None => {
            let z = [0u8; 32];
            assert(z@ =~= default_admin_role());
            z
        },
    }
}

pub fn set_role_admin_internal(st: &mut Storage, role: &[u8; 32], admin_role: &[u8; 32])
    ensures
        final(st)@ == old(st)@.insert(admin_key(role@), admin_role@),
{
    st.write(admin_key_vec(role).as_slice(), admin_role.as_slice());
}

/// `Err(ERR_MISSING_ROLE)` unless the sender holds the role.
pub fn check_role(st: &Storage, role: &[u8; 32], sender: &[u8; 32]) -> (r: Result<(), u64>)
    ensures
        r == (if holds(st@, role@, sender@) {
            Ok::<(), u64>(())
        } else {
            Err(ERR_MISSING_ROLE)
        }),
{
    if !has_role(st, role, sender) {
        return Err(ERR_MISSING_ROLE);
    }
    Ok(())
}

// ---------------------------------------------------------------------------
// Operations
// ---------------------------------------------------------------------------

/// The storage after granting `role` to `account` (unchanged when held).
pub open spec fn granted(m: StorageMap, role: Seq<u8>, account: Seq<u8>) -> StorageMap {
    if holds(m, role, account) {
        m
    } else {
        m.insert(member_key(role, account), seq![1u8])
    }
}

/// The storage after revoking `role` from `account` (unchanged when not
/// held).
pub open spec fn revoked(m: StorageMap, role: Seq<u8>, account: Seq<u8>) -> StorageMap {
    if holds(m, role, account) {
        m.insert(member_key(role, account), seq![0u8])
    } else {
        m
    }
}

/// Outcome of `INITIALIZE` (no parameters): the sender gets the default
/// admin role.
pub open spec fn initialize_outcome(m: StorageMap, sender: Seq<u8>, p: Seq<u8>) -> (u64, StorageMap) {
    if initialized(m) {
        (ERR_ALREADY_INITIALIZED, m)
    } else if p.len() != 0 {
        (ERR_INVALID_PARAMS, m)
    } else {
        (SUCCESS, granted(m, default_admin_role(), sender).insert(key_initialized(), seq![1u8]))
    }
}

pub fn op_initialize(st: &mut Storage, sender: &[u8; 32], params: &[u8]) -> (r: u64)
    ensures
        (r, final(st)@) == initialize_outcome(old(st)@, sender@, params@),
{
    if is_initialized(st) {
        return ERR_ALREADY_INITIALIZED;
    }
    if params.len() != 0 {
        return ERR_INVALID_PARAMS;
    }
    let admin = [0u8; 32];
    assert(admin@ =~= default_admin_role());
    let _granted = grant_role_internal(st, &admin, sender);
    set_initialized(st);
    SUCCESS
}

/// Outcome of `GRANT_ROLE` / `REVOKE_ROLE` (`[role:32][account:32]`): the
/// sender must hold the role's admin role.
pub open spec fn admin_action_outcome(m: StorageMap, sender: Seq<u8>, p: Seq<u8>, grant: bool) -> (u64, StorageMap) {
    if !initialized(m) {
        (ERR_NOT_INITIALIZED, m)
    } else if p.len() < 64 {
        (ERR_INVALID_PARAMS, m)
    } else {
        let role = p.subrange(0, 32);
        let account = p.subrange(32, 64);
        if !holds(m, role_admin(m, role), sender) {
            (ERR_MISSING_ROLE, m)
        } else if grant {
            (SUCCESS, granted(m, role, account))
        } else {
            (SUCCESS, revoked(m, role, account))
        }
    }
}

pub fn op_grant_role(st: &mut Storage, sender: &[u8; 32], params: &[u8]) -> (r: u64)
    ensures
        (r, final(st)@) == admin_action_outcome(old(st)@, sender@, params@, true),
{
    if !is_initialized(st) {
        return ERR_NOT_INITIALIZED;
    }
    if params.len() < 64 {
        return ERR_INVALID_PARAMS;
    }
    let role = address_at(params, 0);
    let account = address_at(params, 32);
    let admin_role = get_role_admin(st, &role);
    if let Err(e) = check_role(st, &admin_role, sender) {
        return e;
    }
    let _granted = grant_role_internal(st, &role, &account);
    SUCCESS
}

pub fn op_revoke_role(st: &mut Storage, sender: &[u8; 32], params: &[u8]) -> (r: u64)
    ensures
        (r, final(st)@) == admin_action_outcome(old(st)@, sender@, params@, false),
{
    if !is_initialized(st) {
        return ERR_NOT_INITIALIZED;
    }
    if params.len() < 64 {
        return ERR_INVALID_PARAMS;
    }
    let role = address_at(params, 0);
    let account = address_at(params, 32);
    let admin_role = get_role_admin(st, &role);
    if let Err(e) = check_role(st, &admin_role, sender) {
        return e;
    }
    let _revoked = revoke_role_internal(st, &role, &account);
    SUCCESS
}

/// Outcome of `RENOUNCE_ROLE` (`[role:32]`): the sender drops its own role.
pub open spec fn renounce_outcome(m: StorageMap, sender: Seq<u8>, p: Seq<u8>) -> (u64, StorageMap) {
    if !initialized(m) {
        (ERR_NOT_INITIALIZED, m)
    } else if p.len() < 32 {
        (ERR_INVALID_PARAMS, m)
    } else {
        (SUCCESS, revoked(m, p.subrange(0, 32), sender))
    }
}

pub fn op_renounce_role(st: &mut Storage, sender: &[u8; 32], params: &[u8]) -> (r: u64)
    ensures
        (r, final(st)@) == renounce_outcome(old(st)@, sender@, params@),
{
    if !is_initialized(st) {
        return ERR_NOT_INITIALIZED;
    }
    if params.len() < 32 {
        return ERR_INVALID_PARAMS;
    }
    let role = address_at(params, 0);
    let _revoked = revoke_role_internal(st, &role, sender);
    SUCCESS
}

/// Outcome of `SET_ROLE_ADMIN` (`[role:32][admin_role:32]`): the sender must
/// hold the current admin role.
pub open spec fn set_admin_outcome(m: StorageMap, sender: Seq<u8>, p: Seq<u8>) -> (u64, StorageMap) {
    if !initialized(m) {
        (ERR_NOT_INITIALIZED, m)
    } else if p.len() < 64 {
        (ERR_INVALID_PARAMS, m)
    } else {
        let role = p.subrange(0, 32);
        if !holds(m, role_admin(m, role), sender) {
            (ERR_MISSING_ROLE, m)
        } else {
            (SUCCESS, m.insert(admin_key(role), p.subrange(32, 64)))
        }
    }
}

pub fn op_set_role_admin(st: &mut Storage, sender: &[u8; 32], params: &[u8]) -> (r: u64)
    ensures
        (r, final(st)@) == set_admin_outcome(old(st)@, sender@, params@),
{
    if !is_initialized(st) {
        return ERR_NOT_INITIALIZED;
    }
    if params.len() < 64 {
        return ERR_INVALID_PARAMS;
    }
    let role = address_at(params, 0);
    let new_admin_role = address_at(params, 32);
    let current_admin = get_role_admin(st, &role);
    if let Err(e) = check_role(st, &current_admin, sender) {
        return e;
    }
    set_role_admin_internal(st, &role, &new_admin_role);
    SUCCESS
}

/// Answer of `HAS_ROLE` (`[role:32][account:32]`): one byte, 1 or 0.
pub open spec fn has_role_result(m: StorageMap, p: Seq<u8>) -> Result<Seq<u8>, u64> {
    if !initialized(m) {
        Err(ERR_NOT_INITIALIZED)
    } else if p.len() < 64 {
        Err(ERR_INVALID_PARAMS)
    } else {
        Ok(seq![if holds(m, p.subrange(0, 32), p.subrange(32, 64)) { 1u8 } else { 0u8 }])
    }
}

pub fn op_has_role(st: &Storage, params: &[u8]) -> (r: Result<Vec<u8>, u64>)
    ensures
        crate::usdt::answer(r) == has_role_result(st@, params@),
{
    if !is_initialized(st) {
        return Err(ERR_NOT_INITIALIZED);
    }
    if params.len() < 64 {
        return Err(ERR_INVALID_PARAMS);
    }
    let role = address_at(params, 0);
    let account = address_at(params, 32);
    let b: u8 = if has_role(st, &role, &account) { 1 } else { 0 };
    let v = vec![b];
    assert(v@ =~= seq![b]);
    Ok(v)
}

/// Answer of `GET_ROLE_ADMIN` (`[role:32]`): the admin role.
pub open spec fn get_role_admin_result(m: StorageMap, p: Seq<u8>) -> Result<Seq<u8>, u64> {
    if !initialized(m) {
        Err(ERR_NOT_INITIALIZED)
    } else if p.len() < 32 {
        Err(ERR_INVALID_PARAMS)
    } else {
        Ok(role_admin(m, p.subrange(0, 32)))
    }
}

pub fn op_get_role_admin(st: &Storage, params: &[u8]) -> (r: Result<Vec<u8>, u64>)
    ensures
        crate::usdt::answer(r) == get_role_admin_result(st@, params@),
{
    if !is_initialized(st) {
        return Err(ERR_NOT_INITIALIZED);
    }
    if params.len() < 32 {
        return Err(ERR_INVALID_PARAMS);
    }
    let role = address_at(params, 0);
    let admin = get_role_admin(st, &role);
    let v = copy_range(admin.as_slice(), 0, 32);
    assert(v@ =~= admin@);
    Ok(v)
}

/// Status, return data and storage after an instruction (at most 1024
/// bytes are read).
pub open spec fn instruction_outcome(m: StorageMap, sender: Seq<u8>, data: Seq<u8>) -> (u64, Seq<u8>, StorageMap) {
    let input = if data.len() <= 1024 {
        data
    } else {
        data.take(1024)
    };
    if input.len() == 0 {
        (ERR_INVALID_INSTRUCTION, Seq::empty(), m)
    } else {
        let op = input[0];
        let p = input.subrange(1, input.len() as int);
        if op == OP_INITIALIZE {
            (initialize_outcome(m, sender, p).0, Seq::empty(), initialize_outcome(m, sender, p).1)
        } else if op == OP_GRANT_ROLE {
            (admin_action_outcome(m, sender, p, true).0, Seq::empty(), admin_action_outcome(m, sender, p, true).1)
        } else if op == OP_REVOKE_ROLE {
            (admin_action_outcome(m, sender, p, false).0, Seq::empty(), admin_action_outcome(m, sender, p, false).1)
        } else if op == OP_RENOUNCE_ROLE {
            (renounce_outcome(m, sender, p).0, Seq::empty(), renounce_outcome(m, sender, p).1)
        } else if op == OP_SET_ROLE_ADMIN {
            (set_admin_outcome(m, sender, p).0, Seq::empty(), set_admin_outcome(m, sender, p).1)
        } else if op == OP_HAS_ROLE {
            match has_role_result(m, p) {
                Ok(d) => (SUCCESS, d, m),
                Err(e) => (e, Seq::empty(), m),
            }
        } else if op == OP_GET_ROLE_ADMIN {
            match get_role_admin_result(m, p) {
                Ok(d) => (SUCCESS, d, m),
                Err(e) => (e, Seq::empty(), m),
            }
        } else {
            (ERR_INVALID_INSTRUCTION, Seq::empty(), m)
        }
    }
}

fn with_data(r: Result<Vec<u8>, u64>) -> (out: (u64, Vec<u8>))
    ensures
        (out.0, out.1@) == (match crate::usdt::answer(r) {
            Ok(d) => (SUCCESS, d),
            Err(e) => (e, Seq::<u8>::empty()),
        }),
{
    match r {
        Ok(d) => (SUCCESS, d),
        Err(e) => (e, Vec::new()),
    }
}

/// Runs one instruction from `sender`; answers the status and the return
/// data.
pub fn entrypoint(st: &mut Storage, sender: &[u8; 32], data: &[u8]) -> (r: (u64, Vec<u8>))
    ensures
        (r.0, r.1@, final(st)@) == instruction_outcome(old(st)@, sender@, data@),
{
    let len = if data.len() <= 1024 {
        data.len()
    } else {
        1024
    };
    if len == 0 {
        return (ERR_INVALID_INSTRUCTION, Vec::new());
    }
    let input = copy_range(data, 0, len);
    proof {
        assert(input@ =~= (if data@.len() <= 1024 { data@ } else { data@.take(1024) }));
    }
    let opcode = input[0];
    let params = copy_range(input.as_slice(), 1, len - 1);
    let p = params.as_slice();
    if opcode == OP_INITIALIZE {
        (op_initialize(st, sender, p), Vec::new())
    } else if opcode == OP_GRANT_ROLE {
        (op_grant_role(st, sender, p), Vec::new())
    } else if opcode == OP_REVOKE_ROLE {
        (op_revoke_role(st, sender, p), Vec::new())
    } else if opcode == OP_RENOUNCE_ROLE {
        (op_renounce_role(st, sender, p), Vec::new())
    } else if opcode == OP_SET_ROLE_ADMIN {
        (op_set_role_admin(st, sender, p), Vec::new())
    } else if opcode == OP_HAS_ROLE {
        with_data(op_has_role(st, p))
    } else if opcode == OP_GET_ROLE_ADMIN {
        with_data(op_get_role_admin(st, p))
    } else {
        (ERR_INVALID_INSTRUCTION, Vec::new())
    }
}

// ---------------------------------------------------------------------------
// Laws
// ---------------------------------------------------------------------------

/// After a successful grant the account holds the role; after a successful
/// revoke or renounce it does not.
pub proof fn law_grant_revoke(m: StorageMap, sender: Seq<u8>, p: Seq<u8>)
    requires
        p.len() >= 64,
    ensures
        admin_action_outcome(m, sender, p, true).0 == SUCCESS ==> holds(
            admin_action_outcome(m, sender, p, true).1,
            p.subrange(0, 32),
            p.subrange(32, 64),
        ),
        admin_action_outcome(m, sender, p, false).0 == SUCCESS ==> !holds(
            admin_action_outcome(m, sender, p, false).1,
            p.subrange(0, 32),
            p.subrange(32, 64),
        ),
        renounce_outcome(m, sender, p).0 == SUCCESS ==> !holds(
            renounce_outcome(m, sender, p).1,
            p.subrange(0, 32),
            sender,
        ),
{
}

/// Without the role's admin role, a sender can neither grant nor revoke it
/// nor change its admin: the request is refused and nothing changes.
pub proof fn law_admin_required(m: StorageMap, sender: Seq<u8>, p: Seq<u8>)
    requires
        initialized(m),
        p.len() >= 64,
        !holds(m, role_admin(m, p.subrange(0, 32)), sender),
    ensures
        admin_action_outcome(m, sender, p, true) == (ERR_MISSING_ROLE, m),
        admin_action_outcome(m, sender, p, false) == (ERR_MISSING_ROLE, m),
        set_admin_outcome(m, sender, p) == (ERR_MISSING_ROLE, m),
{
}

/// After initialization the deployer holds the default admin role.
pub proof fn law_deployer_is_admin(m: StorageMap, sender: Seq<u8>)
    requires
        initialize_outcome(m, sender, Seq::empty()).0 == SUCCESS,
        sender.len() == 32,
    ensures
        holds(initialize_outcome(m, sender, Seq::empty()).1, default_admin_role(), sender),
{
    assert(member_key(default_admin_role(), sender).len() != key_initialized().len());
}

} // verus!

use tos_tck::access_control;
use tos_tck::erc20;
use tos_tck::payment_splitter;
use tos_tck::storage::Storage;

fn cat(parts: &[&[u8]]) -> Vec<u8> {
    parts.iter().flat_map(|p| p.iter().copied()).collect()
}

// ---------------------------------------------------------------------------
// ERC-20
// ---------------------------------------------------------------------------

fn erc20_init_params(name: &[u8], symbol: &[u8], decimals: u8, supply: u64) -> Vec<u8> {
    cat(&[
        &(name.len() as u16).to_le_bytes(),
        name,
        &(symbol.len() as u16).to_le_bytes(),
        symbol,
        &[decimals],
        &supply.to_le_bytes(),
    ])
}

fn erc20_token(owner: &[u8; 32], supply: u64) -> Storage {
    let mut st = Storage::new();
    let p = erc20_init_params(b"Token", b"TKN", 9, supply);
    assert_eq!(erc20::op_initialize(&mut st, owner, &p), erc20::SUCCESS);
    st
}

#[test]
fn erc20_initialize_and_metadata() {
    let owner = [1u8; 32];
    let mut st = erc20_token(&owner, 1000);
    assert_eq!(erc20::get_balance(&st, &owner), 1000);
    assert_eq!(erc20::get_total_supply(&st), 1000);
    assert_eq!(erc20::get_owner(&st), owner);
    assert_eq!(erc20::op_name(&st), Ok(b"Token".to_vec()));
    assert_eq!(erc20::op_symbol(&st), Ok(b"TKN".to_vec()));
    assert_eq!(erc20::op_decimals(&st), Ok(vec![9]));
    assert_eq!(erc20::op_total_supply(&st), Ok(1000u64.to_le_bytes().to_vec()));
    let p = erc20_init_params(b"Token", b"TKN", 9, 1);
    assert_eq!(erc20::op_initialize(&mut st, &owner, &p), erc20::ERR_ALREADY_INITIALIZED);
}

#[test]
fn erc20_initialize_rejects_bad_params() {
    let owner = [1u8; 32];
    let mut st = Storage::new();
    assert_eq!(erc20::op_initialize(&mut st, &owner, &[0u8; 12]), erc20::ERR_INVALID_PARAMS);
    let long_name = [b'a'; 33];
    let p = erc20_init_params(&long_name, b"T", 0, 1);
    assert_eq!(erc20::op_initialize(&mut st, &owner, &p), erc20::ERR_INVALID_PARAMS);
    let p = erc20_init_params(b"N", b"TOOLONGSY", 0, 1);
    assert_eq!(erc20::op_initialize(&mut st, &owner, &p), erc20::ERR_INVALID_PARAMS);
    assert!(!erc20::is_initialized(&st));
    assert_eq!(erc20::op_total_supply(&st), Err(erc20::ERR_NOT_INITIALIZED));
}

#[test]
fn erc20_transfer_conserves_supply() {
    let owner = [1u8; 32];
    let bob = [2u8; 32];
    let mut st = erc20_token(&owner, 1000);
    let p = cat(&[&bob, &300u64.to_le_bytes()]);
    assert_eq!(erc20::op_transfer(&mut st, &owner, &p), erc20::SUCCESS);
    assert_eq!(erc20::get_balance(&st, &owner), 700);
    assert_eq!(erc20::get_balance(&st, &bob), 300);
    assert_eq!(erc20::get_total_supply(&st), 1000);
    let p = cat(&[&owner, &301u64.to_le_bytes()]);
    assert_eq!(erc20::op_transfer(&mut st, &bob, &p), erc20::ERR_INSUFFICIENT_BALANCE);
    let p = cat(&[&[0u8; 32], &1u64.to_le_bytes()]);
    assert_eq!(erc20::op_transfer(&mut st, &bob, &p), erc20::ERR_INVALID_ADDRESS);
    assert_eq!(erc20::op_transfer(&mut st, &bob, &[1u8; 39]), erc20::ERR_INVALID_PARAMS);
}

#[test]
fn erc20_approve_and_transfer_from() {
    let owner = [1u8; 32];
    let spender = [2u8; 32];
    let carol = [3u8; 32];
    let mut st = erc20_token(&owner, 1000);
    let p = cat(&[&spender, &200u64.to_le_bytes()]);
    assert_eq!(erc20::op_approve(&mut st, &owner, &p), erc20::SUCCESS);
    assert_eq!(erc20::get_allowance(&st, &owner, &spender), 200);
    let q = cat(&[&owner, &spender]);
    assert_eq!(erc20::op_allowance(&st, &q), Ok(200u64.to_le_bytes().to_vec()));

    let p = cat(&[&owner, &carol, &201u64.to_le_bytes()]);
    assert_eq!(erc20::op_transfer_from(&mut st, &spender, &p), erc20::ERR_INSUFFICIENT_ALLOWANCE);
    let p = cat(&[&owner, &carol, &150u64.to_le_bytes()]);
    assert_eq!(erc20::op_transfer_from(&mut st, &spender, &p), erc20::SUCCESS);
    assert_eq!(erc20::get_allowance(&st, &owner, &spender), 50);
    assert_eq!(erc20::get_balance(&st, &carol), 150);
    assert_eq!(erc20::get_balance(&st, &owner), 850);
    let p = cat(&[&[0u8; 32], &carol, &1u64.to_le_bytes()]);
    assert_eq!(erc20::op_transfer_from(&mut st, &spender, &p), erc20::ERR_INVALID_ADDRESS);
}

#[test]
fn erc20_mint_and_burn() {
    let owner = [1u8; 32];
    let bob = [2u8; 32];
    let mut st = erc20_token(&owner, 1000);
    let p = cat(&[&bob, &500u64.to_le_bytes()]);
    assert_eq!(erc20::op_mint(&mut st, &bob, &p), erc20::ERR_UNAUTHORIZED);
    assert_eq!(erc20::op_mint(&mut st, &owner, &p), erc20::SUCCESS);
    assert_eq!(erc20::get_balance(&st, &bob), 500);
    assert_eq!(erc20::get_total_supply(&st), 1500);
    // saturating mint
    let p = cat(&[&bob, &u64::MAX.to_le_bytes()]);
    assert_eq!(erc20::op_mint(&mut st, &owner, &p), erc20::SUCCESS);
    assert_eq!(erc20::get_balance(&st, &bob), u64::MAX);
    assert_eq!(erc20::get_total_supply(&st), u64::MAX);

    let mut st = erc20_token(&owner, 1000);
    assert_eq!(erc20::op_burn(&mut st, &owner, &1001u64.to_le_bytes()), erc20::ERR_INSUFFICIENT_BALANCE);
    assert_eq!(erc20::op_burn(&mut st, &owner, &400u64.to_le_bytes()), erc20::SUCCESS);
    assert_eq!(erc20::get_balance(&st, &owner), 600);
    assert_eq!(erc20::get_total_supply(&st), 600);
}

#[test]
fn erc20_entrypoint_dispatch() {
    let owner = [1u8; 32];
    let mut st = Storage::new();
    let init = cat(&[&[erc20::OP_INITIALIZE], &erc20_init_params(b"A", b"B", 2, 77)]);
    assert_eq!(erc20::entrypoint(&mut st, &owner, &init), (erc20::SUCCESS, vec![]));
    let q = cat(&[&[erc20::OP_BALANCE_OF], &owner]);
    assert_eq!(erc20::entrypoint(&mut st, &owner, &q), (erc20::SUCCESS, 77u64.to_le_bytes().to_vec()));
    assert_eq!(erc20::entrypoint(&mut st, &owner, &[0xee]).0, erc20::ERR_INVALID_INSTRUCTION);
    assert_eq!(erc20::entrypoint(&mut st, &owner, &[]).0, erc20::ERR_INVALID_INSTRUCTION);
    assert_eq!(erc20::entrypoint(&mut st, &owner, &[erc20::OP_DECIMALS]), (erc20::SUCCESS, vec![2]));
}

// ---------------------------------------------------------------------------
// Payment splitter
// ---------------------------------------------------------------------------

fn splitter_params(payees: &[([u8; 32], u64)]) -> Vec<u8> {
    let mut v = vec![payees.len() as u8];
    for (p, s) in payees {
        v.extend_from_slice(p);
        v.extend_from_slice(&s.to_le_bytes());
    }
    v
}

#[test]
fn splitter_initialize() {
    let a = [1u8; 32];
    let b = [2u8; 32];
    let mut st = Storage::new();
    assert_eq!(payment_splitter::op_initialize(&mut st, &[]), payment_splitter::ERR_INVALID_PARAMS);
    assert_eq!(payment_splitter::op_initialize(&mut st, &[0]), payment_splitter::ERR_NO_PAYEES);
    assert_eq!(payment_splitter::op_initialize(&mut st, &[1, 2, 3]), payment_splitter::ERR_INVALID_PARAMS);
    let mut st = Storage::new();
    assert_eq!(
        payment_splitter::op_initialize(&mut st, &splitter_params(&[([0u8; 32], 5)])),
        payment_splitter::ERR_INVALID_PAYEE
    );
    let mut st = Storage::new();
    assert_eq!(
        payment_splitter::op_initialize(&mut st, &splitter_params(&[(a, 0)])),
        payment_splitter::ERR_ZERO_SHARES
    );
    let mut st = Storage::new();
    assert_eq!(
        payment_splitter::op_initialize(&mut st, &splitter_params(&[(a, 1), (a, 2)])),
        payment_splitter::ERR_INVALID_PAYEE
    );
    let mut st = Storage::new();
    assert_eq!(
        payment_splitter::op_initialize(&mut st, &splitter_params(&[(a, 30), (b, 70)])),
        payment_splitter::SUCCESS
    );
    assert_eq!(payment_splitter::get_total_shares(&st), 100);
    assert_eq!(payment_splitter::get_shares(&st, &a), 30);
    assert_eq!(payment_splitter::get_payee_count(&st), 2);
    assert_eq!(
        payment_splitter::op_initialize(&mut st, &splitter_params(&[(a, 1)])),
        payment_splitter::ERR_ALREADY_INITIALIZED
    );
}

#[test]
fn splitter_release_proportional() {
    let a = [1u8; 32];
    let b = [2u8; 32];
    let mut st = Storage::new();
    payment_splitter::op_initialize(&mut st, &splitter_params(&[(a, 30), (b, 70)]));
    // nothing received yet
    assert_eq!(payment_splitter::calculate_releasable(&st, &a), 0);
    assert_eq!(payment_splitter::op_release(&mut st, &a), payment_splitter::ERR_NO_PAYMENT_DUE);
    // the host credits received funds in the total-received cell
    st.write(&[0x04], &1000u64.to_le_bytes());
    assert_eq!(payment_splitter::calculate_releasable(&st, &a), 300);
    assert_eq!(payment_splitter::calculate_releasable(&st, &b), 700);
    assert_eq!(payment_splitter::op_release(&mut st, &a), payment_splitter::SUCCESS);
    assert_eq!(payment_splitter::get_released(&st, &a), 300);
    assert_eq!(payment_splitter::get_total_released(&st), 300);
    // released once: nothing more is due
    assert_eq!(payment_splitter::op_release(&mut st, &a), payment_splitter::ERR_NO_PAYMENT_DUE);
    assert_eq!(payment_splitter::op_release(&mut st, &[9u8; 32]), payment_splitter::ERR_INVALID_PAYEE);
    assert_eq!(payment_splitter::op_release(&mut st, &[1u8; 31]), payment_splitter::ERR_INVALID_PARAMS);
    assert_eq!(
        payment_splitter::op_query(&st, payment_splitter::OP_RELEASABLE, &b),
        Ok(700u64.to_le_bytes().to_vec())
    );
    assert_eq!(
        payment_splitter::op_query(&st, payment_splitter::OP_PAYEE_COUNT, &[]),
        Ok(vec![2])
    );
}

#[test]
fn splitter_entrypoint() {
    let a = [1u8; 32];
    let mut st = Storage::new();
    assert_eq!(payment_splitter::entrypoint(&mut st, &[]).0, payment_splitter::ERR_INVALID_INSTRUCTION);
    let init = cat(&[&[payment_splitter::OP_INITIALIZE], &splitter_params(&[(a, 10)])]);
    assert_eq!(payment_splitter::entrypoint(&mut st, &init).0, payment_splitter::SUCCESS);
    assert_eq!(
        payment_splitter::entrypoint(&mut st, &[payment_splitter::OP_TOTAL_SHARES]),
        (payment_splitter::SUCCESS, 10u64.to_le_bytes().to_vec())
    );
    assert_eq!(
        payment_splitter::entrypoint(&mut st, &[0x77]).0,
        payment_splitter::ERR_INVALID_INSTRUCTION
    );
}

// ---------------------------------------------------------------------------
// Access control
// ---------------------------------------------------------------------------

#[test]
fn access_control_roles() {
    let admin = [1u8; 32];
    let alice = [2u8; 32];
    let minter = [7u8; 32];
    let default_admin = [0u8; 32];
    let mut st = Storage::new();
    assert_eq!(access_control::op_grant_role(&mut st, &admin, &cat(&[&minter, &alice])), access_control::ERR_NOT_INITIALIZED);
    assert_eq!(access_control::op_initialize(&mut st, &admin, &[1]), access_control::ERR_INVALID_PARAMS);
    assert_eq!(access_control::op_initialize(&mut st, &admin, &[]), access_control::SUCCESS);
    assert_eq!(access_control::op_initialize(&mut st, &admin, &[]), access_control::ERR_ALREADY_INITIALIZED);
    assert!(access_control::has_role(&st, &default_admin, &admin));

    // only an admin of the role grants it
    assert_eq!(
        access_control::op_grant_role(&mut st, &alice, &cat(&[&minter, &alice])),
        access_control::ERR_MISSING_ROLE
    );
    assert_eq!(access_control::op_grant_role(&mut st, &admin, &cat(&[&minter, &alice])), access_control::SUCCESS);
    assert!(access_control::has_role(&st, &minter, &alice));
    assert_eq!(access_control::op_has_role(&st, &cat(&[&minter, &alice])), Ok(vec![1]));
    assert_eq!(access_control::op_revoke_role(&mut st, &admin, &cat(&[&minter, &alice])), access_control::SUCCESS);
    assert!(!access_control::has_role(&st, &minter, &alice));
    assert_eq!(access_control::op_has_role(&st, &cat(&[&minter, &alice])), Ok(vec![0]));
    assert_eq!(access_control::op_grant_role(&mut st, &admin, &[0u8; 63]), access_control::ERR_INVALID_PARAMS);
}

#[test]
fn access_control_renounce_and_admin_role() {
    let admin = [1u8; 32];
    let alice = [2u8; 32];
    let minter = [7u8; 32];
    let manager = [8u8; 32];
    let mut st = Storage::new();
    access_control::op_initialize(&mut st, &admin, &[]);
    access_control::op_grant_role(&mut st, &admin, &cat(&[&minter, &alice]));
    assert_eq!(access_control::op_renounce_role(&mut st, &alice, &minter), access_control::SUCCESS);
    assert!(!access_control::has_role(&st, &minter, &alice));

    assert_eq!(access_control::get_role_admin(&st, &minter), [0u8; 32]);
    assert_eq!(
        access_control::op_set_role_admin(&mut st, &alice, &cat(&[&minter, &manager])),
        access_control::ERR_MISSING_ROLE
    );
    assert_eq!(
        access_control::op_set_role_admin(&mut st, &admin, &cat(&[&minter, &manager])),
        access_control::SUCCESS
    );
    assert_eq!(access_control::op_get_role_admin(&st, &minter), Ok(manager.to_vec()));
    // the default admin no longer administers the minter role
    assert_eq!(
        access_control::op_grant_role(&mut st, &admin, &cat(&[&minter, &alice])),
        access_control::ERR_MISSING_ROLE
    );
    access_control::op_grant_role(&mut st, &admin, &cat(&[&manager, &alice]));
    assert_eq!(access_control::op_grant_role(&mut st, &alice, &cat(&[&minter, &alice])), access_control::SUCCESS);
    assert_eq!(access_control::check_role(&st, &minter, &alice), Ok(()));
    assert_eq!(access_control::check_role(&st, &minter, &admin), Err(access_control::ERR_MISSING_ROLE));
}

#[test]
fn access_control_entrypoint() {
    let admin = [1u8; 32];
    let mut st = Storage::new();
    assert_eq!(access_control::entrypoint(&mut st, &admin, &[access_control::OP_INITIALIZE]).0, access_control::SUCCESS);
    let q = cat(&[&[access_control::OP_HAS_ROLE], &[0u8; 32], &admin]);
    assert_eq!(access_control::entrypoint(&mut st, &admin, &q), (access_control::SUCCESS, vec![1]));
    assert_eq!(access_control::entrypoint(&mut st, &admin, &[]).0, access_control::ERR_INVALID_INSTRUCTION);
}

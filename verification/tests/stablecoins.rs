use tos_tck::storage::Storage;
use tos_tck::usdt;
use tos_tck::usdc;

fn usdt_init_input(supply: u64) -> Vec<u8> {
    let mut v = Vec::new();
    v.extend_from_slice(&(4u32).to_le_bytes());
    v.extend_from_slice(b"USDT");
    v.extend_from_slice(&(4u32).to_le_bytes());
    v.extend_from_slice(b"USDT");
    v.push(6);
    v.extend_from_slice(&supply.to_le_bytes());
    v
}

fn account_amount(account: &[u8; 32], amount: u64) -> Vec<u8> {
    let mut v = account.to_vec();
    v.extend_from_slice(&amount.to_le_bytes());
    v
}

fn u64_answer(r: Result<Vec<u8>, u64>) -> u64 {
    let b = r.unwrap();
    let mut a = [0u8; 8];
    a.copy_from_slice(&b[..8]);
    u64::from_le_bytes(a)
}

#[test]
fn test_instruction_encoding() {
    assert_eq!(usdt::Instruction::Initialize as u8, 0);
    assert_eq!(usdt::Instruction::Transfer as u8, 1);
    assert_eq!(usdt::Instruction::Mint as u8, 4);
}

#[test]
fn usdt_from_u8_round_trips() {
    for b in 0u8..=255 {
        if let Some(i) = usdt::Instruction::from_u8(b) {
            assert_eq!(i.to_u8(), b);
        }
    }
    assert!(usdt::Instruction::from_u8(11).is_none());
    assert!(usdt::Instruction::from_u8(99).is_none());
    assert!(usdt::Instruction::from_u8(100).is_some());
}

#[test]
fn usdt_transfer_conserves_supply() {
    let owner = [7u8; 32];
    let bob = [9u8; 32];
    let mut st = Storage::new();
    assert!(usdt::initialize(&mut st, &owner, &usdt_init_input(1000)).is_ok());
    assert!(usdt::transfer(&mut st, &owner, &account_amount(&bob, 300)).is_ok());
    assert_eq!(u64_answer(usdt::balance_of(&st, &owner)), 700);
    assert_eq!(u64_answer(usdt::balance_of(&st, &bob)), 300);
    // More than the balance is refused.
    assert_eq!(usdt::transfer(&mut st, &bob, &account_amount(&owner, 301)), Err(3));
}

#[test]
fn usdt_pause_blocks_transfers() {
    let owner = [7u8; 32];
    let bob = [9u8; 32];
    let mut st = Storage::new();
    usdt::initialize(&mut st, &owner, &usdt_init_input(1000)).unwrap();
    assert!(usdt::pause(&mut st, &owner).is_ok());
    assert_eq!(usdt::transfer(&mut st, &owner, &account_amount(&bob, 1)), Err(5));
    assert_eq!(usdt::pause(&mut st, &owner), Err(5));
    assert!(usdt::unpause(&mut st, &owner).is_ok());
    assert!(usdt::transfer(&mut st, &owner, &account_amount(&bob, 1)).is_ok());
}

#[test]
fn usdt_owner_only_mint() {
    let owner = [7u8; 32];
    let bob = [9u8; 32];
    let mut st = Storage::new();
    usdt::initialize(&mut st, &owner, &usdt_init_input(10)).unwrap();
    assert_eq!(usdt::mint(&mut st, &bob, &account_amount(&bob, 5)), Err(2));
    assert!(usdt::mint(&mut st, &owner, &account_amount(&bob, 5)).is_ok());
    assert_eq!(u64_answer(usdt::balance_of(&st, &bob)), 5);
}

#[test]
fn usdt_blacklisted_cannot_send() {
    let owner = [7u8; 32];
    let bob = [9u8; 32];
    let mut st = Storage::new();
    usdt::initialize(&mut st, &owner, &usdt_init_input(10)).unwrap();
    usdt::transfer(&mut st, &owner, &account_amount(&bob, 5)).unwrap();
    assert!(usdt::add_blacklist(&mut st, &owner, &bob).is_ok());
    assert_eq!(usdt::transfer(&mut st, &bob, &account_amount(&owner, 1)), Err(7));
    assert!(usdt::destroy_blacklisted_funds(&mut st, &owner, &bob).is_ok());
    assert_eq!(u64_answer(usdt::balance_of(&st, &bob)), 0);
}

#[test]
fn usdt_error_codes() {
    assert_eq!(usdt::UsdtError::InvalidInstruction.code(), 1);
    assert_eq!(usdt::UsdtError::Underflow.code(), 10);
    let mut st = Storage::new();
    assert_eq!(usdt::entrypoint(&mut st, &[1u8; 32], &[]), 1);
}

#[test]
fn usdc_from_u8_round_trips() {
    for b in 0u8..=255 {
        if let Some(i) = usdc::Instruction::from_u8(b) {
            assert_eq!(i.to_u8(), b);
        }
    }
}

#[test]
fn usdc_roles_guard_pause() {
    let owner = [3u8; 32];
    let stranger = [4u8; 32];
    let mut st = Storage::new();
    let mut init = Vec::new();
    init.extend_from_slice(&(4u32).to_le_bytes());
    init.extend_from_slice(b"USDC");
    init.extend_from_slice(&(4u32).to_le_bytes());
    init.extend_from_slice(b"USDC");
    init.push(6);
    let r = usdc::initialize(&mut st, &owner, &init);
    assert!(r.is_ok());
    assert!(usdc::pause(&mut st, &stranger).is_err());
    assert!(usdc::has_role(&st, &owner, usdc::Role::Owner));
    assert!(!usdc::has_role(&st, &stranger, usdc::Role::Owner));
}

#[test]
fn usdt_entrypoint_reads_first_128_bytes() {
    let owner = [7u8; 32];
    let bob = [9u8; 32];
    let mut st = Storage::new();
    let mut init = vec![0u8];
    init.extend_from_slice(&usdt_init_input(1000));
    assert_eq!(usdt::entrypoint(&mut st, &owner, &init), 0);
    // trailing bytes past the first 128 are never read
    let mut transfer = vec![1u8];
    transfer.extend_from_slice(&account_amount(&bob, 40));
    transfer.extend_from_slice(&[0xFFu8; 300]);
    assert_eq!(usdt::entrypoint(&mut st, &owner, &transfer), 0);
    assert_eq!(u64_answer(usdt::balance_of(&st, &bob)), 40);
    assert_eq!(usdt::entrypoint(&mut st, &owner, &[99u8]), 1);
}

#[test]
fn usdc_entrypoint_statuses() {
    let owner = [3u8; 32];
    let stranger = [4u8; 32];
    let mut st = Storage::new();
    let mut init = vec![0u8];
    init.extend_from_slice(&(4u32).to_le_bytes());
    init.extend_from_slice(b"USDC");
    init.extend_from_slice(&(4u32).to_le_bytes());
    init.extend_from_slice(b"USDC");
    init.push(6);
    assert_eq!(usdc::entrypoint(&mut st, &owner, &init), 0);
    assert_eq!(usdc::entrypoint(&mut st, &owner, &init), usdc::ERR_ALREADY_INITIALIZED);
    assert_eq!(usdc::entrypoint(&mut st, &stranger, &[30u8]), usdc::ERR_UNAUTHORIZED);
    assert_eq!(usdc::entrypoint(&mut st, &owner, &[30u8]), 0);
    assert_eq!(usdc::entrypoint(&mut st, &owner, &[]), usdc::ERR_INVALID_INPUT);
    assert_eq!(usdc::entrypoint(&mut st, &owner, &[77u8]), usdc::ERR_INVALID_INPUT);
}

#[test]
fn usdc_minter_allowance() {
    let owner = [3u8; 32];
    let minter = [5u8; 32];
    let bob = [6u8; 32];
    let mut st = Storage::new();
    let mut init = vec![0u8];
    init.extend_from_slice(&(4u32).to_le_bytes());
    init.extend_from_slice(b"USDC");
    init.extend_from_slice(&(4u32).to_le_bytes());
    init.extend_from_slice(b"USDC");
    init.push(6);
    assert_eq!(usdc::entrypoint(&mut st, &owner, &init), 0);
    let mut q = vec![103u8];
    q.extend_from_slice(&minter);
    assert_eq!(usdc::process_instruction(&mut st, &owner, &q), Ok(vec![0u8; 8]));
    // only the master minter configures minters
    let mut cfg = vec![10u8];
    cfg.extend_from_slice(&minter);
    cfg.extend_from_slice(&100u64.to_le_bytes());
    assert_eq!(usdc::entrypoint(&mut st, &bob, &cfg), usdc::ERR_UNAUTHORIZED);
    assert_eq!(usdc::entrypoint(&mut st, &owner, &cfg), 0);
    assert_eq!(usdc::process_instruction(&mut st, &owner, &q), Ok(100u64.to_le_bytes().to_vec()));
    let mut mint = vec![12u8];
    mint.extend_from_slice(&bob);
    mint.extend_from_slice(&60u64.to_le_bytes());
    assert_eq!(usdc::entrypoint(&mut st, &minter, &mint), 0);
    assert_eq!(usdc::process_instruction(&mut st, &owner, &q), Ok(40u64.to_le_bytes().to_vec()));
    assert_eq!(usdc::entrypoint(&mut st, &minter, &mint), usdc::ERR_INSUFFICIENT_MINTER_ALLOWANCE);
    let mut bal = vec![100u8];
    bal.extend_from_slice(&bob);
    assert_eq!(usdc::process_instruction(&mut st, &owner, &bal), Ok(60u64.to_le_bytes().to_vec()));
    assert_eq!(usdc::process_instruction(&mut st, &owner, &[102u8]), Ok(60u64.to_le_bytes().to_vec()));
    let mut rm = vec![11u8];
    rm.extend_from_slice(&minter);
    assert_eq!(usdc::entrypoint(&mut st, &owner, &rm), 0);
    assert_eq!(usdc::process_instruction(&mut st, &owner, &q), Ok(vec![0u8; 8]));
    assert_eq!(usdc::entrypoint(&mut st, &minter, &mint), usdc::ERR_UNAUTHORIZED);
}

#[test]
fn usdt_queries() {
    let owner = [7u8; 32];
    let bob = [9u8; 32];
    let mut st = Storage::new();
    assert_eq!(usdt::process_instruction(&mut st, &owner, &[102u8]), Err(1));
    let mut init = vec![0u8];
    init.extend_from_slice(&usdt_init_input(1000));
    assert_eq!(usdt::entrypoint(&mut st, &owner, &init), 0);
    assert_eq!(usdt::process_instruction(&mut st, &owner, &[102u8]), Ok(1000u64.to_le_bytes().to_vec()));
    assert_eq!(usdt::process_instruction(&mut st, &owner, &[103u8]), Ok(vec![0]));
    usdt::pause(&mut st, &owner).unwrap();
    assert_eq!(usdt::process_instruction(&mut st, &owner, &[103u8]), Ok(vec![1]));
    let mut q = vec![104u8];
    q.extend_from_slice(&bob);
    assert_eq!(usdt::process_instruction(&mut st, &owner, &q), Ok(vec![0]));
    usdt::add_blacklist(&mut st, &owner, &bob).unwrap();
    assert_eq!(usdt::process_instruction(&mut st, &owner, &q), Ok(vec![1]));
    assert_eq!(usdt::process_instruction(&mut st, &owner, &[104u8, 1]), Err(1));
}

#[test]
fn usdt_events() {
    let owner = [7u8; 32];
    let bob = [9u8; 32];
    let mut st = Storage::new();
    let mut init = vec![0u8];
    init.extend_from_slice(&usdt_init_input(1000));
    let (r, events) = usdt::execute(&mut st, &owner, &init);
    assert!(r.is_ok());
    assert!(events.is_empty());
    let mut transfer = vec![1u8];
    transfer.extend_from_slice(&account_amount(&bob, 300));
    let (r, events) = usdt::execute(&mut st, &owner, &transfer);
    assert_eq!(r, Ok(vec![1]));
    assert_eq!(events.len(), 1);
    assert_eq!(events[0].kind, usdt::EventKind::Transfer);
    assert_eq!((events[0].first, events[0].second, events[0].amount), (owner, bob, 300));
    // a refused transfer emits nothing
    let mut too_much = vec![1u8];
    too_much.extend_from_slice(&account_amount(&owner, 301));
    let (r, events) = usdt::execute(&mut st, &bob, &too_much);
    assert_eq!(r, Err(3));
    assert!(events.is_empty());
    let mut mint = vec![4u8];
    mint.extend_from_slice(&account_amount(&bob, 5));
    let (_, events) = usdt::execute(&mut st, &owner, &mint);
    assert_eq!(events.len(), 2);
    assert_eq!((events[0].kind, events[0].first, events[0].second), (usdt::EventKind::Transfer, [0u8; 32], bob));
    assert_eq!((events[1].kind, events[1].amount), (usdt::EventKind::Mint, 5));
    let mut bl = vec![8u8];
    bl.extend_from_slice(&bob);
    usdt::execute(&mut st, &owner, &bl);
    let mut destroy = vec![10u8];
    destroy.extend_from_slice(&bob);
    let (_, events) = usdt::execute(&mut st, &owner, &destroy);
    assert_eq!(events.len(), 1);
    assert_eq!((events[0].kind, events[0].first, events[0].amount), (usdt::EventKind::DestroyBlacklistedFunds, bob, 305));
}

#[test]
fn usdc_events() {
    let owner = [3u8; 32];
    let minter = [5u8; 32];
    let bob = [6u8; 32];
    let mut st = Storage::new();
    let mut init = vec![0u8];
    init.extend_from_slice(&(4u32).to_le_bytes());
    init.extend_from_slice(b"USDC");
    init.extend_from_slice(&(4u32).to_le_bytes());
    init.extend_from_slice(b"USDC");
    init.push(6);
    let (r, events) = usdc::execute(&mut st, &owner, &init);
    assert!(r.is_ok() && events.is_empty());
    let mut cfg = vec![10u8];
    cfg.extend_from_slice(&minter);
    cfg.extend_from_slice(&100u64.to_le_bytes());
    let (_, events) = usdc::execute(&mut st, &owner, &cfg);
    assert_eq!(events.len(), 1);
    assert_eq!((events[0].kind, events[0].first, events[0].amount), (usdc::EventKind::MinterConfigured, minter, 100));
    let mut mint = vec![12u8];
    mint.extend_from_slice(&bob);
    mint.extend_from_slice(&60u64.to_le_bytes());
    let (_, events) = usdc::execute(&mut st, &minter, &mint);
    assert_eq!(events.len(), 2);
    assert_eq!((events[0].kind, events[0].first, events[0].second), (usdc::EventKind::Transfer, [0u8; 32], bob));
    assert_eq!((events[1].kind, events[1].first, events[1].second, events[1].amount), (usdc::EventKind::Mint, minter, bob, 60));
    let mut own = vec![23u8];
    own.extend_from_slice(&bob);
    let (_, events) = usdc::execute(&mut st, &owner, &own);
    assert_eq!((events[0].kind, events[0].first, events[0].second), (usdc::EventKind::OwnershipTransferred, owner, bob));
    // refused: no events
    let (r, events) = usdc::execute(&mut st, &owner, &own);
    assert_eq!(r, Err(usdc::ERR_UNAUTHORIZED));
    assert!(events.is_empty());
}

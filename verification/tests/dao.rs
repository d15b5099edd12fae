use tos_tck::amm;
use tos_tck::governance;
use tos_tck::multisig;
use tos_tck::staking;
use tos_tck::storage::Storage;

fn u64_at(st: &Storage, key: &[u8]) -> u64 {
    let v = st.get_value(key).expect("stored");
    let mut b = [0u8; 8];
    b.copy_from_slice(&v[..8]);
    u64::from_le_bytes(b)
}

// ---------------------------------------------------------------------------
// AMM
// ---------------------------------------------------------------------------

#[test]
fn amm_sqrt_values() {
    assert_eq!(amm::sqrt(0), 0);
    assert_eq!(amm::sqrt(1), 1);
    assert_eq!(amm::sqrt(2), 1);
    assert_eq!(amm::sqrt(3), 1);
    assert_eq!(amm::sqrt(4), 2);
    assert_eq!(amm::sqrt(16), 4);
    assert_eq!(amm::sqrt(17), 4);
    assert_eq!(amm::sqrt(100_000_000), 10_000);
    assert_eq!(amm::sqrt(u128::MAX), u64::MAX as u128);
}

fn pool(provider: &[u8; 32]) -> Storage {
    let mut st = Storage::new();
    assert_eq!(amm::init_pool(&mut st, &[1u8; 32], &[2u8; 32]), Ok(()));
    assert_eq!(amm::add_liquidity(&mut st, provider, 10_000, 10_000, 0), Ok(()));
    st
}

#[test]
fn amm_first_deposit_locks_minimum() {
    let p = [7u8; 32];
    let st = pool(&p);
    assert_eq!(amm::read_lp_balance(&st, &p), 9_000);
    assert_eq!(u64_at(&st, b"total_lp"), 10_000);
    assert_eq!(u64_at(&st, b"reserve_a"), 10_000);
    assert_eq!(u64_at(&st, b"reserve_b"), 10_000);
}

#[test]
fn amm_errors() {
    let p = [7u8; 32];
    let mut st = Storage::new();
    assert_eq!(amm::init_pool(&mut st, &[1u8; 32], &[1u8; 32]), Err(amm::ERR_SAME_TOKENS));
    assert_eq!(amm::init_pool(&mut st, &[1u8; 32], &[2u8; 32]), Ok(()));
    assert_eq!(amm::swap_a_for_b(&mut st, 10, 0), Err(amm::ERR_POOL_NOT_INITIALIZED));
    assert_eq!(amm::add_liquidity(&mut st, &p, 0, 5, 0), Err(amm::ERR_ZERO_LIQUIDITY));
    assert_eq!(
        amm::add_liquidity(&mut st, &p, 1_000, 1_000, 0),
        Err(amm::ERR_INSUFFICIENT_INITIAL_LIQUIDITY)
    );
    assert_eq!(amm::add_liquidity(&mut st, &p, 10_000, 10_000, 9_001), Err(amm::ERR_SLIPPAGE_EXCEEDED));
    let mut st = pool(&p);
    assert_eq!(amm::swap_a_for_b(&mut st, 0, 0), Err(amm::ERR_ZERO_SWAP_AMOUNT));
    assert_eq!(amm::swap_a_for_b(&mut st, 1_000, 907), Err(amm::ERR_SLIPPAGE_EXCEEDED));
    assert_eq!(amm::remove_liquidity(&mut st, &p, 0, 0, 0), Err(amm::ERR_ZERO_LIQUIDITY));
    assert_eq!(amm::remove_liquidity(&mut st, &p, 9_001, 0, 0), Err(amm::ERR_INSUFFICIENT_LP_TOKENS));
    assert_eq!(amm::remove_liquidity(&mut st, &p, 100, 101, 0), Err(amm::ERR_SLIPPAGE_EXCEEDED));
}

#[test]
fn amm_swap_keeps_product() {
    let p = [7u8; 32];
    let mut st = pool(&p);
    // 1000 in, 997 after the 0.3% fee: 997 * 10000 / 10997 = 906 out
    assert_eq!(amm::swap_a_for_b(&mut st, 1_000, 906), Ok(()));
    let a = u64_at(&st, b"reserve_a");
    let b = u64_at(&st, b"reserve_b");
    assert_eq!((a, b), (11_000, 9_094));
    assert_eq!(u64_at(&st, b"fee_a"), 3);
    assert!((a as u128) * (b as u128) >= 10_000u128 * 10_000);
    assert_eq!(amm::swap_b_for_a(&mut st, 500, 0), Ok(()));
    // 498 after fee: 498 * 11000 / (9094 + 498) = 571
    assert_eq!(u64_at(&st, b"reserve_a"), 11_000 - 571);
    assert_eq!(u64_at(&st, b"reserve_b"), 9_594);
    assert_eq!(u64_at(&st, b"fee_b"), 2);
}

#[test]
fn amm_add_and_remove_proportional() {
    let p = [7u8; 32];
    let q = [8u8; 32];
    let mut st = pool(&p);
    // second deposit mints the smaller of the two proportions
    assert_eq!(amm::add_liquidity(&mut st, &q, 5_000, 2_000, 0), Ok(()));
    assert_eq!(amm::read_lp_balance(&st, &q), 2_000);
    assert_eq!(u64_at(&st, b"total_lp"), 12_000);
    assert_eq!(amm::remove_liquidity(&mut st, &q, 2_000, 0, 0), Ok(()));
    // 2000 / 12000 of 15000 and of 12000
    assert_eq!(u64_at(&st, b"reserve_a"), 15_000 - 2_500);
    assert_eq!(u64_at(&st, b"reserve_b"), 12_000 - 2_000);
    assert_eq!(amm::read_lp_balance(&st, &q), 0);
}

#[test]
fn amm_process_instruction() {
    let mut st = Storage::new();
    let mut init = vec![0u8];
    init.extend_from_slice(&[1u8; 32]);
    init.extend_from_slice(&[2u8; 32]);
    assert_eq!(amm::process_instruction(&mut st, &init), Ok(()));
    assert_eq!(amm::process_instruction(&mut st, &init[..64]), Err(amm::ERR_STORAGE));
    let mut add = vec![1u8];
    add.extend_from_slice(&[7u8; 32]);
    add.extend_from_slice(&10_000u64.to_le_bytes());
    add.extend_from_slice(&10_000u64.to_le_bytes());
    add.extend_from_slice(&0u64.to_le_bytes());
    assert_eq!(amm::process_instruction(&mut st, &add), Ok(()));
    assert_eq!(amm::read_lp_balance(&st, &[7u8; 32]), 9_000);
    assert_eq!(amm::process_instruction(&mut st, &[]), Ok(()));
    assert_eq!(amm::process_instruction(&mut st, &[9]), Ok(()));
}

// ---------------------------------------------------------------------------
// Governance
// ---------------------------------------------------------------------------

fn dao(admin: &[u8; 32]) -> Storage {
    let mut st = Storage::new();
    governance::init(&mut st, admin, 100, 50);
    st
}

#[test]
fn governance_voting_power() {
    let admin = [1u8; 32];
    let alice = [2u8; 32];
    let mut st = Storage::new();
    assert_eq!(governance::set_voting_power(&mut st, &admin, &alice, 5), Err(governance::ERR_STORAGE));
    let mut st = dao(&admin);
    assert_eq!(governance::read_admin(&st), Ok(admin));
    assert_eq!(governance::set_voting_power(&mut st, &alice, &alice, 5), Err(governance::ERR_ONLY_ADMIN));
    assert_eq!(governance::set_voting_power(&mut st, &admin, &alice, 5), Ok(()));
    assert_eq!(governance::read_voting_power(&st, &alice), 5);
}

#[test]
fn governance_proposal_ids() {
    let admin = [1u8; 32];
    let alice = [2u8; 32];
    let mut st = dao(&admin);
    let first = governance::create_proposal(&mut st, &alice, 10);
    assert_eq!(first, alice);
    let second = governance::create_proposal(&mut st, &alice, 10);
    let mut expected = alice;
    expected[0] ^= 1;
    assert_eq!(second, expected);
}

#[test]
fn governance_vote_and_execute() {
    let admin = [1u8; 32];
    let alice = [2u8; 32];
    let bob = [3u8; 32];
    let carol = [4u8; 32];
    let mut st = dao(&admin);
    governance::set_voting_power(&mut st, &admin, &alice, 150).unwrap();
    governance::set_voting_power(&mut st, &admin, &bob, 40).unwrap();
    let id = governance::create_proposal(&mut st, &alice, 10);
    assert_eq!(governance::vote(&mut st, &alice, &[9u8; 32], true, 20), Err(governance::ERR_PROPOSAL_NOT_FOUND));
    assert_eq!(governance::vote(&mut st, &alice, &id, true, 20), Ok(()));
    assert_eq!(governance::vote(&mut st, &alice, &id, false, 21), Err(governance::ERR_ALREADY_VOTED));
    assert_eq!(governance::vote(&mut st, &carol, &id, true, 21), Err(governance::ERR_INSUFFICIENT_VOTING_POWER));
    assert_eq!(governance::vote(&mut st, &bob, &id, false, 60), Err(governance::ERR_VOTING_ENDED));
    assert_eq!(governance::vote(&mut st, &bob, &id, false, 59), Ok(()));
    assert_eq!(governance::execute_proposal(&mut st, &id, 59), Err(governance::ERR_VOTING_NOT_STARTED));
    assert_eq!(governance::execute_proposal(&mut st, &id, 60), Ok(()));
    // executed is final
    assert_eq!(governance::cancel_proposal(&mut st, &alice, &id), Err(governance::ERR_CANNOT_EXECUTE));
    assert_eq!(governance::vote(&mut st, &carol, &id, true, 20), Err(governance::ERR_VOTING_ENDED));
}

#[test]
fn governance_quorum_and_cancel() {
    let admin = [1u8; 32];
    let alice = [2u8; 32];
    let bob = [3u8; 32];
    let mut st = dao(&admin);
    governance::set_voting_power(&mut st, &admin, &alice, 80).unwrap();
    let id = governance::create_proposal(&mut st, &alice, 10);
    governance::vote(&mut st, &alice, &id, true, 11).unwrap();
    // 80 votes for, below the quorum of 100
    assert_eq!(governance::execute_proposal(&mut st, &id, 60), Err(governance::ERR_CANNOT_EXECUTE));
    assert_eq!(governance::cancel_proposal(&mut st, &bob, &id), Err(governance::ERR_NOT_AUTHORIZED));
    assert_eq!(governance::cancel_proposal(&mut st, &admin, &id), Ok(()));
    assert_eq!(governance::vote(&mut st, &alice, &id, true, 12), Err(governance::ERR_VOTING_ENDED));
}

#[test]
fn governance_process_instruction() {
    let admin = [1u8; 32];
    let alice = [2u8; 32];
    let mut st = Storage::new();
    let mut init = vec![0u8];
    init.extend_from_slice(&admin);
    init.extend_from_slice(&100u64.to_le_bytes());
    init.extend_from_slice(&50u64.to_le_bytes());
    assert_eq!(governance::process_instruction(&mut st, &init), Ok(vec![]));
    assert_eq!(governance::process_instruction(&mut st, &init[..48]), Err(governance::ERR_INVALID_INPUT));
    let mut create = vec![2u8];
    create.extend_from_slice(&alice);
    create.extend_from_slice(&10u64.to_le_bytes());
    assert_eq!(governance::process_instruction(&mut st, &create), Ok(alice.to_vec()));
}

// ---------------------------------------------------------------------------
// Multisig
// ---------------------------------------------------------------------------

fn wallet(owners: &[[u8; 32]], threshold: u32) -> Storage {
    let mut st = Storage::new();
    let v: Vec<[u8; 32]> = owners.to_vec();
    assert_eq!(multisig::init(&mut st, threshold, owners.len() as u32, &v), Ok(()));
    st
}

#[test]
fn multisig_init_threshold() {
    let mut st = Storage::new();
    let owners = vec![[1u8; 32], [2u8; 32]];
    assert_eq!(multisig::init(&mut st, 0, 2, &owners), Err(multisig::ERR_INVALID_THRESHOLD));
    assert_eq!(multisig::init(&mut st, 3, 2, &owners), Err(multisig::ERR_INVALID_THRESHOLD));
    let st = wallet(&owners, 2);
    assert!(multisig::check_owner(&st, &[1u8; 32]));
    assert!(multisig::check_owner(&st, &[2u8; 32]));
    assert!(!multisig::check_owner(&st, &[3u8; 32]));
}

#[test]
fn multisig_flow() {
    let a = [1u8; 32];
    let b = [2u8; 32];
    let stranger = [3u8; 32];
    let to = [9u8; 32];
    let mut st = wallet(&[a, b], 2);
    multisig::deposit(&mut st, 1_000);
    assert_eq!(u64_at(&st, b"bal"), 1_000);
    assert_eq!(multisig::propose_transaction(&mut st, &stranger, &to, 10), Err(multisig::ERR_ONLY_OWNER));
    assert_eq!(multisig::propose_transaction(&mut st, &a, &[0u8; 32], 10), Err(multisig::ERR_INVALID_RECIPIENT));
    assert_eq!(multisig::propose_transaction(&mut st, &a, &to, 400), Ok(0));
    assert_eq!(multisig::propose_transaction(&mut st, &a, &to, 5_000), Ok(1));
    assert_eq!(multisig::approve_transaction(&mut st, &a, 7), Err(multisig::ERR_TX_NOT_FOUND));
    assert_eq!(multisig::approve_transaction(&mut st, &a, 0), Ok(()));
    assert_eq!(multisig::approve_transaction(&mut st, &a, 0), Err(multisig::ERR_ALREADY_APPROVED));
    assert_eq!(multisig::execute_transaction(&mut st, &a, 0), Err(multisig::ERR_INSUFFICIENT_APPROVALS));
    assert_eq!(multisig::approve_transaction(&mut st, &b, 0), Ok(()));
    assert_eq!(multisig::execute_transaction(&mut st, &stranger, 0), Err(multisig::ERR_ONLY_OWNER));
    assert_eq!(multisig::execute_transaction(&mut st, &b, 0), Ok(()));
    assert_eq!(u64_at(&st, b"bal"), 600);
    // executed once only
    assert_eq!(multisig::execute_transaction(&mut st, &b, 0), Err(multisig::ERR_TX_NOT_PENDING));
    multisig::approve_transaction(&mut st, &a, 1).unwrap();
    multisig::approve_transaction(&mut st, &b, 1).unwrap();
    assert_eq!(multisig::execute_transaction(&mut st, &a, 1), Err(multisig::ERR_INSUFFICIENT_BALANCE));
    assert_eq!(multisig::cancel_transaction(&mut st, &a, 1), Ok(()));
    assert_eq!(multisig::approve_transaction(&mut st, &a, 1), Err(multisig::ERR_TX_NOT_PENDING));
}

#[test]
fn multisig_process_instruction() {
    let a = [1u8; 32];
    let mut st = Storage::new();
    let mut init = vec![0u8];
    init.extend_from_slice(&1u32.to_le_bytes());
    init.extend_from_slice(&1u32.to_le_bytes());
    init.extend_from_slice(&a);
    assert_eq!(multisig::process_instruction(&mut st, &init), Ok(vec![]));
    assert!(multisig::check_owner(&st, &a));
    let mut propose = vec![1u8];
    propose.extend_from_slice(&a);
    propose.extend_from_slice(&[5u8; 32]);
    propose.extend_from_slice(&3u64.to_le_bytes());
    assert_eq!(multisig::process_instruction(&mut st, &propose), Ok(0u64.to_le_bytes().to_vec()));
    assert_eq!(multisig::process_instruction(&mut st, &[1u8; 72]), Err(multisig::ERR_INVALID_INPUT));
    let mut dep = vec![4u8];
    dep.extend_from_slice(&77u64.to_le_bytes());
    assert_eq!(multisig::process_instruction(&mut st, &dep), Ok(vec![]));
    assert_eq!(u64_at(&st, b"bal"), 77);
}

// ---------------------------------------------------------------------------
// Staking
// ---------------------------------------------------------------------------

#[test]
fn staking_rewards_accrue_and_claim_once() {
    let owner = [1u8; 32];
    let alice = [2u8; 32];
    let mut st = Storage::new();
    staking::init(&mut st, &owner, 10);
    assert_eq!(staking::read_owner(&st), Ok(owner));
    assert_eq!(staking::stake(&mut st, &alice, 0, 100), Err(staking::ERR_ZERO_AMOUNT));
    assert_eq!(staking::stake(&mut st, &alice, 1_000, 100), Ok(()));
    assert_eq!(staking::read_stake(&st, &alice), 1_000);
    // 100 seconds at 10 per second over 1000 staked: 1_000_000 per token (scaled)
    assert_eq!(staking::claim_rewards(&mut st, &alice, 200), Ok(1_000));
    assert_eq!(u64_at(&st, b"rpt"), 1_000_000);
    assert_eq!(staking::read_user_rpt(&st, &alice), 1_000_000);
    assert_eq!(staking::claim_rewards(&mut st, &alice, 200), Err(staking::ERR_NO_REWARDS_TO_CLAIM));
}

#[test]
fn staking_stake_unstake() {
    let owner = [1u8; 32];
    let alice = [2u8; 32];
    let mut st = Storage::new();
    staking::init(&mut st, &owner, 10);
    staking::stake(&mut st, &alice, 1_000, 100).unwrap();
    assert_eq!(staking::unstake(&mut st, &alice, 0, 150), Err(staking::ERR_ZERO_AMOUNT));
    assert_eq!(staking::unstake(&mut st, &alice, 1_001, 150), Err(staking::ERR_INSUFFICIENT_STAKE));
    assert_eq!(staking::unstake(&mut st, &alice, 400, 150), Ok(()));
    assert_eq!(staking::read_stake(&st, &alice), 600);
    assert_eq!(u64_at(&st, b"ts"), 600);
    // rewards up to the unstake are kept
    assert_eq!(staking::read_user_pending_rewards(&st, &alice), 500);
}

#[test]
fn staking_set_rate() {
    let owner = [1u8; 32];
    let mut st = Storage::new();
    assert_eq!(staking::set_reward_rate(&mut st, &owner, 5, 1), Err(staking::ERR_STORAGE));
    staking::init(&mut st, &owner, 10);
    assert_eq!(staking::set_reward_rate(&mut st, &[2u8; 32], 5, 1), Err(staking::ERR_ONLY_OWNER));
    assert_eq!(staking::set_reward_rate(&mut st, &owner, 5, 1), Ok(()));
    assert_eq!(u64_at(&st, b"rr"), 5);
}

use tos_tck::factory_pattern;
use tos_tck::multi_token;
use tos_tck::nft;
use tos_tck::ownable;
use tos_tck::pausable;
use tos_tck::storage::Storage;

// ---------------------------------------------------------------------------
// Factory pattern
// ---------------------------------------------------------------------------

#[test]
fn factory_pattern_hash() {
    let creator = [1u8; 32];
    assert_eq!(factory_pattern::generate_hash(&creator, 0, 0, &[0u8; 32]), creator);
    let h = factory_pattern::generate_hash(&creator, 3, 0x0201, &[0x10u8; 32]);
    let mut expected = [0x11u8; 32];
    expected[0] ^= 3;
    expected[1] ^= 0x01;
    expected[2] ^= 0x02;
    assert_eq!(h, expected);
}

#[test]
fn factory_pattern_create_and_pause() {
    let admin = [9u8; 32];
    let creator = [1u8; 32];
    let block = [0u8; 32];
    let mut st = Storage::new();
    factory_pattern::init(&mut st, &admin);
    assert_eq!(factory_pattern::read_admin(&st), Ok(admin));
    assert!(!factory_pattern::is_paused(&st));
    let h1 = factory_pattern::create_contract(&mut st, &creator, 1, &block).unwrap();
    let mut e1 = creator;
    e1[0] ^= 1;
    assert_eq!(h1, e1);
    assert_eq!(factory_pattern::read_count(&st), 1);
    // the count goes into the next hash
    let h2 = factory_pattern::create_contract(&mut st, &creator, 1, &block).unwrap();
    let mut e2 = e1;
    e2[1] ^= 1;
    assert_eq!(h2, e2);

    assert_eq!(factory_pattern::pause(&mut st, &creator), Err(factory_pattern::ERR_ONLY_ADMIN));
    assert_eq!(factory_pattern::unpause(&mut st, &admin), Err(factory_pattern::ERR_NOT_PAUSED));
    assert_eq!(factory_pattern::pause(&mut st, &admin), Ok(()));
    assert_eq!(factory_pattern::pause(&mut st, &admin), Err(factory_pattern::ERR_ALREADY_PAUSED));
    assert_eq!(
        factory_pattern::create_contract(&mut st, &creator, 1, &block),
        Err(factory_pattern::ERR_FACTORY_PAUSED)
    );
    assert_eq!(factory_pattern::unpause(&mut st, &admin), Ok(()));
    assert!(factory_pattern::create_contract(&mut st, &creator, 1, &block).is_ok());
}

#[test]
fn factory_pattern_existing_hash_refused() {
    let admin = [9u8; 32];
    let creator = [1u8; 32];
    let mut st = Storage::new();
    factory_pattern::init(&mut st, &admin);
    // count 0 then count 1: block hashes chosen so both give the same hash
    let h = factory_pattern::create_contract(&mut st, &creator, 0, &[0u8; 32]).unwrap();
    let mut block = [0u8; 32];
    block[1] = 1;
    assert_eq!(
        factory_pattern::create_contract(&mut st, &creator, 0, &block),
        Err(factory_pattern::ERR_CONTRACT_EXISTS)
    );
    assert_eq!(h, creator);
}

#[test]
fn factory_pattern_deactivate_reactivate() {
    let admin = [9u8; 32];
    let creator = [1u8; 32];
    let other = [2u8; 32];
    let mut st = Storage::new();
    factory_pattern::init(&mut st, &admin);
    let h = factory_pattern::create_contract(&mut st, &creator, 2, &[0u8; 32]).unwrap();
    assert_eq!(
        factory_pattern::deactivate_contract(&mut st, &creator, &[7u8; 32]),
        Err(factory_pattern::ERR_CONTRACT_NOT_FOUND)
    );
    assert_eq!(
        factory_pattern::deactivate_contract(&mut st, &other, &h),
        Err(factory_pattern::ERR_NOT_AUTHORIZED)
    );
    assert_eq!(factory_pattern::reactivate_contract(&mut st, &admin, &h), Err(factory_pattern::ERR_ALREADY_ACTIVE));
    assert_eq!(factory_pattern::deactivate_contract(&mut st, &creator, &h), Ok(()));
    assert_eq!(
        factory_pattern::deactivate_contract(&mut st, &admin, &h),
        Err(factory_pattern::ERR_ALREADY_INACTIVE)
    );
    assert_eq!(factory_pattern::reactivate_contract(&mut st, &creator, &h), Err(factory_pattern::ERR_ONLY_ADMIN));
    assert_eq!(factory_pattern::reactivate_contract(&mut st, &admin, &h), Ok(()));
    assert_eq!(factory_pattern::deactivate_contract(&mut st, &admin, &h), Ok(()));
}

#[test]
fn factory_pattern_process_instruction() {
    let admin = [9u8; 32];
    let block = [0u8; 32];
    let mut st = Storage::new();
    let mut init = vec![0u8];
    init.extend_from_slice(&admin);
    assert_eq!(factory_pattern::process_instruction(&mut st, &init, &block), Ok(vec![]));
    let mut create = vec![1u8];
    create.extend_from_slice(&[1u8; 32]);
    create.push(0);
    assert_eq!(factory_pattern::process_instruction(&mut st, &create, &block), Ok(vec![1u8; 32]));
    assert_eq!(
        factory_pattern::process_instruction(&mut st, &[6], &block),
        Ok(1u64.to_le_bytes().to_vec())
    );
    assert_eq!(
        factory_pattern::process_instruction(&mut st, &[1u8; 33], &block),
        Err(factory_pattern::ERR_INVALID_INPUT)
    );
}

// ---------------------------------------------------------------------------
// ERC-721 style NFT
// ---------------------------------------------------------------------------

#[test]
fn nft_mint_transfer_burn() {
    let alice = [1u8; 32];
    let bob = [2u8; 32];
    let mut st = Storage::new();
    assert_eq!(nft::mint(&mut st, &[0u8; 32], 1), Err(nft::ERR_ZERO_ADDRESS));
    assert_eq!(nft::mint(&mut st, &alice, 1), Ok(()));
    assert_eq!(nft::mint(&mut st, &bob, 1), Err(nft::ERR_TOKEN_ALREADY_MINTED));
    assert!(nft::token_exists(&st, 1));
    assert_eq!(nft::owner_of(&st, 1), Ok(alice));
    assert_eq!(nft::balance_of(&st, &alice), 1);

    assert_eq!(nft::transfer_from(&mut st, &bob, &alice, 1), Err(nft::ERR_TRANSFER_FROM_INCORRECT_OWNER));
    assert_eq!(nft::transfer_from(&mut st, &alice, &[0u8; 32], 1), Err(nft::ERR_ZERO_ADDRESS));
    assert_eq!(nft::transfer_from(&mut st, &alice, &bob, 2), Err(nft::ERR_TOKEN_NOT_EXISTS));
    assert_eq!(nft::transfer_from(&mut st, &alice, &bob, 1), Ok(()));
    assert_eq!(nft::owner_of(&st, 1), Ok(bob));
    assert_eq!(nft::balance_of(&st, &alice), 0);
    assert_eq!(nft::balance_of(&st, &bob), 1);

    assert_eq!(nft::burn(&mut st, 2), Err(nft::ERR_TOKEN_NOT_EXISTS));
    assert_eq!(nft::burn(&mut st, 1), Ok(()));
    assert!(!nft::token_exists(&st, 1));
    assert_eq!(nft::owner_of(&st, 1), Err(nft::ERR_TOKEN_NOT_EXISTS));
    assert_eq!(nft::balance_of(&st, &bob), 0);
}

#[test]
fn nft_approvals() {
    let alice = [1u8; 32];
    let bob = [2u8; 32];
    let mut st = Storage::new();
    assert_eq!(nft::approve(&mut st, &bob, 5), Err(nft::ERR_TOKEN_NOT_EXISTS));
    nft::mint(&mut st, &alice, 5).unwrap();
    assert_eq!(nft::approve(&mut st, &alice, 5), Err(nft::ERR_SAME_ADDRESS));
    assert_eq!(nft::approve(&mut st, &bob, 5), Ok(()));
    assert_eq!(st.get_value(&nft::make_approval_key(5)), Some(bob.to_vec()));
    assert_eq!(nft::set_approval_for_all(&mut st, &alice, &alice, true), Err(nft::ERR_SAME_ADDRESS));
    assert_eq!(nft::set_approval_for_all(&mut st, &alice, &bob, true), Ok(()));
    assert!(nft::is_approved_for_all(&st, &alice, &bob));
    assert_eq!(nft::set_approval_for_all(&mut st, &alice, &bob, false), Ok(()));
    assert!(!nft::is_approved_for_all(&st, &alice, &bob));
}

#[test]
fn nft_keys_and_instructions() {
    let k = nft::make_owner_key(0x0102);
    assert_eq!(&k[..4], b"own:");
    assert_eq!(k.len(), 20);
    assert_eq!(k[4], 2);
    assert_eq!(k[5], 1);
    let a = nft::make_approval_key(7);
    assert_eq!(&a[..4], b"apr:");
    assert_eq!(a[4], 7);

    let alice = [1u8; 32];
    let mut st = Storage::new();
    let mut mint = vec![6u8];
    mint.extend_from_slice(&alice);
    mint.extend_from_slice(&9u128.to_le_bytes());
    assert_eq!(nft::process_instruction(&mut st, &mint), Ok(vec![]));
    let mut owner = vec![2u8];
    owner.extend_from_slice(&9u128.to_le_bytes());
    assert_eq!(nft::process_instruction(&mut st, &owner), Ok(alice.to_vec()));
    let mut bal = vec![1u8];
    bal.extend_from_slice(&alice);
    assert_eq!(nft::process_instruction(&mut st, &bal), Ok(1u128.to_le_bytes().to_vec()));
    assert_eq!(nft::process_instruction(&mut st, &[7u8; 5]), Err(nft::ERR_INVALID_INPUT));
}

// ---------------------------------------------------------------------------
// ERC-1155 style multi token
// ---------------------------------------------------------------------------

#[test]
fn multi_token_mint_transfer_burn() {
    let owner = [9u8; 32];
    let alice = [1u8; 32];
    let bob = [2u8; 32];
    let mut st = Storage::new();
    assert_eq!(multi_token::mint(&mut st, &owner, &alice, 1, 10), Err(multi_token::ERR_STORAGE));
    multi_token::init(&mut st, &owner);
    assert_eq!(multi_token::read_owner(&st), Ok(owner));
    assert_eq!(multi_token::mint(&mut st, &alice, &alice, 1, 10), Err(multi_token::ERR_ONLY_OWNER));
    assert_eq!(multi_token::mint(&mut st, &owner, &[0u8; 32], 1, 10), Err(multi_token::ERR_ZERO_ADDRESS));
    assert_eq!(multi_token::mint(&mut st, &owner, &alice, 1, 100), Ok(()));
    assert_eq!(multi_token::balance_of(&st, &alice, 1), 100);
    assert_eq!(multi_token::read_supply(&st, 1), 100);

    assert_eq!(multi_token::safe_transfer_from(&mut st, &bob, &alice, &bob, 1, 5), Err(multi_token::ERR_NOT_AUTHORIZED));
    assert_eq!(multi_token::safe_transfer_from(&mut st, &alice, &alice, &[0u8; 32], 1, 5), Err(multi_token::ERR_ZERO_ADDRESS));
    assert_eq!(multi_token::safe_transfer_from(&mut st, &alice, &alice, &bob, 1, 101), Err(multi_token::ERR_INSUFFICIENT_BALANCE));
    assert_eq!(multi_token::safe_transfer_from(&mut st, &alice, &alice, &bob, 1, 30), Ok(()));
    assert_eq!(multi_token::balance_of(&st, &alice, 1), 70);
    assert_eq!(multi_token::balance_of(&st, &bob, 1), 30);
    assert_eq!(multi_token::read_supply(&st, 1), 100);

    // an approved operator moves and burns
    assert_eq!(multi_token::set_approval_for_all(&mut st, &alice, &alice, true), Err(multi_token::ERR_SAME_ADDRESS));
    assert_eq!(multi_token::set_approval_for_all(&mut st, &alice, &bob, true), Ok(()));
    assert!(multi_token::is_approved_for_all(&st, &alice, &bob));
    assert_eq!(multi_token::burn(&mut st, &bob, &alice, 1, 20), Ok(()));
    assert_eq!(multi_token::balance_of(&st, &alice, 1), 50);
    assert_eq!(multi_token::read_supply(&st, 1), 80);
    assert_eq!(multi_token::burn(&mut st, &bob, &alice, 1, 51), Err(multi_token::ERR_INSUFFICIENT_BALANCE));
    assert_eq!(multi_token::burn(&mut st, &owner, &alice, 1, 1), Err(multi_token::ERR_NOT_AUTHORIZED));
}

#[test]
fn multi_token_keys_and_instructions() {
    let alice = [1u8; 32];
    let k = multi_token::make_balance_key(&alice, 3);
    assert_eq!(&k[..4], b"bal:");
    assert_eq!(&k[4..36], &alice);
    assert_eq!(k[36], 3);
    let s = multi_token::make_supply_key(3);
    assert_eq!(&s[..4], b"sup:");
    assert_eq!(s[4], 3);

    let owner = [9u8; 32];
    let mut st = Storage::new();
    let mut init = vec![0u8];
    init.extend_from_slice(&owner);
    assert_eq!(multi_token::process_instruction(&mut st, &init), Ok(vec![]));
    let mut mint = vec![4u8];
    mint.extend_from_slice(&owner);
    mint.extend_from_slice(&alice);
    mint.extend_from_slice(&3u128.to_le_bytes());
    mint.extend_from_slice(&40u128.to_le_bytes());
    assert_eq!(multi_token::process_instruction(&mut st, &mint), Ok(vec![]));
    let mut bal = vec![1u8];
    bal.extend_from_slice(&alice);
    bal.extend_from_slice(&3u128.to_le_bytes());
    assert_eq!(multi_token::process_instruction(&mut st, &bal), Ok(40u128.to_le_bytes().to_vec()));
    assert_eq!(multi_token::process_instruction(&mut st, &[3u8; 10]), Err(multi_token::ERR_INVALID_INPUT));
}

// ---------------------------------------------------------------------------
// Pausable
// ---------------------------------------------------------------------------

#[test]
fn pausable_flow() {
    let owner = [1u8; 32];
    let other = [2u8; 32];
    let mut st = Storage::new();
    assert_eq!(pausable::op_pause(&mut st, &owner), pausable::ERR_NOT_INITIALIZED);
    assert_eq!(pausable::op_initialize(&mut st, &[1u8; 31]), pausable::ERR_INVALID_PARAMS);
    assert_eq!(pausable::op_initialize(&mut st, &owner), pausable::SUCCESS);
    assert_eq!(pausable::op_initialize(&mut st, &owner), pausable::ERR_ALREADY_INITIALIZED);
    assert_eq!(pausable::get_owner(&st), owner);
    assert_eq!(pausable::op_query_paused(&st), Ok(vec![0]));
    assert_eq!(pausable::op_unpause(&mut st, &owner), pausable::ERR_NOT_PAUSED);
    assert_eq!(pausable::op_pause(&mut st, &other), pausable::ERR_UNAUTHORIZED);
    assert_eq!(pausable::op_pause(&mut st, &owner), pausable::SUCCESS);
    assert!(pausable::is_paused(&st));
    assert_eq!(pausable::require_paused(&st), Ok(()));
    assert_eq!(pausable::require_not_paused(&st), Err(pausable::ERR_PAUSED));
    assert_eq!(pausable::op_pause(&mut st, &owner), pausable::ERR_PAUSED);
    assert_eq!(pausable::op_unpause(&mut st, &owner), pausable::SUCCESS);
    assert_eq!(pausable::op_query_paused(&st), Ok(vec![0]));
    assert_eq!(pausable::op_query_owner(&st), Ok(owner.to_vec()));
    assert_eq!(pausable::require_owner(&st, &other), Err(pausable::ERR_UNAUTHORIZED));
}

#[test]
fn pausable_entrypoint() {
    let owner = [1u8; 32];
    let mut st = Storage::new();
    assert_eq!(pausable::entrypoint(&mut st, &owner, &[]).0, pausable::ERR_INVALID_INSTRUCTION);
    assert_eq!(pausable::entrypoint(&mut st, &owner, &[pausable::OP_PAUSED]).0, pausable::ERR_NOT_INITIALIZED);
    let mut init = vec![pausable::OP_INITIALIZE];
    init.extend_from_slice(&owner);
    assert_eq!(pausable::entrypoint(&mut st, &owner, &init), (pausable::SUCCESS, vec![]));
    assert_eq!(pausable::entrypoint(&mut st, &owner, &[pausable::OP_PAUSE]).0, pausable::SUCCESS);
    assert_eq!(pausable::entrypoint(&mut st, &owner, &[pausable::OP_PAUSED]), (pausable::SUCCESS, vec![1]));
    assert_eq!(pausable::entrypoint(&mut st, &owner, &[pausable::OP_OWNER]), (pausable::SUCCESS, owner.to_vec()));
    assert_eq!(pausable::entrypoint(&mut st, &owner, &[0x42]).0, pausable::ERR_INVALID_INSTRUCTION);
}

// ---------------------------------------------------------------------------
// Ownable
// ---------------------------------------------------------------------------

#[test]
fn ownable_flow() {
    let alice = [1u8; 32];
    let bob = [2u8; 32];
    let mut st = Storage::new();
    assert_eq!(ownable::get_owner(&st), [0u8; 32]);
    // an empty call makes the caller owner
    assert_eq!(ownable::entrypoint(&mut st, &alice, &[]), (ownable::SUCCESS, vec![]));
    assert!(ownable::is_owner(&st, &alice));
    assert_eq!(ownable::op_transfer_ownership(&mut st, &bob, &alice), ownable::ERR_UNAUTHORIZED);
    assert_eq!(ownable::op_transfer_ownership(&mut st, &alice, &[3u8; 31]), ownable::ERR_INVALID_PARAMS);
    assert_eq!(ownable::op_transfer_ownership(&mut st, &alice, &[0u8; 32]), ownable::ERR_ZERO_ADDRESS);
    assert_eq!(ownable::op_transfer_ownership(&mut st, &alice, &bob), ownable::SUCCESS);
    assert_eq!(ownable::op_owner(&st), bob.to_vec());
    assert_eq!(ownable::op_renounce_ownership(&mut st, &alice), ownable::ERR_UNAUTHORIZED);
    assert_eq!(ownable::op_renounce_ownership(&mut st, &bob), ownable::SUCCESS);
    assert_eq!(ownable::get_owner(&st), [0u8; 32]);
}

#[test]
fn ownable_entrypoint() {
    let alice = [1u8; 32];
    let bob = [2u8; 32];
    let mut st = Storage::new();
    ownable::set_owner(&mut st, &alice);
    let mut t = vec![ownable::OP_TRANSFER_OWNERSHIP];
    t.extend_from_slice(&bob);
    assert_eq!(ownable::entrypoint(&mut st, &alice, &t), (ownable::SUCCESS, vec![]));
    assert_eq!(ownable::entrypoint(&mut st, &alice, &[ownable::OP_OWNER]), (ownable::SUCCESS, bob.to_vec()));
    assert_eq!(ownable::entrypoint(&mut st, &alice, &[0x55]).0, ownable::ERR_INVALID_INSTRUCTION);
    assert_eq!(ownable::entrypoint(&mut st, &bob, &[ownable::OP_RENOUNCE_OWNERSHIP]).0, ownable::SUCCESS);
}

use tos_tck::erc1155;
use tos_tck::erc721;
use tos_tck::storage::Storage;

#[test]
fn test_storage_keys() {
    let owner = [1u8; 32];
    let operator = [2u8; 32];
    let token_id = 123u128;

    let key1 = erc1155::balance_key(&owner, token_id);
    assert_eq!(&key1[0..8], b"balance:");

    let key2 = erc1155::operator_key(&owner, &operator);
    assert_eq!(&key2[0..9], b"operator:");

    let key3 = erc1155::uri_key(token_id);
    assert_eq!(&key3[0..4], b"uri:");
}

#[test]
fn lib_test_storage_keys() {
    let token_id = 123u64;
    let owner = [1u8; 32];
    let operator = [2u8; 32];

    let key1 = erc721::owner_key(token_id);
    assert_eq!(&key1[0..6], b"owner:");

    let key2 = erc721::balance_key(&owner);
    assert_eq!(&key2[0..8], b"balance:");

    let key3 = erc721::approval_key(token_id);
    assert_eq!(&key3[0..9], b"approval:");

    let key4 = erc721::operator_key(&owner, &operator);
    assert_eq!(&key4[0..9], b"operator:");
}

#[test]
fn erc1155_key_layout() {
    let owner = [1u8; 32];
    let key = erc1155::balance_key(&owner, 0x0102);
    assert_eq!(&key[8..40], &owner);
    assert_eq!(key[40], 2);
    assert_eq!(key[41], 1);
    assert!(key[42..].iter().all(|&b| b == 0));
    let uri = erc1155::uri_key(5);
    assert_eq!(uri[4], 5);
    assert!(uri[5..].iter().all(|&b| b == 0));
}

fn mint_input(to: &[u8; 32], id: u128, amount: u128) -> Vec<u8> {
    let mut v = vec![0x01u8];
    v.extend_from_slice(to);
    v.extend_from_slice(&id.to_le_bytes());
    v.extend_from_slice(&amount.to_le_bytes());
    v
}

fn transfer_input(from: &[u8; 32], to: &[u8; 32], id: u128, amount: u128) -> Vec<u8> {
    let mut v = vec![0x05u8];
    v.extend_from_slice(from);
    v.extend_from_slice(to);
    v.extend_from_slice(&id.to_le_bytes());
    v.extend_from_slice(&amount.to_le_bytes());
    v
}

#[test]
fn erc1155_mint_transfer_burn() {
    let owner = [1u8; 32];
    let alice = [2u8; 32];
    let bob = [3u8; 32];
    let mut st = Storage::new();
    assert_eq!(erc1155::handle_initialize(&mut st, &[0u8], &owner), Ok(()));
    assert_eq!(
        erc1155::handle_initialize(&mut st, &[0u8], &owner),
        Err(erc1155::ERR_ALREADY_INITIALIZED)
    );
    // Only the owner mints.
    assert_eq!(
        erc1155::handle_mint(&mut st, &mint_input(&alice, 7, 100), &alice),
        Err(erc1155::ERR_UNAUTHORIZED)
    );
    assert_eq!(erc1155::handle_mint(&mut st, &mint_input(&alice, 7, 100), &owner), Ok(()));
    assert_eq!(erc1155::balance_of_internal(&st, &alice, 7), 100);
    // A stranger cannot move Alice's tokens.
    assert_eq!(
        erc1155::handle_safe_transfer_from(&mut st, &transfer_input(&alice, &bob, 7, 10), &bob),
        Err(erc1155::ERR_UNAUTHORIZED)
    );
    assert_eq!(
        erc1155::handle_safe_transfer_from(&mut st, &transfer_input(&alice, &bob, 7, 30), &alice),
        Ok(())
    );
    assert_eq!(erc1155::balance_of_internal(&st, &alice, 7), 70);
    assert_eq!(erc1155::balance_of_internal(&st, &bob, 7), 30);
    // an instruction without room for the token id and amount is invalid
    let short = transfer_input(&alice, &bob, 7, 1);
    assert_eq!(
        erc1155::handle_safe_transfer_from(&mut st, &short[..80], &alice),
        Err(erc1155::ERR_INVALID_INSTRUCTION)
    );
    assert_eq!(
        erc1155::handle_safe_transfer_from(&mut st, &transfer_input(&alice, &bob, 7, 71), &alice),
        Err(erc1155::ERR_INSUFFICIENT_BALANCE)
    );
    // Approve Bob as operator, then Bob burns Alice's tokens.
    let mut approve = vec![0x07u8];
    approve.extend_from_slice(&bob);
    approve.push(1);
    assert_eq!(erc1155::handle_set_approval_for_all(&mut st, &approve, &alice), Ok(()));
    assert!(erc1155::is_approved_for_all_internal(&st, &alice, &bob));
    let mut burn = vec![0x03u8];
    burn.extend_from_slice(&alice);
    burn.extend_from_slice(&7u128.to_le_bytes());
    burn.extend_from_slice(&20u128.to_le_bytes());
    assert_eq!(erc1155::handle_burn(&mut st, &burn, &bob), Ok(()));
    assert_eq!(erc1155::balance_of_internal(&st, &alice, 7), 50);
}

#[test]
fn erc1155_batch_and_queries() {
    let owner = [1u8; 32];
    let alice = [2u8; 32];
    let mut st = Storage::new();
    let mut init = vec![0u8];
    init.extend_from_slice(&3u16.to_le_bytes());
    init.extend_from_slice(b"ipf");
    assert_eq!(erc1155::handle_initialize(&mut st, &init, &owner), Ok(()));
    let mut batch = vec![0x02u8];
    batch.extend_from_slice(&alice);
    batch.extend_from_slice(&2u16.to_le_bytes());
    for (id, amount) in [(1u128, 5u128), (2u128, 6u128)] {
        batch.extend_from_slice(&id.to_le_bytes());
        batch.extend_from_slice(&amount.to_le_bytes());
    }
    assert_eq!(erc1155::handle_mint_batch(&mut st, &batch, &owner), Ok(()));
    let mut q = vec![0x10u8];
    q.extend_from_slice(&alice);
    q.extend_from_slice(&2u128.to_le_bytes());
    assert_eq!(erc1155::handle_balance_of(&st, &q), Ok(6));
    // The base URI is the fallback of every token.
    let mut u = vec![0x13u8];
    u.extend_from_slice(&9u128.to_le_bytes());
    let uri = erc1155::handle_uri(&st, &u).unwrap();
    assert_eq!(&uri[..3], b"ipf");
    assert_eq!(uri.len(), 256);
    // Status codes through the entry point.
    assert_eq!(erc1155::entrypoint(&mut st, &owner, &[0x30u8]), erc1155::ERR_INVALID_INSTRUCTION);
    assert_eq!(erc1155::entrypoint(&mut st, &owner, &q), 0);
    assert_eq!(erc1155::handle_owner(&st, &[0x14u8]), Ok(owner));
}

#[test]
fn erc721_initialized_once() {
    let mut st = Storage::new();
    let mut init = vec![0u8];
    init.extend_from_slice(&4u16.to_le_bytes());
    init.extend_from_slice(b"Name");
    init.extend_from_slice(&3u16.to_le_bytes());
    init.extend_from_slice(b"SYM");
    let mut mint = vec![1u8];
    mint.extend_from_slice(&[5u8; 32]);
    mint.extend_from_slice(&1u64.to_le_bytes());
    assert_eq!(erc721::entrypoint(&mut st, &mint), erc721::ERROR_NOT_INITIALIZED);
    assert_eq!(erc721::handle_initialize(&mut st, &init), Ok(()));
    assert!(erc721::is_initialized(&st));
    assert_eq!(erc721::handle_initialize(&mut st, &init), Err(erc721::ERROR_ALREADY_INITIALIZED));
    assert_eq!(erc721::entrypoint(&mut st, &mint), 0);
    assert_eq!(erc721::entrypoint(&mut st, &mint), erc721::ERROR_TOKEN_ALREADY_MINTED);
    assert_eq!(erc721::entrypoint(&mut st, &[0x30u8]), erc721::ERROR_INVALID_INSTRUCTION);
    let mut q = vec![0x11u8];
    q.extend_from_slice(&1u64.to_le_bytes());
    assert_eq!(erc721::handle_owner_of(&st, &q), Ok([5u8; 32]));
    let mut b = vec![0x10u8];
    b.extend_from_slice(&[5u8; 32]);
    assert_eq!(erc721::handle_balance_of(&st, &b), Ok(1));
    assert_eq!(erc721::handle_total_supply(&st, &[0x17]), Ok(1));
    let name = erc721::handle_name(&st, &[0x15]).unwrap();
    assert_eq!(name.len(), 64);
    assert_eq!(&name[..4], b"Name");
    // the owner (5..) moves its token; the zero caller cannot
    let mut t = vec![2u8];
    t.extend_from_slice(&[5u8; 32]);
    t.extend_from_slice(&[6u8; 32]);
    t.extend_from_slice(&1u64.to_le_bytes());
    assert_eq!(erc721::handle_transfer(&mut st, &t, &[0u8; 32]), Err(erc721::ERROR_NOT_AUTHORIZED));
    assert_eq!(erc721::handle_transfer(&mut st, &t, &[5u8; 32]), Ok(()));
    assert_eq!(erc721::handle_owner_of(&st, &q), Ok([6u8; 32]));
    let mut burn = vec![7u8];
    burn.extend_from_slice(&1u64.to_le_bytes());
    assert_eq!(erc721::handle_burn(&mut st, &burn, &[5u8; 32]), Err(erc721::ERROR_NOT_AUTHORIZED));
    assert_eq!(erc721::handle_burn(&mut st, &burn, &[6u8; 32]), Ok(()));
    assert_eq!(erc721::handle_total_supply(&st, &[0x17]), Ok(0));
    // An empty name writes nothing to read back: the contract stays
    // uninitialized and may be initialized again.
    let mut unnamed = vec![0u8];
    unnamed.extend_from_slice(&0u16.to_le_bytes());
    unnamed.extend_from_slice(&3u16.to_le_bytes());
    unnamed.extend_from_slice(b"SYM");
    let mut st3 = Storage::new();
    assert_eq!(erc721::handle_initialize(&mut st3, &unnamed), Ok(()));
    assert!(!erc721::is_initialized(&st3));
    assert_eq!(erc721::handle_initialize(&mut st3, &unnamed), Ok(()));
    // Invalid UTF-8 in the name is refused.
    let mut bad = vec![0u8];
    bad.extend_from_slice(&1u16.to_le_bytes());
    bad.push(0xff);
    bad.extend_from_slice(&0u16.to_le_bytes());
    let mut st2 = Storage::new();
    assert_eq!(erc721::handle_initialize(&mut st2, &bad), Err(erc721::ERROR_INVALID_INSTRUCTION));
}

#[test]
fn erc721_ownership_helpers() {
    let mut st = Storage::new();
    let alice = [2u8; 32];
    let bob = [3u8; 32];
    erc721::update_ownership(&mut st, &alice, 9, None);
    erc721::increment_total_supply(&mut st);
    assert_eq!(erc721::owner_of_internal(&st, 9), Some(alice));
    assert_eq!(erc721::balance_of_internal(&st, &alice), 1);
    erc721::approve_internal(&mut st, &bob, 9);
    assert!(erc721::is_authorized(&st, &alice, &bob, 9));
    erc721::update_ownership(&mut st, &bob, 9, Some(alice));
    assert_eq!(erc721::owner_of_internal(&st, 9), Some(bob));
    assert_eq!(erc721::balance_of_internal(&st, &alice), 0);
    assert_eq!(erc721::balance_of_internal(&st, &bob), 1);
    assert_eq!(erc721::get_approved_internal(&st, 9), Some([0u8; 32]));
    assert!(!erc721::is_authorized(&st, &bob, &alice, 9));
    assert!(!erc721::is_authorized(&st, &bob, &[0u8; 32], 9));
    erc721::decrement_total_supply(&mut st);
    erc721::decrement_total_supply(&mut st);
}

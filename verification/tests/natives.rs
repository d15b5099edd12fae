use tos_tck::native_nft;
use tos_tck::native_nft::{NftCall, NftStep};
use tos_tck::storage::Storage;
use tos_tck::balance_transfer;
use tos_tck::code_ops;
use tos_tck::crypto_advanced;
use tos_tck::crypto_advanced::{Bn254Step, Demo, PoseidonStep};
use tos_tck::environment_tests;
use tos_tck::event_tests;
use tos_tck::privacy_defi;
use tos_tck::sdk_demo;
use tos_tck::test_suite;

// ---------------------------------------------------------------------------
// Native NFT
// ---------------------------------------------------------------------------

#[test]
fn native_nft_single_tests() {
    assert_eq!(native_nft::test_collection_exists(Ok(false)), 0);
    assert_eq!(native_nft::test_collection_exists(Err(4)), 104);
    assert_eq!(native_nft::test_mint(Ok(12)), 0);
    assert_eq!(native_nft::test_mint(Err(1)), 201);
    assert_eq!(native_nft::test_transfer(Err(2)), 302);
    assert_eq!(native_nft::test_burn(Ok(())), 0);
    assert_eq!(native_nft::test_burn(Err(9)), 409);
}

#[test]
fn native_nft_sequences() {
    let me = [7u8; 32];
    let col: Vec<u8> = (1..=32).collect();
    // the approvals test starts with approving the operator for token 1
    match native_nft::test_approvals(&me, &[]) {
        NftStep::Call(NftCall::Approve(c, 1, Some(op), by)) => {
            assert_eq!(c.to_vec(), col);
            assert_eq!(op[0], 0x11);
            assert_eq!(by, me);
        }
        other => panic!("unexpected {:?}", other),
    }
    assert!(matches!(native_nft::test_approvals(&me, &[Ok(())]), NftStep::Call(NftCall::GetApproved(_, 1))));
    assert!(matches!(native_nft::test_approvals(&me, &[Ok(()), Ok(())]), NftStep::Call(NftCall::Approve(_, 1, None, _))));
    assert!(matches!(native_nft::test_approvals(&me, &[Ok(()); 6]), NftStep::Done(0)));
    assert!(matches!(native_nft::test_approvals(&me, &[Ok(()), Ok(()), Err(7)]), NftStep::Done(527)));
    assert!(matches!(native_nft::test_queries(&me, &[Ok(()), Err(1), Err(5)]), NftStep::Done(611)));
    assert!(matches!(native_nft::test_queries(&me, &[Ok(()), Ok(()), Ok(())]), NftStep::Call(NftCall::TokenUri(_, 1))));
    // the whole suite: fourteen calls, the first failing test's status
    match native_nft::entrypoint(&me, &[]) {
        NftStep::Call(NftCall::CollectionExists(c)) => assert_eq!(c.to_vec(), col),
        other => panic!("unexpected {:?}", other),
    }
    match native_nft::entrypoint(&me, &[Ok(())]) {
        NftStep::Call(NftCall::Mint(_, to, uri, by)) => {
            assert_eq!(to[0], 0xaa);
            assert_eq!(uri, b"ipfs://QmExampleMetadataHash123456789".to_vec());
            assert_eq!(by, me);
        }
        other => panic!("unexpected {:?}", other),
    }
    assert!(matches!(native_nft::entrypoint(&me, &[Ok(()), Ok(()), Err(5)]), NftStep::Done(305)));
    assert!(matches!(native_nft::entrypoint(&me, &[Ok(()); 14]), NftStep::Done(0)));
    assert!(matches!(native_nft::entrypoint(&me, &[Ok(()); 13]), NftStep::Call(NftCall::TokenUri(_, 1))));
    assert_eq!(native_nft::suite(&[100, 200, 300], &[0, 0, 4]), 304);
    assert_eq!(native_nft::suite(&[100, 200], &[0, 0]), 0);
}

#[test]
fn native_nft_safe_transfer() {
    let me = [1u8; 32];
    let owner = [2u8; 32];
    // the owner moves its own token without the approval queries
    assert_eq!(
        native_nft::example_safe_transfer(&me, Ok(true), Ok(Some(me)), Err(99), Err(99)),
        Ok(me)
    );
    assert_eq!(native_nft::example_safe_transfer(&me, Ok(false), Ok(Some(me)), Ok(None), Ok(false)), Err(1));
    assert_eq!(native_nft::example_safe_transfer(&me, Err(8), Ok(Some(me)), Ok(None), Ok(false)), Err(8));
    assert_eq!(native_nft::example_safe_transfer(&me, Ok(true), Ok(None), Ok(None), Ok(false)), Err(3));
    assert_eq!(
        native_nft::example_safe_transfer(&me, Ok(true), Ok(Some(owner)), Ok(None), Ok(false)),
        Err(2)
    );
    assert_eq!(
        native_nft::example_safe_transfer(&me, Ok(true), Ok(Some(owner)), Ok(Some(me)), Ok(false)),
        Ok(owner)
    );
    assert_eq!(
        native_nft::example_safe_transfer(&me, Ok(true), Ok(Some(owner)), Ok(None), Ok(true)),
        Ok(owner)
    );
    assert_eq!(
        native_nft::example_safe_transfer(&me, Ok(true), Ok(Some(owner)), Err(6), Ok(true)),
        Err(6)
    );
}

#[test]
fn native_nft_helpers() {
    assert_eq!(native_nft::example_batch_mint(&[]), Ok(0));
    assert_eq!(native_nft::example_batch_mint(&[Ok(1), Ok(2), Ok(3)]), Ok(3));
    assert_eq!(native_nft::example_batch_mint(&[Ok(1), Err(4), Ok(3)]), Err(4));
    assert_eq!(native_nft::example_has_nfts(Ok(0)), Ok(false));
    assert_eq!(native_nft::example_has_nfts(Ok(2)), Ok(true));
    assert_eq!(native_nft::example_has_nfts(Err(5)), Err(5));
}

// ---------------------------------------------------------------------------
// Host-call test contracts
// ---------------------------------------------------------------------------

#[test]
fn suites_report_first_failure() {
    assert_eq!(test_suite::call_status(Ok(())), 0);
    assert_eq!(test_suite::call_status(Err(17)), 1);
    assert_eq!(test_suite::hundreds_suite(&[0, 0, 0, 0, 0]), 0);
    assert_eq!(test_suite::hundreds_suite(&[0, 0, 1, 1]), 301);
    assert_eq!(environment_tests::entrypoint(&[0, 0, 0, 0, 0]), 0);
    assert_eq!(environment_tests::entrypoint(&[0, 0, 0, 3]), 403);
    assert_eq!(balance_transfer::entrypoint(&[0, 0, 0, 1]), 401);
    assert_eq!(balance_transfer::entrypoint(&[]), 0);
    assert_eq!(event_tests::entrypoint(&[1]), 101);
    assert_eq!(event_tests::entrypoint(&[0, 0, 0, 0, 1]), 501);
    assert_eq!(code_ops::entrypoint(&[0, 0, 0, 2]), 602);
    assert_eq!(code_ops::entrypoint(&[3]), 103);
    assert_eq!(code_ops::entrypoint(&[0, 0, 0, 0, 1]), 701);
}

#[test]
fn event_tests_emit() {
    let (topics, data) = event_tests::event_for_test(0);
    assert!(topics.is_empty());
    assert_eq!(data, vec![0x01; 32]);
    let (topics, data) = event_tests::event_for_test(1);
    assert_eq!(topics, vec![vec![0x11u8; 32]]);
    assert_eq!(data, vec![0x02; 64]);
    let (topics, _) = event_tests::event_for_test(3);
    assert_eq!(topics, vec![vec![0x44u8; 32], vec![0x55u8; 32], vec![0x66u8; 32]]);
    let (topics, data) = event_tests::event_for_test(4);
    assert_eq!(topics.len(), 4);
    assert_eq!(topics[3], vec![0xAAu8; 32]);
    assert_eq!(data, vec![0x05; 32]);
    assert_eq!(event_tests::test_log0_anonymous(), event_tests::event_for_test(0));
    assert_eq!(event_tests::test_log1_single_topic(), event_tests::event_for_test(1));
    assert_eq!(event_tests::test_log2_two_topics().0.len(), 2);
    assert_eq!(event_tests::test_log3_three_topics().0.len(), 3);
    assert_eq!(event_tests::test_log4_four_topics().0.len(), 4);
}

#[test]
fn caller_tests() {
    let caller = [9u8; 32];
    let mut st = Storage::new();
    assert_eq!(environment_tests::test_get_caller(), 0);
    assert_eq!(environment_tests::test_caller_nonzero(), 0);
    assert_eq!(environment_tests::test_store_caller(&mut st, &caller), 0);
    assert_eq!(st.get_value(&[1u8; 32]), Some(caller.to_vec()));
    assert_eq!(environment_tests::test_access_control(&mut st, &caller), 0);
    assert_eq!(st.get_value(&[2u8; 32]), Some(caller.to_vec()));
    assert_eq!(environment_tests::store_and_check_caller(&mut st, &caller, 7), 0);
    assert_eq!(st.get_value(&[7u8; 32]), Some(caller.to_vec()));
    assert_eq!(environment_tests::test_caller_consistency(&caller, &caller, &caller), 0);
    assert_eq!(environment_tests::test_caller_consistency(&caller, &caller, &[1u8; 32]), 1);
}

#[test]
fn code_tests() {
    assert_eq!(code_ops::test_own_code_size(Ok(0)), 3);
    assert_eq!(code_ops::test_own_code_size(Ok(10)), 0);
    assert_eq!(code_ops::test_own_code_size(Err(1)), 2);
    assert_eq!(code_ops::code_copies(), vec![(64, 0), (32, 64), (0, 0)]);
    assert_eq!(code_ops::test_copy_own_code(Ok(())), 0);
    assert_eq!(code_ops::test_copy_own_code(Err(4)), 1);
    assert_eq!(code_ops::test_partial_code_copy(Err(4)), 1);
    assert_eq!(code_ops::test_zero_length_copy(Ok(())), 0);
    assert_eq!(code_ops::size_consistency_copy_len(100), 100);
    assert_eq!(code_ops::size_consistency_copy_len(1000), 256);
    assert_eq!(code_ops::test_size_consistency(Err(1), Ok(())), 1);
    assert_eq!(code_ops::test_size_consistency(Ok(5), Err(1)), 2);
    assert_eq!(code_ops::test_size_consistency(Ok(5), Ok(())), 0);
}

#[test]
fn transfer_tests() {
    assert_eq!(balance_transfer::test_query_own_balance(), 0);
    assert_eq!(balance_transfer::queried_account(), [0x11u8; 32]);
    assert_eq!(balance_transfer::test_query_other_balance(), 0);
    assert_eq!(balance_transfer::transfer_to_account(), ([0x22u8; 32], 1000));
    assert_eq!(balance_transfer::test_transfer_to_account(Err(5)), 0);
    let t = balance_transfer::multiple_transfers();
    assert_eq!(t, vec![([0x44u8; 32], 100), ([0x55u8; 32], 200), ([0x66u8; 32], 300)]);
    assert_eq!(balance_transfer::test_multiple_transfers(&[Err(1), Ok(()), Err(2)]), 0);
    assert_eq!(balance_transfer::zero_transfer().1, 0);
    assert_eq!(balance_transfer::test_zero_transfer(Ok(())), 0);
    assert_eq!(balance_transfer::test_zero_transfer(Err(3)), 1);
}

#[test]
fn sdk_demo_counts() {
    let mut st = Storage::new();
    assert_eq!(sdk_demo::process_instruction(&mut st, 0), Err(sdk_demo::ERR_INVALID_AMOUNT));
    assert_eq!(st.get_value(b"counter"), None);
    assert_eq!(sdk_demo::process_instruction(&mut st, 5), Ok(()));
    assert_eq!(sdk_demo::process_instruction(&mut st, 5), Ok(()));
    assert_eq!(st.get_value(b"counter"), Some(2u64.to_le_bytes().to_vec()));
}

#[test]
fn confidential_checks() {
    let c = [4u8; 32];
    assert_eq!(privacy_defi::create_commitment(true, &c, true), Ok(c));
    assert_eq!(privacy_defi::create_commitment(false, &c, true), Err(1));
    assert_eq!(privacy_defi::create_commitment(true, &c, false), Err(1));
    assert_eq!(privacy_defi::verify_commitment_sum(true, &c, &c), 0);
    assert_eq!(privacy_defi::verify_commitment_sum(true, &c, &[5u8; 32]), 1);
    assert_eq!(privacy_defi::verify_commitment_sum(false, &c, &c), 1);
    assert_eq!(privacy_defi::verify_homomorphic_addition(true, &c, &c), 0);
    assert_eq!(privacy_defi::verify_confidential_transfer(true, &c, &[0u8; 32]), 1);
    assert!(privacy_defi::validate_ristretto_point(1));
    assert!(!privacy_defi::validate_ristretto_point(0));
}

#[test]
fn precompile_demos() {
    assert!(crypto_advanced::entrypoint(&[]) == Demo::All);
    assert!(crypto_advanced::entrypoint(&[1]) == Demo::BitcoinAddress);
    assert!(crypto_advanced::entrypoint(&[2]) == Demo::RsaVerify);
    assert!(crypto_advanced::entrypoint(&[3, 9]) == Demo::Modexp);
    assert!(crypto_advanced::entrypoint(&[4]) == Demo::Bn254Compression);
    assert!(crypto_advanced::entrypoint(&[5]) == Demo::PoseidonHash);
    assert!(crypto_advanced::entrypoint(&[6]) == Demo::All);
    assert_eq!(crypto_advanced::demo_all(), 0);
    assert_eq!(crypto_advanced::demo_bitcoin_address(), 0);
    assert_eq!(crypto_advanced::demo_rsa_verify(), 0);
    let m = crypto_advanced::modexp_demo_input();
    assert_eq!((m[31], m[63], m[95], m[96], m[97], m[98]), (1, 1, 1, 3, 5, 7));
    assert_eq!(m.iter().map(|&b| b as u32).sum::<u32>(), 18);
    assert_eq!(crypto_advanced::demo_modexp(0), 0);
    assert_eq!(crypto_advanced::demo_modexp(2), 1);
    let p = crypto_advanced::bn254_demo_point();
    assert_eq!((p[31], p[63]), (1, 2));
    match crypto_advanced::demo_bn254_compression(None, None) {
        Bn254Step::Compress(q) => assert_eq!(q, p),
        other => panic!("unexpected {:?}", other),
    }
    let c = [2u8; 33];
    assert!(matches!(crypto_advanced::demo_bn254_compression(Some((3, c)), None), Bn254Step::Done(1)));
    match crypto_advanced::demo_bn254_compression(Some((0, c)), None) {
        Bn254Step::Decompress(x) => assert_eq!(x, c),
        other => panic!("unexpected {:?}", other),
    }
    assert!(matches!(crypto_advanced::demo_bn254_compression(Some((0, c)), Some((0, p))), Bn254Step::Done(0)));
    assert!(matches!(crypto_advanced::demo_bn254_compression(Some((0, c)), Some((1, p))), Bn254Step::Done(1)));
    assert!(matches!(crypto_advanced::demo_bn254_compression(Some((0, c)), Some((0, [0u8; 64]))), Bn254Step::Done(1)));
}

#[test]
fn poseidon_demo_calls() {
    let calls = crypto_advanced::poseidon_demo_inputs();
    assert_eq!(calls.len(), 3);
    assert_eq!(calls[0], vec![[1u8; 32]]);
    assert_eq!(calls[1], vec![[1u8; 32], [2u8; 32]]);
    assert_eq!(calls[2], vec![[0xAAu8; 32], [0u8; 32]]);
    // the hashes are asked for in turn; the first failure ends the demo with 1
    match crypto_advanced::demo_poseidon_hash(&[]) {
        PoseidonStep::Hash(0, 0, ins) => assert_eq!(ins, calls[0]),
        other => panic!("unexpected {:?}", other),
    }
    match crypto_advanced::demo_poseidon_hash(&[0]) {
        PoseidonStep::Hash(0, 0, ins) => assert_eq!(ins, calls[1]),
        other => panic!("unexpected {:?}", other),
    }
    match crypto_advanced::demo_poseidon_hash(&[0, 0]) {
        PoseidonStep::Hash(0, 0, ins) => assert_eq!(ins, calls[2]),
        other => panic!("unexpected {:?}", other),
    }
    assert!(matches!(crypto_advanced::demo_poseidon_hash(&[0, 0, 0]), PoseidonStep::Done(0)));
    assert!(matches!(crypto_advanced::demo_poseidon_hash(&[0, 2]), PoseidonStep::Done(1)));
    assert!(matches!(crypto_advanced::demo_poseidon_hash(&[0, 0, 3]), PoseidonStep::Done(1)));
}

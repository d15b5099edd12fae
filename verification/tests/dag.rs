use tos_tck::blockdag::{
    blocks_to_string, calculate_cumulative_diff, calculate_height, find_best_tip, hashes_to_string, heights_to_csv,
    sort_blocks, tips_to_string, to_csv, Block, Tip,
};
use tos_tck::difficulty::{
    calculate_difficulty_v2, kalman_filter, Uint256, INITIAL_P, LEFT_SHIFT, MIN_DEVNET, MIN_MAINNET,
    PROCESS_NOISE_COVAR,
};

fn tip(hash: &str, d: u64) -> Tip {
    Tip { hash: hash.to_string(), cumulative_diff: d }
}

fn block(hash: &str, d: u64) -> Block {
    Block { hash: hash.to_string(), cumulative_diff: d }
}

#[test]
fn height_is_one_above_highest_parent() {
    assert_eq!(calculate_height(&[]), 0);
    assert_eq!(calculate_height(&[0]), 1);
    assert_eq!(calculate_height(&[5, 9, 3]), 10);
    assert_eq!(heights_to_csv(&[5, 9, 3]), "5,9,3");
    assert_eq!(heights_to_csv(&[]), "");
}

#[test]
fn cumulative_difficulty_adds_to_heaviest_parent() {
    assert_eq!(calculate_cumulative_diff(&[], 7), 7);
    assert_eq!(calculate_cumulative_diff(&[100, 250, 40], 10), 260);
    assert_eq!(to_csv(&[100, 250, 40]), "100,250,40");
}

#[test]
fn fork_choice_prefers_weight_then_hash() {
    assert_eq!(find_best_tip(&[]), "");
    assert_eq!(find_best_tip(&[tip("aa", 5), tip("bb", 9), tip("cc", 7)]), "bb");
    assert_eq!(find_best_tip(&[tip("aa", 9), tip("cc", 9), tip("bb", 9)]), "cc");
    assert_eq!(tips_to_string(&[tip("aa", 5), tip("bb", 9)]), "aa:5,bb:9");
}

#[test]
fn blocks_sort_by_weight_with_hash_tiebreak() {
    let mut blocks = vec![block("c", 2), block("a", 1), block("b", 2), block("d", 0)];
    sort_blocks(&mut blocks, true);
    assert_eq!(hashes_to_string(&blocks), "d,a,b,c");
    sort_blocks(&mut blocks, false);
    assert_eq!(hashes_to_string(&blocks), "c,b,a,d");
    assert_eq!(blocks_to_string(&blocks), "c:2,b:2,a:1,d:0");
}

#[test]
fn difficulty_constants() {
    assert_eq!(LEFT_SHIFT, 1 << 20);
    assert_eq!(PROCESS_NOISE_COVAR, (1u64 << 20) * 20 / 1000);
    assert_eq!(INITIAL_P, LEFT_SHIFT);
}

#[test]
fn difficulty_vectors() {
    let t = 1000;
    assert_eq!(calculate_difficulty_v2(1000, 500000, INITIAL_P, MIN_MAINNET, t), (500000, 10382720768));
    assert_eq!(calculate_difficulty_v2(2000, 500000, INITIAL_P, MIN_MAINNET, t), (495097, 10280923113));
    assert_eq!(calculate_difficulty_v2(500, 500000, INITIAL_P, MIN_MAINNET, t), (502487, 10434374652));
    assert_eq!(calculate_difficulty_v2(100000, 100000, INITIAL_P, MIN_MAINNET, t), (100000, 1048576));
    assert_eq!(calculate_difficulty_v2(100000, 5000, INITIAL_P, MIN_DEVNET, t), (2512, 52689093));
    assert_eq!(calculate_difficulty_v2(10, 500000, INITIAL_P, MIN_MAINNET, t), (504909, 10485508497));
    assert_eq!(calculate_difficulty_v2(1000, 500000, 2000000, MIN_MAINNET, t), (500000, 10383652770));
    assert_eq!(
        calculate_difficulty_v2(1000, 1000000000000, INITIAL_P, MIN_MAINNET, t),
        (1000000000000, 20763385149086595)
    );
    assert_eq!(calculate_difficulty_v2(100, 100000, INITIAL_P, MIN_MAINNET, t), (100899, 2096051579));
    assert_eq!(calculate_difficulty_v2(800, 100000, INITIAL_P, MIN_MAINNET, t), (100198, 2081490663));
}

#[test]
fn difficulty_zero_solve_time_counts_as_one_millisecond() {
    assert_eq!(
        calculate_difficulty_v2(0, 500000, INITIAL_P, MIN_MAINNET, 1000),
        calculate_difficulty_v2(1, 500000, INITIAL_P, MIN_MAINNET, 1000)
    );
}

#[test]
fn difficulty_never_below_minimum() {
    for solve in [1u64, 10, 1000, 100000, 10_000_000] {
        let (d, p) = calculate_difficulty_v2(solve, 50, INITIAL_P, MIN_MAINNET, 1000);
        assert!(d >= MIN_MAINNET);
        if d == MIN_MAINNET {
            assert_eq!(p, INITIAL_P);
        }
    }
}

#[test]
fn difficulty_on_target_unchanged() {
    assert_eq!(calculate_difficulty_v2(1000, 777777, INITIAL_P, MIN_MAINNET, 1000).0, 777777);
    assert_eq!(calculate_difficulty_v2(500, 300000, 5, MIN_MAINNET, 500).0, 300000);
}

#[test]
fn kalman_estimate_between_estimate_and_measurement() {
    let (x, p) = kalman_filter(Uint256::from_u64(600), Uint256::from_u64(400), Uint256::from_u64(INITIAL_P));
    assert_eq!((x.low_u64(), p.low_u64()), (401, 9366732));
    let (x, p) = kalman_filter(Uint256::from_u64(400), Uint256::from_u64(600), Uint256::from_u64(INITIAL_P));
    assert_eq!((x.low_u64(), p.low_u64()), (596, 13413222));
    let (same, p) = kalman_filter(Uint256::from_u64(500), Uint256::from_u64(500), Uint256::from_u64(1));
    assert_eq!((same.low_u64(), p.low_u64()), (500, 10381693));
}

#[test]
fn uint256_words() {
    let v = Uint256 { limbs: [7, 1, 0, 0] };
    assert_eq!(v.low_u64(), 7);
    assert_eq!(Uint256::one().low_u64(), 1);
}

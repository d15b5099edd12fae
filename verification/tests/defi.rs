use tos_tck::aave;
use tos_tck::storage::Storage;
use tos_tck::uniswap_v2;
use tos_tck::uniswap_v3;

fn reserve_key(asset: &[u8; 32]) -> Vec<u8> {
    let mut k = b"reserve".to_vec();
    k.extend_from_slice(asset);
    k
}

fn record(fields: [u64; 8]) -> Vec<u8> {
    let mut v = Vec::new();
    for f in fields {
        v.extend_from_slice(&f.to_le_bytes());
    }
    v
}

fn field(b: &[u8], off: usize) -> u64 {
    let mut a = [0u8; 8];
    a.copy_from_slice(&b[off..off + 8]);
    u64::from_le_bytes(a)
}

#[test]
fn aave_interest_rates() {
    assert_eq!(aave::calculate_interest_rates(0, 0), (0, 0));
    assert_eq!(aave::calculate_interest_rates(1000, 0), (200, 0));
    assert_eq!(aave::calculate_interest_rates(1000, 500), (450, 213));
    assert_eq!(aave::calculate_interest_rates(1000, 800), (600, 456));
    assert_eq!(aave::calculate_interest_rates(1000, 900), (1000, 855));
    assert_eq!(aave::calculate_interest_rates(1000, 1000), (1400, 1330));
}

#[test]
fn aave_initialize_once() {
    let mut st = Storage::new();
    assert_eq!(aave::initialize(&mut st, &[]), Ok(vec![1]));
    assert_eq!(aave::initialize(&mut st, &[]), Err(999));
}

#[test]
fn aave_supply_accrues_interest() {
    let asset = [4u8; 32];
    let user = [6u8; 32];
    let mut st = Storage::new();
    let ray = aave::RAY;
    st.write(&reserve_key(&asset), &record([ray, ray, 1000, 500, 0, 0, 1_699_999_000, u64::MAX]));
    let mut input = asset.to_vec();
    input.extend_from_slice(&100u64.to_le_bytes());
    input.extend_from_slice(&user);
    assert_eq!(aave::supply(&mut st, &input), Ok(vec![1]));
    let data = aave::get_reserve_data(&st, &asset).unwrap();
    assert_eq!(data.len(), 64);
    assert_eq!(field(&data, 0), 1_000_000_583);
    assert_eq!(field(&data, 8), 1_000_001_354);
    assert_eq!(field(&data, 16), 1100);
    assert_eq!(field(&data, 24), 500);
    assert_eq!(field(&data, 32), 427);
    assert_eq!(field(&data, 40), 184);
    assert_eq!(field(&data, 48), aave::CURRENT_TIME);
}

#[test]
fn aave_refusals() {
    let asset = [4u8; 32];
    let user = [6u8; 32];
    let mut st = Storage::new();
    // Missing reserve.
    let mut input = asset.to_vec();
    input.extend_from_slice(&100u64.to_le_bytes());
    input.extend_from_slice(&user);
    assert_eq!(aave::supply(&mut st, &input), Err(5));
    assert_eq!(aave::supply(&mut st, &input[..10]), Err(2));
    // Invalid configurations.
    let mut cfg = asset.to_vec();
    cfg.extend_from_slice(&9000u64.to_le_bytes());
    cfg.extend_from_slice(&8000u64.to_le_bytes());
    cfg.extend_from_slice(&500u64.to_le_bytes());
    assert_eq!(aave::set_reserve_configuration(&mut st, &cfg), Err(10));
    let mut cfg2 = asset.to_vec();
    cfg2.extend_from_slice(&7000u64.to_le_bytes());
    cfg2.extend_from_slice(&8000u64.to_le_bytes());
    cfg2.extend_from_slice(&2500u64.to_le_bytes());
    assert_eq!(aave::set_reserve_configuration(&mut st, &cfg2), Err(10));
    let mut cfg3 = asset.to_vec();
    cfg3.extend_from_slice(&7000u64.to_le_bytes());
    cfg3.extend_from_slice(&8000u64.to_le_bytes());
    cfg3.extend_from_slice(&500u64.to_le_bytes());
    assert_eq!(aave::set_reserve_configuration(&mut st, &cfg3), Err(11));
    // No reserve count: no account data, infinite health, nothing to liquidate.
    assert_eq!(aave::get_user_account_data(&st, &user, &[]), Err(18));
    assert_eq!(aave::calculate_health_factor(&st, &user), u64::MAX);
    let mut liq = asset.to_vec();
    liq.extend_from_slice(&asset);
    liq.extend_from_slice(&user);
    liq.extend_from_slice(&10u64.to_le_bytes());
    assert_eq!(aave::liquidate(&mut st, &liq), Err(7));
    // Unknown and unserved instructions.
    assert_eq!(aave::entrypoint(&mut st, &user, &[7u8]), 0);
    assert_eq!(aave::entrypoint(&mut st, &user, &[100u8]), 0);
    assert_eq!(aave::entrypoint(&mut st, &user, &[]), 2);
    assert!(aave::Instruction::from_u8(104).is_some());
    assert!(aave::Instruction::from_u8(15).is_none());
    assert_eq!(aave::TakoError::CustomError(17).code(), 17);
    assert_eq!(aave::TakoError::NotFound.code(), 5);
}

#[test]
fn aave_collateral_switch() {
    let asset = [4u8; 32];
    let user = [6u8; 32];
    let mut st = Storage::new();
    let mut input = asset.to_vec();
    input.push(1);
    assert_eq!(aave::set_user_collateral(&mut st, &user, &input), Ok(vec![1]));
    assert_eq!(aave::set_user_collateral(&mut st, &user, &input[..32]), Err(2));
}

#[test]
fn uniswap_v2_pairs() {
    let setter = [5u8; 32];
    let a = [1u8; 32];
    let b = [2u8; 32];
    let pair_id = [9u8; 32];
    let mut st = Storage::new();
    assert_eq!(uniswap_v2::initialize(&mut st, &setter, &[]), Ok(vec![1]));
    assert_eq!(uniswap_v2::initialize(&mut st, &setter, &[]), Err(999));
    let mut ab = a.to_vec();
    ab.extend_from_slice(&b);
    let mut ba = b.to_vec();
    ba.extend_from_slice(&a);
    assert_eq!(uniswap_v2::pair_hash_input(&b, &a), ab);
    assert_eq!(uniswap_v2::create_pair(&mut st, &ba, &pair_id), Ok(pair_id.to_vec()));
    assert_eq!(uniswap_v2::get_pair(&st, &ab), Ok(pair_id.to_vec()));
    assert_eq!(uniswap_v2::get_pair(&st, &ba), Ok(pair_id.to_vec()));
    assert_eq!(uniswap_v2::create_pair(&mut st, &ab, &pair_id), Err(3));
    assert_eq!(uniswap_v2::get_pair_at_index(&st, &0u64.to_le_bytes()), Ok(pair_id.to_vec()));
    assert_eq!(uniswap_v2::all_pairs_length(&st, &[]), Ok(1u64.to_le_bytes().to_vec()));
    // a second pair is appended to the list
    let c = [3u8; 32];
    let pair2 = [8u8; 32];
    let mut ac = a.to_vec();
    ac.extend_from_slice(&c);
    assert_eq!(uniswap_v2::create_pair(&mut st, &ac, &pair2), Ok(pair2.to_vec()));
    assert_eq!(uniswap_v2::all_pairs_length(&st, &[]), Ok(2u64.to_le_bytes().to_vec()));
    assert_eq!(uniswap_v2::get_pair_at_index(&st, &1u64.to_le_bytes()), Ok(pair2.to_vec()));
    let mut aa = a.to_vec();
    aa.extend_from_slice(&a);
    assert_eq!(uniswap_v2::create_pair(&mut st, &aa, &pair_id), Err(2));
    let mut za = [0u8; 32].to_vec();
    za.extend_from_slice(&a);
    assert_eq!(uniswap_v2::create_pair(&mut st, &za, &pair_id), Err(5));
    assert_eq!(uniswap_v2::pair_index_key(1)[8], 1);
    assert_eq!(&uniswap_v2::pair_key(&b, &a)[8..40], &a);
}

#[test]
fn uniswap_v2_fee_setter() {
    let setter = [5u8; 32];
    let other = [6u8; 32];
    let mut st = Storage::new();
    assert_eq!(uniswap_v2::fee_to(&st, &[]), Ok(vec![0u8; 32]));
    uniswap_v2::initialize(&mut st, &setter, &[]).unwrap();
    assert_eq!(uniswap_v2::set_fee_to(&mut st, &other, &other), Err(4));
    assert_eq!(uniswap_v2::set_fee_to(&mut st, &setter, &other), Ok(vec![1]));
    assert_eq!(uniswap_v2::fee_to(&st, &[]), Ok(other.to_vec()));
    assert_eq!(uniswap_v2::set_fee_to_setter(&mut st, &setter, &other), Ok(vec![1]));
    assert_eq!(uniswap_v2::set_fee_to(&mut st, &setter, &setter), Err(4));
}

#[test]
fn uniswap_v3_pool() {
    assert_eq!(uniswap_v3::FeeTier::Low.value(), 500);
    assert_eq!(uniswap_v3::FeeTier::Medium.value(), 3000);
    assert_eq!(uniswap_v3::FeeTier::High.value(), 10000);
    let init = uniswap_v3::Initialize { sqrt_price_x96: 1, tick: -1 };
    assert_eq!(init.tick, -1);
    let owner = [3u8; 32];
    let key = uniswap_v3::position_key(&owner, -1, 2);
    assert_eq!(&key[..8], b"position");
    assert_eq!(&key[40..44], &(-1i32).to_le_bytes());
    assert_eq!(&key[44..48], &2i32.to_le_bytes());
    assert_eq!(&uniswap_v3::tick_key(-2)[4..], &(-2i32).to_le_bytes());

    let mut st = Storage::new();
    // A position with liquidity 300 (stored with a non-zero last byte).
    let mut pos = 300u64.to_le_bytes().to_vec();
    pos.push(1);
    st.write(&key, &pos);
    let mut too_much = (-1i32).to_le_bytes().to_vec();
    too_much.extend_from_slice(&2i32.to_le_bytes());
    too_much.extend_from_slice(&1000u64.to_le_bytes());
    too_much.extend_from_slice(&[0u8; 28]);
    assert_eq!(uniswap_v3::burn(&mut st, &owner, &too_much), Err(4));
    let mut burn = (-1i32).to_le_bytes().to_vec();
    burn.extend_from_slice(&2i32.to_le_bytes());
    burn.extend_from_slice(&100u64.to_le_bytes());
    burn.extend_from_slice(&[0u8; 28]);
    let r = uniswap_v3::burn(&mut st, &owner, &burn).unwrap();
    assert_eq!(field(&r, 0), 50);
    assert_eq!(field(&r, 8), 100);

    // Swap mirrors the amount.
    let mut sw = [0u8; 32].to_vec();
    sw.push(1);
    sw.extend_from_slice(&25i64.to_le_bytes());
    sw.extend_from_slice(&[0u8; 8]);
    let r = uniswap_v3::swap(&sw).unwrap();
    assert_eq!(&r[..8], &25i64.to_le_bytes());
    assert_eq!(&r[8..], &(-25i64).to_le_bytes());
    // Unserved instructions.
    assert_eq!(uniswap_v3::entrypoint(&mut st, &owner, &[4u8]), 0);
    assert_eq!(uniswap_v3::entrypoint(&mut st, &owner, &[]), 2);
}

#[test]
fn uniswap_v3_initialize_once() {
    let mut st = Storage::new();
    let mut init = [1u8; 32].to_vec();
    init.extend_from_slice(&[2u8; 32]);
    init.extend_from_slice(&3000u32.to_le_bytes());
    init.extend_from_slice(&77u64.to_le_bytes());
    assert_eq!(uniswap_v3::initialize(&mut st, &init), Ok(vec![1]));
    assert_eq!(uniswap_v3::initialize(&mut st, &init), Err(999));
    assert_eq!(uniswap_v3::initialize(&mut st, &init[..10]), Err(2));
}

fn u64s(v: &[u8]) -> Vec<u64> {
    v.chunks(8).map(|c| field(c, 0)).collect()
}

#[test]
fn aave_lending_round_trip() {
    let asset = [4u8; 32];
    let user = [6u8; 32];
    let mut st = Storage::new();
    assert_eq!(aave::initialize(&mut st, &[]), Ok(vec![1]));
    assert_eq!(aave::init_reserve(&mut st, &asset), Ok(vec![1]));
    assert_eq!(aave::init_reserve(&mut st, &asset), Err(2));
    let mut sup = asset.to_vec();
    sup.extend_from_slice(&1000u64.to_le_bytes());
    sup.extend_from_slice(&user);
    assert_eq!(aave::supply(&mut st, &sup), Ok(vec![1]));
    let mut coll = asset.to_vec();
    coll.push(1);
    assert_eq!(aave::set_user_collateral(&mut st, &user, &coll), Ok(vec![1]));
    // 500 borrowed against 1000 supplied at an 80% threshold: health 1.6
    let mut bor = asset.to_vec();
    bor.extend_from_slice(&500u64.to_le_bytes());
    assert_eq!(aave::borrow(&mut st, &user, &bor), Ok(vec![1]));
    assert_eq!(aave::calculate_health_factor(&st, &user), 1_600_000_000);
    let data = aave::get_reserve_data(&st, &asset).unwrap();
    assert_eq!((field(&data, 16), field(&data, 24)), (1000, 500));
    let summary = aave::get_user_account_data(&st, &user, &[]).unwrap();
    assert_eq!(u64s(&summary), vec![1000, 500, 250, 7500, 1_600_000_000]);
    // more than the available liquidity is refused
    let mut too_much = asset.to_vec();
    too_much.extend_from_slice(&501u64.to_le_bytes());
    assert_eq!(aave::borrow(&mut st, &user, &too_much), Err(5));
    // a healthy position cannot be liquidated
    let mut liq = asset.to_vec();
    liq.extend_from_slice(&asset);
    liq.extend_from_slice(&user);
    liq.extend_from_slice(&1000u64.to_le_bytes());
    assert_eq!(aave::liquidate(&mut st, &liq), Err(7));
    // a lower threshold makes it liquidatable: half the debt, 5% bonus
    let mut cfg = asset.to_vec();
    cfg.extend_from_slice(&4000u64.to_le_bytes());
    cfg.extend_from_slice(&4000u64.to_le_bytes());
    cfg.extend_from_slice(&500u64.to_le_bytes());
    assert_eq!(aave::set_reserve_configuration(&mut st, &cfg), Ok(vec![1]));
    assert_eq!(aave::calculate_health_factor(&st, &user), 800_000_000);
    let r = aave::liquidate(&mut st, &liq).unwrap();
    assert_eq!(u64s(&r), vec![250, 262]);
    assert_eq!(aave::calculate_health_factor(&st, &user), (738u64 * 4000 / 10000) * 1_000_000_000 / 250);
}

#[test]
fn defi_events() {
    let asset = [4u8; 32];
    let user = [6u8; 32];
    let mut st = Storage::new();
    aave::initialize(&mut st, &[]).unwrap();
    aave::init_reserve(&mut st, &asset).unwrap();
    let mut sup = vec![10u8];
    sup.extend_from_slice(&asset);
    sup.extend_from_slice(&1000u64.to_le_bytes());
    sup.extend_from_slice(&user);
    let (r, events) = aave::execute(&mut st, &[9u8; 32], &sup);
    assert_eq!(r, Ok(vec![1]));
    assert_eq!(events.len(), 1);
    assert_eq!(events[0].kind, aave::EventKind::Supply);
    assert_eq!((events[0].reserve, events[0].user, events[0].counterparty, events[0].amount), (asset, [9u8; 32], user, 1000));
    let mut coll = vec![20u8];
    coll.extend_from_slice(&asset);
    coll.push(1);
    aave::execute(&mut st, &user, &coll);
    let mut bor = vec![12u8];
    bor.extend_from_slice(&asset);
    bor.extend_from_slice(&500u64.to_le_bytes());
    let (r, events) = aave::execute(&mut st, &user, &bor);
    assert_eq!(r, Ok(vec![1]));
    assert_eq!((events[0].kind, events[0].amount), (aave::EventKind::Borrow, 500));
    let data = aave::get_reserve_data(&st, &asset).unwrap();
    assert_eq!(events[0].extra, field(&data, 32));
    assert!(events[0].extra > 0);
    let (r, events) = aave::execute(&mut st, &user, &[12u8, 1, 2]);
    assert!(r.is_err());
    assert!(events.is_empty());

    // Uniswap V2: the created pair
    let setter = [5u8; 32];
    let mut st = Storage::new();
    uniswap_v2::initialize(&mut st, &setter, &[]).unwrap();
    let mut create = vec![1u8];
    create.extend_from_slice(&[2u8; 32]);
    create.extend_from_slice(&[1u8; 32]);
    let (r, event) = uniswap_v2::execute(&mut st, &setter, &create, &[9u8; 32]);
    assert!(r.is_ok());
    let e = event.unwrap();
    assert_eq!((e.token0, e.token1, e.pair, e.pair_count), ([1u8; 32], [2u8; 32], [9u8; 32], 1));
    let (r, event) = uniswap_v2::execute(&mut st, &setter, &create, &[9u8; 32]);
    assert_eq!(r, Err(3));
    assert!(event.is_none());

    // Uniswap V3: a swap
    let mut st = Storage::new();
    let mut swap = vec![3u8];
    swap.extend_from_slice(&[7u8; 32]);
    swap.push(1);
    swap.extend_from_slice(&25i64.to_le_bytes());
    swap.extend_from_slice(&[0u8; 8]);
    let (r, events) = uniswap_v3::execute(&mut st, &[1u8; 32], &swap);
    assert!(r.is_ok());
    assert_eq!(events.len(), 1);
    assert_eq!(events[0].kind, uniswap_v3::PoolEventKind::Swap);
    assert_eq!((events[0].recipient, events[0].amount0, events[0].amount1), ([7u8; 32], 25, -25));
    assert_eq!(events[0].sqrt_price_x96, 1u128 << 96);
}

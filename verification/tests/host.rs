use tos_tck::counter;
use tos_tck::alloc_oom;
use tos_tck::cpi;
use tos_tck::cpi::CpiError;
use tos_tck::cpi_callee;
use tos_tck::cpi_caller;
use tos_tck::cpi_e2e_callee;
use tos_tck::cpi_e2e_caller;
use tos_tck::cpi_test_callee;
use tos_tck::cpi_test_caller;
use tos_tck::environment_info;
use tos_tck::environment_info::CallEnv;
use tos_tck::heap::{FixedHeap, VmHeap, HEAP_SIZE};
use tos_tck::proxy;
use tos_tck::proxy_implementation;
use tos_tck::proxy::ProxyStep;
use tos_tck::reentrancy_guard;
use tos_tck::reentrancy_guard::Step;
use tos_tck::referral;
use tos_tck::referral::{ReferralQuery, SyscallStep};
use tos_tck::scheduler;
use tos_tck::scheduler::SchedulerStep;
use tos_tck::scheduler_cascade;
use tos_tck::storage::Storage;
use tos_tck::transient_guard;

fn u64_at(st: &Storage, key: &[u8]) -> u64 {
    let v = st.get_value(key).expect("stored");
    let mut b = [0u8; 8];
    b.copy_from_slice(&v[..8]);
    u64::from_le_bytes(b)
}

// ---------------------------------------------------------------------------
// Reentrancy guards
// ---------------------------------------------------------------------------

#[test]
fn reentrancy_guard_withdraw_in_two_steps() {
    let mut st = Storage::new();
    reentrancy_guard::initialize(&mut st);
    assert!(!reentrancy_guard::is_entered(&st));
    assert_eq!(reentrancy_guard::deposit(&mut st, 100), reentrancy_guard::SUCCESS);
    assert_eq!(reentrancy_guard::get_balance(&st), 100);
    assert!(matches!(reentrancy_guard::withdraw(&mut st, 101), Step::Done(reentrancy_guard::ERR_INSUFFICIENT_BALANCE)));
    assert!(!reentrancy_guard::is_entered(&st));
    assert!(matches!(reentrancy_guard::withdraw(&mut st, 40), Step::Pay(40)));
    // while the payment is made, the guard is held and re-entry refused
    assert!(reentrancy_guard::is_entered(&st));
    assert!(matches!(reentrancy_guard::withdraw(&mut st, 10), Step::Done(reentrancy_guard::ERR_REENTRANT_CALL)));
    assert_eq!(reentrancy_guard::deposit(&mut st, 5), reentrancy_guard::ERR_REENTRANT_CALL);
    assert_eq!(reentrancy_guard::get_balance(&st), 60);
    assert_eq!(reentrancy_guard::finish_withdraw(&mut st), reentrancy_guard::SUCCESS);
    assert!(!reentrancy_guard::is_entered(&st));
    assert!(matches!(reentrancy_guard::withdraw(&mut st, 60), Step::Pay(60)));
}

#[test]
fn reentrancy_guard_attack_demo() {
    let mut st = Storage::new();
    reentrancy_guard::initialize(&mut st);
    reentrancy_guard::deposit(&mut st, 100);
    // the second withdrawal re-enters while the first holds the guard: refused
    assert_eq!(reentrancy_guard::attempt_reentrancy_attack(&mut st), (0, vec![50]));
    assert_eq!(reentrancy_guard::get_balance(&st), 50);
    assert!(!reentrancy_guard::is_entered(&st));
    let mut st = Storage::new();
    reentrancy_guard::initialize(&mut st);
    assert_eq!(
        reentrancy_guard::attempt_reentrancy_attack(&mut st),
        (reentrancy_guard::ERR_INSUFFICIENT_BALANCE, vec![])
    );
}

#[test]
fn reentrancy_guard_operations() {
    let mut st = Storage::new();
    reentrancy_guard::initialize(&mut st);
    assert_eq!(reentrancy_guard::op_deposit(&mut st, &[1, 2]), reentrancy_guard::ERR_INVALID_PARAMS);
    assert_eq!(reentrancy_guard::op_deposit(&mut st, &30u64.to_le_bytes()), reentrancy_guard::SUCCESS);
    assert!(matches!(
        reentrancy_guard::op_withdraw(&mut st, &[1]),
        Step::Done(reentrancy_guard::ERR_INVALID_PARAMS)
    ));
    assert!(matches!(reentrancy_guard::op_withdraw(&mut st, &20u64.to_le_bytes()), Step::Pay(20)));
    assert_eq!(reentrancy_guard::get_balance(&st), 10);
}

#[test]
fn reentrancy_guard_entrypoint() {
    let mut st = Storage::new();
    assert!(matches!(reentrancy_guard::entrypoint(&mut st, &[]), Step::Done(0)));
    let mut dep = vec![reentrancy_guard::OP_DEPOSIT];
    dep.extend_from_slice(&70u64.to_le_bytes());
    assert!(matches!(reentrancy_guard::entrypoint(&mut st, &dep), Step::Done(0)));
    let mut wd = vec![reentrancy_guard::OP_WITHDRAW];
    wd.extend_from_slice(&20u64.to_le_bytes());
    assert!(matches!(reentrancy_guard::entrypoint(&mut st, &wd), Step::Pay(20)));
    assert!(matches!(
        reentrancy_guard::entrypoint(&mut st, &[reentrancy_guard::OP_DEPOSIT, 1]),
        Step::Done(reentrancy_guard::ERR_INVALID_PARAMS)
    ));
    assert!(matches!(
        reentrancy_guard::entrypoint(&mut st, &[0x99]),
        Step::Done(reentrancy_guard::ERR_INVALID_INSTRUCTION)
    ));
    assert_eq!(reentrancy_guard::parse_u64(&[1, 0, 0, 0, 0, 0, 0, 0]), Ok(1));
    assert_eq!(reentrancy_guard::parse_u64(&[1, 0]), Err(()));
    assert_eq!(reentrancy_guard::op_deposit(&mut st, &[1]), reentrancy_guard::ERR_INVALID_PARAMS);
}

#[test]
fn transient_guard_lock() {
    let mut p = Storage::new();
    let mut t = Storage::new();
    assert!(matches!(transient_guard::entrypoint(&mut p, &mut t), Step::Pay(100)));
    assert_eq!(transient_guard::read_balance(&p), 900);
    assert!(transient_guard::is_locked(&t));
    assert_eq!(transient_guard::deposit(&mut p, &mut t, 5), transient_guard::ERR_LOCKED);
    assert!(matches!(transient_guard::withdraw(&mut p, &mut t, 5), Step::Done(transient_guard::ERR_LOCKED)));
    assert_eq!(transient_guard::finish_withdraw(&mut t), 0);
    assert!(!transient_guard::is_locked(&t));
    assert!(matches!(
        transient_guard::withdraw(&mut p, &mut t, 901),
        Step::Done(transient_guard::ERR_INSUFFICIENT_BALANCE)
    ));
    assert!(!transient_guard::is_locked(&t));
    // a new transaction starts with cleared transient storage
    let mut t2 = Storage::new();
    assert!(matches!(transient_guard::entrypoint(&mut p, &mut t2), Step::Pay(100)));
    assert_eq!(transient_guard::read_balance(&p), 1800);
}

// ---------------------------------------------------------------------------
// Proxy and counter
// ---------------------------------------------------------------------------

#[test]
fn proxy_owner_and_implementation() {
    let owner = [1u8; 32];
    let other = [2u8; 32];
    let implementation = [7u8; 32];
    let mut st = Storage::new();
    assert!(matches!(proxy::entrypoint(&mut st, &owner, &[]), ProxyStep::Done(0, ref d) if d.is_empty()));
    assert!(proxy::is_owner(&st, &owner));
    // delegation needs an implementation
    assert!(matches!(
        proxy::entrypoint(&mut st, &owner, &[proxy::OP_INCREMENT]),
        ProxyStep::Done(proxy::ERR_NO_IMPLEMENTATION, _)
    ));
    assert!(matches!(
        proxy::entrypoint(&mut st, &owner, &[proxy::OP_GET_IMPLEMENTATION]),
        ProxyStep::Done(proxy::ERR_IMPLEMENTATION_NOT_SET, _)
    ));
    let mut set = vec![proxy::OP_SET_IMPLEMENTATION];
    set.extend_from_slice(&implementation);
    assert!(matches!(proxy::entrypoint(&mut st, &other, &set), ProxyStep::Done(proxy::ERR_NOT_OWNER, _)));
    assert!(matches!(
        proxy::entrypoint(&mut st, &owner, &set[..10]),
        ProxyStep::Done(proxy::ERR_SHORT_INPUT, _)
    ));
    assert!(matches!(proxy::entrypoint(&mut st, &owner, &set), ProxyStep::Done(0, _)));
    assert_eq!(proxy::read_implementation(&st), Some(implementation));
    match proxy::entrypoint(&mut st, &other, &[proxy::OP_INCREMENT, 5]) {
        ProxyStep::Delegate(addr, input) => {
            assert_eq!(addr, implementation);
            assert_eq!(input, vec![proxy::OP_INCREMENT, 5]);
        }
        ProxyStep::Done(..) => panic!("expected a delegation"),
    }
    // the implementation runs on the proxy's storage
    assert_eq!(proxy_implementation::entrypoint(&mut st), (0, 1u64.to_le_bytes().to_vec()));
    assert_eq!(proxy::read_counter(&st), 1);
    match proxy::entrypoint(&mut st, &owner, &[proxy::OP_GET_COUNTER]) {
        ProxyStep::Done(0, data) => assert_eq!(data, 1u64.to_le_bytes().to_vec()),
        _ => panic!("expected the counter"),
    }
    assert_eq!(proxy::delegate_status(Ok(())), 0);
    assert_eq!(proxy::delegate_status(Err(9)), 9);
}

#[test]
fn proxy_first_caller_owns() {
    let mut st = Storage::new();
    proxy::initialize_owner(&mut st, &[1u8; 32]);
    proxy::initialize_owner(&mut st, &[2u8; 32]);
    assert!(proxy::is_owner(&st, &[1u8; 32]));
    assert!(!proxy::is_owner(&st, &[2u8; 32]));
}

#[test]
fn counter_counts_calls() {
    let mut st = Storage::new();
    assert_eq!(counter::entrypoint(&mut st), counter::SUCCESS);
    assert_eq!(counter::entrypoint(&mut st), counter::SUCCESS);
    assert_eq!(counter::entrypoint(&mut st), counter::SUCCESS);
    assert_eq!(u64_at(&st, b"count"), 3);
    st.write(b"count", &u64::MAX.to_le_bytes());
    counter::entrypoint(&mut st);
    assert_eq!(u64_at(&st, b"count"), u64::MAX);
}

// ---------------------------------------------------------------------------
// Environment
// ---------------------------------------------------------------------------

fn env(caller: u8, value: u64, timestamp: u64) -> CallEnv {
    CallEnv { caller: [caller; 32], value, timestamp, chain_id: 7 }
}

#[test]
fn environment_calls() {
    let mut st = Storage::new();
    assert_eq!(environment_info::entrypoint(&mut st, &env(1, 0, 10), &[]), 0);
    assert_eq!(environment_info::read_owner(&st), Some([1u8; 32]));
    assert_eq!(
        environment_info::entrypoint(&mut st, &env(2, 0, 10), &[environment_info::OP_REQUIRE_OWNER]),
        environment_info::ERR_NOT_OWNER
    );
    assert_eq!(environment_info::entrypoint(&mut st, &env(1, 0, 10), &[environment_info::OP_REQUIRE_OWNER]), 0);
    assert_eq!(
        environment_info::entrypoint(&mut st, &env(1, 999, 10), &[environment_info::OP_REQUIRE_VALUE]),
        environment_info::ERR_VALUE_TOO_LOW
    );
    assert_eq!(environment_info::entrypoint(&mut st, &env(1, 1000, 10), &[environment_info::OP_REQUIRE_VALUE]), 0);
    // the lock ends an hour after the call itself
    assert_eq!(
        environment_info::entrypoint(&mut st, &env(1, 0, 10), &[environment_info::OP_TIME_LOCK]),
        environment_info::ERR_LOCKED
    );
    assert_eq!(environment_info::entrypoint(&mut st, &env(1, 0, 10), &[environment_info::OP_CHAIN_SPECIFIC]), 0);
    assert_eq!(u64_at(&st, b"call_count"), 7);
    assert_eq!(st.get_value(b"last_caller"), Some(vec![1u8; 32]));
}

#[test]
fn environment_helpers() {
    let e = env(3, 50, 100);
    assert_eq!(environment_info::require_minimum_value(&e, 50), 0);
    assert_eq!(environment_info::require_minimum_value(&e, 51), environment_info::ERR_VALUE_TOO_LOW);
    assert_eq!(environment_info::time_locked_function(&e, 100), 0);
    assert_eq!(environment_info::time_locked_function(&e, 101), environment_info::ERR_LOCKED);
    assert_eq!(environment_info::show_environment(&e), 0);
    assert_eq!(environment_info::chain_specific_logic(&e), 0);
}

// ---------------------------------------------------------------------------
// Scheduler
// ---------------------------------------------------------------------------

#[test]
fn scheduler_offers() {
    let mut st = Storage::new();
    assert!(matches!(scheduler::entrypoint(&mut st, &[0]), SchedulerStep::Done(scheduler::ERR_SHORT_INPUT)));
    assert!(matches!(
        scheduler::entrypoint(&mut st, &[0, 0, 1, 2]),
        SchedulerStep::Done(scheduler::ERR_SHORT_PARAMS)
    ));
    assert_eq!(st.get_value(b"last_error"), Some(b"need 8 bytes".to_vec()));
    let mut input = vec![0u8, 0];
    input.extend_from_slice(&500u64.to_le_bytes());
    match scheduler::entrypoint(&mut st, &input) {
        SchedulerStep::Offer(req) => {
            assert_eq!(req.target, None);
            assert_eq!(req.entry_id, scheduler::ENTRY_ON_SCHEDULED);
            assert!(req.input.is_empty());
            assert_eq!(req.max_gas, scheduler::SCHEDULED_GAS);
            assert_eq!(req.offer_amount, 0);
            assert_eq!(req.topoheight, Some(500));
        }
        SchedulerStep::Done(c) => panic!("unexpected {}", c),
    }
    match scheduler::entrypoint(&mut st, &[1, 0]) {
        SchedulerStep::Offer(req) => assert_eq!(req.topoheight, None),
        SchedulerStep::Done(c) => panic!("unexpected {}", c),
    }
    assert!(matches!(scheduler::entrypoint(&mut st, &[9, 0]), SchedulerStep::Done(scheduler::ERR_UNKNOWN_ENTRY)));
    assert_eq!(scheduler::offer_answered(&mut st, Some(500), Ok(77)), scheduler::SUCCESS);
    assert_eq!(u64_at(&st, b"scheduled_handle"), 77);
    assert_eq!(u64_at(&st, b"target_topoheight"), 500);
    assert_eq!(scheduler::offer_answered(&mut st, None, Err(4)), 4);
    assert_eq!(u64_at(&st, b"last_error"), 4);
}

#[test]
fn scheduler_counts_executions() {
    let mut st = Storage::new();
    assert!(matches!(scheduler::entrypoint(&mut st, &[2, 0]), SchedulerStep::Done(0)));
    assert_eq!(scheduler::on_scheduled_execution(&mut st), 0);
    assert_eq!(u64_at(&st, b"execution_count"), 2);
}

#[test]
fn cascade_steps() {
    assert!(scheduler_cascade::cascade_entry(&[1]).is_none());
    assert_eq!(scheduler_cascade::cascade_entry(&[3, 0, 9, 9]), Some((3, vec![9, 9])));
    let long = vec![5u8; 200];
    let (id, params) = scheduler_cascade::cascade_entry(&long).unwrap();
    assert_eq!(id, 0x0505);
    assert_eq!(params.len(), 126);

    let mut st = Storage::new();
    let mut params = vec![4u8; 32];
    params.extend_from_slice(&12u64.to_le_bytes());
    // short parameters: answered at once, no VRF output asked for
    assert!(matches!(
        scheduler_cascade::cascade_schedule(&mut st, &params[..39], None),
        Some(SchedulerStep::Done(scheduler::ERR_SHORT_PARAMS))
    ));
    // full parameters: the VRF output is asked for first
    assert!(scheduler_cascade::cascade_schedule(&mut st, &params, None).is_none());
    assert_eq!(st.get_value(b"target_contract"), None);
    assert!(matches!(
        scheduler_cascade::cascade_schedule(&mut st, &params, Some(Err(1))),
        Some(SchedulerStep::Done(scheduler::ERR_NO_VRF))
    ));
    match scheduler_cascade::cascade_schedule(&mut st, &params, Some(Ok([8u8; 32]))) {
        Some(SchedulerStep::Offer(req)) => {
            assert_eq!(req.target, Some([4u8; 32]));
            assert_eq!(req.entry_id, scheduler::ENTRY_ON_CASCADE);
            assert_eq!(req.input, vec![8u8; 32]);
            assert_eq!(req.max_gas, scheduler::CASCADE_GAS);
            assert_eq!(req.topoheight, Some(12));
        }
        _ => panic!("expected an offer"),
    }
    assert_eq!(st.get_value(b"target_contract"), Some(vec![4u8; 32]));
    assert_eq!(scheduler_cascade::offer_answered(&mut st, Ok(3)), 0);
    assert_eq!(u64_at(&st, b"cascade_handle"), 3);
    assert_eq!(scheduler_cascade::offer_answered(&mut st, Err(6)), 6);

    let mut target = Storage::new();
    assert_eq!(scheduler_cascade::on_cascade_executed(&mut target, &[2u8; 32], &[3u8; 32], None), None);
    assert_eq!(target.get_value(b"caller_vrf"), None);
    assert_eq!(
        scheduler_cascade::on_cascade_executed(&mut target, &[2u8; 32], &[3u8; 32], Some(Ok([5u8; 32]))),
        Some(0)
    );
    assert_eq!(target.get_value(b"caller_vrf"), Some(vec![2u8; 32]));
    assert_eq!(target.get_value(b"target_vrf"), Some(vec![5u8; 32]));
    assert_eq!(target.get_value(b"target_block_hash"), Some(vec![3u8; 32]));
    assert_eq!(u64_at(&target, b"cascade_exec_count"), 1);
    assert_eq!(
        scheduler_cascade::on_cascade_executed(&mut target, &[], &[3u8; 32], Some(Err(2))),
        Some(scheduler::ERR_NO_VRF)
    );
}

#[test]
fn cascade_entry_points() {
    let hash = [3u8; 32];
    let mut st = Storage::new();
    // inputs that need no VRF output are answered without one
    assert!(matches!(
        scheduler_cascade::entrypoint(&mut st, &[0], &hash, None),
        Some(SchedulerStep::Done(scheduler::ERR_SHORT_INPUT))
    ));
    assert!(matches!(
        scheduler_cascade::entrypoint(&mut st, &[0, 0, 1, 2, 3], &hash, None),
        Some(SchedulerStep::Done(scheduler::ERR_SHORT_PARAMS))
    ));
    assert!(matches!(
        scheduler_cascade::entrypoint(&mut st, &[7, 0], &hash, None),
        Some(SchedulerStep::Done(scheduler::ERR_UNKNOWN_ENTRY))
    ));
    let mut input = vec![0u8, 0];
    input.extend_from_slice(&[4u8; 32]);
    input.extend_from_slice(&12u64.to_le_bytes());
    assert!(scheduler_cascade::entrypoint(&mut st, &input, &hash, None).is_none());
    match scheduler_cascade::entrypoint(&mut st, &input, &hash, Some(Ok([8u8; 32]))) {
        Some(SchedulerStep::Offer(req)) => {
            assert_eq!(req.target, Some([4u8; 32]));
            assert_eq!(req.input, vec![8u8; 32]);
            assert_eq!(req.topoheight, Some(12));
        }
        _ => panic!("expected an offer"),
    }
    let mut target = Storage::new();
    let mut executed = vec![1u8, 0];
    executed.extend_from_slice(&[2u8; 32]);
    assert!(scheduler_cascade::entrypoint(&mut target, &executed, &hash, None).is_none());
    assert!(matches!(
        scheduler_cascade::entrypoint(&mut target, &executed, &hash, Some(Ok([5u8; 32]))),
        Some(SchedulerStep::Done(0))
    ));
    assert_eq!(target.get_value(b"caller_vrf"), Some(vec![2u8; 32]));
    assert_eq!(u64_at(&target, b"cascade_exec_count"), 1);
}

// ---------------------------------------------------------------------------
// Cross-program invocation
// ---------------------------------------------------------------------------

#[test]
fn cpi_callees() {
    let mut st = Storage::new();
    assert_eq!(cpi_callee::entrypoint(&mut st), 1u64.to_le_bytes().to_vec());
    assert_eq!(cpi_callee::entrypoint(&mut st), 2u64.to_le_bytes().to_vec());
    let data = cpi_test_callee::entrypoint(&mut st, 1000, 400);
    let mut expected = 84u64.to_le_bytes().to_vec();
    expected.extend_from_slice(&1u64.to_le_bytes());
    expected.extend_from_slice(&600u64.to_le_bytes());
    assert_eq!(data, expected);
    // the meter reading the wrong way round counts as nothing used
    let data = cpi_test_callee::entrypoint(&mut st, 400, 1000);
    assert_eq!(&data[16..24], &0u64.to_le_bytes());
    assert_eq!(&data[8..16], &2u64.to_le_bytes());
}

#[test]
fn cpi_end_to_end() {
    let mut st = Storage::new();
    assert!(cpi_e2e_callee::entrypoint(&st) == Err(CpiError::MissingInput));
    let (callee, data) = cpi_e2e_caller::entrypoint(&mut st);
    assert_eq!(callee, [0xBBu8; 32]);
    assert!(data.is_empty());
    assert!(cpi_e2e_callee::entrypoint(&st) == Ok(cpi::E2E_SUM));
    let hash = [0xabu8; 32];
    let data = cpi_e2e_callee::finish(&mut st, 600, &hash);
    assert_eq!(data.len(), 40);
    assert!(cpi_e2e_caller::on_return(true, &data, &hash) == Ok(()));
    assert!(cpi_e2e_caller::on_return(false, &data, &hash) == Err(CpiError::InvokeFailed));
    assert!(cpi_e2e_caller::on_return(true, &data[..39], &hash) == Err(CpiError::InvalidReturnData));
    assert!(cpi_e2e_caller::on_return(true, &data, &[0u8; 32]) == Err(CpiError::InvalidReturnData));
}

#[test]
fn cpi_callers() {
    assert_eq!(cpi_caller::entrypoint(), ([0xAAu8; 32], vec![]));
    assert_eq!(cpi_test_caller::entrypoint(), ([0xBBu8; 32], cpi::TEST_AMOUNT.to_le_bytes().to_vec()));
    assert!(cpi_caller::on_return(true) == Ok(()));
    assert!(cpi_caller::on_return(false) == Err(CpiError::InvokeFailed));
    let mut st = Storage::new();
    let good = 84u64.to_le_bytes();
    assert!(cpi_test_caller::on_return(&mut st, true, &good, 5000, 3000) == Ok(()));
    assert_eq!(u64_at(&st, b"last_cpi_compute_used"), 2000);
    assert!(cpi_test_caller::on_return(&mut st, true, &42u64.to_le_bytes(), 5000, 3000) == Err(CpiError::InvalidReturnData));
    assert!(cpi_test_caller::on_return(&mut st, true, &[1, 2], 5000, 3000) == Err(CpiError::InvalidReturnData));
    assert!(cpi_test_caller::on_return(&mut st, false, &good, 5000, 3000) == Err(CpiError::InvokeFailed));
}

// ---------------------------------------------------------------------------
// Heap
// ---------------------------------------------------------------------------

#[test]
fn fixed_heap_bump() {
    let mut h = FixedHeap::new();
    assert_eq!(h.allocate(3, 1), Some(0));
    assert_eq!(h.allocate(8, 8), Some(8));
    assert_eq!(h.pos, 16);
    assert_eq!(h.allocate(HEAP_SIZE, 1), None);
    assert_eq!(h.pos, 16);
    assert_eq!(h.allocate(HEAP_SIZE - 16, 4), Some(16));
    assert_eq!(h.allocate(1, 1), None);
}

#[test]
fn vm_heap_bump() {
    let mut h = VmHeap::new(0x1000, 100);
    assert_eq!(h.end, 0x1000 + 100);
    assert_eq!(h.allocate(1, 1), Some(0x1000));
    assert_eq!(h.allocate(10, 16), Some(0x1010));
    assert_eq!(h.pos, 0x101a);
    assert_eq!(h.allocate(100, 1), None);
    assert_eq!(h.pos, 0x101a);
    let s = VmHeap::new(usize::MAX - 5, 100);
    assert_eq!(s.end, usize::MAX);
}

#[test]
fn oom_probe_runs_out() {
    // 128 blocks of 4 KiB growing by 1 KiB need 8847360 bytes
    assert_eq!(alloc_oom::entrypoint(0, 8_847_360), 1);
    assert_eq!(alloc_oom::entrypoint(0, 8_847_359), 0);
    assert_eq!(alloc_oom::entrypoint(0x4_0000_0000, 32 * 1024), 0);
    // an unaligned start pays for its first alignment
    assert_eq!(alloc_oom::entrypoint(1, 8_847_360), 0);
    assert_eq!(alloc_oom::entrypoint(1, 8_847_367), 1);
}

// ---------------------------------------------------------------------------
// Referral
// ---------------------------------------------------------------------------

#[test]
fn referral_rewards() {
    assert_eq!(referral::calculate_reward(1000, 1000), 100);
    assert_eq!(referral::calculate_reward(1000, 500), 50);
    assert_eq!(referral::calculate_reward(1000, 300), 30);
    assert_eq!(referral::calculate_reward(9, 1000), 0);
    assert_eq!(referral::calculate_reward(u64::MAX, 2), 0);
}

#[test]
fn referral_invest_plan() {
    let a = [1u8; 32];
    let b = [2u8; 32];
    let c = [3u8; 32];
    let d = [4u8; 32];
    assert_eq!(referral::invest(0, Ok(vec![a])), Err(1));
    assert_eq!(referral::invest(10, Err(5)), Err(105));
    assert_eq!(
        referral::invest(1000, Ok(vec![a, b, c, d])),
        Ok(vec![(a, 100), (b, 50), (c, 30)])
    );
    assert_eq!(referral::invest(1000, Ok(vec![a])), Ok(vec![(a, 100)]));
    // a share that rounds to nothing is not sent
    assert_eq!(referral::invest(15, Ok(vec![a, b, c])), Ok(vec![(a, 1)]));
    assert_eq!(referral::rewards_sent(&vec![true, false, true]), 2);
}

#[test]
fn referral_queries() {
    assert_eq!(referral::check_referrer(Ok(true)), 1);
    assert_eq!(referral::check_referrer(Ok(false)), 0);
    assert_eq!(referral::check_referrer(Err(3)), 103);
    assert_eq!(referral::check_downline(Ok(true)), 1);
    let (n, data) = referral::get_upline_info(Ok(2), Ok((4, vec![[1u8; 32], [2u8; 32], [3u8; 32], [4u8; 32]])));
    assert_eq!(n, 4);
    assert_eq!(data.len(), 2 + 96);
    assert_eq!(&data[..2], &[2, 4]);
    assert_eq!(&data[66..98], &[3u8; 32]);
    assert_eq!(referral::get_upline_info(Err(1), Err(7)), (107, vec![]));
    let (size, stats) = referral::get_team_stats(Ok(3), Ok(12), Err(1));
    assert_eq!(size, 12);
    let mut expected = vec![0u8];
    expected.extend_from_slice(&3u32.to_le_bytes());
    expected.extend_from_slice(&12u64.to_le_bytes());
    assert_eq!(stats, expected);
    let me = [4u8; 32];
    let contract = [8u8; 32];
    let all_ok: Vec<Result<(), u64>> = vec![Ok(()); 7];
    assert!(matches!(referral::test_all_syscalls(&me, &contract, &all_ok), SyscallStep::Done(0)));
    // the queries are made in turn, stopping at the first failure
    assert!(matches!(
        referral::test_all_syscalls(&me, &contract, &[]),
        SyscallStep::Query(ReferralQuery::HasReferrer(a)) if a == me
    ));
    assert!(matches!(
        referral::test_all_syscalls(&me, &contract, &all_ok[..2]),
        SyscallStep::Query(ReferralQuery::GetUplines(a, 3)) if a == me
    ));
    assert!(matches!(
        referral::test_all_syscalls(&me, &contract, &all_ok[..6]),
        SyscallStep::Query(ReferralQuery::IsDownline(c, a, 10)) if c == contract && a == me
    ));
    let third = vec![Ok(()), Ok(()), Err(5)];
    assert!(matches!(referral::test_all_syscalls(&me, &contract, &third), SyscallStep::Done(305)));
    assert!(matches!(referral::entrypoint(&me, &contract, &third), SyscallStep::Done(305)));
    assert!(matches!(referral::entrypoint(&me, &contract, &[Err(u64::MAX - 100)]), SyscallStep::Done(u64::MAX)));
}

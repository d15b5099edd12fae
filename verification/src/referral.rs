//! Three-level profit sharing over the chain's referral tree: an investment
//! pays 10%, 5% and 3% of its amount to the investor's first three
//! uplines; other entry points report on the investor's place in the
//! tree.
//!
//! The referral tree, the transfers and the return data are the host's:
//! what the host answers is passed in, and the transfers to make are
//! answered.

use vstd::prelude::*;
use crate::bytes::{le_bytes, append_bytes, le_encode, u64_le};

verus! {

/// At most this many uplines share in an investment.
pub const MAX_PROFIT_LEVELS: u8 = 3;
pub const BASIS_POINTS: u64 = 10000;

/// The share of each level, in basis points.
pub open spec fn reward_ratio(level: int) -> u64 {
    if level == 0 {
        1000
    } else if level == 1 {
        500
    } else {
        300
    }
}

fn ratio_at(level: usize) -> (r: u64)
    requires
        level < 3,
    ensures
        r == reward_ratio(level as int),
{
    if level == 0 {
        1000
    } else if level == 1 {
        500
    } else {
        300
    }
}

/// `amount` times `basis_points` over 10000, or 0 when the product does not
/// fit in 64 bits.
pub open spec fn reward(amount: u64, basis_points: u64) -> u64 {
    if amount * basis_points > u64::MAX {
        0
    } else {
        (amount * basis_points / (BASIS_POINTS as int)) as u64
    }
}

pub fn calculate_reward(amount: u64, basis_points: u64) -> (r: u64)
    ensures
        r == reward(amount, basis_points),
{
    match amount.checked_mul(basis_points) {
        Some(v) => v / BASIS_POINTS,
        None => 0,
    }
}

/// The status of a failed host query: 100 more than its error code.
pub open spec fn query_failure(code: u64) -> u64 {
    (100 + code) as u64
}

/// The transfers an investment of `amount` makes: to each of the first
/// three uplines (the nearest first), its share, when that is not zero.
pub open spec fn planned(amount: u64, uplines: Seq<Seq<u8>>, i: int) -> Seq<(Seq<u8>, u64)>
    decreases i,
{
    if i <= 0 {
        Seq::empty()
    } else {
        let earlier = planned(amount, uplines, i - 1);
        let r = reward(amount, reward_ratio(i - 1));
        if r > 0 {
            earlier.push((uplines[i - 1], r))
        } else {
            earlier
        }
    }
}

/// How many uplines share in an investment.
pub open spec fn sharing_levels(uplines: Seq<Seq<u8>>) -> int {
    if uplines.len() < 3 {
        uplines.len() as int
    } else {
        3
    }
}

/// The transfers a transfer plan stands for.
pub open spec fn plan_view(plan: Seq<([u8; 32], u64)>) -> Seq<(Seq<u8>, u64)> {
    plan.map_values(|t: ([u8; 32], u64)| (t.0@, t.1))
}

pub open spec fn address_list(v: Seq<[u8; 32]>) -> Seq<Seq<u8>> {
    v.map_values(|a: [u8; 32]| a@)
}

/// `invest`: an investment of nothing is refused with status 1; a failed
/// upline query with its failure status; else the transfers to make.
/// `uplines` is what the host answered for the investor's uplines, at most
/// three deep.
pub fn invest(amount: u64, uplines: Result<Vec<[u8; 32]>, u64>) -> (r: Result<Vec<([u8; 32], u64)>, u64>)
    requires
        uplines matches Err(code) ==> code <= u64::MAX - 100,
    ensures
        amount == 0 ==> r == Err::<Vec<([u8; 32], u64)>, u64>(1),
        amount != 0 ==> match uplines {
            Err(code) => r == Err::<Vec<([u8; 32], u64)>, u64>(query_failure(code)),
            Ok(u) => r matches Ok(plan) && plan_view(plan@) == planned(
                amount,
                address_list(u@),
                sharing_levels(address_list(u@)),
            ),
        },
{
    if amount == 0 {
        return Err(1);
    }
    let uplines = match uplines {
        Ok(u) => u,
        Err(code) => return Err(100 + code),
    };
    let levels = if uplines.len() < 3 {
        uplines.len()
    } else {
        3
    };
    let ghost ups = address_list(uplines@);
    let mut plan: Vec<([u8; 32], u64)> = Vec::new();
    let mut i: usize = 0;
    while i < levels
        invariant
            i <= levels,
            levels <= 3,
            levels <= uplines@.len(),
            levels == sharing_levels(ups),
            ups == address_list(uplines@),
            plan_view(plan@) == planned(amount, ups, i as int),
        decreases levels - i,
    {
        let r = calculate_reward(amount, ratio_at(i));
        if r > 0 {
            let ghost before = plan@;
            plan.push((uplines[i], r));
            proof {
                assert(plan_view(plan@) =~= plan_view(before).push((uplines@[i as int]@, r)));
            }
        }
        i = i + 1;
    }
    Ok(plan)
}

/// What `invest` answers once its transfers were made: how many of them
/// succeeded.
pub fn rewards_sent(transfers_succeeded: &Vec<bool>) -> (r: u64)
    ensures
        r == transfers_succeeded@.filter(|b: bool| b).len(),
{
    let mut n: u64 = 0;
    let mut i: usize = 0;
    while i < transfers_succeeded.len()
        invariant
            i <= transfers_succeeded@.len(),
            n == transfers_succeeded@.take(i as int).filter(|b: bool| b).len(),
            n <= i,
        decreases transfers_succeeded@.len() - i,
    {
        proof {
            assert(transfers_succeeded@.take(i + 1).drop_last() =~= transfers_succeeded@.take(i as int));
            transfers_succeeded@.take(i as int).lemma_filter_len_push(
                |b: bool| b,
                transfers_succeeded@[i as int],
            );
            assert(transfers_succeeded@.take(i as int).push(transfers_succeeded@[i as int])
                =~= transfers_succeeded@.take(i + 1));
        }
        if transfers_succeeded[i] {
            n = n + 1;
        }
        i = i + 1;
    }
    proof {
        assert(transfers_succeeded@.take(i as int) =~= transfers_succeeded@);
    }
    n
}

/// `check_referrer`: 1 when the investor has a referrer, 0 when not, or the
/// failure status of the query.
pub fn check_referrer(has_referrer: Result<bool, u64>) -> (r: u64)
    requires
        has_referrer matches Err(code) ==> code <= u64::MAX - 100,
    ensures
        r == match has_referrer {
            Ok(true) => 1,
            Ok(false) => 0,
            Err(code) => query_failure(code),
        },
{
    match has_referrer {
        Ok(has) => if has {
            1
        } else {
            0
        },
        Err(code) => 100 + code,
    }
}

/// The return data of `get_upline_info`: the investor's level, the number
/// of uplines found, and up to three of them.
pub open spec fn upline_info(level: u8, count: u8, uplines: Seq<Seq<u8>>) -> Seq<u8> {
    let shown = if count < 3 { count as int } else { 3 };
    seq![level, count] + uplines.take(shown).flatten()
}

/// `get_upline_info`: answers the number of uplines found (with the
/// information as return data), or the failure status of the upline
/// query; a failed level query counts as level 0.
pub fn get_upline_info(level: Result<u8, u64>, uplines: Result<(u8, Vec<[u8; 32]>), u64>) -> (r: (u64, Vec<u8>))
    requires
        uplines matches Err(code) ==> code <= u64::MAX - 100,
        uplines matches Ok(u) ==> u.1@.len() >= (if u.0 < 3 { u.0 as int } else { 3 }),
    ensures
        match uplines {
            Err(code) => r.0 == query_failure(code) && r.1@ == Seq::<u8>::empty(),
            Ok(u) => r.0 == u.0 as u64 && r.1@ == upline_info(
                match level {
                    Ok(l) => l,
                    Err(_) => 0,
                },
                u.0,
                address_list(u.1@),
            ),
        },
{
    let level = match level {
        Ok(l) => l,
        Err(_) => 0,
    };
    let (count, list) = match uplines {
        Ok(u) => u,
        Err(code) => return (100 + code, Vec::new()),
    };
    let shown: usize = if count < 3 {
        count as usize
    } else {
        3
    };
    let ghost ups = address_list(list@);
    let mut data: Vec<u8> = vec![level, count];
    let mut i: usize = 0;
    while i < shown
        invariant
            i <= shown,
            shown <= list@.len(),
            ups == address_list(list@),
            data@ == seq![level, count] + ups.take(i as int).flatten(),
        decreases shown - i,
    {
        let ghost before = data@;
        append_bytes(&mut data, list[i].as_slice());
        proof {
            assert(ups.take(i + 1) =~= ups.take(i as int).push(ups[i as int]));
            ups.take(i as int).lemma_flatten_push(ups[i as int]);
            assert(data@ =~= seq![level, count] + ups.take(i + 1).flatten());
        }
        i = i + 1;
    }
    (count as u64, data)
}

/// The return data of `get_team_stats`: the level, the number of direct
/// referrals (4 bytes) and the team size (8 bytes).
pub open spec fn team_stats(level: u8, direct: u32, team: u64) -> Seq<u8> {
    seq![level] + le_bytes(direct as nat, 4) + le_bytes(team as nat, 8)
}

/// `get_team_stats`: answers the team size (with the statistics as return
/// data); each failed query counts as 0.
pub fn get_team_stats(direct: Result<u32, u64>, team: Result<u64, u64>, level: Result<u8, u64>) -> (r: (u64, Vec<u8>))
    ensures
        ({
            let d = match direct { Ok(v) => v, Err(_) => 0 };
            let t = match team { Ok(v) => v, Err(_) => 0 };
            let l = match level { Ok(v) => v, Err(_) => 0 };
            r.0 == t && r.1@ == team_stats(l, d, t)
        }),
{
    let direct_count: u32 = match direct {
        Ok(c) => c,
        Err(_) => 0,
    };
    let team_size: u64 = match team {
        Ok(s) => s,
        Err(_) => 0,
    };
    let level: u8 = match level {
        Ok(l) => l,
        Err(_) => 0,
    };
    let mut data: Vec<u8> = vec![level];
    append_bytes(&mut data, le_encode(direct_count as u128, 4).as_slice());
    append_bytes(&mut data, u64_le(team_size).as_slice());
    proof {
        assert(data@ =~= team_stats(level, direct_count, team_size));
    }
    (team_size, data)
}

/// `check_downline`: 1 when the investor is within three levels below the
/// contract, 0 when not, or the failure status of the query.
pub fn check_downline(is_downline: Result<bool, u64>) -> (r: u64)
    requires
        is_downline matches Err(code) ==> code <= u64::MAX - 100,
    ensures
        r == match is_downline {
            Ok(true) => 1,
            Ok(false) => 0,
            Err(code) => query_failure(code),
        },
{
    check_referrer(is_downline)
}

/// A referral query `test_all_syscalls` makes of the host.
#[derive(Debug)]
pub enum ReferralQuery {
    /// `has_referrer(account)`.
    HasReferrer([u8; 32]),
    /// `get_referrer(account)`.
    GetReferrer([u8; 32]),
    /// `get_uplines(account, levels)`.
    GetUplines([u8; 32], u8),
    /// `get_direct_referrals_count(account)`.
    DirectReferralsCount([u8; 32]),
    /// `get_team_size(account)`.
    TeamSize([u8; 32]),
    /// `get_referral_level(account)`.
    ReferralLevel([u8; 32]),
    /// `is_downline(ancestor, descendant, max_depth)`.
    IsDownline([u8; 32], [u8; 32], u8),
}

/// The next step of `test_all_syscalls`: a query to make, or the status.
#[derive(Debug)]
pub enum SyscallStep {
    Query(ReferralQuery),
    Done(u64),
}

/// Query number `k` (from 0) of `test_all_syscalls`, made for `caller`
/// (the contract's own hash is the ancestor of the last one).
pub open spec fn query_at(k: int, caller: [u8; 32], contract: [u8; 32]) -> ReferralQuery {
    if k == 0 {
        ReferralQuery::HasReferrer(caller)
    } else if k == 1 {
        ReferralQuery::GetReferrer(caller)
    } else if k == 2 {
        ReferralQuery::GetUplines(caller, 3)
    } else if k == 3 {
        ReferralQuery::DirectReferralsCount(caller)
    } else if k == 4 {
        ReferralQuery::TeamSize(caller)
    } else if k == 5 {
        ReferralQuery::ReferralLevel(caller)
    } else {
        ReferralQuery::IsDownline(contract, caller, 10)
    }
}

/// The status of `test_all_syscalls` from the answers of the queries made
/// from number `i` on: the first failure at number `k` gives
/// `100 * (k + 1)` plus its code, seven successes give 0, and fewer
/// answers give nothing yet.
pub open spec fn syscalls_status(answers: Seq<Result<(), u64>>, i: int) -> Option<u64>
    decreases 7 - i,
{
    if i >= 7 {
        Some(0)
    } else if i >= answers.len() {
        None
    } else {
        match answers[i] {
            Err(code) => Some((100 * (i + 1) + code) as u64),
            Ok(_) => syscalls_status(answers, i + 1),
        }
    }
}

/// `test_all_syscalls`, driven by what the host answered the queries made
/// so far: the seven queries are made in turn, each once the previous one
/// succeeded; the first failure ends the test (see [`syscalls_status`]).
pub fn test_all_syscalls(caller: &[u8; 32], contract: &[u8; 32], answers: &[Result<(), u64>]) -> (r: SyscallStep)
    requires
        forall|i: int| 0 <= i < answers@.len() && i < 7 ==> (#[trigger] answers@[i] matches Err(code)
            ==> code <= u64::MAX - 100 * (i + 1)),
    ensures
        match syscalls_status(answers@, 0) {
            Some(s) => r == SyscallStep::Done(s),
            None => r == SyscallStep::Query(query_at(answers@.len() as int, *caller, *contract)),
        },
{
    let mut i: usize = 0;
    while i < 7 && i < answers.len()
        invariant
            i <= 7,
            i <= answers@.len(),
            forall|j: int| 0 <= j < answers@.len() && j < 7 ==> (#[trigger] answers@[j] matches Err(code)
                ==> code <= u64::MAX - 100 * (j + 1)),
            syscalls_status(answers@, 0) == syscalls_status(answers@, i as int),
        decreases 7 - i,
    {
        match answers[i] {
            Err(code) => {
                assert(answers@[i as int] matches Err(c) ==> c <= u64::MAX - 100 * (i + 1));
                return SyscallStep::Done(100 * (i as u64 + 1) + code);
            },
            Ok(_) => {},
        }
        i = i + 1;
    }
    if i >= 7 {
        return SyscallStep::Done(0);
    }
    let q = if i == 0 {
        ReferralQuery::HasReferrer(*caller)
    } else if i == 1 {
        ReferralQuery::GetReferrer(*caller)
    } else if i == 2 {
        ReferralQuery::GetUplines(*caller, 3)
    } else if i == 3 {
        ReferralQuery::DirectReferralsCount(*caller)
    } else if i == 4 {
        ReferralQuery::TeamSize(*caller)
    } else if i == 5 {
        ReferralQuery::ReferralLevel(*caller)
    } else {
        ReferralQuery::IsDownline(*contract, *caller, 10)
    };
    SyscallStep::Query(q)
}

/// The contract's entry point: the checks of `test_all_syscalls`.
pub fn entrypoint(caller: &[u8; 32], contract: &[u8; 32], answers: &[Result<(), u64>]) -> (r: SyscallStep)
    requires
        forall|i: int| 0 <= i < answers@.len() && i < 7 ==> (#[trigger] answers@[i] matches Err(code)
            ==> code <= u64::MAX - 100 * (i + 1)),
    ensures
        match syscalls_status(answers@, 0) {
            Some(s) => r == SyscallStep::Done(s),
            None => r == SyscallStep::Query(query_at(answers@.len() as int, *caller, *contract)),
        },
{
    test_all_syscalls(caller, contract, answers)
}

/// Sum of the amounts of a transfer plan.
pub open spec fn plan_total(plan: Seq<(Seq<u8>, u64)>) -> int
    decreases plan.len(),
{
    if plan.len() == 0 {
        0
    } else {
        plan_total(plan.drop_last()) + plan.last().1
    }
}

/// An investment never pays out more than 18% of its amount, to at most
/// three uplines, the nearest first.
pub proof fn law_rewards_bounded(amount: u64, uplines: Seq<Seq<u8>>)
    ensures
        planned(amount, uplines, sharing_levels(uplines)).len() <= 3,
        plan_total(planned(amount, uplines, sharing_levels(uplines))) * 10000 <= amount * 1800,
{
    lemma_planned_bounded(amount, uplines, sharing_levels(uplines));
}

proof fn lemma_planned_bounded(amount: u64, uplines: Seq<Seq<u8>>, i: int)
    requires
        i <= 3,
    ensures
        planned(amount, uplines, i).len() <= if i < 0 { 0 } else { i },
        plan_total(planned(amount, uplines, i)) * 10000 <= amount * (if i <= 0 { 0int } else if i == 1 { 1000int } else if i == 2 { 1500int } else { 1800int }),
    decreases i,
{
    if i > 0 {
        lemma_planned_bounded(amount, uplines, i - 1);
        let ratio = reward_ratio(i - 1);
        let r = reward(amount, ratio);
        assert(r * 10000 <= amount * ratio) by (nonlinear_arith)
            requires
                r == (if amount * ratio > u64::MAX { 0 } else { (amount * ratio / 10000) as u64 }),
        ;
        let earlier = planned(amount, uplines, i - 1);
        if r > 0 {
            assert(earlier.push((uplines[i - 1], r)).drop_last() =~= earlier);
        }
    }
}

} // verus!

//! Exercising the host's native NFT collections: test entry points that
//! call the host's NFT functions in turn and answer a status made from the
//! first failure, and helpers that combine several host answers.
//!
//! The collections live in the host: what its NFT functions answer is
//! passed in, and the calls to make are the caller's.

use vstd::prelude::*;
use crate::bytes::bytes_eq;

verus! {

/// The status of a host call that failed with `code` at a step whose
/// failures count from `base`.
pub open spec fn failure(base: u64, code: u64) -> u64 {
    (base + code) as u64
}

/// `test_collection_exists`: 0, or 100 plus the failure code.
pub fn test_collection_exists(found: Result<bool, u64>) -> (r: u64)
    requires
        found matches Err(code) ==> code <= u64::MAX - 100,
    ensures
        r == match found {
            Ok(_) => 0,
            Err(code) => failure(100, code),
        },
{
    match found {
        Ok(_) => 0,
        Err(code) => 100 + code,
    }
}

/// `test_mint`: 0, or 200 plus the failure code.
pub fn test_mint(minted: Result<u64, u64>) -> (r: u64)
    requires
        minted matches Err(code) ==> code <= u64::MAX - 200,
    ensures
        r == match minted {
            Ok(_) => 0,
            Err(code) => failure(200, code),
        },
{
    match minted {
        Ok(_) => 0,
        Err(code) => 200 + code,
    }
}

/// `test_transfer`: 0, or 300 plus the failure code.
pub fn test_transfer(transferred: Result<(), u64>) -> (r: u64)
    requires
        transferred matches Err(code) ==> code <= u64::MAX - 300,
    ensures
        r == match transferred {
            Ok(_) => 0,
            Err(code) => failure(300, code),
        },
{
    match transferred {
        Ok(_) => 0,
        Err(code) => 300 + code,
    }
}

/// `test_burn`: 0, or 400 plus the failure code.
pub fn test_burn(burned: Result<(), u64>) -> (r: u64)
    requires
        burned matches Err(code) ==> code <= u64::MAX - 400,
    ensures
        r == match burned {
            Ok(_) => 0,
            Err(code) => failure(400, code),
        },
{
    match burned {
        Ok(_) => 0,
        Err(code) => 400 + code,
    }
}

/// The status of a suite of tests run until one fails: 0 when all passed,
/// else the first failing test's base plus its status.
pub open spec fn suite_status(bases: Seq<u64>, statuses: Seq<u64>) -> u64
    decreases statuses.len(),
{
    if statuses.len() == 0 {
        0
    } else if statuses[0] != 0 {
        (bases[0] + statuses[0]) as u64
    } else {
        suite_status(bases.drop_first(), statuses.drop_first())
    }
}

/// Runs the statuses of the tests run, in order, through `suite_status`.
pub fn suite(bases: &[u64], statuses: &[u64]) -> (r: u64)
    requires
        statuses@.len() <= bases@.len(),
        forall|i: int| 0 <= i < statuses@.len() ==> bases@[i] + #[trigger] statuses@[i] <= u64::MAX,
    ensures
        r == suite_status(bases@, statuses@),
{
    let mut i: usize = 0;
    proof {
        assert(bases@.skip(0) =~= bases@);
        assert(statuses@.skip(0) =~= statuses@);
    }
    while i < statuses.len()
        invariant
            i <= statuses@.len(),
            statuses@.len() <= bases@.len(),
            forall|j: int| 0 <= j < statuses@.len() ==> bases@[j] + #[trigger] statuses@[j] <= u64::MAX,
            suite_status(bases@, statuses@) == suite_status(bases@.skip(i as int), statuses@.skip(i as int)),
        decreases statuses@.len() - i,
    {
        proof {
            assert(bases@.skip(i as int).drop_first() =~= bases@.skip(i + 1));
            assert(statuses@.skip(i as int).drop_first() =~= statuses@.skip(i + 1));
            assert(statuses@.skip(i as int)[0] == statuses@[i as int]);
            assert(bases@.skip(i as int)[0] == bases@[i as int]);
        }
        if statuses[i] != 0 {
            return bases[i] + statuses[i];
        }
        i = i + 1;
    }
    proof {
        assert(statuses@.skip(i as int).len() == 0);
    }
    0
}

/// A call of the host's native NFT functions.
#[derive(Debug)]
pub enum NftCall {
    /// `nft_collection_exists(collection)`.
    CollectionExists([u8; 32]),
    /// `nft_mint(collection, to, uri, caller)`.
    Mint([u8; 32], [u8; 32], Vec<u8>, [u8; 32]),
    /// `nft_transfer(collection, token_id, from, to, caller)`.
    Transfer([u8; 32], u64, [u8; 32], [u8; 32], [u8; 32]),
    /// `nft_burn(collection, token_id, caller)`.
    Burn([u8; 32], u64, [u8; 32]),
    /// `nft_approve(collection, token_id, operator, caller)`; no operator
    /// clears the approval.
    Approve([u8; 32], u64, Option<[u8; 32]>, [u8; 32]),
    /// `nft_get_approved(collection, token_id)`.
    GetApproved([u8; 32], u64),
    /// `nft_set_approval_for_all(collection, operator, approved, caller)`.
    SetApprovalForAll([u8; 32], [u8; 32], bool, [u8; 32]),
    /// `nft_is_approved_for_all(collection, owner, operator)`.
    IsApprovedForAll([u8; 32], [u8; 32], [u8; 32]),
    /// `nft_exists(collection, token_id)`.
    Exists([u8; 32], u64),
    /// `nft_owner_of(collection, token_id)`.
    OwnerOf([u8; 32], u64),
    /// `nft_balance_of(collection, owner)`.
    BalanceOf([u8; 32], [u8; 32]),
    /// `nft_token_uri(collection, token_id)`.
    TokenUri([u8; 32], u64),
}

/// The collection the tests use: bytes 1 to 32.
pub open spec fn test_collection() -> Seq<u8> {
    Seq::new(32, |i: int| (i + 1) as u8)
}

/// The recipient the tests mint and transfer to.
pub open spec fn test_recipient() -> Seq<u8> {
    let half = seq![0xaau8, 0xbb, 0xcc, 0xdd, 0xee, 0xff, 0x00, 0x11, 0x22, 0x33, 0x44, 0x55, 0x66, 0x77, 0x88, 0x99];
    half + half
}

/// The operator the tests approve.
pub open spec fn test_operator() -> Seq<u8> {
    let half = seq![0x11u8, 0x22, 0x33, 0x44, 0x55, 0x66, 0x77, 0x88, 0x99, 0xaa, 0xbb, 0xcc, 0xdd, 0xee, 0xff, 0x00];
    half + half
}

/// The metadata URI of the minted token: `ipfs://QmExampleMetadataHash123456789`.
pub open spec fn test_uri() -> Seq<u8> {
    seq![105u8, 112, 102, 115, 58, 47, 47, 81, 109, 69, 120, 97, 109, 112, 108, 101, 77, 101, 116, 97, 100,
        97, 116, 97, 72, 97, 115, 104, 49, 50, 51, 52, 53, 54, 55, 56, 57]
}

/// Whether `c` is the test suite's host call number `k` (from 0), made by
/// `caller`: collection exists; mint; transfer and burn of token 1; the six
/// approval calls; the four queries of token 1.
pub open spec fn is_test_call(c: NftCall, k: int, caller: Seq<u8>) -> bool {
    let col = test_collection();
    match c {
        NftCall::CollectionExists(a) => k == 0 && a@ == col,
        NftCall::Mint(a, to, uri, by) => k == 1 && a@ == col && to@ == test_recipient() && uri@ == test_uri()
            && by@ == caller,
        NftCall::Transfer(a, id, from, to, by) => k == 2 && a@ == col && id == 1 && from@ == caller && to@
            == test_recipient() && by@ == caller,
        NftCall::Burn(a, id, by) => k == 3 && a@ == col && id == 1 && by@ == caller,
        NftCall::Approve(a, id, op, by) => a@ == col && id == 1 && by@ == caller && (
            (k == 4 && (op matches Some(o) && o@ == test_operator())) || (k == 6 && op is None)),
        NftCall::GetApproved(a, id) => k == 5 && a@ == col && id == 1,
        NftCall::SetApprovalForAll(a, op, approved, by) => a@ == col && op@ == test_operator() && by@
            == caller && ((k == 7 && approved) || (k == 9 && !approved)),
        NftCall::IsApprovedForAll(a, owner, op) => k == 8 && a@ == col && owner@ == caller && op@
            == test_operator(),
        NftCall::Exists(a, id) => k == 10 && a@ == col && id == 1,
        NftCall::OwnerOf(a, id) => k == 11 && a@ == col && id == 1,
        NftCall::BalanceOf(a, owner) => k == 12 && a@ == col && owner@ == caller,
        NftCall::TokenUri(a, id) => k == 13 && a@ == col && id == 1,
    }
}

/// The failure bases of the test suite's fourteen calls: 100, 200, 300 and
/// 400 for the single-call tests, 500 to 550 for the approvals, 600 to 630
/// for the queries.
pub open spec fn test_bases() -> Seq<u64> {
    seq![100u64, 200, 300, 400, 500, 510, 520, 530, 540, 550, 600, 610, 620, 630]
}

/// The test suite's host call number `k`, made by `caller`.
pub fn test_call(k: usize, caller: &[u8; 32]) -> (r: NftCall)
    requires
        k < 14,
    ensures
        is_test_call(r, k as int, caller@),
{
    let col: [u8; 32] = [
        1, 2, 3, 4, 5, 6, 7, 8, 9, 10, 11, 12, 13, 14, 15, 16, 17, 18, 19, 20, 21, 22, 23, 24, 25, 26, 27, 28,
        29, 30, 31, 32,
    ];
    let recipient: [u8; 32] = [
        0xaa, 0xbb, 0xcc, 0xdd, 0xee, 0xff, 0x00, 0x11, 0x22, 0x33, 0x44, 0x55, 0x66, 0x77, 0x88, 0x99,
        0xaa, 0xbb, 0xcc, 0xdd, 0xee, 0xff, 0x00, 0x11, 0x22, 0x33, 0x44, 0x55, 0x66, 0x77, 0x88, 0x99,
    ];
    let operator: [u8; 32] = [
        0x11, 0x22, 0x33, 0x44, 0x55, 0x66, 0x77, 0x88, 0x99, 0xaa, 0xbb, 0xcc, 0xdd, 0xee, 0xff, 0x00,
        0x11, 0x22, 0x33, 0x44, 0x55, 0x66, 0x77, 0x88, 0x99, 0xaa, 0xbb, 0xcc, 0xdd, 0xee, 0xff, 0x00,
    ];
    proof {
        assert(col@ =~= test_collection());
        assert(recipient@ =~= test_recipient());
        assert(operator@ =~= test_operator());
    }
    if k == 0 {
        NftCall::CollectionExists(col)
    } else if k == 1 {
        let uri = vec![105u8, 112, 102, 115, 58, 47, 47, 81, 109, 69, 120, 97, 109, 112, 108, 101, 77, 101,
            116, 97, 100, 97, 116, 97, 72, 97, 115, 104, 49, 50, 51, 52, 53, 54, 55, 56, 57];
        assert(uri@ =~= test_uri());
        NftCall::Mint(col, recipient, uri, *caller)
    } else if k == 2 {
        NftCall::Transfer(col, 1, *caller, recipient, *caller)
    } else if k == 3 {
        NftCall::Burn(col, 1, *caller)
    } else if k == 4 {
        NftCall::Approve(col, 1, Some(operator), *caller)
    } else if k == 5 {
        NftCall::GetApproved(col, 1)
    } else if k == 6 {
        NftCall::Approve(col, 1, None, *caller)
    } else if k == 7 {
        NftCall::SetApprovalForAll(col, operator, true, *caller)
    } else if k == 8 {
        NftCall::IsApprovedForAll(col, *caller, operator)
    } else if k == 9 {
        NftCall::SetApprovalForAll(col, operator, false, *caller)
    } else if k == 10 {
        NftCall::Exists(col, 1)
    } else if k == 11 {
        NftCall::OwnerOf(col, 1)
    } else if k == 12 {
        NftCall::BalanceOf(col, *caller)
    } else {
        NftCall::TokenUri(col, 1)
    }
}

/// The next step of a test: a host call to make, or the test's status.
#[derive(Debug)]
pub enum NftStep {
    Call(NftCall),
    Done(u64),
}

/// The status of calls `first + i ..` of a test running calls
/// `first .. first + count`, from their answers: the first failure gives
/// its base plus its code, all succeeding gives 0, fewer answers give
/// nothing yet.
pub open spec fn calls_status(first: int, count: int, answers: Seq<Result<(), u64>>, i: int) -> Option<u64>
    decreases count - i,
{
    if i >= count {
        Some(0)
    } else if i >= answers.len() {
        None
    } else {
        match answers[i] {
            Err(code) => Some((test_bases()[first + i] + code) as u64),
            Ok(_) => calls_status(first, count, answers, i + 1),
        }
    }
}

/// No failure status overflows.
pub open spec fn answers_fit(first: int, count: int, answers: Seq<Result<(), u64>>) -> bool {
    forall|i: int| 0 <= i < answers.len() && i < count ==> (#[trigger] answers[i] matches Err(code) ==> code
        <= u64::MAX - test_bases()[first + i])
}

/// What a test running calls `first .. first + count` answers next.
pub open spec fn test_step_ok(r: NftStep, first: int, count: int, caller: Seq<u8>, answers: Seq<Result<(), u64>>) -> bool {
    match calls_status(first, count, answers, 0) {
        Some(s) => r matches NftStep::Done(d) && d == s,
        None => r matches NftStep::Call(c) && is_test_call(c, first + answers.len(), caller),
    }
}

/// A test running calls `first .. first + count` in turn, each once the
/// previous one succeeded, driven by the answers so far.
fn run_calls(first: usize, count: usize, caller: &[u8; 32], answers: &[Result<(), u64>]) -> (r: NftStep)
    requires
        first + count <= 14,
        answers_fit(first as int, count as int, answers@),
    ensures
        test_step_ok(r, first as int, count as int, caller@, answers@),
{
    let bases: [u64; 14] = [100, 200, 300, 400, 500, 510, 520, 530, 540, 550, 600, 610, 620, 630];
    assert(bases@ =~= test_bases());
    let mut i: usize = 0;
    while i < count && i < answers.len()
        invariant
            first + count <= 14,
            bases@ == test_bases(),
            i <= count,
            i <= answers@.len(),
            answers_fit(first as int, count as int, answers@),
            calls_status(first as int, count as int, answers@, 0) == calls_status(
                first as int,
                count as int,
                answers@,
                i as int,
            ),
        decreases count - i,
    {
        match answers[i] {
            Err(code) => {
                assert(answers@[i as int] matches Err(c) ==> c <= u64::MAX - test_bases()[first + i]);
                return NftStep::Done(bases[first + i] + code);
            },
            Ok(_) => {},
        }
        i = i + 1;
    }
    if i >= count {
        return NftStep::Done(0);
    }
    NftStep::Call(test_call(first + i, caller))
}

/// `test_approvals`: approve the operator for token 1, read the approval,
/// clear it, approve the operator for all, read that, revoke it; driven by
/// the answers so far, the first failure answering 500, 510, ... 550 plus
/// its code.
pub fn test_approvals(caller: &[u8; 32], answers: &[Result<(), u64>]) -> (r: NftStep)
    requires
        answers_fit(4, 6, answers@),
    ensures
        test_step_ok(r, 4, 6, caller@, answers@),
{
    run_calls(4, 6, caller, answers)
}

/// `test_queries`: whether token 1 exists, its owner, the caller's balance,
/// its URI; driven by the answers so far, the first failure answering 600,
/// 610, 620 or 630 plus its code.
pub fn test_queries(caller: &[u8; 32], answers: &[Result<(), u64>]) -> (r: NftStep)
    requires
        answers_fit(10, 4, answers@),
    ensures
        test_step_ok(r, 10, 4, caller@, answers@),
{
    run_calls(10, 4, caller, answers)
}

/// The native NFT entry point: the six tests in turn (the fourteen calls of
/// [`is_test_call`]), driven by the answers so far; the first failing test
/// answers its status.
pub fn entrypoint(caller: &[u8; 32], answers: &[Result<(), u64>]) -> (r: NftStep)
    requires
        answers_fit(0, 14, answers@),
    ensures
        test_step_ok(r, 0, 14, caller@, answers@),
{
    run_calls(0, 14, caller, answers)
}

// ---------------------------------------------------------------------------
// Helpers over host answers
// ---------------------------------------------------------------------------

/// May `caller` move a token owned by `owner`: it is the owner, the token's
/// approved address, or an operator of the owner.
pub open spec fn may_transfer(caller: Seq<u8>, owner: Seq<u8>, approved: Option<Seq<u8>>, approved_for_all: bool) -> bool {
    caller == owner || approved == Some(caller) || approved_for_all
}

/// What a safe transfer does: refuses a missing token (1), an unowned one
/// (3) or an unauthorized caller (2), or answers the owner to transfer the
/// token from; a failed host query's code is passed on.  The approval
/// queries are only asked when the caller is not the owner.
pub open spec fn safe_transfer_plan(
    caller: Seq<u8>,
    found: Result<bool, u64>,
    owner: Result<Option<Seq<u8>>, u64>,
    approved: Result<Option<Seq<u8>>, u64>,
    approved_for_all: Result<bool, u64>,
) -> Result<Seq<u8>, u64> {
    match found {
        Err(c) => Err(c),
        Ok(false) => Err(1),
        Ok(true) => match owner {
            Err(c) => Err(c),
            Ok(None) => Err(3),
            Ok(Some(o)) => if o == caller {
                Ok(o)
            } else {
                match approved {
                    Err(c) => Err(c),
                    Ok(a) => match approved_for_all {
                        Err(c) => Err(c),
                        Ok(all) => if may_transfer(caller, o, a, all) {
                            Ok(o)
                        } else {
                            Err(2)
                        },
                    },
                }
            },
        },
    }
}

pub open spec fn opt_view(a: Option<[u8; 32]>) -> Option<Seq<u8>> {
    match a {
        Some(x) => Some(x@),
        None => None,
    }
}

pub fn example_safe_transfer(
    caller: &[u8; 32],
    found: Result<bool, u64>,
    owner: Result<Option<[u8; 32]>, u64>,
    approved: Result<Option<[u8; 32]>, u64>,
    approved_for_all: Result<bool, u64>,
) -> (r: Result<[u8; 32], u64>)
    ensures
        match r {
            Ok(o) => safe_transfer_plan(caller@, found, match owner { Ok(x) => Ok(opt_view(x)), Err(c) => Err(c) },
                match approved { Ok(x) => Ok(opt_view(x)), Err(c) => Err(c) }, approved_for_all) == Ok::<Seq<u8>, u64>(o@),
            Err(c) => safe_transfer_plan(caller@, found, match owner { Ok(x) => Ok(opt_view(x)), Err(c) => Err(c) },
                match approved { Ok(x) => Ok(opt_view(x)), Err(c) => Err(c) }, approved_for_all) == Err::<Seq<u8>, u64>(c),
        },
{
    match found {
        Err(c) => return Err(c),
        Ok(false) => return Err(1),
        Ok(true) => {},
    }
    let current_owner = match owner {
        Err(c) => return Err(c),
        Ok(None) => return Err(3),
        Ok(Some(o)) => o,
    };
    if !bytes_eq(current_owner.as_slice(), caller.as_slice()) {
        let single = match approved {
            Err(c) => return Err(c),
            Ok(Some(a)) => bytes_eq(a.as_slice(), caller.as_slice()),
            Ok(None) => false,
        };
        let all = match approved_for_all {
            Err(c) => return Err(c),
            Ok(b) => b,
        };
        if !single && !all {
            return Err(2);
        }
    }
    Ok(current_owner)
}

/// Minting `count` tokens one after another: the last id minted, or the
/// first failure (0 when nothing is minted).
pub open spec fn batch_minted(mints: Seq<Result<u64, u64>>) -> Result<u64, u64>
    decreases mints.len(),
{
    if mints.len() == 0 {
        Ok(0)
    } else {
        match batch_minted(mints.drop_last()) {
            Err(c) => Err(c),
            Ok(_) => mints.last(),
        }
    }
}

/// `example_batch_mint`, from the answers to the mints made (stopping at
/// the first failure).
pub fn example_batch_mint(mints: &[Result<u64, u64>]) -> (r: Result<u64, u64>)
    ensures
        r == batch_minted(mints@),
{
    let mut last: u64 = 0;
    let mut i: usize = 0;
    while i < mints.len()
        invariant
            i <= mints@.len(),
            batch_minted(mints@.take(i as int)) == Ok::<u64, u64>(last),
        decreases mints@.len() - i,
    {
        proof {
            assert(mints@.take(i + 1).drop_last() =~= mints@.take(i as int));
        }
        match mints[i] {
            Err(c) => {
                proof {
                    lemma_batch_stays_failed(mints@, i + 1);
                }
                return Err(c);
            },
            Ok(id) => {
                last = id;
            },
        }
        i = i + 1;
    }
    proof {
        assert(mints@.take(i as int) =~= mints@);
    }
    Ok(last)
}

proof fn lemma_batch_stays_failed(mints: Seq<Result<u64, u64>>, i: int)
    requires
        0 < i <= mints.len(),
        batch_minted(mints.take(i)) is Err,
    ensures
        batch_minted(mints) == batch_minted(mints.take(i)),
    decreases mints.len() - i,
{
    if i < mints.len() {
        assert(mints.take(i + 1).drop_last() =~= mints.take(i));
        lemma_batch_stays_failed(mints, i + 1);
    } else {
        assert(mints.take(i) =~= mints);
    }
}

/// `example_has_nfts`: whether the host reports a positive balance.
pub fn example_has_nfts(balance: Result<u64, u64>) -> (r: Result<bool, u64>)
    ensures
        r == match balance {
            Ok(b) => Ok::<bool, u64>(b > 0),
            Err(c) => Err(c),
        },
{
    match balance {
        Ok(b) => Ok(b > 0),
        Err(c) => Err(c),
    }
}

/// Only the owner, the approved address or an operator may move a token.
pub proof fn law_safe_transfer_authorized(
    caller: Seq<u8>,
    found: Result<bool, u64>,
    owner: Result<Option<Seq<u8>>, u64>,
    approved: Result<Option<Seq<u8>>, u64>,
    approved_for_all: Result<bool, u64>,
)
    requires
        safe_transfer_plan(caller, found, owner, approved, approved_for_all) is Ok,
    ensures
        ({
            let o = safe_transfer_plan(caller, found, owner, approved, approved_for_all)->Ok_0;
            &&& owner == Ok::<Option<Seq<u8>>, u64>(Some(o))
            &&& caller == o || approved == Ok::<Option<Seq<u8>>, u64>(Some(caller)) || approved_for_all == Ok::<bool, u64>(true)
        }),
{
}

} // verus!

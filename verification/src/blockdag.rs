//! BlockDAG rules: block height, cumulative difficulty, fork choice and
//! block ordering, and the textual forms of their inputs.

use vstd::prelude::*;
use crate::text::{bytes_less, lex_less, str_bytes, u64_to_string, decimal};
use crate::text::{lemma_lex_total, lemma_lex_transitive, lemma_lex_irreflexive, lemma_lex_asymmetric};

verus! {

broadcast use {
    vstd::seq_lib::to_multiset_remove,
    vstd::seq_lib::to_multiset_insert,
    vstd::seq_lib::to_multiset_contains,
    vstd::multiset::group_multiset_axioms,
};

/// A DAG tip: its hash and its cumulative difficulty.
pub struct Tip {
    pub hash: String,
    pub cumulative_diff: u64,
}

/// A block: its hash and its cumulative difficulty.
pub struct Block {
    pub hash: String,
    pub cumulative_diff: u64,
}

/// `m` is the largest element of `s`.
pub open spec fn is_max(s: Seq<u64>, m: u64) -> bool {
    &&& forall|i: int| 0 <= i < s.len() ==> s[i] <= m
    &&& exists|i: int| 0 <= i < s.len() && s[i] == m
}

/// The largest element of a non-empty slice.
pub fn max_value(s: &[u64]) -> (r: u64)
    requires
        s@.len() > 0,
    ensures
        is_max(s@, r),
{
    let mut m: u64 = s[0];
    let mut i: usize = 1;
    while i < s.len()
        invariant
            1 <= i <= s@.len(),
            forall|j: int| 0 <= j < i ==> s@[j] <= m,
            exists|j: int| 0 <= j < i && s@[j] == m,
        decreases s@.len() - i,
    {
        if s[i] > m {
            m = s[i];
        }
        i = i + 1;
    }
    m
}

/// Height of a block: 0 for genesis (no parents), otherwise one more than
/// the highest parent.
pub fn calculate_height(parent_heights: &[u64]) -> (r: u64)
    requires
        forall|i: int| 0 <= i < parent_heights@.len() ==> parent_heights@[i] < u64::MAX,
    ensures
        parent_heights@.len() == 0 ==> r == 0,
        parent_heights@.len() > 0 ==> is_max(parent_heights@, (r - 1) as u64) && r >= 1,
{
    if parent_heights.len() == 0 {
        return 0;
    }
    let m = max_value(parent_heights);
    m + 1
}

/// Cumulative difficulty of a block: its own difficulty for genesis,
/// otherwise the largest parent cumulative difficulty plus its own.
pub fn calculate_cumulative_diff(parent_cumulative_diffs: &[u64], block_difficulty: u64) -> (r: u64)
    requires
        forall|i: int|
            0 <= i < parent_cumulative_diffs@.len() ==> parent_cumulative_diffs@[i]
                + block_difficulty <= u64::MAX,
    ensures
        parent_cumulative_diffs@.len() == 0 ==> r == block_difficulty,
        parent_cumulative_diffs@.len() > 0 ==> r >= block_difficulty && is_max(
            parent_cumulative_diffs@,
            (r - block_difficulty) as u64,
        ),
{
    if parent_cumulative_diffs.len() == 0 {
        return block_difficulty;
    }
    let m = max_value(parent_cumulative_diffs);
    m + block_difficulty
}

/// Order of tips and blocks by (cumulative difficulty, hash bytes).
pub open spec fn ranks_below(d1: u64, h1: Seq<char>, d2: u64, h2: Seq<char>) -> bool {
    d1 < d2 || (d1 == d2 && lex_less(str_bytes(h1), str_bytes(h2)))
}

pub proof fn lemma_ranks_transitive(
    d1: u64,
    h1: Seq<char>,
    d2: u64,
    h2: Seq<char>,
    d3: u64,
    h3: Seq<char>,
)
    requires
        ranks_below(d1, h1, d2, h2),
        ranks_below(d2, h2, d3, h3),
    ensures
        ranks_below(d1, h1, d3, h3),
{
    if d1 == d2 && d2 == d3 {
        lemma_lex_transitive(str_bytes(h1), str_bytes(h2), str_bytes(h3));
    }
}

pub proof fn lemma_ranks_total(d1: u64, h1: Seq<char>, d2: u64, h2: Seq<char>)
    ensures
        ranks_below(d1, h1, d2, h2) || ranks_below(d2, h2, d1, h1) || (d1 == d2 && str_bytes(h1)
            == str_bytes(h2)),
{
    lemma_lex_total(str_bytes(h1), str_bytes(h2));
}

pub proof fn lemma_ranks_asymmetric(d1: u64, h1: Seq<char>, d2: u64, h2: Seq<char>)
    requires
        ranks_below(d1, h1, d2, h2),
    ensures
        !ranks_below(d2, h2, d1, h1),
{
    if d1 == d2 {
        lemma_lex_asymmetric(str_bytes(h1), str_bytes(h2));
    }
}

pub proof fn lemma_ranks_irreflexive(d: u64, h: Seq<char>)
    ensures
        !ranks_below(d, h, d, h),
{
    lemma_lex_irreflexive(str_bytes(h));
}

fn ranks_below_exec(d1: u64, h1: &String, d2: u64, h2: &String) -> (r: bool)
    ensures
        r == ranks_below(d1, h1@, d2, h2@),
{
    if d1 != d2 {
        return d1 < d2;
    }
    bytes_less(h1.as_str().as_bytes(), h2.as_str().as_bytes())
}

/// Fork choice: the hash of the tip with the highest cumulative difficulty,
/// ties going to the higher hash; empty when there are no tips.
pub fn find_best_tip(tips: &[Tip]) -> (r: String)
    ensures
        tips@.len() == 0 ==> r@ == Seq::<char>::empty(),
        tips@.len() > 0 ==> exists|i: int|
            0 <= i < tips@.len() && r@ == tips@[i].hash@ && forall|j: int|
                0 <= j < tips@.len() ==> !ranks_below(
                    tips@[i].cumulative_diff,
                    tips@[i].hash@,
                    tips@[j].cumulative_diff,
                    tips@[j].hash@,
                ),
{
    if tips.len() == 0 {
        return String::new();
    }
    let mut best: usize = 0;
    let mut j: usize = 1;
    proof {
        lemma_ranks_irreflexive(tips@[0].cumulative_diff, tips@[0].hash@);
    }
    while j < tips.len()
        invariant
            1 <= j <= tips@.len(),
            best < j,
            forall|k: int|
                0 <= k < j ==> !ranks_below(
                    tips@[best as int].cumulative_diff,
                    tips@[best as int].hash@,
                    tips@[k].cumulative_diff,
                    tips@[k].hash@,
                ),
        decreases tips@.len() - j,
    {
        let below = ranks_below_exec(
            tips[j].cumulative_diff,
            &tips[j].hash,
            tips[best].cumulative_diff,
            &tips[best].hash,
        );
        if !below {
            proof {
                let tj = tips@[j as int];
                let tb = tips@[best as int];
                assert forall|k: int| 0 <= k < j + 1 implies !ranks_below(
                    tj.cumulative_diff,
                    tj.hash@,
                    tips@[k].cumulative_diff,
                    tips@[k].hash@,
                ) by {
                    let tk = tips@[k];
                    if k == j {
                        lemma_ranks_irreflexive(tj.cumulative_diff, tj.hash@);
                    } else if ranks_below(
                        tj.cumulative_diff,
                        tj.hash@,
                        tk.cumulative_diff,
                        tk.hash@,
                    ) {
                        lemma_ranks_total(
                            tb.cumulative_diff,
                            tb.hash@,
                            tk.cumulative_diff,
                            tk.hash@,
                        );
                        if ranks_below(tk.cumulative_diff, tk.hash@, tb.cumulative_diff, tb.hash@) {
                            lemma_ranks_transitive(
                                tj.cumulative_diff,
                                tj.hash@,
                                tk.cumulative_diff,
                                tk.hash@,
                                tb.cumulative_diff,
                                tb.hash@,
                            );
                        }
                    }
                }
            }
            best = j;
        } else {
            proof {
                lemma_ranks_asymmetric(
                    tips@[j as int].cumulative_diff,
                    tips@[j as int].hash@,
                    tips@[best as int].cumulative_diff,
                    tips@[best as int].hash@,
                );
            }
        }
        j = j + 1;
    }
    tips[best].hash.clone()
}

/// Whether `a` goes before `b` in a sort of the given direction: ascending
/// puts the lower difficulty first and, on equal difficulty, the lower hash;
/// descending the reverse.
pub open spec fn goes_before(a: Block, b: Block, ascending: bool) -> bool {
    if ascending {
        ranks_below(a.cumulative_diff, a.hash@, b.cumulative_diff, b.hash@)
    } else {
        ranks_below(b.cumulative_diff, b.hash@, a.cumulative_diff, a.hash@)
    }
}

/// The blocks are in order: no block goes before one that precedes it.
pub open spec fn blocks_sorted(s: Seq<Block>, ascending: bool) -> bool {
    forall|i: int, j: int| 0 <= i < j < s.len() ==> !goes_before(s[j], s[i], ascending)
}

proof fn lemma_goes_before_transitive(a: Block, b: Block, c: Block, ascending: bool)
    requires
        goes_before(a, b, ascending),
        goes_before(b, c, ascending),
    ensures
        goes_before(a, c, ascending),
{
    if ascending {
        lemma_ranks_transitive(
            a.cumulative_diff,
            a.hash@,
            b.cumulative_diff,
            b.hash@,
            c.cumulative_diff,
            c.hash@,
        );
    } else {
        lemma_ranks_transitive(
            c.cumulative_diff,
            c.hash@,
            b.cumulative_diff,
            b.hash@,
            a.cumulative_diff,
            a.hash@,
        );
    }
}

proof fn lemma_goes_before_irreflexive(a: Block, ascending: bool)
    ensures
        !goes_before(a, a, ascending),
{
    lemma_ranks_irreflexive(a.cumulative_diff, a.hash@);
}

fn goes_before_exec(a: &Block, b: &Block, ascending: bool) -> (r: bool)
    ensures
        r == goes_before(*a, *b, ascending),
{
    if ascending {
        ranks_below_exec(a.cumulative_diff, &a.hash, b.cumulative_diff, &b.hash)
    } else {
        ranks_below_exec(b.cumulative_diff, &b.hash, a.cumulative_diff, &a.hash)
    }
}

/// Sorts blocks by cumulative difficulty, ties broken by hash, in the given
/// direction (a stable insertion sort).
pub fn sort_blocks(blocks: &mut Vec<Block>, ascending: bool)
    ensures
        blocks_sorted(final(blocks)@, ascending),
        final(blocks)@.to_multiset() == old(blocks)@.to_multiset(),
        final(blocks)@.len() == old(blocks)@.len(),
{
    let n = blocks.len();
    let mut i: usize = 1;
    if n == 0 {
        return;
    }
    while i < n
        invariant
            1 <= i <= n,
            n == blocks@.len(),
            blocks@.to_multiset() == old(blocks)@.to_multiset(),
            forall|a: int, b: int| 0 <= a < b < i ==> !goes_before(blocks@[b], blocks@[a], ascending),
        decreases n - i,
    {
        let ghost before_remove = blocks@;
        let x = blocks.remove(i);
        let mut p: usize = 0;
        while p < i && !goes_before_exec(&x, &blocks[p], ascending)
            invariant
                p <= i,
                i < n,
                blocks@.len() == n - 1,
                blocks@ == before_remove.remove(i as int),
                forall|k: int| 0 <= k < p ==> !goes_before(x, blocks@[k], ascending),
            decreases i - p,
        {
            p = p + 1;
        }
        let ghost mid = blocks@;
        blocks.insert(p, x);
        proof {
            assert(blocks@ == mid.insert(p as int, x));
            assert(before_remove.contains(x)) by {
                assert(before_remove[i as int] == x);
            }
            assert(before_remove.to_multiset().count(x) > 0);
            assert(blocks@.to_multiset() =~= old(blocks)@.to_multiset());
            assert forall|a: int, b: int| 0 <= a < b < i + 1 implies !goes_before(
                blocks@[b],
                blocks@[a],
                ascending,
            ) by {
                if b < p {
                    assert(blocks@[a] == before_remove[a]);
                    assert(blocks@[b] == before_remove[b]);
                } else if b == p {
                    assert(blocks@[a] == mid[a]);
                } else if a == p {
                    assert(blocks@[b] == mid[b - 1]);
                    if goes_before(mid[b - 1], x, ascending) {
                        if p < i {
                            assert(goes_before(x, mid[p as int], ascending));
                            lemma_goes_before_transitive(mid[b - 1], x, mid[p as int], ascending);
                            if p == b - 1 {
                                lemma_goes_before_irreflexive(mid[p as int], ascending);
                            }
                            assert(mid[p as int] == before_remove[p as int]);
                            assert(mid[b - 1] == before_remove[b - 1]);
                        }
                    }
                } else if a < p {
                    assert(blocks@[a] == mid[a]);
                    assert(blocks@[b] == mid[b - 1]);
                    assert(mid[a] == before_remove[a]);
                    assert(mid[b - 1] == before_remove[b - 1]);
                } else {
                    assert(blocks@[a] == mid[a - 1]);
                    assert(blocks@[b] == mid[b - 1]);
                    assert(mid[a - 1] == before_remove[a - 1]);
                    assert(mid[b - 1] == before_remove[b - 1]);
                }
            }
        }
        i = i + 1;
    }
}

/// The values joined with commas, each in decimal.
pub open spec fn csv_of(values: Seq<u64>) -> Seq<char>
    decreases values.len(),
{
    if values.len() == 0 {
        Seq::empty()
    } else if values.len() == 1 {
        decimal(values[0] as nat)
    } else {
        csv_of(values.drop_last()) + seq![','] + decimal(values.last() as nat)
    }
}

fn push_comma(s: &mut String)
    ensures
        final(s)@ == old(s)@ + seq![','],
{
    proof {
        reveal_strlit(",");
    }
    s.append(",");
}

fn push_colon(s: &mut String)
    ensures
        final(s)@ == old(s)@ + seq![':'],
{
    proof {
        reveal_strlit(":");
    }
    s.append(":");
}

/// The values joined with commas, each in decimal.
pub fn to_csv(values: &[u64]) -> (r: String)
    ensures
        r@ == csv_of(values@),
{
    let mut out = String::new();
    let mut i: usize = 0;
    while i < values.len()
        invariant
            i <= values@.len(),
            out@ == csv_of(values@.take(i as int)),
        decreases values@.len() - i,
    {
        if i > 0 {
            push_comma(&mut out);
        }
        let d = u64_to_string(values[i]);
        out.append(d.as_str());
        proof {
            let t = values@.take(i + 1);
            assert(t.drop_last() =~= values@.take(i as int));
            if i == 0 {
                assert(out@ =~= csv_of(t));
            } else {
                assert(out@ =~= csv_of(t));
            }
        }
        i = i + 1;
    }
    assert(values@.take(values@.len() as int) =~= values@);
    out
}

/// Heights joined with commas (same format as [`to_csv`]).
pub fn heights_to_csv(heights: &[u64]) -> (r: String)
    ensures
        r@ == csv_of(heights@),
{
    to_csv(heights)
}

/// `hash:difficulty`.
pub open spec fn entry_text(hash: Seq<char>, diff: u64) -> Seq<char> {
    hash + seq![':'] + decimal(diff as nat)
}

/// Tips as `hash:difficulty` entries joined with commas.
pub open spec fn tips_text(tips: Seq<Tip>) -> Seq<char>
    decreases tips.len(),
{
    if tips.len() == 0 {
        Seq::empty()
    } else if tips.len() == 1 {
        entry_text(tips[0].hash@, tips[0].cumulative_diff)
    } else {
        tips_text(tips.drop_last()) + seq![','] + entry_text(
            tips.last().hash@,
            tips.last().cumulative_diff,
        )
    }
}

/// Tips as `hash:difficulty` entries joined with commas.
pub fn tips_to_string(tips: &[Tip]) -> (r: String)
    ensures
        r@ == tips_text(tips@),
{
    let mut out = String::new();
    let mut i: usize = 0;
    while i < tips.len()
        invariant
            i <= tips@.len(),
            out@ == tips_text(tips@.take(i as int)),
        decreases tips@.len() - i,
    {
        if i > 0 {
            push_comma(&mut out);
        }
        out.append(tips[i].hash.as_str());
        push_colon(&mut out);
        let d = u64_to_string(tips[i].cumulative_diff);
        out.append(d.as_str());
        proof {
            let t = tips@.take(i + 1);
            assert(t.drop_last() =~= tips@.take(i as int));
            assert(out@ =~= tips_text(t));
        }
        i = i + 1;
    }
    assert(tips@.take(tips@.len() as int) =~= tips@);
    out
}

/// Blocks as `hash:difficulty` entries joined with commas.
pub open spec fn blocks_text(blocks: Seq<Block>) -> Seq<char>
    decreases blocks.len(),
{
    if blocks.len() == 0 {
        Seq::empty()
    } else if blocks.len() == 1 {
        entry_text(blocks[0].hash@, blocks[0].cumulative_diff)
    } else {
        blocks_text(blocks.drop_last()) + seq![','] + entry_text(
            blocks.last().hash@,
            blocks.last().cumulative_diff,
        )
    }
}

/// Blocks as `hash:difficulty` entries joined with commas.
pub fn blocks_to_string(blocks: &[Block]) -> (r: String)
    ensures
        r@ == blocks_text(blocks@),
{
    let mut out = String::new();
    let mut i: usize = 0;
    while i < blocks.len()
        invariant
            i <= blocks@.len(),
            out@ == blocks_text(blocks@.take(i as int)),
        decreases blocks@.len() - i,
    {
        if i > 0 {
            push_comma(&mut out);
        }
        out.append(blocks[i].hash.as_str());
        push_colon(&mut out);
        let d = u64_to_string(blocks[i].cumulative_diff);
        out.append(d.as_str());
        proof {
            let t = blocks@.take(i + 1);
            assert(t.drop_last() =~= blocks@.take(i as int));
            assert(out@ =~= blocks_text(t));
        }
        i = i + 1;
    }
    assert(blocks@.take(blocks@.len() as int) =~= blocks@);
    out
}

/// Block hashes joined with commas.
pub open spec fn hashes_text(blocks: Seq<Block>) -> Seq<char>
    decreases blocks.len(),
{
    if blocks.len() == 0 {
        Seq::empty()
    } else if blocks.len() == 1 {
        blocks[0].hash@
    } else {
        hashes_text(blocks.drop_last()) + seq![','] + blocks.last().hash@
    }
}

/// Block hashes joined with commas.
pub fn hashes_to_string(blocks: &[Block]) -> (r: String)
    ensures
        r@ == hashes_text(blocks@),
{
    let mut out = String::new();
    let mut i: usize = 0;
    while i < blocks.len()
        invariant
            i <= blocks@.len(),
            out@ == hashes_text(blocks@.take(i as int)),
        decreases blocks@.len() - i,
    {
        if i > 0 {
            push_comma(&mut out);
        }
        out.append(blocks[i].hash.as_str());
        proof {
            let t = blocks@.take(i + 1);
            assert(t.drop_last() =~= blocks@.take(i as int));
            assert(out@ =~= hashes_text(t));
        }
        i = i + 1;
    }
    assert(blocks@.take(blocks@.len() as int) =~= blocks@);
    out
}

} // verus!

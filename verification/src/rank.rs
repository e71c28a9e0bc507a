//! Relevance scoring and the ranked order of file and folder results.
//!
//! Folders sort before everything else; two folders sort by name ascending;
//! two non-folders sort by relevance descending.  The sort is stable, so
//! ties keep their discovery order.

use vstd::prelude::*;
use vstd::multiset::Multiset;
use crate::models::{RecordV, ResultType, SearchResult, record_views};
use crate::normalize::{lower_of, lowercase};
use crate::text::{
    has_sub, lemma_find_from_characterizes, lemma_find_iff_has_sub, lemma_lex_le_total,
    lemma_lex_le_trans, lex_le, spec_find, str_eq, str_find, str_lex_le, str_starts_with,
};

verus! {

/// Relevance of a case-folded name against a case-folded query: equality
/// scores highest, then a prefix match, then a substring match (earlier
/// occurrences higher, saturating at zero), and no match scores zero.
pub open spec fn rel_score(n: Seq<char>, q: Seq<char>) -> int {
    if n == q {
        usize::MAX as int
    } else if q.is_prefix_of(n) {
        usize::MAX as int - 1
    } else {
        match spec_find(n, q) {
            Some(i) => if i <= usize::MAX as int - 2 {
                usize::MAX as int - 2 - i
            } else {
                0
            },
            None => 0,
        }
    }
}

/// Relevance of a raw name against a raw query: both are case-folded first.
pub open spec fn spec_relevance(name: Seq<char>, query: Seq<char>) -> int {
    rel_score(lower_of(name), lower_of(query))
}

/// Ranking order: an exact name match outranks a prefix match, which
/// outranks every substring match, which outranks no match; and every
/// score is a valid `usize`.
pub proof fn lemma_relevance_tiers(n: Seq<char>, q: Seq<char>)
    ensures
        0 <= rel_score(n, q) <= usize::MAX,
        n == q ==> rel_score(n, q) == usize::MAX,
        n != q && q.is_prefix_of(n) ==> rel_score(n, q) == usize::MAX - 1,
        n != q && !q.is_prefix_of(n) && has_sub(n, q) ==> rel_score(n, q) <= usize::MAX - 2,
        !has_sub(n, q) ==> rel_score(n, q) == 0,
{
    lemma_find_from_characterizes(n, q, 0);
    lemma_find_iff_has_sub(n, q);
}

/// Compute the relevance of `name` against `query`.
pub fn calculate_relevance(name: &str, query: &str) -> (r: usize)
    ensures
        r as int == spec_relevance(name@, query@),
{
    let nl = lowercase(name);
    let ql = lowercase(query);
    let n = nl.as_str();
    let q = ql.as_str();
    if str_eq(n, q) {
        return usize::MAX;
    }
    if str_starts_with(n, q) {
        return usize::MAX - 1;
    }
    match str_find(n, q) {
        Some(i) => {
            proof {
                lemma_find_from_characterizes(n@, q@, 0);
            }
            if i <= usize::MAX - 2 {
                usize::MAX - 2 - i
            } else {
                0
            }
        },
        None => 0,
    }
}

/// `a` may stand at or before `b` in a ranked result list for query `q`.
pub open spec fn rank_le(a: RecordV, b: RecordV, q: Seq<char>) -> bool {
    if a.result_type == ResultType::Folder && b.result_type == ResultType::Folder {
        lex_le(a.name, b.name)
    } else if a.result_type == ResultType::Folder {
        true
    } else if b.result_type == ResultType::Folder {
        false
    } else {
        spec_relevance(a.name, q) >= spec_relevance(b.name, q)
    }
}

/// `a` must stand strictly before `b`.
pub open spec fn rank_lt(a: RecordV, b: RecordV, q: Seq<char>) -> bool {
    rank_le(a, b, q) && !rank_le(b, a, q)
}

/// The ranked order is total.
pub proof fn lemma_rank_le_total(a: RecordV, b: RecordV, q: Seq<char>)
    ensures
        rank_le(a, b, q) || rank_le(b, a, q),
{
    if a.result_type == ResultType::Folder && b.result_type == ResultType::Folder {
        lemma_lex_le_total(a.name, b.name);
    }
}

/// The ranked order is transitive.
pub proof fn lemma_rank_le_trans(a: RecordV, b: RecordV, c: RecordV, q: Seq<char>)
    requires
        rank_le(a, b, q),
        rank_le(b, c, q),
    ensures
        rank_le(a, c, q),
{
    if a.result_type == ResultType::Folder && b.result_type == ResultType::Folder
        && c.result_type == ResultType::Folder {
        lemma_lex_le_trans(a.name, b.name, c.name);
    }
}

/// Compare two records in the ranked order.
pub fn rank_le_exec(a: &SearchResult, b: &SearchResult, q: &str) -> (r: bool)
    ensures
        r == rank_le(a@, b@, q@),
{
    let a_folder = a.result_type == ResultType::Folder;
    let b_folder = b.result_type == ResultType::Folder;
    if a_folder && b_folder {
        str_lex_le(a.name.as_str(), b.name.as_str())
    } else if a_folder {
        true
    } else if b_folder {
        false
    } else {
        let ra = calculate_relevance(a.name.as_str(), q);
        let rb = calculate_relevance(b.name.as_str(), q);
        ra >= rb
    }
}

/// Does `a` stand strictly before `b` in the ranked order?
pub fn rank_lt_exec(a: &SearchResult, b: &SearchResult, q: &str) -> (r: bool)
    ensures
        r == rank_lt(a@, b@, q@),
{
    let ab = rank_le_exec(a, b, q);
    let ba = rank_le_exec(b, a, q);
    ab && !ba
}

/// Insert `x` into `s` after every element that it does not strictly
/// precede; on a sorted sequence this keeps ties in arrival order.
pub open spec fn spec_insert_ranked(s: Seq<RecordV>, x: RecordV, q: Seq<char>) -> Seq<RecordV>
    decreases s.len(),
{
    if s.len() == 0 {
        seq![x]
    } else if rank_lt(x, s[0], q) {
        seq![x] + s
    } else {
        seq![s[0]] + spec_insert_ranked(s.drop_first(), x, q)
    }
}

/// Stable insertion sort of `s` in the ranked order for query `q`.
pub open spec fn spec_sort_ranked(s: Seq<RecordV>, q: Seq<char>) -> Seq<RecordV>
    decreases s.len(),
{
    if s.len() == 0 {
        Seq::empty()
    } else {
        spec_insert_ranked(spec_sort_ranked(s.drop_last(), q), s.last(), q)
    }
}

/// Every pair of positions is ordered.
pub open spec fn ranked_sorted(s: Seq<RecordV>, q: Seq<char>) -> bool {
    forall|i: int, j: int| 0 <= i < j < s.len() ==> rank_le(s[i], s[j], q)
}

/// `spec_insert_ranked` drops `x` at the first strictly-greater position.
pub proof fn lemma_insert_ranked_at(s: Seq<RecordV>, x: RecordV, q: Seq<char>, pos: int)
    requires
        0 <= pos <= s.len(),
        forall|k: int| 0 <= k < pos ==> !rank_lt(x, #[trigger] s[k], q),
        pos < s.len() ==> rank_lt(x, s[pos], q),
    ensures
        spec_insert_ranked(s, x, q) == s.subrange(0, pos) + seq![x] + s.skip(pos),
    decreases s.len(),
{
    if s.len() == 0 {
        assert(spec_insert_ranked(s, x, q) =~= s.subrange(0, pos) + seq![x] + s.skip(pos));
    } else if rank_lt(x, s[0], q) {
        assert(pos == 0);
        assert(seq![x] + s =~= s.subrange(0, pos) + seq![x] + s.skip(pos));
    } else {
        lemma_insert_ranked_at(s.drop_first(), x, q, pos - 1);
        assert(s.drop_first().subrange(0, pos - 1) =~= s.subrange(1, pos));
        assert(s.drop_first().skip(pos - 1) =~= s.skip(pos));
        assert(seq![s[0]] + (s.subrange(1, pos) + seq![x] + s.skip(pos)) =~= s.subrange(0, pos)
            + seq![x] + s.skip(pos));
    }
}

/// Inserting into a sorted sequence keeps it sorted.
pub proof fn lemma_insert_ranked_sorted(s: Seq<RecordV>, x: RecordV, q: Seq<char>)
    requires
        ranked_sorted(s, q),
    ensures
        ranked_sorted(spec_insert_ranked(s, x, q), q),
        spec_insert_ranked(s, x, q).len() == s.len() + 1,
    decreases s.len(),
{
    let out = spec_insert_ranked(s, x, q);
    if s.len() == 0 {
    } else if rank_lt(x, s[0], q) {
        assert forall|i: int, j: int| 0 <= i < j < out.len() implies rank_le(out[i], out[j], q) by {
            if i == 0 && j > 1 {
                lemma_rank_le_trans(x, s[0], s[j - 1], q);
            }
        }
    } else {
        assert(ranked_sorted(s.drop_first(), q));
        lemma_insert_ranked_sorted(s.drop_first(), x, q);
        let inner = spec_insert_ranked(s.drop_first(), x, q);
        lemma_rank_le_total(x, s[0], q);
        assert forall|i: int, j: int| 0 <= i < j < out.len() implies rank_le(out[i], out[j], q) by {
            if i == 0 {
                // out[0] == s[0]; out[j] is either x or an element of s
                lemma_insert_ranked_mem(s.drop_first(), x, q, j - 1);
                if inner[j - 1] == x {
                    assert(rank_le(s[0], x, q));
                } else {
                    let k = choose|k: int|
                        0 <= k < s.drop_first().len() && s.drop_first()[k] == inner[j - 1];
                    assert(rank_le(s[0], s[k + 1], q));
                }
            }
        }
    }
}

/// Every element of an insertion result is `x` or comes from the input.
pub proof fn lemma_insert_ranked_mem(s: Seq<RecordV>, x: RecordV, q: Seq<char>, i: int)
    requires
        0 <= i < spec_insert_ranked(s, x, q).len(),
    ensures
        spec_insert_ranked(s, x, q)[i] == x || exists|k: int|
            0 <= k < s.len() && s[k] == spec_insert_ranked(s, x, q)[i],
    decreases s.len(),
{
    let out = spec_insert_ranked(s, x, q);
    if s.len() == 0 {
    } else if rank_lt(x, s[0], q) {
        if i > 0 {
            assert(s[i - 1] == out[i]);
        }
    } else {
        if i > 0 {
            lemma_insert_ranked_mem(s.drop_first(), x, q, i - 1);
            let inner = spec_insert_ranked(s.drop_first(), x, q);
            if inner[i - 1] != x {
                let k = choose|k: int|
                    0 <= k < s.drop_first().len() && s.drop_first()[k] == inner[i - 1];
                assert(s[k + 1] == out[i]);
            }
        } else {
            assert(s[0] == out[0]);
        }
    }
}

/// The multiset of an insertion result: the input plus `x`.
pub proof fn lemma_insert_ranked_multiset(s: Seq<RecordV>, x: RecordV, q: Seq<char>)
    ensures
        spec_insert_ranked(s, x, q).to_multiset() == s.to_multiset().insert(x),
    decreases s.len(),
{
    broadcast use vstd::seq_lib::group_to_multiset_ensures;

    let out = spec_insert_ranked(s, x, q);
    if s.len() == 0 {
        assert(out =~= Seq::empty().push(x));
        assert(s.to_multiset() =~= Multiset::empty());
    } else if rank_lt(x, s[0], q) {
        lemma_multiset_of_cons(x, s);
    } else {
        lemma_insert_ranked_multiset(s.drop_first(), x, q);
        lemma_multiset_of_cons(s[0], spec_insert_ranked(s.drop_first(), x, q));
        lemma_multiset_of_cons(s[0], s.drop_first());
        assert(seq![s[0]] + s.drop_first() =~= s);
        assert(out.to_multiset() =~= s.to_multiset().insert(x));
    }
}

/// The multiset of `seq![h] + t`: the multiset of `t` plus `h`.
pub proof fn lemma_multiset_of_cons(h: RecordV, t: Seq<RecordV>)
    ensures
        (seq![h] + t).to_multiset() == t.to_multiset().insert(h),
{
    broadcast use vstd::seq_lib::group_to_multiset_ensures;
    broadcast use vstd::multiset::group_multiset_axioms;

    let s = seq![h] + t;
    assert(s.remove(0) =~= t);
    assert(t.to_multiset() == s.to_multiset().remove(h));
    assert(s.contains(h)) by {
        assert(s[0] == h);
    }
    assert(s.to_multiset().count(h) > 0);
    assert forall|x: RecordV| s.to_multiset().count(x) == t.to_multiset().insert(h).count(x) by {
        if x == h {
            assert(t.to_multiset().count(h) == s.to_multiset().count(h) - 1);
        } else {
            assert(t.to_multiset().count(x) == s.to_multiset().count(x));
        }
    }
    assert(s.to_multiset() =~= t.to_multiset().insert(h));
}

/// A ranked sort is sorted and permutes its input.
pub proof fn lemma_sort_ranked_ensures(s: Seq<RecordV>, q: Seq<char>)
    ensures
        ranked_sorted(spec_sort_ranked(s, q), q),
        spec_sort_ranked(s, q).to_multiset() == s.to_multiset(),
        spec_sort_ranked(s, q).len() == s.len(),
    decreases s.len(),
{
    broadcast use vstd::seq_lib::group_to_multiset_ensures;

    if s.len() > 0 {
        lemma_sort_ranked_ensures(s.drop_last(), q);
        lemma_insert_ranked_sorted(spec_sort_ranked(s.drop_last(), q), s.last(), q);
        lemma_insert_ranked_multiset(spec_sort_ranked(s.drop_last(), q), s.last(), q);
        assert(s =~= s.drop_last().push(s.last()));
    }
}

/// Sort `v` in the ranked order for query `q`, stably.
pub fn sort_ranked(v: Vec<SearchResult>, q: &str) -> (r: Vec<SearchResult>)
    ensures
        record_views(r@) == spec_sort_ranked(record_views(v@), q@),
{
    let ghost orig: Seq<SearchResult> = v@;
    let mut src = v;
    let mut out: Vec<SearchResult> = Vec::new();
    proof {
        assert(src@ =~= orig.skip(0));
        assert(record_views(orig.subrange(0, 0)) =~= Seq::<RecordV>::empty());
    }
    while src.len() > 0
        invariant
            src@.len() <= orig.len(),
            src@ == orig.skip(orig.len() - src@.len()),
            record_views(out@) == spec_sort_ranked(
                record_views(orig.subrange(0, orig.len() - src@.len())),
                q@,
            ),
        decreases src@.len(),
    {
        let ghost done = orig.len() - src@.len();
        let x = src.remove(0);
        proof {
            assert(x == orig[done]);
            assert(orig.skip(done).remove(0) =~= orig.skip(done + 1));
        }
        let pos = ranked_insert_pos(&out, &x, q);
        out.insert(pos, x);
        proof {
            let prev = spec_sort_ranked(record_views(orig.subrange(0, done)), q@);
            lemma_insert_ranked_at(prev, x@, q@, pos as int);
            assert(record_views(out@) =~= prev.subrange(0, pos as int) + seq![x@] + prev.skip(
                pos as int,
            )) by {
                assert forall|k: int| 0 <= k < out@.len() implies record_views(out@)[k] == (
                prev.subrange(0, pos as int) + seq![x@] + prev.skip(pos as int))[k] by {}
            }
            assert(orig.subrange(0, done + 1).drop_last() =~= orig.subrange(0, done));
            assert(record_views(orig.subrange(0, done + 1)).drop_last() =~= record_views(
                orig.subrange(0, done),
            ));
            assert(record_views(orig.subrange(0, done + 1)).last() == x@);
            assert(record_views(orig.subrange(0, done + 1)).len() > 0);
        }
    }
    proof {
        assert(orig.subrange(0, orig.len() as int) =~= orig);
    }
    out
}

/// Position of the first element of `out` that `x` strictly precedes.
fn ranked_insert_pos(out: &Vec<SearchResult>, x: &SearchResult, q: &str) -> (pos: usize)
    ensures
        pos <= out@.len(),
        forall|k: int| 0 <= k < pos ==> !rank_lt(x@, #[trigger] record_views(out@)[k], q@),
        pos < out@.len() ==> rank_lt(x@, record_views(out@)[pos as int], q@),
{
    let n = out.len();
    let mut pos: usize = 0;
    while pos < n
        invariant
            n == out@.len(),
            pos <= n,
            forall|k: int| 0 <= k < pos ==> !rank_lt(x@, #[trigger] record_views(out@)[k], q@),
        decreases n - pos,
    {
        if rank_lt_exec(x, &out[pos], q) {
            proof {
                assert(record_views(out@)[pos as int] == out@[pos as int]@);
            }
            return pos;
        }
        proof {
            assert(record_views(out@)[pos as int] == out@[pos as int]@);
        }
        pos += 1;
    }
    pos
}

} // verus!

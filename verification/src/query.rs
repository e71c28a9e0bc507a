//! The query engine: an application-name phase and a file/folder phase with
//! distinct ranking rules, followed by truncation.
//!
//! The raw query is case-folded for the application phase and additionally
//! canonically composed (NFC) for the file/folder phase.  The file/folder
//! phase first looks for folders whose basename equals the query exactly;
//! only when there is none does it fall back to partial matches.  Results of
//! the file/folder phase come first, application results are appended last.

use vstd::prelude::*;
use crate::models::{RecordV, ResultType, SearchMode, SearchResult, record_views};
use crate::normalize::{lower_of, lowercase, nfc_normalize, nfc_of};
use crate::rank::{lemma_sort_ranked_ensures, rank_le, sort_ranked, spec_sort_ranked};
use crate::text::{basename, has_sub, lemma_filter_push, spec_basename, str_eq, str_has_sub};

verus! {

/// An application record whose case-folded name contains the folded query.
pub open spec fn app_match(r: RecordV, lq: Seq<char>) -> bool {
    r.result_type == ResultType::Application && has_sub(lower_of(r.name), lq)
}

/// A candidate for the file/folder phase.
pub open spec fn is_file_or_folder(r: RecordV) -> bool {
    r.result_type == ResultType::File || r.result_type == ResultType::Folder
}

/// A folder whose case-folded basename equals the normalized query.
pub open spec fn exact_folder_match(r: RecordV, nq: Seq<char>) -> bool {
    r.result_type == ResultType::Folder && lower_of(spec_basename(r.path)) == nq
}

/// The case-folded basename or full path contains the normalized query.
pub open spec fn partial_match(r: RecordV, nq: Seq<char>) -> bool {
    has_sub(lower_of(spec_basename(r.path)), nq) || has_sub(lower_of(r.path), nq)
}

/// The candidates that survive among pre-filtered file and folder records:
/// the exact folder matches when any exist, else the partial matches.
pub open spec fn spec_matches_from(cands: Seq<RecordV>, nq: Seq<char>) -> Seq<RecordV> {
    let exact = cands.filter(|r: RecordV| exact_folder_match(r, nq));
    if exact.len() > 0 {
        exact
    } else {
        cands.filter(|r: RecordV| partial_match(r, nq))
    }
}

/// The file-phase candidates of a full listing: the exact folder matches
/// when any exist, else the partial matches among file and folder records.
pub open spec fn spec_file_matches(rs: Seq<RecordV>, nq: Seq<char>) -> Seq<RecordV> {
    spec_matches_from(rs.filter(|r: RecordV| is_file_or_folder(r)), nq)
}

/// The first `max` elements of `s` (all of them when `s` is short enough).
pub open spec fn spec_truncate(s: Seq<RecordV>, max: nat) -> Seq<RecordV> {
    if s.len() <= max {
        s
    } else {
        s.subrange(0, max as int)
    }
}

/// The file/folder phase over pre-filtered candidates: match, rank,
/// truncate.
pub open spec fn spec_file_phase_from(cands: Seq<RecordV>, nq: Seq<char>, max: nat) -> Seq<
    RecordV,
> {
    spec_truncate(spec_sort_ranked(spec_matches_from(cands, nq), nq), max)
}

/// The file/folder phase of a full listing: rank the matching file and
/// folder records, then truncate to the cap.
pub open spec fn spec_file_phase(rs: Seq<RecordV>, nq: Seq<char>, max: nat) -> Seq<RecordV> {
    spec_file_phase_from(rs.filter(|r: RecordV| is_file_or_folder(r)), nq, max)
}

/// The application phase: uncapped, in discovery order.
pub open spec fn spec_app_phase(rs: Seq<RecordV>, lq: Seq<char>) -> Seq<RecordV> {
    rs.filter(|r: RecordV| app_match(r, lq))
}

/// What a search returns, given the two folded forms of the query: the
/// file/folder phase (empty under `WindowsNative`) followed by the
/// application phase.
pub open spec fn spec_search_folded(
    rs: Seq<RecordV>,
    nq: Seq<char>,
    lq: Seq<char>,
    mode: SearchMode,
    max: nat,
) -> Seq<RecordV> {
    let files = if mode == SearchMode::CustomIndex {
        spec_file_phase(rs, nq, max)
    } else {
        Seq::<RecordV>::empty()
    };
    files + spec_app_phase(rs, lq)
}

/// What a search returns for the raw query `query`.
pub open spec fn spec_search(
    rs: Seq<RecordV>,
    query: Seq<char>,
    mode: SearchMode,
    max: nat,
) -> Seq<RecordV> {
    spec_search_folded(rs, lower_of(nfc_of(query)), lower_of(query), mode, max)
}

/// Does `r` match the application phase for the folded query `lq`?
fn app_match_exec(r: &SearchResult, lq: &str) -> (b: bool)
    ensures
        b == app_match(r@, lq@),
{
    if r.result_type == ResultType::Application {
        let ln = lowercase(r.name.as_str());
        str_has_sub(ln.as_str(), lq)
    } else {
        false
    }
}

/// Is `r` an exact folder match for the normalized query `nq`?
fn exact_match_exec(r: &SearchResult, nq: &str) -> (b: bool)
    ensures
        b == exact_folder_match(r@, nq@),
{
    if r.result_type == ResultType::Folder {
        let bn = basename(r.path.as_str());
        let lbn = lowercase(bn);
        str_eq(lbn.as_str(), nq)
    } else {
        false
    }
}

/// Is `r` a partial match for the normalized query `nq`?
fn partial_match_exec(r: &SearchResult, nq: &str) -> (b: bool)
    ensures
        b == partial_match(r@, nq@),
{
    let bn = basename(r.path.as_str());
    let lbn = lowercase(bn);
    if str_has_sub(lbn.as_str(), nq) {
        true
    } else {
        let lp = lowercase(r.path.as_str());
        str_has_sub(lp.as_str(), nq)
    }
}

/// Views commute with push.
proof fn lemma_views_push(s: Seq<SearchResult>, x: SearchResult)
    ensures
        record_views(s.push(x)) == record_views(s).push(x@),
{
    assert(record_views(s.push(x)) =~= record_views(s).push(x@));
}

/// Views commute with concatenation.
proof fn lemma_views_add(a: Seq<SearchResult>, b: Seq<SearchResult>)
    ensures
        record_views(a + b) == record_views(a) + record_views(b),
{
    assert(record_views(a + b) =~= record_views(a) + record_views(b));
}

/// When nothing satisfies `p`, filtering by its negation `np` keeps all.
proof fn lemma_filter_complement_all(
    s: Seq<RecordV>,
    p: spec_fn(RecordV) -> bool,
    np: spec_fn(RecordV) -> bool,
)
    requires
        forall|x: RecordV| #[trigger] np(x) == !p(x),
        s.filter(p).len() == 0,
    ensures
        s.filter(np) == s,
    decreases s.len(),
{
    reveal_with_fuel(Seq::<RecordV>::filter, 2);
    if s.len() > 0 {
        if p(s.last()) {
            assert(s.filter(p) == s.drop_last().filter(p).push(s.last()));
            assert(false);
        }
        assert(s.drop_last().filter(p) == s.filter(p));
        lemma_filter_complement_all(s.drop_last(), p, np);
        assert(s.filter(np) == s.drop_last().filter(np).push(s.last()));
        assert(s.drop_last().push(s.last()) =~= s);
    }
}

/// Run one query against a listing of the index, and return the ranked
/// results: the file/folder phase first, then the matching applications.
pub fn run_query(records: Vec<SearchResult>, query: &str, mode: SearchMode, max_results: usize) -> (out:
    Vec<SearchResult>)
    ensures
        record_views(out@) == spec_search(
            record_views(records@),
            query@,
            mode,
            max_results as nat,
        ),
{
    let composed = nfc_normalize(query);
    let nq = lowercase(composed.as_str());
    let lq = lowercase(query);
    let ghost orig: Seq<SearchResult> = records@;
    let ghost rsv: Seq<RecordV> = record_views(records@);

    let mut apps: Vec<SearchResult> = Vec::new();
    let mut ff: Vec<SearchResult> = Vec::new();
    let mut src = records;
    proof {
        assert(src@ =~= orig.skip(0));
        assert(record_views(orig.subrange(0, 0)) =~= Seq::<RecordV>::empty());
        assert(Seq::<RecordV>::empty().filter(|r: RecordV| app_match(r, lq@))
            =~= Seq::<RecordV>::empty());
        assert(Seq::<RecordV>::empty().filter(|r: RecordV| is_file_or_folder(r))
            =~= Seq::<RecordV>::empty());
    }
    while src.len() > 0
        invariant
            src@.len() <= orig.len(),
            src@ == orig.skip(orig.len() - src@.len()),
            nq@ == lower_of(nfc_of(query@)),
            lq@ == lower_of(query@),
            record_views(apps@) == record_views(orig.subrange(0, orig.len() - src@.len())).filter(
                |r: RecordV| app_match(r, lq@),
            ),
            record_views(ff@) == record_views(orig.subrange(0, orig.len() - src@.len())).filter(
                |r: RecordV| is_file_or_folder(r),
            ),
        decreases src@.len(),
    {
        let ghost done = orig.len() - src@.len();
        let x = src.remove(0);
        proof {
            assert(x == orig[done]);
            assert(orig.skip(done).remove(0) =~= orig.skip(done + 1));
            assert(orig.subrange(0, done + 1) =~= orig.subrange(0, done).push(x));
            lemma_views_push(orig.subrange(0, done), x);
            lemma_filter_push(record_views(orig.subrange(0, done)), |r: RecordV| app_match(r, lq@), x@);
            lemma_filter_push(
                record_views(orig.subrange(0, done)),
                |r: RecordV| is_file_or_folder(r),
                x@,
            );
        }
        if app_match_exec(&x, lq.as_str()) {
            proof {
                lemma_views_push(apps@, x);
            }
            apps.push(x);
        } else if x.result_type == ResultType::File || x.result_type == ResultType::Folder {
            proof {
                lemma_views_push(ff@, x);
            }
            ff.push(x);
        } else {
            proof {
                // an application that does not match, or a dropped record
                assert(!app_match(x@, lq@));
                assert(!is_file_or_folder(x@));
            }
        }
    }
    proof {
        assert(orig.subrange(0, orig.len() as int) =~= orig);
        assert(record_views(apps@) == spec_app_phase(rsv, lq@));
    }
    let ghost ffv = record_views(ff@);

    if !matches!(mode, SearchMode::CustomIndex) {
        proof {
            assert(Seq::<RecordV>::empty() + spec_app_phase(rsv, lq@) =~= spec_app_phase(
                rsv,
                lq@,
            ));
        }
        return apps;
    }

    let files = search_folder_and_files(ff, nq.as_str(), max_results);
    proof {
        assert(record_views(files@) == spec_file_phase(rsv, nq@, max_results as nat));
    }
    let mut result = files;
    let ghost filesv = record_views(result@);
    result.append(&mut apps);
    proof {
        lemma_views_add(result@.subrange(0, filesv.len() as int), result@.skip(filesv.len() as int));
        assert(result@ =~= result@.subrange(0, filesv.len() as int) + result@.skip(
            filesv.len() as int,
        ));
        assert(record_views(result@) =~= filesv + spec_app_phase(rsv, lq@));
    }
    result
}

/// The file/folder phase: among the given file and folder candidates,
/// collect the folders whose case-folded basename equals the normalized
/// query or, when there is none, every partial match; rank them, folders
/// first; and truncate to `max_results`.
pub fn search_folder_and_files(
    candidates: Vec<SearchResult>,
    normalized_query: &str,
    max_results: usize,
) -> (r: Vec<SearchResult>)
    ensures
        record_views(r@) == spec_file_phase_from(
            record_views(candidates@),
            normalized_query@,
            max_results as nat,
        ),
{
    let ghost ffv = record_views(candidates@);
    let mut exact: Vec<SearchResult> = Vec::new();
    let mut rest: Vec<SearchResult> = Vec::new();
    let ghost fforig: Seq<SearchResult> = candidates@;
    let mut ffsrc = candidates;
    proof {
        assert(ffsrc@ =~= fforig.skip(0));
        assert(record_views(fforig.subrange(0, 0)) =~= Seq::<RecordV>::empty());
        assert(Seq::<RecordV>::empty().filter(|r: RecordV| exact_folder_match(r, normalized_query@))
            =~= Seq::<RecordV>::empty());
        assert(Seq::<RecordV>::empty().filter(|r: RecordV| !exact_folder_match(r, normalized_query@))
            =~= Seq::<RecordV>::empty());
    }
    while ffsrc.len() > 0
        invariant
            ffsrc@.len() <= fforig.len(),
            ffsrc@ == fforig.skip(fforig.len() - ffsrc@.len()),
            record_views(exact@) == record_views(
                fforig.subrange(0, fforig.len() - ffsrc@.len()),
            ).filter(|r: RecordV| exact_folder_match(r, normalized_query@)),
            record_views(rest@) == record_views(
                fforig.subrange(0, fforig.len() - ffsrc@.len()),
            ).filter(|r: RecordV| !exact_folder_match(r, normalized_query@)),
        decreases ffsrc@.len(),
    {
        let ghost done = fforig.len() - ffsrc@.len();
        let x = ffsrc.remove(0);
        proof {
            assert(x == fforig[done]);
            assert(fforig.skip(done).remove(0) =~= fforig.skip(done + 1));
            assert(fforig.subrange(0, done + 1) =~= fforig.subrange(0, done).push(x));
            lemma_views_push(fforig.subrange(0, done), x);
            lemma_filter_push(
                record_views(fforig.subrange(0, done)),
                |r: RecordV| exact_folder_match(r, normalized_query@),
                x@,
            );
            lemma_filter_push(
                record_views(fforig.subrange(0, done)),
                |r: RecordV| !exact_folder_match(r, normalized_query@),
                x@,
            );
        }
        if exact_match_exec(&x, normalized_query) {
            proof {
                lemma_views_push(exact@, x);
            }
            exact.push(x);
        } else {
            proof {
                lemma_views_push(rest@, x);
            }
            rest.push(x);
        }
    }
    proof {
        assert(fforig.subrange(0, fforig.len() as int) =~= fforig);
    }

    let base: Vec<SearchResult> = if exact.len() > 0 {
        exact
    } else {
        proof {
            lemma_filter_complement_all(
                ffv,
                |r: RecordV| exact_folder_match(r, normalized_query@),
                |r: RecordV| !exact_folder_match(r, normalized_query@),
            );
            assert(record_views(rest@) == ffv);
        }
        // no exact folder match: fall back to partial matches
        let mut part: Vec<SearchResult> = Vec::new();
        let ghost rorig: Seq<SearchResult> = rest@;
        let mut rsrc = rest;
        proof {
            assert(rsrc@ =~= rorig.skip(0));
            assert(record_views(rorig.subrange(0, 0)) =~= Seq::<RecordV>::empty());
            assert(Seq::<RecordV>::empty().filter(|r: RecordV| partial_match(r, normalized_query@))
                =~= Seq::<RecordV>::empty());
        }
        while rsrc.len() > 0
            invariant
                rsrc@.len() <= rorig.len(),
                rsrc@ == rorig.skip(rorig.len() - rsrc@.len()),
                    record_views(part@) == record_views(
                    rorig.subrange(0, rorig.len() - rsrc@.len()),
                ).filter(|r: RecordV| partial_match(r, normalized_query@)),
            decreases rsrc@.len(),
        {
            let ghost done = rorig.len() - rsrc@.len();
            let x = rsrc.remove(0);
            proof {
                assert(x == rorig[done]);
                assert(rorig.skip(done).remove(0) =~= rorig.skip(done + 1));
                assert(rorig.subrange(0, done + 1) =~= rorig.subrange(0, done).push(x));
                lemma_views_push(rorig.subrange(0, done), x);
                lemma_filter_push(
                    record_views(rorig.subrange(0, done)),
                    |r: RecordV| partial_match(r, normalized_query@),
                    x@,
                );
            }
            if partial_match_exec(&x, normalized_query) {
                proof {
                    lemma_views_push(part@, x);
                }
                part.push(x);
            }
        }
        proof {
            assert(rorig.subrange(0, rorig.len() as int) =~= rorig);
        }
        part
    };
    proof {
        assert(record_views(base@) == spec_matches_from(ffv, normalized_query@));
    }

    let mut files = sort_ranked(base, normalized_query);
    let ghost sortedv = record_views(files@);
    files.truncate(max_results);
    proof {
        if max_results as nat <= sortedv.len() {
            assert(record_views(files@) =~= sortedv.subrange(0, max_results as int));
            if sortedv.len() == max_results as nat {
                assert(sortedv.subrange(0, max_results as int) =~= sortedv);
            }
        }
        assert(record_views(files@) == spec_truncate(sortedv, max_results as nat));
    }
    files
}

/// Every element of a filter comes from the filtered sequence.
proof fn lemma_filter_subset(s: Seq<RecordV>, p: spec_fn(RecordV) -> bool, i: int)
    requires
        0 <= i < s.filter(p).len(),
    ensures
        s.contains(s.filter(p)[i]),
    decreases s.len(),
{
    reveal_with_fuel(Seq::<RecordV>::filter, 2);
    if s.len() > 0 {
        let f = s.filter(p);
        let inner = s.drop_last().filter(p);
        if p(s.last()) && i == f.len() - 1 {
            assert(f[i] == s.last());
            assert(s.contains(s.last())) by {
                assert(s[s.len() - 1] == s.last());
            }
        } else {
            lemma_filter_subset(s.drop_last(), p, i);
            let j = choose|j: int| 0 <= j < s.drop_last().len() && s.drop_last()[j] == inner[i];
            assert(s[j] == inner[i]);
            assert(f[i] == inner[i]);
        }
    }
}

/// Closure: everything a search returns is a record of the listing that it
/// ran over; nothing is invented.
pub proof fn lemma_search_membership(
    rs: Seq<RecordV>,
    q: Seq<char>,
    mode: SearchMode,
    max: nat,
    k: int,
)
    requires
        0 <= k < spec_search(rs, q, mode, max).len(),
    ensures
        rs.contains(spec_search(rs, q, mode, max)[k]),
{
    broadcast use vstd::seq_lib::group_to_multiset_ensures;

    let nq = lower_of(nfc_of(q));
    let lq = lower_of(q);
    let out = spec_search(rs, q, mode, max);
    let files = if mode == SearchMode::CustomIndex {
        spec_file_phase(rs, nq, max)
    } else {
        Seq::<RecordV>::empty()
    };
    let apps = spec_app_phase(rs, lq);
    if k < files.len() {
        let ff = rs.filter(|r: RecordV| is_file_or_folder(r));
        let m = spec_matches_from(ff, nq);
        lemma_sort_ranked_ensures(m, nq);
        let sorted = spec_sort_ranked(m, nq);
        assert(out[k] == sorted[k]);
        assert(sorted.contains(sorted[k])) by {
            assert(sorted[k] == sorted[k]);
        }
        assert(sorted.to_multiset().count(sorted[k]) > 0);
        assert(m.contains(sorted[k]));
        let mi = choose|mi: int| 0 <= mi < m.len() && m[mi] == sorted[k];
        let exact = ff.filter(|r: RecordV| exact_folder_match(r, nq));
        if exact.len() > 0 {
            lemma_filter_subset(ff, |r: RecordV| exact_folder_match(r, nq), mi);
        } else {
            lemma_filter_subset(ff, |r: RecordV| partial_match(r, nq), mi);
        }
        assert(ff.contains(m[mi]));
        let fj = choose|fj: int| 0 <= fj < ff.len() && ff[fj] == m[mi];
        lemma_filter_subset(rs, |r: RecordV| is_file_or_folder(r), fj);
    } else {
        let ai = k - files.len();
        assert(out[k] == apps[ai]);
        lemma_filter_subset(rs, |r: RecordV| app_match(r, lq), ai);
    }
}

/// Folder precedence: in the file/folder phase, every folder stands before
/// every non-folder, whatever the relevance scores say.
pub proof fn lemma_folder_precedence(rs: Seq<RecordV>, nq: Seq<char>, max: nat, i: int, j: int)
    requires
        0 <= i < j < spec_file_phase(rs, nq, max).len(),
        spec_file_phase(rs, nq, max)[j].result_type == ResultType::Folder,
    ensures
        spec_file_phase(rs, nq, max)[i].result_type == ResultType::Folder,
{
    let m = spec_file_matches(rs, nq);
    lemma_sort_ranked_ensures(m, nq);
    let sorted = spec_sort_ranked(m, nq);
    assert(spec_file_phase(rs, nq, max)[i] == sorted[i]);
    assert(spec_file_phase(rs, nq, max)[j] == sorted[j]);
    assert(rank_le(sorted[i], sorted[j], nq));
}

/// Exact-folder short-circuit: when some record of the listing matches the
/// query as an exact folder name, the file/folder phase holds exact folder
/// matches only; no partial match slips in.
pub proof fn lemma_exact_short_circuit(rs: Seq<RecordV>, nq: Seq<char>, max: nat, w: int, k: int)
    requires
        0 <= w < rs.len(),
        exact_folder_match(rs[w], nq),
        0 <= k < spec_file_phase(rs, nq, max).len(),
    ensures
        exact_folder_match(spec_file_phase(rs, nq, max)[k], nq),
{
    broadcast use vstd::seq_lib::group_filter_ensures;
    broadcast use vstd::seq_lib::group_to_multiset_ensures;

    let ff = rs.filter(|r: RecordV| is_file_or_folder(r));
    let exact = ff.filter(|r: RecordV| exact_folder_match(r, nq));
    assert(is_file_or_folder(rs[w]));
    assert(ff.contains(rs[w]));
    let wf = choose|wf: int| 0 <= wf < ff.len() && ff[wf] == rs[w];
    assert(exact.contains(ff[wf]));
    assert(exact.len() > 0);
    let m = spec_file_matches(rs, nq);
    assert(m == exact);
    lemma_sort_ranked_ensures(m, nq);
    let sorted = spec_sort_ranked(m, nq);
    let out = spec_file_phase(rs, nq, max);
    assert(out[k] == sorted[k]);
    assert(sorted.contains(sorted[k]));
    assert(sorted.to_multiset().count(sorted[k]) > 0);
    assert(m.contains(sorted[k]));
    let mi = choose|mi: int| 0 <= mi < m.len() && m[mi] == sorted[k];
    assert(exact_folder_match(exact[mi], nq));
}

/// Truncation: the file/folder phase returns exactly the lesser of the
/// number of matching records and the configured cap, and the application
/// phase is not subject to that cap.
pub proof fn lemma_truncation(rs: Seq<RecordV>, nq: Seq<char>, lq: Seq<char>, max: nat)
    ensures
        spec_file_phase(rs, nq, max).len() == if spec_file_matches(rs, nq).len() <= max {
            spec_file_matches(rs, nq).len() as int
        } else {
            max as int
        },
        spec_search_folded(rs, nq, lq, SearchMode::CustomIndex, max).len() == spec_file_phase(
            rs,
            nq,
            max,
        ).len() + spec_app_phase(rs, lq).len(),
{
    lemma_sort_ranked_ensures(spec_file_matches(rs, nq), nq);
}

/// Case and composition insensitivity: two queries whose folded forms agree
/// are answered identically, over any listing, mode and cap.
pub proof fn lemma_search_insensitive(
    rs: Seq<RecordV>,
    q1: Seq<char>,
    q2: Seq<char>,
    mode: SearchMode,
    max: nat,
)
    requires
        lower_of(nfc_of(q1)) == lower_of(nfc_of(q2)),
        lower_of(q1) == lower_of(q2),
    ensures
        spec_search(rs, q1, mode, max) == spec_search(rs, q2, mode, max),
{
}

} // verus!

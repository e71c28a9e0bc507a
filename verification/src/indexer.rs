//! The indexer: owns the index store and the current settings, rebuilds the
//! index from walked filesystem entries and enumerated applications, and
//! answers ranked search queries.
//!
//! The caller walks the disk and runs the host's application enumeration;
//! both hand their findings in as plain values.  A rebuild is all-or-nothing:
//! the first bad entry aborts it with an error, and the store keeps whatever
//! was already written (there is no rollback).

use vstd::prelude::*;
use vstd::string::{StrSliceExecFns, StringExecFns};
use crate::apps::{parse_app_line, spec_parse_app_line};
use crate::tokens::{spec_lines, split_newlines, string_views};
use crate::error::{IndexError, IndexErrorV};
use crate::models::{
    EntryKind, FsEntry, FsEntryV, RecordV, ResultType, SearchResult, Settings, SettingsV,
    entry_views, record_views,
};
use crate::normalize::lower_of;
use crate::policy::{should_index, spec_should_index};
use crate::query::{run_query, spec_search};
use crate::store::{IndexStore, is_store_listing, store_map};
use crate::text::{basename, has_sub, spec_basename, str_ends_with};

verus! {

/// Does the name carry an executable marker: a native executable, an
/// application bundle, or a desktop-entry suffix?
pub open spec fn spec_is_app_name(name: Seq<char>) -> bool {
    ||| ".exe"@.is_suffix_of(name)
    ||| ".app"@.is_suffix_of(name)
    ||| ".desktop"@.is_suffix_of(name)
}

/// Decide whether `name` carries an executable marker.
pub fn is_app_name(name: &str) -> (r: bool)
    ensures
        r == spec_is_app_name(name@),
{
    str_ends_with(name, ".exe") || str_ends_with(name, ".app") || str_ends_with(name, ".desktop")
}

/// How an admitted entry is classified: directories are folders, files with
/// an executable marker are applications, all other files are plain files.
pub open spec fn spec_classify(kind: EntryKind, name: Seq<char>) -> ResultType {
    if kind == EntryKind::Directory {
        ResultType::Folder
    } else if spec_is_app_name(name) {
        ResultType::Application
    } else {
        ResultType::File
    }
}

/// Classify an admitted entry.
pub fn classify_entry(kind: EntryKind, name: &str) -> (r: ResultType)
    ensures
        r == spec_classify(kind, name@),
{
    match kind {
        EntryKind::Directory => ResultType::Folder,
        _ => {
            if is_app_name(name) {
                ResultType::Application
            } else {
                ResultType::File
            }
        },
    }
}

/// The record an admitted entry becomes, keyed by its absolute path.
pub open spec fn spec_record_of(e: FsEntryV, t: u64) -> RecordV {
    RecordV {
        id: e.path,
        name: spec_basename(e.path),
        result_type: spec_classify(e.kind, spec_basename(e.path)),
        path: e.path,
        last_modified: t,
    }
}

/// Admissible: a plain file or directory that the inclusion policy admits.
pub open spec fn spec_admissible(e: FsEntryV, s: SettingsV) -> bool {
    e.kind != EntryKind::Other && spec_should_index(e.path, s)
}

/// How many entries of the walk the policy admits.
pub open spec fn spec_admissible_count(entries: Seq<FsEntryV>, s: SettingsV) -> nat {
    entries.filter(|e: FsEntryV| spec_admissible(e, s)).len()
}

/// State of an index build after some prefix of the walked entries: the map
/// written so far, the number of entries admitted, and the first error.
pub struct IndexFold {
    pub map: Map<Seq<char>, RecordV>,
    pub count: nat,
    pub error: Option<IndexErrorV>,
}

/// One walked entry's effect on the build: inadmissible entries and entries
/// beyond the cap are skipped; an admitted entry with an empty basename or
/// missing metadata aborts; otherwise its record is upserted by path.
pub open spec fn spec_index_step(e: FsEntryV, s: SettingsV, st: IndexFold) -> IndexFold {
    if !spec_admissible(e, s) || st.count >= s.max_index_files {
        st
    } else if spec_basename(e.path).len() == 0 {
        IndexFold { map: st.map, count: st.count, error: Some(IndexErrorV::IndexingError(e.path)) }
    } else {
        match e.modified {
            Option::None => IndexFold {
                map: st.map,
                count: st.count,
                error: Some(IndexErrorV::IndexingError(e.path)),
            },
            Option::Some(t) => IndexFold {
                map: st.map.insert(e.path, spec_record_of(e, t)),
                count: st.count + 1,
                error: Option::<IndexErrorV>::None,
            },
        }
    }
}

/// Fold the walked entries into a build state, stopping at the first error.
pub open spec fn spec_index_fold(entries: Seq<FsEntryV>, s: SettingsV, st: IndexFold) -> IndexFold
    decreases entries.len(),
{
    if entries.len() == 0 || st.error is Some {
        st
    } else {
        spec_index_fold(entries.drop_first(), s, spec_index_step(entries[0], s, st))
    }
}

/// The build that a full walk produces, from an empty store.
pub open spec fn spec_index_files(entries: Seq<FsEntryV>, s: SettingsV) -> IndexFold {
    spec_index_fold(
        entries,
        s,
        IndexFold { map: Map::empty(), count: 0, error: Option::<IndexErrorV>::None },
    )
}

/// The records of the enumeration lines, upserted in order by location.
pub open spec fn spec_apps_fold(
    lines: Seq<Seq<char>>,
    now: u64,
    m: Map<Seq<char>, RecordV>,
) -> Map<Seq<char>, RecordV>
    decreases lines.len(),
{
    if lines.len() == 0 {
        m
    } else {
        let m2 = match spec_parse_app_line(lines[0], now) {
            Some(r) => m.insert(r.id, r),
            None => m,
        };
        spec_apps_fold(lines.drop_first(), now, m2)
    }
}

/// What a successful application enumeration adds to `m`: one application
/// record per well-formed line after the three-line header.
pub open spec fn spec_index_apps(
    output: Seq<char>,
    now: u64,
    m: Map<Seq<char>, RecordV>,
) -> Map<Seq<char>, RecordV> {
    let lines = spec_lines(output);
    if lines.len() <= 3 {
        m
    } else {
        spec_apps_fold(lines.skip(3), now, m)
    }
}

/// The indexer: the index store and the settings of the current generation.
pub struct Indexer {
    index: IndexStore,
    settings: Settings,
}

impl Indexer {
    /// The settings the indexer currently runs under.
    pub closed spec fn settings_view(&self) -> SettingsV {
        self.settings@
    }

    /// The index contents, as a map from record id to record.
    pub closed spec fn index_map(&self) -> Map<Seq<char>, RecordV> {
        store_map(self.index.map)
    }

    /// A fresh indexer with an empty store.
    pub fn new(settings: Settings) -> (r: Self)
        ensures
            r.settings_view() == settings@,
            r.index_map() == crate::store::empty_contents(),
    {
        Indexer { index: IndexStore::new(), settings }
    }

    /// Clear the store and repopulate it from the walked entries, admitting
    /// by policy up to the configured cap.  The first entry with an empty
    /// basename or unreadable metadata aborts the rebuild; what was already
    /// admitted stays in the store.
    pub fn index_files(&mut self, entries: &Vec<FsEntry>) -> (r: Result<(), IndexError>)
        ensures
            final(self).settings_view() == old(self).settings_view(),
            ({
                let f = spec_index_files(entry_views(entries@), old(self).settings_view());
                match r {
                    Ok(()) => f.error is None && final(self).index_map() == f.map,
                    Err(e) => f.error == Some(e@) && final(self).index_map() == f.map,
                }
            }),
    {
        let ghost evs = entry_views(entries@);
        let ghost sv = self.settings@;
        let ghost full = spec_index_files(evs, sv);
        self.index.clear();
        let mut count: usize = 0;
        let n = entries.len();
        let mut i: usize = 0;
        proof {
            assert(evs.skip(0) =~= evs);
        }
        while i < n
            invariant
                n == entries@.len(),
                n == evs.len(),
                i <= n,
                evs == entry_views(entries@),
                sv == self.settings@,
                self.settings == old(self).settings,
                full == spec_index_files(entry_views(entries@), old(self).settings_view()),
                count <= self.settings.max_index_files,
                full == spec_index_fold(
                    evs.skip(i as int),
                    sv,
                    IndexFold {
                        map: store_map(self.index.map),
                        count: count as nat,
                        error: Option::<IndexErrorV>::None,
                    },
                ),
            decreases n - i,
        {
            let ghost st = IndexFold {
                map: store_map(self.index.map),
                count: count as nat,
                error: Option::<IndexErrorV>::None,
            };
            let e = &entries[i];
            proof {
                assert(evs.skip(i as int)[0] == e@);
                assert(evs.skip(i as int).drop_first() =~= evs.skip(i + 1));
            }
            let admissible = !matches!(e.kind, EntryKind::Other) && should_index(
                e.path.as_str(),
                &self.settings,
            );
            if admissible && count < self.settings.max_index_files {
                let nm = basename(e.path.as_str());
                if nm.unicode_len() == 0 {
                    proof {
                        let st_err = spec_index_step(e@, sv, st);
                        assert(spec_index_fold(evs.skip(i as int), sv, st) == spec_index_fold(
                            evs.skip(i + 1),
                            sv,
                            st_err,
                        ));
                        assert(spec_index_fold(evs.skip(i + 1), sv, st_err) == st_err);
                    }
                    return Err(IndexError::IndexingError(e.path.clone()));
                }
                match e.modified {
                    Option::None => {
                        proof {
                            let st_err = spec_index_step(e@, sv, st);
                            assert(spec_index_fold(evs.skip(i as int), sv, st) == spec_index_fold(
                                evs.skip(i + 1),
                                sv,
                                st_err,
                            ));
                            assert(spec_index_fold(evs.skip(i + 1), sv, st_err) == st_err);
                        }
                        return Err(IndexError::IndexingError(e.path.clone()));
                    },
                    Option::Some(t) => {
                        let record = SearchResult {
                            id: e.path.clone(),
                            name: nm.to_owned(),
                            result_type: classify_entry(e.kind, nm),
                            path: e.path.clone(),
                            last_modified: t,
                        };
                        proof {
                            assert(record@ == spec_record_of(e@, t));
                        }
                        self.index.insert(record);
                        count += 1;
                    },
                }
            }
            i += 1;
        }
        proof {
            assert(evs.skip(n as int) =~= Seq::<FsEntryV>::empty());
        }
        Ok(())
    }

    /// Record the installed applications that the host's enumeration
    /// reported.  `success` is the subprocess's verdict; on failure its
    /// error output is surfaced and the store is left unchanged.  On
    /// success every line after the three-line header with at least three
    /// fields yields one application record, timestamped `now`.
    pub fn index_windows_apps(&mut self, success: bool, stdout: &str, stderr: &str, now: u64) -> (r:
        Result<(), IndexError>)
        ensures
            final(self).settings_view() == old(self).settings_view(),
            !success ==> (r matches Err(e) && e@ == IndexErrorV::CommandExecutionFailed(stderr@)
                && final(self).index_map() == old(self).index_map()),
            success ==> r is Ok && final(self).index_map() == spec_index_apps(
                stdout@,
                now,
                old(self).index_map(),
            ),
    {
        if !success {
            return Err(IndexError::CommandExecutionFailed(stderr.to_owned()));
        }
        let ghost m0 = store_map(self.index.map);
        let lines = split_newlines(stdout);
        let ghost lvs = string_views(lines@);
        let n = lines.len();
        if n <= 3 {
            return Ok(());
        }
        let mut i: usize = 3;
        while i < n
            invariant
                n == lines@.len(),
                n == lvs.len(),
                3 <= i <= n,
                lvs == string_views(lines@),
                lvs == spec_lines(stdout@),
                n > 3,
                self.settings == old(self).settings,
                spec_apps_fold(lvs.skip(i as int), now, store_map(self.index.map))
                    == spec_apps_fold(lvs.skip(3), now, m0),
            decreases n - i,
        {
            proof {
                assert(lvs[i as int] == lines@[i as int]@);
                assert(lvs.skip(i as int)[0] == lvs[i as int]);
                assert(lvs.skip(i as int).drop_first() =~= lvs.skip(i + 1));
            }
            match parse_app_line(lines[i].as_str(), now) {
                Option::Some(rec) => {
                    self.index.insert(rec);
                },
                Option::None => {},
            }
            i += 1;
        }
        proof {
            assert(lvs.skip(n as int) =~= Seq::<Seq<char>>::empty());
        }
        Ok(())
    }

    /// One rebuild under `settings`: swap the settings in, clear and
    /// repopulate the store from the walked entries, then record the
    /// enumerated applications.  The first failure aborts the rebuild and
    /// is returned; what was already written stays.
    pub fn rebuild(
        &mut self,
        settings: Settings,
        entries: &Vec<FsEntry>,
        apps_success: bool,
        apps_stdout: &str,
        apps_stderr: &str,
        now: u64,
    ) -> (r: Result<(), IndexError>)
        ensures
            final(self).settings_view() == settings@,
            ({
                let f = spec_index_files(entry_views(entries@), settings@);
                match r {
                    Ok(()) => f.error is None && apps_success && final(self).index_map()
                        == spec_index_apps(apps_stdout@, now, f.map),
                    Err(e) => final(self).index_map() == f.map && (if f.error is Some {
                        f.error == Some(e@)
                    } else {
                        !apps_success && e@ == IndexErrorV::CommandExecutionFailed(apps_stderr@)
                    }),
                }
            }),
    {
        self.settings = settings;
        match self.index_files(entries) {
            Result::Err(e) => {
                return Err(e);
            },
            Result::Ok(()) => {},
        }
        match self.index_windows_apps(apps_success, apps_stdout, apps_stderr, now) {
            Result::Err(e) => {
                return Err(e);
            },
            Result::Ok(()) => {},
        }
        Ok(())
    }

    /// Answer `query` against the current index: the ranked file and folder
    /// results first (none under `WindowsNative`), then every matching
    /// application, uncapped.  The listing order of the store is the one
    /// degree of freedom: the result is the query's answer over some listing
    /// of the store's contents.  Reading the store cannot fail here, so the
    /// error side of the result is never taken; it stands for callers that
    /// treat an unreadable store as [`IndexError::StoreUnavailable`].
    pub fn search(&self, query: &str) -> (r: Result<Vec<SearchResult>, IndexError>)
        ensures
            r is Ok,
            r matches Ok(out) ==> exists|vs: Seq<RecordV>|
                #[trigger] is_store_listing(vs, self.index_map()) && record_views(out@)
                    == spec_search(
                    vs,
                    query@,
                    self.settings_view().search_mode,
                    self.settings_view().max_search_results,
                ),
    {
        let listing = self.index.entries();
        let ghost vs = record_views(listing@);
        let out = run_query(
            listing,
            query,
            self.settings.search_mode,
            self.settings.max_search_results,
        );
        proof {
            assert(is_store_listing(vs, self.index_map()));
        }
        Ok(out)
    }
}

/// Application enumeration only adds or overwrites records: every key
/// present before it runs is still present after it, so the walked entries
/// are never lost to it.
pub proof fn lemma_apps_preserve_keys(
    output: Seq<char>,
    now: u64,
    m: Map<Seq<char>, RecordV>,
    k: Seq<char>,
)
    requires
        m.dom().contains(k),
    ensures
        spec_index_apps(output, now, m).dom().contains(k),
{
    let lines = spec_lines(output);
    if lines.len() > 3 {
        lemma_apps_fold_preserves_keys(lines.skip(3), now, m, k);
    }
}

/// The fold invariant behind key preservation.
proof fn lemma_apps_fold_preserves_keys(
    lines: Seq<Seq<char>>,
    now: u64,
    m: Map<Seq<char>, RecordV>,
    k: Seq<char>,
)
    requires
        m.dom().contains(k),
    ensures
        spec_apps_fold(lines, now, m).dom().contains(k),
    decreases lines.len(),
{
    if lines.len() > 0 {
        let m2 = match spec_parse_app_line(lines[0], now) {
            Some(r) => m.insert(r.id, r),
            None => m,
        };
        assert(m2.dom().contains(k));
        lemma_apps_fold_preserves_keys(lines.drop_first(), now, m2, k);
    }
}

/// Two index maps hold the same records, their timestamps aside.
pub open spec fn maps_agree_disregarding_time(
    m1: Map<Seq<char>, RecordV>,
    m2: Map<Seq<char>, RecordV>,
) -> bool {
    &&& m1.dom() == m2.dom()
    &&& forall|k: Seq<char>|
        m1.dom().contains(k) ==> (#[trigger] m1[k]).id == m2[k].id && m1[k].name == m2[k].name
            && m1[k].result_type == m2[k].result_type && m1[k].path == m2[k].path
}

/// Inclusion determinism: what a rebuild admits is a function of the walked
/// paths and kinds and the settings alone.  Two walks of the same snapshot
/// build indexes with identical (id, name, type, path) records, even when
/// the files' recorded times differ between the walks.
pub proof fn lemma_rebuild_deterministic(e1: Seq<FsEntryV>, e2: Seq<FsEntryV>, s: SettingsV)
    requires
        e1.len() == e2.len(),
        forall|i: int|
            0 <= i < e1.len() ==> (#[trigger] e1[i]).path == e2[i].path && e1[i].kind == e2[i].kind
                && (e1[i].modified is Some <==> e2[i].modified is Some),
    ensures
        maps_agree_disregarding_time(spec_index_files(e1, s).map, spec_index_files(e2, s).map),
        spec_index_files(e1, s).count == spec_index_files(e2, s).count,
        spec_index_files(e1, s).error == spec_index_files(e2, s).error,
{
    let st0 = IndexFold { map: Map::empty(), count: 0, error: Option::<IndexErrorV>::None };
    assert(st0.map.dom() =~= st0.map.dom());
    lemma_fold_deterministic(e1, e2, s, st0, st0);
}

/// The fold invariant behind inclusion determinism.
proof fn lemma_fold_deterministic(
    e1: Seq<FsEntryV>,
    e2: Seq<FsEntryV>,
    s: SettingsV,
    st1: IndexFold,
    st2: IndexFold,
)
    requires
        e1.len() == e2.len(),
        forall|i: int|
            0 <= i < e1.len() ==> (#[trigger] e1[i]).path == e2[i].path && e1[i].kind == e2[i].kind
                && (e1[i].modified is Some <==> e2[i].modified is Some),
        maps_agree_disregarding_time(st1.map, st2.map),
        st1.count == st2.count,
        st1.error == st2.error,
    ensures
        maps_agree_disregarding_time(
            spec_index_fold(e1, s, st1).map,
            spec_index_fold(e2, s, st2).map,
        ),
        spec_index_fold(e1, s, st1).count == spec_index_fold(e2, s, st2).count,
        spec_index_fold(e1, s, st1).error == spec_index_fold(e2, s, st2).error,
    decreases e1.len(),
{
    if e1.len() > 0 && st1.error is None {
        let n1 = spec_index_step(e1[0], s, st1);
        let n2 = spec_index_step(e2[0], s, st2);
        assert(maps_agree_disregarding_time(n1.map, n2.map) && n1.count == n2.count && n1.error
            == n2.error) by {
            if spec_admissible(e1[0], s) && st1.count < s.max_index_files && spec_basename(
                e1[0].path,
            ).len() > 0 && e1[0].modified is Some {
                let r1 = spec_record_of(e1[0], e1[0].modified->0);
                let r2 = spec_record_of(e2[0], e2[0].modified->0);
                assert(n1.map.dom() =~= n2.map.dom());
            }
        }
        assert(forall|i: int|
            0 <= i < e1.drop_first().len() ==> (#[trigger] e1.drop_first()[i]).path
                == e2.drop_first()[i].path && e1.drop_first()[i].kind == e2.drop_first()[i].kind
                && (e1.drop_first()[i].modified is Some <==> e2.drop_first()[i].modified is Some));
        lemma_fold_deterministic(e1.drop_first(), e2.drop_first(), s, n1, n2);
    }
}

/// Exclusion: no path that the policy rejects is ever a key of the built
/// index; in particular a path containing a configured ignored-directory
/// substring (case-insensitively) is never present after a rebuild.
pub proof fn lemma_exclusion(entries: Seq<FsEntryV>, s: SettingsV, d: int, p: Seq<char>)
    requires
        0 <= d < s.ignored_directories.len(),
        has_sub(lower_of(p), lower_of(s.ignored_directories[d])),
    ensures
        !spec_index_files(entries, s).map.dom().contains(p),
{
    assert(crate::policy::spec_in_ignored(lower_of(p), s));
    lemma_fold_excludes(
        entries,
        s,
        IndexFold { map: Map::empty(), count: 0, error: Option::<IndexErrorV>::None },
        p,
    );
}

/// A rejected path never enters the map during a fold.
proof fn lemma_fold_excludes(entries: Seq<FsEntryV>, s: SettingsV, st: IndexFold, p: Seq<char>)
    requires
        !st.map.dom().contains(p),
        !spec_should_index(p, s),
    ensures
        !spec_index_fold(entries, s, st).map.dom().contains(p),
    decreases entries.len(),
{
    if entries.len() > 0 && st.error is None {
        let st2 = spec_index_step(entries[0], s, st);
        assert(!st2.map.dom().contains(p));
        lemma_fold_excludes(entries.drop_first(), s, st2, p);
    }
}

/// Cap enforcement: a successful rebuild admits exactly the lesser of the
/// number of admissible entries and the configured cap; since walked paths
/// are pairwise distinct, the store then holds exactly that many records.
pub proof fn lemma_cap_enforcement(entries: Seq<FsEntryV>, s: SettingsV)
    requires
        spec_index_files(entries, s).error is None,
        forall|i: int, j: int|
            0 <= i < j < entries.len() ==> entries[i].path != entries[j].path,
    ensures
        spec_index_files(entries, s).count == if spec_admissible_count(entries, s)
            <= s.max_index_files {
            spec_admissible_count(entries, s) as int
        } else {
            s.max_index_files as int
        },
        spec_index_files(entries, s).map.dom().len() == spec_index_files(entries, s).count,
{
    lemma_fold_cap(
        entries,
        s,
        IndexFold { map: Map::empty(), count: 0, error: Option::<IndexErrorV>::None },
    );
}

/// The fold invariant behind cap enforcement.
proof fn lemma_fold_cap(entries: Seq<FsEntryV>, s: SettingsV, st: IndexFold)
    requires
        st.error is None,
        st.count <= s.max_index_files,
        st.map.dom().finite(),
        st.map.dom().len() == st.count,
        forall|i: int| 0 <= i < entries.len() ==> !st.map.dom().contains(entries[i].path),
        forall|i: int, j: int|
            0 <= i < j < entries.len() ==> entries[i].path != entries[j].path,
        spec_index_fold(entries, s, st).error is None,
    ensures
        spec_index_fold(entries, s, st).count == if st.count + spec_admissible_count(entries, s)
            <= s.max_index_files {
            (st.count + spec_admissible_count(entries, s)) as int
        } else {
            s.max_index_files as int
        },
        spec_index_fold(entries, s, st).map.dom().finite(),
        spec_index_fold(entries, s, st).map.dom().len() == spec_index_fold(entries, s, st).count,
    decreases entries.len(),
{
    reveal_with_fuel(Seq::<FsEntryV>::filter, 2);
    if entries.len() == 0 {
    } else {
        let e = entries[0];
        let rest = entries.drop_first();
        let st2 = spec_index_step(e, s, st);
        assert(entries.filter(|x: FsEntryV| spec_admissible(x, s)) == if spec_admissible(e, s) {
            seq![e] + rest.filter(|x: FsEntryV| spec_admissible(x, s))
        } else {
            rest.filter(|x: FsEntryV| spec_admissible(x, s))
        }) by {
            lemma_filter_cons(entries, |x: FsEntryV| spec_admissible(x, s));
        }
        if !spec_admissible(e, s) || st.count >= s.max_index_files {
            lemma_fold_cap(rest, s, st);
        } else {
            assert(spec_index_fold(entries, s, st) == spec_index_fold(rest, s, st2));
            if st2.error is Some {
                assert(spec_index_fold(rest, s, st2) == st2);
                assert(false);
            }
            assert(st2.map.dom() =~= st.map.dom().insert(e.path));
            assert(forall|i: int| 0 <= i < rest.len() ==> rest[i] == entries[i + 1]);
            lemma_fold_cap(rest, s, st2);
        }
    }
}

/// Filtering a nonempty sequence, from the front.
proof fn lemma_filter_cons(s: Seq<FsEntryV>, pred: spec_fn(FsEntryV) -> bool)
    requires
        s.len() > 0,
    ensures
        s.filter(pred) == if pred(s[0]) {
            seq![s[0]] + s.drop_first().filter(pred)
        } else {
            s.drop_first().filter(pred)
        },
    decreases s.len(),
{
    reveal_with_fuel(Seq::<FsEntryV>::filter, 2);
    if s.len() == 1 {
        assert(s.drop_last() =~= Seq::<FsEntryV>::empty());
        assert(s.drop_first() =~= Seq::<FsEntryV>::empty());
        if pred(s[0]) {
            assert(s.filter(pred) =~= seq![s[0]] + s.drop_first().filter(pred));
        }
    } else {
        lemma_filter_cons(s.drop_last(), pred);
        assert(s.drop_last()[0] == s[0]);
        assert(s.drop_last().drop_first() =~= s.drop_first().drop_last());
        if pred(s.last()) {
            if pred(s[0]) {
                assert(seq![s[0]] + s.drop_first().drop_last().filter(pred).push(s.last())
                    =~= (seq![s[0]] + s.drop_first().drop_last().filter(pred)).push(s.last()));
                assert(s.drop_first().filter(pred) == s.drop_first().drop_last().filter(
                    pred,
                ).push(s.last())) by {
                    assert(s.drop_first().last() == s.last());
                }
            } else {
                assert(s.drop_first().filter(pred) == s.drop_first().drop_last().filter(
                    pred,
                ).push(s.last())) by {
                    assert(s.drop_first().last() == s.last());
                }
            }
        } else {
            assert(s.drop_first().filter(pred) == s.drop_first().drop_last().filter(pred)) by {
                assert(s.drop_first().last() == s.last());
            }
        }
    }
}

} // verus!

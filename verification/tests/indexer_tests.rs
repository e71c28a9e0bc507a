//! Tests of the indexer: rebuild determinism, cap enforcement, exclusion,
//! application enumeration, and the error paths.

use osai::error::IndexError;
use osai::indexer::Indexer;
use osai::models::{EntryKind, FsEntry, ResultType, SearchMode, SearchResult, Settings};

fn settings(roots: &[&str], ignored: &[&str], max_files: usize, max_results: usize) -> Settings {
    Settings {
        search_paths: roots.iter().map(|s| s.to_string()).collect(),
        ignored_directories: ignored.iter().map(|s| s.to_string()).collect(),
        hotkey: "CommandOrControl+Space".to_string(),
        max_index_files: max_files,
        max_search_results: max_results,
        search_mode: SearchMode::CustomIndex,
    }
}

fn entry(path: &str, kind: EntryKind, modified: Option<u64>) -> FsEntry {
    FsEntry { path: path.to_string(), kind, modified }
}

fn dir(path: &str) -> FsEntry {
    entry(path, EntryKind::Directory, Some(100))
}

fn plain(path: &str) -> FsEntry {
    entry(path, EntryKind::File, Some(100))
}

fn tuples(mut rs: Vec<SearchResult>) -> Vec<(String, String, ResultType, String)> {
    rs.sort_by(|a, b| a.id.cmp(&b.id));
    rs.into_iter()
        .map(|r| (r.id, r.name, r.result_type, r.path))
        .collect()
}

#[test]
fn rebuild_is_deterministic() {
    let entries = vec![
        plain("c:\\home\\a.txt"),
        dir("c:\\home\\work"),
        plain("c:\\home\\work\\b.txt"),
    ];
    let mut ix = Indexer::new(settings(&["c:\\home"], &[], 100, 50));
    ix.index_files(&entries).unwrap();
    let first = ix.search("").unwrap();
    ix.index_files(&entries).unwrap();
    let second = ix.search("").unwrap();
    assert_eq!(tuples(first), tuples(second));
}

#[test]
fn rebuild_tuples_ignore_timestamps() {
    let e1 = vec![
        entry("c:\\home\\a.txt", EntryKind::File, Some(100)),
        entry("c:\\home\\b.txt", EntryKind::File, Some(200)),
    ];
    let e2 = vec![
        entry("c:\\home\\a.txt", EntryKind::File, Some(111)),
        entry("c:\\home\\b.txt", EntryKind::File, Some(222)),
    ];
    let mut ix1 = Indexer::new(settings(&["c:\\home"], &[], 100, 50));
    let mut ix2 = Indexer::new(settings(&["c:\\home"], &[], 100, 50));
    ix1.index_files(&e1).unwrap();
    ix2.index_files(&e2).unwrap();
    let out1 = ix1.search("").unwrap();
    let out2 = ix2.search("").unwrap();
    assert_eq!(tuples(out1), tuples(out2));
}

#[test]
fn zero_cap_admits_nothing() {
    let entries = vec![plain("c:\\home\\a.txt")];
    let mut ix = Indexer::new(settings(&["c:\\home"], &[], 0, 50));
    ix.index_files(&entries).unwrap();
    assert!(ix.search("").unwrap().is_empty());
}

#[test]
fn cap_admits_exactly_the_cap() {
    let entries = vec![
        plain("c:\\home\\one.txt"),
        plain("c:\\home\\two.txt"),
        plain("c:\\home\\three.txt"),
        plain("c:\\home\\four.txt"),
    ];
    let mut ix = Indexer::new(settings(&["c:\\home"], &[], 2, 50));
    ix.index_files(&entries).unwrap();
    let out = ix.search("").unwrap();
    // the first two admissible entries and nothing more
    assert_eq!(
        tuples(out)
            .into_iter()
            .map(|t| t.0)
            .collect::<Vec<String>>(),
        vec!["c:\\home\\one.txt", "c:\\home\\two.txt"]
    );
}

#[test]
fn ignored_directories_are_excluded() {
    let entries = vec![
        plain("c:\\home\\keep.txt"),
        plain("c:\\home\\node_modules\\drop.txt"),
        plain("c:\\home\\sub\\Node_Modules\\drop2.txt"),
    ];
    let mut ix = Indexer::new(settings(&["c:\\home"], &["node_modules"], 100, 50));
    ix.index_files(&entries).unwrap();
    let out = ix.search("drop").unwrap();
    assert!(out.is_empty());
    let kept = ix.search("keep").unwrap();
    assert_eq!(kept.len(), 1);
    assert_eq!(kept[0].id, "c:\\home\\keep.txt");
}

#[test]
fn system_paths_are_excluded() {
    let entries = vec![
        plain("c:\\windows\\system32\\cmd.exe"),
        plain("c:\\home\\.git\\config"),
        plain("c:\\home\\appdata\\roaming\\x.txt"),
        plain("c:\\program files\\tool\\tool.exe"),
        plain("c:\\home\\fine.txt"),
    ];
    let mut ix = Indexer::new(settings(&["c:\\home", "c:\\"], &[], 100, 50));
    ix.index_files(&entries).unwrap();
    let out = ix.search("").unwrap();
    assert_eq!(out.len(), 1);
    assert_eq!(out[0].id, "c:\\home\\fine.txt");
}

#[test]
fn user_content_directories_always_admitted() {
    // not under any configured root, but under a well-known user directory
    let entries = vec![plain("d:\\users\\kim\\documents\\cv.txt")];
    let mut ix = Indexer::new(settings(&["c:\\home"], &[], 100, 50));
    ix.index_files(&entries).unwrap();
    let out = ix.search("cv").unwrap();
    assert_eq!(out.len(), 1);
}

#[test]
fn outside_roots_rejected() {
    let entries = vec![plain("e:\\elsewhere\\a.txt")];
    let mut ix = Indexer::new(settings(&["c:\\home"], &[], 100, 50));
    ix.index_files(&entries).unwrap();
    assert!(ix.search("a").unwrap().is_empty());
}

#[test]
fn entry_classification() {
    let entries = vec![
        dir("c:\\home\\stuff"),
        plain("c:\\home\\tool.exe"),
        plain("c:\\home\\notes.txt"),
    ];
    let mut ix = Indexer::new(settings(&["c:\\home"], &[], 100, 50));
    ix.index_files(&entries).unwrap();
    let out = ix.search("").unwrap();
    let ts = tuples(out);
    assert_eq!(ts[0].2, ResultType::File); // notes.txt
    assert_eq!(ts[1].2, ResultType::Folder); // stuff
    assert_eq!(ts[2].2, ResultType::Application); // tool.exe
    assert_eq!(ts[1].1, "stuff");
}

#[test]
fn other_entries_do_not_consume_the_cap() {
    let entries = vec![
        entry("c:\\home\\link", EntryKind::Other, Some(1)),
        plain("c:\\home\\real.txt"),
    ];
    let mut ix = Indexer::new(settings(&["c:\\home"], &[], 1, 50));
    ix.index_files(&entries).unwrap();
    let out = ix.search("real").unwrap();
    assert_eq!(out.len(), 1);
}

#[test]
fn missing_metadata_aborts_rebuild() {
    let entries = vec![
        plain("c:\\home\\ok.txt"),
        entry("c:\\home\\bad.txt", EntryKind::File, None),
        plain("c:\\home\\late.txt"),
    ];
    let mut ix = Indexer::new(settings(&["c:\\home"], &[], 100, 50));
    let err = ix.index_files(&entries).unwrap_err();
    match err {
        IndexError::IndexingError(p) => assert_eq!(p, "c:\\home\\bad.txt"),
        other => panic!("unexpected error kind: {}", other.kind_name()),
    }
    // what was admitted before the failure stays
    assert_eq!(ix.search("ok").unwrap().len(), 1);
    assert!(ix.search("late").unwrap().is_empty());
}

#[test]
fn empty_basename_aborts_rebuild() {
    let entries = vec![dir("c:\\home\\x\\")];
    let mut ix = Indexer::new(settings(&["c:\\home"], &[], 100, 50));
    let err = ix.index_files(&entries).unwrap_err();
    assert_eq!(err.kind_name(), "indexing error");
}

#[test]
fn enumeration_failure_surfaces_stderr() {
    let mut ix = Indexer::new(settings(&["c:\\home"], &[], 100, 50));
    let err = ix
        .index_windows_apps(false, "", "registry query refused", 5)
        .unwrap_err();
    match err {
        IndexError::CommandExecutionFailed(msg) => assert_eq!(msg, "registry query refused"),
        other => panic!("unexpected error kind: {}", other.kind_name()),
    }
}

#[test]
fn enumeration_parses_table_lines() {
    let stdout = "DisplayName DisplayVersion InstallLocation\n----\n\n\
                  Paint Studio 2.1 20240101 c:\\apps\\paint\n\
                  short line\n\
                  Solo 1.0 20240202 c:\\apps\\solo\n";
    let mut ix = Indexer::new(settings(&["c:\\home"], &[], 100, 50));
    ix.index_windows_apps(true, stdout, "", 5).unwrap();
    let out = ix.search("paint").unwrap();
    assert_eq!(out.len(), 1);
    assert_eq!(out[0].result_type, ResultType::Application);
    assert_eq!(out[0].name, "Paint Studio 2.1");
    assert_eq!(out[0].path, "c:\\apps\\paint");
    assert_eq!(out[0].last_modified, 5);
    // a line with fewer than three fields yields nothing
    assert!(ix.search("short").unwrap().is_empty());
    assert_eq!(ix.search("solo").unwrap().len(), 1);
}

#[test]
fn rebuild_runs_walk_then_enumeration() {
    let entries = vec![plain("c:\\home\\plan.txt")];
    let stdout = "a\nb\nc\nViewer App 3.0 20240101 c:\\apps\\viewer\n";
    let mut ix = Indexer::new(settings(&["c:\\old"], &[], 100, 50));
    let s = settings(&["c:\\home"], &[], 100, 50);
    ix.rebuild(s, &entries, true, stdout, "", 9).unwrap();
    assert_eq!(ix.search("plan").unwrap().len(), 1);
    assert_eq!(ix.search("viewer").unwrap().len(), 1);
}

#[test]
fn rebuild_applies_new_settings() {
    // the old settings admit nothing; the new settings must govern the walk
    let entries = vec![plain("c:\\home\\seen.txt")];
    let mut ix = Indexer::new(settings(&["z:\\nowhere"], &[], 100, 50));
    ix.rebuild(
        settings(&["c:\\home"], &[], 100, 50),
        &entries,
        true,
        "",
        "",
        9,
    )
    .unwrap();
    assert_eq!(ix.search("seen").unwrap().len(), 1);
}

#[test]
fn rebuild_clears_previous_generation() {
    let first = vec![plain("c:\\home\\old.txt")];
    let second = vec![plain("c:\\home\\new.txt")];
    let mut ix = Indexer::new(settings(&["c:\\home"], &[], 100, 50));
    ix.index_files(&first).unwrap();
    assert_eq!(ix.search("old").unwrap().len(), 1);
    ix.index_files(&second).unwrap();
    assert!(ix.search("old").unwrap().is_empty());
    assert_eq!(ix.search("new").unwrap().len(), 1);
}

#[test]
fn reinsertion_with_same_id_overwrites() {
    // the same path walked twice: the later record wins, once in the index
    let entries = vec![
        entry("c:\\home\\dup.txt", EntryKind::File, Some(1)),
        entry("c:\\home\\dup.txt", EntryKind::File, Some(2)),
    ];
    let mut ix = Indexer::new(settings(&["c:\\home"], &[], 100, 50));
    ix.index_files(&entries).unwrap();
    let out = ix.search("dup").unwrap();
    assert_eq!(out.len(), 1);
    assert_eq!(out[0].last_modified, 2);
}

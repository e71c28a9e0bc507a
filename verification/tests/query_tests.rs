//! Scenario tests for the query engine: ranking, folder precedence, the
//! exact-folder short circuit, truncation, and query-folding insensitivity.

use osai::models::{ResultType, SearchMode, SearchResult};
use osai::query::{run_query, search_folder_and_files};

fn file(name: &str, path: &str) -> SearchResult {
    SearchResult {
        id: path.to_string(),
        name: name.to_string(),
        result_type: ResultType::File,
        path: path.to_string(),
        last_modified: 1,
    }
}

fn folder(name: &str, path: &str) -> SearchResult {
    SearchResult {
        id: path.to_string(),
        name: name.to_string(),
        result_type: ResultType::Folder,
        path: path.to_string(),
        last_modified: 1,
    }
}

fn app(name: &str, path: &str) -> SearchResult {
    SearchResult {
        id: path.to_string(),
        name: name.to_string(),
        result_type: ResultType::Application,
        path: path.to_string(),
        last_modified: 1,
    }
}

fn names(rs: &[SearchResult]) -> Vec<String> {
    rs.iter().map(|r| r.name.clone()).collect()
}

#[test]
fn ranking_exact_prefix_substring() {
    let records = vec![
        file("My Report", "C:\\docs\\My Report"),
        file("Report Final", "C:\\docs\\Report Final"),
        file("Report", "C:\\docs\\Report"),
    ];
    let out = run_query(records, "report", SearchMode::CustomIndex, 10);
    assert_eq!(names(&out), vec!["Report", "Report Final", "My Report"]);
}

#[test]
fn folders_precede_files_regardless_of_score() {
    // the file's name matches the query exactly; the folder only contains it
    let records = vec![
        file("notes", "C:\\data\\notes"),
        folder("znotes-archive", "C:\\data\\znotes-archive"),
    ];
    let out = run_query(records, "notes", SearchMode::CustomIndex, 10);
    assert_eq!(out.len(), 2);
    assert_eq!(out[0].result_type, ResultType::Folder);
    assert_eq!(out[0].name, "znotes-archive");
    assert_eq!(out[1].result_type, ResultType::File);
}

#[test]
fn folders_sort_by_name_ascending() {
    let records = vec![
        folder("pear", "C:\\d\\pear"),
        folder("apple", "C:\\d\\apple"),
        folder("mango", "C:\\d\\mango"),
    ];
    let out = run_query(records, "a", SearchMode::CustomIndex, 10);
    assert_eq!(names(&out), vec!["apple", "mango", "pear"]);
}

#[test]
fn exact_folder_match_short_circuits_partials() {
    let records = vec![
        folder("docs", "C:\\data\\docs"),
        file("docs-overview", "C:\\data\\docs-overview"),
        folder("docs-old", "C:\\data\\docs-old"),
    ];
    let out = run_query(records, "docs", SearchMode::CustomIndex, 10);
    assert_eq!(names(&out), vec!["docs"]);
}

#[test]
fn truncation_caps_files_not_applications() {
    let records = vec![
        file("log1", "C:\\d\\log1"),
        file("log12", "C:\\d\\log12"),
        file("log123", "C:\\d\\log123"),
        file("log1234", "C:\\d\\log1234"),
        app("log1viewer", "C:\\apps\\log1viewer"),
    ];
    let out = run_query(records, "log1", SearchMode::CustomIndex, 2);
    assert_eq!(out.len(), 3);
    // exactly two non-application records survive the cap
    assert_eq!(out[0].result_type, ResultType::File);
    assert_eq!(out[1].result_type, ResultType::File);
    // the exact match ranks first, the shortest extension second
    assert_eq!(out[0].name, "log1");
    assert_eq!(out[1].name, "log12");
    // applications come last and are not capped away
    assert_eq!(out[2].result_type, ResultType::Application);
    assert_eq!(out[2].name, "log1viewer");
}

#[test]
fn windows_native_mode_returns_applications_only() {
    let records = vec![
        file("notes", "C:\\d\\notes"),
        app("notepad", "C:\\apps\\notepad"),
    ];
    let out = run_query(records, "not", SearchMode::WindowsNative, 10);
    assert_eq!(names(&out), vec!["notepad"]);
    assert_eq!(out[0].result_type, ResultType::Application);
}

#[test]
fn query_case_insensitive() {
    let records = vec![
        file("Budget", "C:\\docs\\Budget"),
        app("BudgetTool", "C:\\apps\\BudgetTool"),
    ];
    let lower = run_query(records.clone(), "budget", SearchMode::CustomIndex, 10);
    let upper = run_query(records, "BUDGET", SearchMode::CustomIndex, 10);
    assert_eq!(names(&lower), names(&upper));
    assert_eq!(names(&lower), vec!["Budget", "BudgetTool"]);
}

#[test]
fn query_composition_insensitive() {
    // a folder whose name is a precomposed e-acute
    let records = vec![folder("caf\u{e9}", "C:\\d\\caf\u{e9}")];
    // the same query spelled with a combining acute accent
    let decomposed = "cafe\u{301}";
    let out = run_query(records, decomposed, SearchMode::CustomIndex, 10);
    assert_eq!(out.len(), 1);
    assert_eq!(out[0].name, "caf\u{e9}");
}

#[test]
fn empty_query_matches_everything_matchable() {
    let records = vec![
        file("alpha", "C:\\d\\alpha"),
        folder("beta", "C:\\d\\beta"),
        app("gamma", "C:\\apps\\gamma"),
    ];
    let out = run_query(records, "", SearchMode::CustomIndex, 10);
    // folder first, then the file, then the application
    assert_eq!(names(&out), vec!["beta", "alpha", "gamma"]);
}

#[test]
fn application_name_match_is_case_insensitive() {
    let records = vec![app("FireFox", "C:\\apps\\firefox")];
    let out = run_query(records, "firefox", SearchMode::CustomIndex, 10);
    assert_eq!(names(&out), vec!["FireFox"]);
}

#[test]
fn file_phase_ranks_and_truncates() {
    let cands = vec![
        file("notes-b", "C:\\d\\notes-b"),
        folder("znotes", "C:\\d\\znotes"),
        file("notes", "C:\\d\\notes"),
        folder("anotes", "C:\\d\\anotes"),
    ];
    let out = search_folder_and_files(cands, "notes", 3);
    // folders by name first, then files by relevance, cut to three
    assert_eq!(names(&out), vec!["anotes", "znotes", "notes"]);
}

#[test]
fn path_substring_matches_partial_phase() {
    // name does not contain the query, but the full path does
    let records = vec![file("readme.txt", "C:\\projects\\secret\\readme.txt")];
    let out = run_query(records, "secret", SearchMode::CustomIndex, 10);
    assert_eq!(out.len(), 1);
    assert_eq!(out[0].name, "readme.txt");
}

//! Tests of the string toolkit, tokenizer, relevance scoring, extraction
//! decisions, settings defaults, and error mapping.

use osai::error::{IoErrorKind, OsaiError};
use osai::extract::{content_kind_of, summarize_text, ContentKind};
use osai::models::{SearchMode, Settings};
use osai::prompts::{format_system_prompt, str_replace};
use osai::rank::calculate_relevance;
use osai::text::{basename, str_ends_with, str_find, str_has_sub, str_lex_le, str_starts_with};
use osai::tokens::{split_newlines, tokens_of};

#[test]
fn find_reports_first_occurrence() {
    assert_eq!(str_find("hello", "ll"), Some(2));
    assert_eq!(str_find("abcabc", "bc"), Some(1));
    assert_eq!(str_find("abc", "zz"), None);
    assert_eq!(str_find("abc", ""), Some(0));
    assert_eq!(str_find("", "a"), None);
}

#[test]
fn substring_prefix_suffix() {
    assert!(str_has_sub("filesystem", "sys"));
    assert!(!str_has_sub("filesystem", "sys "));
    assert!(str_starts_with("filesystem", "file"));
    assert!(!str_starts_with("filesystem", "system"));
    assert!(str_ends_with("tool.exe", ".exe"));
    assert!(!str_ends_with("tool.exercise", ".exe"));
}

#[test]
fn lexicographic_order() {
    assert!(str_lex_le("apple", "banana"));
    assert!(!str_lex_le("banana", "apple"));
    assert!(str_lex_le("app", "apple"));
    assert!(str_lex_le("same", "same"));
}

#[test]
fn basename_takes_after_last_separator() {
    assert_eq!(basename("c:\\users\\kim\\cv.txt"), "cv.txt");
    assert_eq!(basename("/home/kim/cv.txt"), "cv.txt");
    assert_eq!(basename("plain"), "plain");
    assert_eq!(basename("c:\\users\\kim\\"), "");
}

#[test]
fn relevance_tiers() {
    assert_eq!(calculate_relevance("Report", "report"), usize::MAX);
    assert_eq!(calculate_relevance("Report Final", "report"), usize::MAX - 1);
    assert_eq!(calculate_relevance("My Report", "report"), usize::MAX - 2 - 3);
    assert_eq!(calculate_relevance("nothing here", "report"), 0);
}

#[test]
fn tokenizer_splits_on_runs_of_white_space() {
    let toks = tokens_of("  alpha\t beta\r\n gamma ");
    assert_eq!(toks, vec!["alpha", "beta", "gamma"]);
    assert!(tokens_of("   ").is_empty());
    assert!(tokens_of("").is_empty());
}

#[test]
fn newline_split_keeps_empty_lines() {
    assert_eq!(split_newlines("a\n\nb\n"), vec!["a", "", "b", ""]);
    assert_eq!(split_newlines(""), vec![""]);
}

#[test]
fn summarize_unlimited_is_identity() {
    assert_eq!(summarize_text("keep it all", None), "keep it all");
}

#[test]
fn summarize_limits_words_then_characters() {
    // a 10-character limit keeps 10 / 5 = 2 words
    assert_eq!(
        summarize_text("one two three four five", Some(10)),
        "one two"
    );
    // the joined words are then cut to the character limit
    assert_eq!(summarize_text("sevenletters more words", Some(5)), "seven");
}

#[test]
fn content_kind_selection() {
    assert_eq!(content_kind_of("image/png"), ContentKind::Image);
    assert_eq!(content_kind_of("application/pdf"), ContentKind::Pdf);
    assert_eq!(
        content_kind_of(
            "application/vnd.openxmlformats-officedocument.wordprocessingml.document"
        ),
        ContentKind::Docx
    );
    assert_eq!(
        content_kind_of("application/vnd.openxmlformats-officedocument.spreadsheetml.sheet"),
        ContentKind::Xlsx
    );
    assert_eq!(content_kind_of("application/json"), ContentKind::Json);
    assert_eq!(content_kind_of("text/plain"), ContentKind::Text);
    assert_eq!(content_kind_of("application/octet-stream"), ContentKind::Text);
}

#[test]
fn default_settings_fields() {
    let s = Settings::default_with_root("c:\\users\\kim".to_string());
    assert_eq!(s.search_paths, vec!["c:\\users\\kim"]);
    assert_eq!(
        s.ignored_directories,
        vec![
            "node_modules",
            "target",
            "build",
            "dist",
            ".git",
            ".svn",
            "vendor",
            ".vscode",
            ".idea",
            "__pycache__",
            "venv"
        ]
    );
    assert_eq!(s.hotkey, "CommandOrControl+Space");
    assert_eq!(s.max_index_files, 100000);
    assert_eq!(s.max_search_results, 10);
    assert!(matches!(s.search_mode, SearchMode::CustomIndex));
}

#[test]
fn io_error_mapping() {
    match OsaiError::from_io(IoErrorKind::NotFound, "gone".to_string()) {
        OsaiError::FileNotFound(m) => assert_eq!(m, "gone"),
        _ => panic!("wrong variant"),
    }
    match OsaiError::from_io(IoErrorKind::PermissionDenied, "locked".to_string()) {
        OsaiError::PermissionDenied(m) => assert_eq!(m, "locked"),
        _ => panic!("wrong variant"),
    }
    match OsaiError::from_io(IoErrorKind::Other, "odd".to_string()) {
        OsaiError::Io(m) => assert_eq!(m, "odd"),
        _ => panic!("wrong variant"),
    }
}

#[test]
fn replace_substitutes_every_occurrence() {
    assert_eq!(str_replace("a-b-c", "-", "+"), "a+b+c");
    assert_eq!(str_replace("aaa", "aa", "b"), "ba");
    assert_eq!(str_replace("hello", "zz", "x"), "hello");
    assert_eq!(str_replace("hello", "", "x"), "hello");
    assert_eq!(str_replace("{X} and {X}", "{X}", "y"), "y and y");
}

#[test]
fn system_prompt_substitutes_host_facts() {
    let p = format_system_prompt("Linux", "6.1", "x86_64");
    assert!(p.contains("- Type: Linux"));
    assert!(p.contains("- Version: 6.1"));
    assert!(p.contains("- Architecture: x86_64"));
    assert!(!p.contains("{OS_TYPE}"));
    assert!(!p.contains("{OS_VERSION}"));
    assert!(!p.contains("{ARCH}"));
}

#[test]
fn case_folding_reaches_the_scores() {
    // if case folding handed its input back unchanged, these would differ
    assert_eq!(calculate_relevance("ABC", "abc"), usize::MAX);
    assert_eq!(calculate_relevance("\u{c9}TUDE", "\u{e9}tude"), usize::MAX);
}

//! Tests of the inclusion policy and its precedence rules.

use osai::models::{SearchMode, Settings};
use osai::policy::should_index;

fn settings(roots: &[&str], ignored: &[&str]) -> Settings {
    Settings {
        search_paths: roots.iter().map(|s| s.to_string()).collect(),
        ignored_directories: ignored.iter().map(|s| s.to_string()).collect(),
        hotkey: String::new(),
        max_index_files: 1000,
        max_search_results: 10,
        search_mode: SearchMode::CustomIndex,
    }
}

#[test]
fn ignored_substring_rejects_case_insensitively() {
    let s = settings(&["c:\\home"], &["Node_Modules"]);
    assert!(!should_index("c:\\home\\NODE_MODULES\\x.js", &s));
    assert!(should_index("c:\\home\\src\\x.js", &s));
}

#[test]
fn ignore_list_beats_user_directory_allowance() {
    let s = settings(&["c:\\home"], &["documents"]);
    // under a well-known user directory, but the ignore list wins
    assert!(!should_index("c:\\home\\documents\\cv.txt", &s));
}

#[test]
fn system_exclusion_beats_user_directory_allowance() {
    let s = settings(&["c:\\users\\kim"], &[]);
    // a hidden-dot segment inside a documents tree is still rejected
    assert!(!should_index("c:\\users\\kim\\documents\\.cache\\f", &s));
    assert!(!should_index("c:\\users\\kim\\appdata\\documents\\f", &s));
}

#[test]
fn user_directories_beat_root_membership() {
    let s = settings(&["c:\\elsewhere"], &[]);
    assert!(should_index("d:\\users\\kim\\downloads\\setup.iso", &s));
    assert!(should_index("d:\\users\\kim\\pictures\\cat.png", &s));
    assert!(should_index("d:\\users\\kim\\music\\track.mp3", &s));
    assert!(should_index("d:\\users\\kim\\videos\\clip.mp4", &s));
    assert!(should_index("d:\\users\\kim\\desktop\\note.txt", &s));
}

#[test]
fn root_membership_is_a_case_insensitive_prefix_test() {
    let s = settings(&["C:\\Home"], &[]);
    assert!(should_index("c:\\home\\a.txt", &s));
    assert!(!should_index("c:\\other\\a.txt", &s));
}

#[test]
fn no_rule_matches_means_rejection() {
    let s = settings(&[], &[]);
    assert!(!should_index("q:\\stray\\file.txt", &s));
}

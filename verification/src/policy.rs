//! The inclusion policy: which visited paths are admitted into the index.
//!
//! All checks run over the lowercased path.  The ignore list and the
//! system-location exclusions take precedence over the allowance for
//! well-known user-content directories, which in turn takes precedence over
//! membership in a configured search root.

use vstd::prelude::*;
use crate::models::{Settings, SettingsV};
use crate::normalize::{lower_of, lowercase};
use crate::text::{has_sub, str_has_sub, str_starts_with};

verus! {

/// A hidden or system location: a hidden-dot segment, an application-data
/// segment, the OS system directory, or the program-install directory.
pub open spec fn spec_is_system_path(lp: Seq<char>) -> bool {
    ||| has_sub(lp, "\\."@)
    ||| has_sub(lp, "\\appdata"@)
    ||| has_sub(lp, "\\windows\\"@)
    ||| has_sub(lp, "\\program files"@)
}

/// A well-known user-content directory, admitted regardless of the
/// configured search roots.
pub open spec fn spec_is_user_dir(lp: Seq<char>) -> bool {
    ||| has_sub(lp, "\\documents\\"@)
    ||| has_sub(lp, "\\downloads\\"@)
    ||| has_sub(lp, "\\pictures\\"@)
    ||| has_sub(lp, "\\music\\"@)
    ||| has_sub(lp, "\\videos\\"@)
    ||| has_sub(lp, "\\desktop\\"@)
}

/// The lowercased path contains some lowercased ignored-directory substring.
pub open spec fn spec_in_ignored(lp: Seq<char>, s: SettingsV) -> bool {
    exists|i: int|
        0 <= i < s.ignored_directories.len() && has_sub(lp, lower_of(s.ignored_directories[i]))
}

/// The lowercased path lies lexically under some configured search root.
pub open spec fn spec_in_search_paths(lp: Seq<char>, s: SettingsV) -> bool {
    exists|i: int| 0 <= i < s.search_paths.len() && lower_of(s.search_paths[i]).is_prefix_of(lp)
}

/// The inclusion policy for a candidate absolute path.
pub open spec fn spec_should_index(path: Seq<char>, s: SettingsV) -> bool {
    let lp = lower_of(path);
    if spec_in_ignored(lp, s) {
        false
    } else if spec_is_system_path(lp) {
        false
    } else if spec_is_user_dir(lp) {
        true
    } else {
        spec_in_search_paths(lp, s)
    }
}

/// Decide admission of `path` under `settings`.
#[verifier::loop_isolation(false)]
pub fn should_index(path: &str, settings: &Settings) -> (r: bool)
    ensures
        r == spec_should_index(path@, settings@),
{
    let lp = lowercase(path);
    let lps = lp.as_str();
    let n = settings.ignored_directories.len();
    let mut i: usize = 0;
    while i < n
        invariant
            n == settings.ignored_directories@.len(),
            lps@ == lower_of(path@),
            i <= n,
            forall|k: int|
                0 <= k < i ==> !has_sub(lps@, lower_of(settings@.ignored_directories[k])),
        decreases n - i,
    {
        let ld = lowercase(settings.ignored_directories[i].as_str());
        proof {
            assert(settings@.ignored_directories[i as int] == settings.ignored_directories@[i as int]@);
        }
        if str_has_sub(lps, ld.as_str()) {
            return false;
        }
        i += 1;
    }
    assert(!spec_in_ignored(lps@, settings@));
    if str_has_sub(lps, "\\.") || str_has_sub(lps, "\\appdata") || str_has_sub(lps, "\\windows\\")
        || str_has_sub(lps, "\\program files") {
        return false;
    }
    if str_has_sub(lps, "\\documents\\") || str_has_sub(lps, "\\downloads\\") || str_has_sub(
        lps,
        "\\pictures\\",
    ) || str_has_sub(lps, "\\music\\") || str_has_sub(lps, "\\videos\\") || str_has_sub(
        lps,
        "\\desktop\\",
    ) {
        return true;
    }
    let m = settings.search_paths.len();
    let mut j: usize = 0;
    while j < m
        invariant
            m == settings.search_paths@.len(),
            lps@ == lower_of(path@),
            j <= m,
            forall|k: int|
                0 <= k < j ==> !lower_of(settings@.search_paths[k]).is_prefix_of(lps@),
        decreases m - j,
    {
        let lsp = lowercase(settings.search_paths[j].as_str());
        proof {
            assert(settings@.search_paths[j as int] == settings.search_paths@[j as int]@);
        }
        if str_starts_with(lps, lsp.as_str()) {
            proof {
                assert(spec_in_search_paths(lps@, settings@)) by {
                    assert(lower_of(settings@.search_paths[j as int]).is_prefix_of(lps@));
                }
            }
            return true;
        }
        j += 1;
    }
    assert(!spec_in_search_paths(lps@, settings@));
    false
}

} // verus!

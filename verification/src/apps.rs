//! Parsing of the host's application-enumeration output.
//!
//! The enumeration subprocess prints a table: three header lines, then one
//! line per installed application whose white-space-separated fields end in
//! the install date and the install location.  Every line with at least
//! three fields yields one application record: the name is all fields but
//! the last two joined by single spaces, the key the last field.

use vstd::prelude::*;
use vstd::string::StringExecFns;
use crate::models::{RecordV, ResultType, SearchResult};
use crate::tokens::{join_space, spec_join_space, spec_tokens, string_views, tokens_of};

verus! {

/// The application record of one enumeration line: with at least three
/// fields, the name is all fields but the last two joined by single spaces
/// and the install location the last field; shorter lines yield nothing.
pub open spec fn spec_parse_app_line(line: Seq<char>, now: u64) -> Option<RecordV> {
    let toks = spec_tokens(line);
    if toks.len() >= 3 {
        Some(
            RecordV {
                id: toks[toks.len() - 1],
                name: spec_join_space(toks.subrange(0, toks.len() - 2)),
                result_type: ResultType::Application,
                path: toks[toks.len() - 1],
                last_modified: now,
            },
        )
    } else {
        None
    }
}

/// Parse one line of the enumeration output, timestamping the record `now`.
pub fn parse_app_line(line: &str, now: u64) -> (r: Option<SearchResult>)
    ensures
        match r {
            Some(rec) => spec_parse_app_line(line@, now) == Some(rec@),
            None => spec_parse_app_line(line@, now) is None,
        },
{
    let toks = tokens_of(line);
    let n = toks.len();
    if n >= 3 {
        let name = join_space(&toks, n - 2);
        let loc = toks[n - 1].clone();
        let rec = SearchResult {
            id: loc.clone(),
            name,
            result_type: ResultType::Application,
            path: loc,
            last_modified: now,
        };
        proof {
            assert(string_views(toks@)[n - 1] == toks@[n - 1]@);
        }
        Some(rec)
    } else {
        None
    }
}

} // verus!

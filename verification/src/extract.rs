//! Decisions of the content-extraction pipeline: which extractor a MIME
//! type selects, and plain-text summarization.  Opening files and running
//! the extractors themselves is the caller's work.

use vstd::prelude::*;
use vstd::string::{StrSliceExecFns, StringExecFns};
use crate::text::{str_eq, str_starts_with};
use crate::tokens::{join_space, spec_join_space, spec_tokens, string_views, tokens_of};

verus! {

/// The extractor that a MIME type selects.
#[derive(Clone, Copy, PartialEq, Eq, Structural, Debug)]
pub enum ContentKind {
    Image,
    Pdf,
    Docx,
    Xlsx,
    Json,
    Text,
}

/// Which extractor `mime` selects: images by prefix, the concrete document
/// types by equality, and plain text for everything else.
pub open spec fn spec_content_kind(mime: Seq<char>) -> ContentKind {
    if "image/"@.is_prefix_of(mime) {
        ContentKind::Image
    } else if mime == "application/pdf"@ {
        ContentKind::Pdf
    } else if mime
        == "application/vnd.openxmlformats-officedocument.wordprocessingml.document"@ {
        ContentKind::Docx
    } else if mime == "application/vnd.openxmlformats-officedocument.spreadsheetml.sheet"@ {
        ContentKind::Xlsx
    } else if mime == "application/json"@ {
        ContentKind::Json
    } else {
        ContentKind::Text
    }
}

/// Select the extractor for `mime`.
pub fn content_kind_of(mime: &str) -> (r: ContentKind)
    ensures
        r == spec_content_kind(mime@),
{
    if str_starts_with(mime, "image/") {
        ContentKind::Image
    } else if str_eq(mime, "application/pdf") {
        ContentKind::Pdf
    } else if str_eq(mime, "application/vnd.openxmlformats-officedocument.wordprocessingml.document") {
        ContentKind::Docx
    } else if str_eq(mime, "application/vnd.openxmlformats-officedocument.spreadsheetml.sheet") {
        ContentKind::Xlsx
    } else if str_eq(mime, "application/json") {
        ContentKind::Json
    } else {
        ContentKind::Text
    }
}

/// A summary of `text`: with no limit, the text itself; limited to
/// `max_len` characters, the first `max_len / 5` tokens joined by single
/// spaces, truncated to `max_len` characters.
pub open spec fn spec_summarize(text: Seq<char>, max_length: Option<usize>) -> Seq<char> {
    match max_length {
        Option::Some(max_len) => {
            let toks = spec_tokens(text);
            let k: int = if max_len / 5 <= toks.len() {
                (max_len / 5) as int
            } else {
                toks.len() as int
            };
            let joined = spec_join_space(toks.subrange(0, k));
            if joined.len() <= max_len {
                joined
            } else {
                joined.take(max_len as int)
            }
        },
        Option::None => text,
    }
}

/// Summarize `text`, keeping at most `max_length` characters when a limit
/// is given.
pub fn summarize_text(text: &str, max_length: Option<usize>) -> (r: String)
    ensures
        r@ == spec_summarize(text@, max_length),
{
    match max_length {
        Option::Some(max_len) => {
            let toks = tokens_of(text);
            let k = if max_len / 5 <= toks.len() {
                max_len / 5
            } else {
                toks.len()
            };
            let joined = join_space(&toks, k);
            let jl = joined.as_str().unicode_len();
            if jl <= max_len {
                joined
            } else {
                joined.as_str().substring_char(0, max_len).to_owned()
            }
        },
        Option::None => text.to_owned(),
    }
}

} // verus!

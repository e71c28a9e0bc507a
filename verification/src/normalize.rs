//! Case folding and Unicode normalization.
//!
//! Both mappings are far too large to state here, but each is a pure function
//! of its argument's characters, so each gets a name that the contracts of
//! the rest of the crate speak of.

use vstd::prelude::*;
use unicode_normalization::UnicodeNormalization;

verus! {

/// The Unicode lowercase mapping of a character sequence.
pub uninterp spec fn lower_of(s: Seq<char>) -> Seq<char>;

/// The Unicode canonical composition (NFC) of a character sequence.
pub uninterp spec fn nfc_of(s: Seq<char>) -> Seq<char>;

/// Relies on str::to_lowercase: returns the Unicode lowercase mapping of the
/// input, a function of the input characters alone.
#[verifier::external_body]
pub(crate) fn lowercase(s: &str) -> (r: String)
    ensures
        r@ == lower_of(s@),
{
    s.to_lowercase()
}

/// Relies on unicode_normalization's `UnicodeNormalization::nfc` for `&str`:
/// returns the canonical composition of the input, a function of the input
/// characters alone.
#[verifier::external_body]
pub(crate) fn nfc_normalize(s: &str) -> (r: String)
    ensures
        r@ == nfc_of(s@),
{
    s.nfc().collect()
}

} // verus!

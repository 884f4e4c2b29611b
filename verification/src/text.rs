//! Unicode text normalization.  Both layout policies consume text in
//! canonical composed form (NFC), so that a combining sequence occupies one
//! visual glyph and one grid cell.

use vstd::prelude::*;
use unicode_normalization::UnicodeNormalization;

verus! {

/// The canonical composition (NFC) of a character sequence.  The composed
/// form is a function of the characters alone; its definition fills the
/// Unicode normalization annex, so it is left uninterpreted here and pinned
/// to the outside implementation by `nfc_exec`.
pub uninterp spec fn nfc_of(s: Seq<char>) -> Seq<char>;

/// Relies on unicode_normalization's `nfc` for `&str`: canonical
/// decomposition followed by canonical composition, a pure function of the
/// input characters.
#[verifier::external_body]
fn nfc_exec(s: &str) -> (r: Vec<char>)
    ensures
        r@ == nfc_of(s@),
{
    s.nfc().collect()
}

/// Normalize text to its canonical composed form, one element per glyph to
/// lay out.
pub fn normalize_text(s: &str) -> (r: Vec<char>)
    ensures
        r@ == nfc_of(s@),
{
    nfc_exec(s)
}

} // verus!

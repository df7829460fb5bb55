//! What is assumed of the text functions of the standard library that the
//! verifier has no specification of.

use vstd::prelude::*;

verus! {

/// `text` in lower case, as `str::to_lowercase` gives it: the lower case of
/// each character after the Unicode tables, which is the same for every
/// locale.
pub uninterp spec fn lowercase(text: Seq<char>) -> Seq<char>;

/// `str::to_lowercase`: a new string, `text` in lower case.
#[verifier::external_body]
pub(crate) fn to_lowercase(text: &str) -> (lower: String)
    ensures
        lower@ == lowercase(text@),
{
    text.to_lowercase()
}

} // verus!

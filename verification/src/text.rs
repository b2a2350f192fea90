//! Turning captured bytes into text.

use vstd::prelude::*;

verus! {

/// The text that a lossy UTF-8 decoding makes of `bytes`: the decoded
/// characters, with U+FFFD in place of each malformed sequence.
pub uninterp spec fn lossy_text(bytes: Seq<u8>) -> Seq<char>;

/// Decodes `bytes` with `String::from_utf8_lossy`. The contract claims only
/// that the text is a function of the bytes; it is not proved.
#[verifier::external_body]
pub(crate) fn utf8_lossy(bytes: &[u8]) -> (s: String)
    ensures
        s@ == lossy_text(bytes@),
{
    String::from_utf8_lossy(bytes).into_owned()
}

} // verus!

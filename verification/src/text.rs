//! Text decoding support.
//!
//! TIFF stores textual tags as raw bytes that must form valid UTF-8. The
//! decoding itself is delegated to the standard library; its result is
//! modelled by the uninterpreted function [`utf8_decode`], which contracts
//! elsewhere in the crate use to say exactly which characters a text tag
//! yields.

use vstd::prelude::*;

verus! {

/// What decoding a byte sequence as UTF-8 yields: the character sequence if
/// the bytes are valid UTF-8, and nothing otherwise. The result depends on
/// the bytes alone.
pub uninterp spec fn utf8_decode(bytes: Seq<u8>) -> Option<Seq<char>>;

/// Relies on String::from_utf8: it succeeds exactly on valid UTF-8 input,
/// the decoded characters are a function of the bytes alone, and an empty
/// input decodes to the empty string.
#[verifier::external_body]
pub(crate) fn string_from_utf8(bytes: Vec<u8>) -> (r: Option<String>)
    ensures
        match r {
            Some(s) => utf8_decode(bytes@) == Some(s@) && (bytes@.len() == 0 ==> s@.len() == 0),
            None => utf8_decode(bytes@) == None::<Seq<char>> && bytes@.len() != 0,
        },
{
    String::from_utf8(bytes).ok()
}

} // verus!

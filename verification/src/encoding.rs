//! The text form in which a payload travels inside a log line.

use vstd::prelude::*;

verus! {

/// The bytes that `text` stands for in base64 with the standard alphabet
/// and canonical padding, or `None` where `text` is no such encoding.
pub uninterp spec fn base64_decoded(text: Seq<u8>) -> Option<Seq<u8>>;

/// Decodes base64 text.
///
/// Trusted: this calls `base64::Engine::decode` on
/// `base64::engine::general_purpose::STANDARD`. The contract claims only
/// that what the call returns depends on `text` alone, so that it can be
/// spoken of as [`base64_decoded`]; a rejected text is `None`.
#[verifier::external_body]
pub(crate) fn decode_base64(text: &[u8]) -> (bytes: Option<Vec<u8>>)
    ensures
        match bytes {
            Some(decoded) => base64_decoded(text@) == Some(decoded@),
            None => base64_decoded(text@).is_none(),
        },
{
    base64::Engine::decode(&base64::engine::general_purpose::STANDARD, text).ok()
}

} // verus!

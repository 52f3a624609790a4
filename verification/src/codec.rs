//! Trusted boundary to the base64 decoder that upload payloads pass through.

use vstd::prelude::*;

verus! {

/// What standard-alphabet base64 decoding yields for a string: `None` where
/// the string is not valid base64, otherwise the decoded bytes. The outcome
/// is a function of the characters alone.
pub uninterp spec fn b64_decoded(s: Seq<char>) -> Option<Seq<u8>>;

/// Relies on `base64::decode` (the standard alphabet): whether a string
/// decodes, and to what bytes, depends only on its characters.
#[verifier::external_body]
pub fn base64_decode(s: &str) -> (r: Option<Vec<u8>>)
    ensures
        (r is Some) <==> (b64_decoded(s@) is Some),
        r is Some ==> b64_decoded(s@) == Some(r->0@),
{
    base64::decode(s).ok()
}

} // verus!

//! Small helpers shared by the surrounding application.

use vstd::prelude::*;
use vstd::string::StrSliceExecFns;
use vstd::string::StringExecFns;

verus! {

/// `uri` without one trailing slash, if it has one.
pub open spec fn without_trailing_slash(s: Seq<char>) -> Seq<char> {
    if s.len() > 0 && s.last() == '/' {
        s.drop_last()
    } else {
        s
    }
}

/// Normalize a request path: drop one trailing slash and put one leading
/// slash in front.
pub fn strip_slashes(uri: String) -> (r: String)
    ensures
        r@ == "/"@ + without_trailing_slash(uri@),
{
    let len = uri.as_str().unicode_len();
    let trimmed = if len > 0 && uri.as_str().get_char(len - 1) == '/' {
        uri.as_str().substring_char(0, len - 1).to_owned()
    } else {
        uri
    };
    proof {
        assert(trimmed@ =~= without_trailing_slash(uri@));
    }
    let mut r = "/".to_owned();
    r.append(trimmed.as_str());
    r
}

/// Relies on `std::time::SystemTime::now`: the seconds since the Unix epoch,
/// as the machine's clock gives them. Nothing is assumed of the value.
#[verifier::external_body]
pub fn get_timestamp() -> u64 {
    std::time::SystemTime::now()
        .duration_since(std::time::UNIX_EPOCH)
        .map(|d| d.as_secs())
        .unwrap_or(0)
}

} // verus!

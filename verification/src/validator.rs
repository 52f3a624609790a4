//! Shape check for asset identifiers: exactly 64 lowercase hexadecimal
//! characters. Used as a fail-fast gate before any mutation that involves a
//! client-supplied identifier.

use vstd::prelude::*;

verus! {

/// A character that may appear in an asset identifier: a decimal digit or a
/// lowercase hex letter.
pub open spec fn is_hex_digit_char(c: char) -> bool {
    ('0' <= c && c <= '9') || ('a' <= c && c <= 'f')
}

/// The canonical shape of an asset identifier: 64 lowercase hex characters.
pub open spec fn valid_asset_id(s: Seq<char>) -> bool {
    s.len() == 64 && forall|i: int| 0 <= i < s.len() ==> is_hex_digit_char(#[trigger] s[i])
}

/// True iff `s` has the canonical asset-identifier shape.
pub fn is_valid_asset_id(s: &str) -> (b: bool)
    ensures
        b == valid_asset_id(s@),
{
    let len = s.unicode_len();
    if len != 64 {
        return false;
    }
    let mut i: usize = 0;
    while i < 64
        invariant
            s@.len() == 64,
            0 <= i <= 64,
            forall|j: int| 0 <= j < i ==> is_hex_digit_char(#[trigger] s@[j]),
        decreases 64 - i,
    {
        let c = s.get_char(i);
        if !(('0' <= c && c <= '9') || ('a' <= c && c <= 'f')) {
            return false;
        }
        i += 1;
    }
    true
}

} // verus!

//! Small display helpers.

use vstd::prelude::*;

verus! {

use vstd::string::StringExecFns;
use vstd::string::StrSliceExecFns;

/// Abbreviate a hex string for display: strings of more than twenty
/// characters keep their first eight and last eight around an ellipsis;
/// shorter strings pass through unchanged.
pub fn abbreviate_hex(hex: &str) -> (r: String)
    ensures
        hex@.len() <= 20 ==> r@ == hex@,
        hex@.len() > 20 ==> r@ == hex@.subrange(0, 8) + "..."@ + hex@.subrange(
            hex@.len() - 8,
            hex@.len() as int,
        ),
{
    let n = hex.unicode_len();
    if n <= 20 {
        String::from_str(hex)
    } else {
        let head = hex.substring_char(0, 8);
        let tail = hex.substring_char(n - 8, n);
        String::from_str(head).concat("...").concat(tail)
    }
}

} // verus!

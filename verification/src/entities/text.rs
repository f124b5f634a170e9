//! Integers as text.

use vstd::prelude::*;

verus! {

/// What `to_string` returns for an unsigned integer: its decimal digits.
pub uninterp spec fn integer_text(n: u32) -> Seq<char>;

/// Calls `to_string` of std on an unsigned integer. Nothing is claimed of the
/// text but that it depends on the integer alone.
#[verifier::external_body]
pub(crate) fn integer_to_string(n: u32) -> (r: String)
    ensures
        r@ == integer_text(n),
{
    n.to_string()
}

} // verus!

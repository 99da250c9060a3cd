//! Two operations on text of the standard library, taken on trust: what
//! they do is stated here and proved nowhere.

use vstd::prelude::*;

verus! {

/// Wraps `str`'s `==`; the contract claims that it holds exactly when both
/// slices are the same sequence of characters.
#[verifier::external_body]
pub(crate) fn str_eq(a: &str, b: &str) -> (same: bool)
    ensures
        same == (a@ == b@),
{
    a == b
}

/// Wraps `char::to_string`; the contract claims that the text holds that one
/// character and nothing else.
#[verifier::external_body]
pub(crate) fn char_to_string(c: char) -> (text: String)
    ensures
        text@ == seq![c],
{
    c.to_string()
}

} // verus!

//! Case conversion, as `heck` does it.

use heck::{CamelCase, SnakeCase};
use vstd::prelude::*;

verus! {

/// A text in camel case, the first word capitalised too.
pub uninterp spec fn camel_case(text: Seq<char>) -> Seq<char>;

/// A text in snake case.
pub uninterp spec fn snake_case(text: Seq<char>) -> Seq<char>;

/// `heck`'s `CamelCase::to_camel_case` on a text: the text in camel case, named
/// [`camel_case`]. Where the words begin is left to `heck`.
#[verifier::external_body]
pub(crate) fn to_camel_case(text: &str) -> (converted: String)
    ensures
        converted@ == camel_case(text@),
{
    text.to_camel_case()
}

/// `heck`'s `SnakeCase::to_snake_case` on a text: the text in snake case, named
/// [`snake_case`]. Where the words begin is left to `heck`.
#[verifier::external_body]
pub(crate) fn to_snake_case(text: &str) -> (converted: String)
    ensures
        converted@ == snake_case(text@),
{
    text.to_snake_case()
}

} // verus!

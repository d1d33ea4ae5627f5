//! Case conversion of identifiers, done by the `heck` crate.
//!
//! `heck` splits a string into words at every character that is not an
//! ASCII letter or digit and at changes of case, and writes the words in the
//! wanted case. What it returns depends on the characters of the string
//! alone, and it returns for every string.

use vstd::prelude::*;
use heck::ToKebabCase;
use heck::ToSnakeCase;
use heck::ToUpperCamelCase;

verus! {

/// The upper camel case form that `heck` gives to a string.
pub uninterp spec fn upper_camel_case(s: Seq<char>) -> Seq<char>;

/// The snake case form that `heck` gives to a string.
pub uninterp spec fn snake_case(s: Seq<char>) -> Seq<char>;

/// The kebab case form that `heck` gives to a string.
pub uninterp spec fn kebab_case(s: Seq<char>) -> Seq<char>;

/// Calls `heck::ToUpperCamelCase::to_upper_camel_case` on `s`. The result
/// depends on the characters of `s` alone; [`upper_camel_case`] names it.
#[verifier::external_body]
pub(crate) fn to_upper_camel_case(s: &str) -> (r: String)
    ensures
        r@ == upper_camel_case(s@),
{
    s.to_upper_camel_case()
}

/// Calls `heck::ToSnakeCase::to_snake_case` on `s`. The result depends on
/// the characters of `s` alone; [`snake_case`] names it.
#[verifier::external_body]
pub(crate) fn to_snake_case(s: &str) -> (r: String)
    ensures
        r@ == snake_case(s@),
{
    s.to_snake_case()
}

/// Calls `heck::ToKebabCase::to_kebab_case` on `s`. The result depends on
/// the characters of `s` alone; [`kebab_case`] names it.
#[verifier::external_body]
pub(crate) fn to_kebab_case(s: &str) -> (r: String)
    ensures
        r@ == kebab_case(s@),
{
    s.to_kebab_case()
}

} // verus!

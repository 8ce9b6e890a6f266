use heck::{ToSnakeCase, ToUpperCamelCase};
use vstd::prelude::*;

verus! {

/// What `heck`'s `to_snake_case` makes of a string.
pub uninterp spec fn snake_case(s: Seq<char>) -> Seq<char>;

/// What `heck`'s `to_upper_camel_case` makes of a string.
pub uninterp spec fn upper_camel_case(s: Seq<char>) -> Seq<char>;

/// Calls `heck::ToSnakeCase::to_snake_case` on `s`. Trusted: the contract
/// only claims that the result is a function of `s` alone (heck's word
/// splitting is deterministic and reads nothing but its argument).
#[verifier::external_body]
pub(crate) fn to_snake_case(s: &str) -> (r: String)
    ensures
        r@ == snake_case(s@),
{
    s.to_snake_case()
}

/// Calls `heck::ToUpperCamelCase::to_upper_camel_case` on `s`. Trusted: the
/// contract only claims that the result is a function of `s` alone.
#[verifier::external_body]
pub(crate) fn to_upper_camel_case(s: &str) -> (r: String)
    ensures
        r@ == upper_camel_case(s@),
{
    s.to_upper_camel_case()
}

} // verus!

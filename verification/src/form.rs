//! Query strings.

use crate::text::same;
use vstd::prelude::*;

verus! {

/// The name and value pairs that `form_urlencoded::parse` reads from the bytes
/// of a query string.
pub uninterp spec fn form_pairs_of(query: Seq<char>) -> Seq<(Seq<char>, Seq<char>)>;

/// Calls `form_urlencoded::parse`: the decoded pairs of a query string, in
/// their order.
#[verifier::external_body]
pub(crate) fn form_pairs(query: &str) -> (r: Vec<(String, String)>)
    ensures
        r.deep_view() == form_pairs_of(query@),
{
    form_urlencoded::parse(query.as_bytes()).into_owned().collect()
}

/// The query values that switch something on.
pub open spec fn is_switched_on(v: Seq<char>) -> bool {
    v == "1"@ || v == "true"@ || v == "yes"@
}

/// Whether a query value switches something on.
pub fn switched_on(v: &str) -> (r: bool)
    ensures
        r == is_switched_on(v@),
{
    same(v, "1") || same(v, "true") || same(v, "yes")
}

} // verus!

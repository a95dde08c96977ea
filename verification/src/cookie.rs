//! Cookies: what a `Cookie` header holds, and the attributes of the cookies
//! that the server sets.

use crate::text::{
    has_piece, holds_piece, is_white, lemma_holds_alone, lemma_holds_joined, lemma_split_joined,
    lemma_split_without_separator, lemma_trim_after_space, lemma_trim_unchanged, lower_of, split_of,
    to_lower,
};
use vstd::prelude::*;

verus! {

/// Whether one of the parts of a `Cookie` header is `part`.
pub open spec fn cookie_holds(header: Seq<char>, part: Seq<char>) -> bool {
    holds_piece(header, ';', part)
}

/// Whether one of the parts of a `Cookie` header is `part`.
pub fn has_cookie(header: &str, part: &str) -> (r: bool)
    ensures
        r == cookie_holds(header@, part@),
{
    has_piece(header, ';', part)
}

/// A `Cookie` header that carries a cookie, with or without others before and
/// behind it.
pub open spec fn carrying(
    cookie: Seq<char>,
    before: Option<Seq<char>>,
    behind: Option<Seq<char>>,
) -> Seq<char> {
    let own = match before {
        Some(b) => b.push(';') + (seq![' '] + cookie),
        None => cookie,
    };
    match behind {
        Some(b) => own.push(';') + b,
        None => own,
    }
}

/// The scheme of the request in lower case; `http` where no proxy tells.
pub open spec fn scheme_of(forwarded_proto: Option<Seq<char>>) -> Seq<char> {
    lower_of(
        match forwarded_proto {
            Some(p) => p,
            None => "http"@,
        },
    )
}

/// The scheme of the request in lower case.
pub fn request_scheme(forwarded_proto: Option<&str>) -> (r: String)
    ensures
        r@ == scheme_of(forwarded_proto.deep_view()),
{
    match forwarded_proto {
        Some(p) => to_lower(p),
        None => to_lower("http"),
    }
}

/// A cookie is found in a header that carries it alone, and however many others
/// stand before and behind it. `before` and `behind` are the parts of the header
/// around it, without the semicolons.
pub proof fn carried_cookies_are_found(
    cookie: Seq<char>,
    before: Option<Seq<char>>,
    behind: Option<Seq<char>>,
)
    requires
        !cookie.contains(';'),
        cookie.len() > 0 ==> !is_white(cookie.first()) && !is_white(cookie.last()),
    ensures
        cookie_holds(carrying(cookie, before, behind), cookie),
{
    lemma_trim_unchanged(cookie);
    lemma_trim_after_space(cookie);
    let spaced = seq![' '] + cookie;
    assert(!spaced.contains(';')) by {
        if spaced.contains(';') {
            let i = choose|i: int| 0 <= i < spaced.len() && spaced[i] == ';';
            assert(cookie[i - 1] == ';');
        }
    }
    lemma_holds_alone(cookie, ';', cookie);
    lemma_holds_alone(spaced, ';', cookie);
    let own = match before {
        Some(b) => b.push(';') + spaced,
        None => cookie,
    };
    if before is Some {
        lemma_holds_joined(before->0, ';', spaced, cookie);
    }
    if behind is Some {
        lemma_holds_joined(own, ';', behind->0, cookie);
    }
}

/// What a browser sends back of a `Set-Cookie` value is what stands before the
/// first semicolon.
pub proof fn browsers_return_the_first_part(cookie: Seq<char>, attributes: Seq<char>)
    requires
        !cookie.contains(';'),
        attributes.len() > 0,
        attributes[0] == ';',
    ensures
        split_of(cookie + attributes, ';')[0] == cookie,
{
    assert(cookie + attributes =~= cookie.push(';') + attributes.drop_first());
    lemma_split_joined(cookie, ';', attributes.drop_first());
    lemma_split_without_separator(cookie, ';');
}

} // verus!

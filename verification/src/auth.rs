//! Access to the owner's side of the server: logging in and out, and who may
//! pass.

use crate::cookie::{
    browsers_return_the_first_part, carried_cookies_are_found, carrying, cookie_holds, has_cookie,
    request_scheme, scheme_of,
};
use crate::form::{form_pairs, form_pairs_of, is_switched_on, switched_on};
use crate::number::{i64_of, i64_text, parse_i64, signed_decimal};
use crate::reply::{refuse, Refusal};
use crate::text::{
    is_white, lemma_holds_alone, lemma_split_joined, lemma_split_without_separator,
    lemma_trim_unchanged, lower_of, same, split, split_of, starts_with, to_lower,
};
use vstd::prelude::*;

verus! {

/// The request methods that access depends on.
#[derive(Clone, Copy, Debug, PartialEq, Eq, Structural)]
pub enum Method {
    Get,
    Post,
    Other,
}

/// How long a login lasts where the configuration does not say: a week.
pub const DEFAULT_MAX_AGE: i64 = 604800;

/// The value of the `SameSite` attribute that a configuration text asks for.
pub open spec fn same_site_of(config: Option<Seq<char>>) -> Seq<char> {
    match config {
        Some(c) => if lower_of(c) == "none"@ {
            "None"@
        } else if lower_of(c) == "strict"@ {
            "Strict"@
        } else {
            "Lax"@
        },
        None => "Lax"@,
    }
}

/// How many seconds a login lasts. A configured number counts where it is
/// positive.
pub open spec fn max_age_of(config: Option<Seq<char>>) -> i64 {
    match config {
        Some(c) => match i64_of(c) {
            Some(n) if n > 0 => n,
            _ => DEFAULT_MAX_AGE,
        },
        None => DEFAULT_MAX_AGE,
    }
}

/// The attributes of the login cookie.
pub open spec fn cookie_attributes(
    max_age: Seq<char>,
    forwarded_proto: Option<Seq<char>>,
    same_site_config: Option<Seq<char>>,
) -> Seq<char> {
    let same_site = same_site_of(same_site_config);
    "; Max-Age="@ + max_age + "; Path=/; SameSite="@ + same_site + "; HttpOnly"@
        + if scheme_of(forwarded_proto) == "https"@ || same_site == "None"@ {
        "; Secure"@
    } else {
        ""@
    }
}

/// The part of a `Cookie` header that carries the password.
pub open spec fn login_cookie(password: Seq<char>) -> Seq<char> {
    "auth="@ + password
}

fn same_site(config: Option<&str>) -> (r: &'static str)
    ensures
        r@ == same_site_of(config.deep_view()),
{
    match config {
        Some(c) => {
            let lower = to_lower(c);
            if same(lower.as_str(), "none") {
                "None"
            } else if same(lower.as_str(), "strict") {
                "Strict"
            } else {
                "Lax"
            }
        },
        None => "Lax",
    }
}

fn max_age(config: Option<&str>) -> (r: i64)
    ensures
        r == max_age_of(config.deep_view()),
{
    match config {
        Some(c) => match parse_i64(c) {
            Some(n) => if n > 0 {
                n
            } else {
                DEFAULT_MAX_AGE
            },
            None => DEFAULT_MAX_AGE,
        },
        None => DEFAULT_MAX_AGE,
    }
}

fn add_attributes(
    cookie: String,
    max_age: &str,
    forwarded_proto: Option<&str>,
    same_site_config: Option<&str>,
) -> (r: String)
    ensures
        r@ == cookie@ + cookie_attributes(
            max_age@,
            forwarded_proto.deep_view(),
            same_site_config.deep_view(),
        ),
{
    let site = same_site(same_site_config);
    let secure = same(request_scheme(forwarded_proto).as_str(), "https") || same(site, "None");
    let ghost before = cookie@;
    let mut r = cookie;
    r.append("; Max-Age=");
    r.append(max_age);
    r.append("; Path=/; SameSite=");
    r.append(site);
    r.append("; HttpOnly");
    r.append(
        if secure {
            "; Secure"
        } else {
            ""
        },
    );
    assert(r@ =~= before + cookie_attributes(
        max_age@,
        forwarded_proto.deep_view(),
        same_site_config.deep_view(),
    ));
    r
}

/// Checks a password. The right one is answered with the `Set-Cookie` value
/// that logs the client in.
pub fn auth_verify(
    expected: Option<&str>,
    given: &str,
    forwarded_proto: Option<&str>,
    same_site_config: Option<&str>,
    max_age_config: Option<&str>,
) -> (r: Result<String, Refusal>)
    ensures
        match expected {
            None => r matches Err(e) && e.deep_view() == (
                500u16,
                "Authentication not configured on server"@,
            ),
            Some(password) => if given@ != password@ {
                r matches Err(e) && e.deep_view() == (401u16, "Invalid password"@)
            } else {
                r matches Ok(c) && c@ == login_cookie(password@) + cookie_attributes(
                    signed_decimal(max_age_of(max_age_config.deep_view()) as int),
                    forwarded_proto.deep_view(),
                    same_site_config.deep_view(),
                )
            },
        },
{
    let expected = match expected {
        Some(p) => p,
        None => {
            return Err(refuse(500, "Authentication not configured on server"));
        },
    };
    if !same(given, expected) {
        return Err(refuse(401, "Invalid password"));
    }
    let mut cookie = "auth=".to_owned();
    cookie.append(expected);
    let age = i64_text(max_age(max_age_config));
    Ok(add_attributes(cookie, age.as_str(), forwarded_proto, same_site_config))
}

/// The `Set-Cookie` value that logs the client out.
pub fn auth_logout(forwarded_proto: Option<&str>, same_site_config: Option<&str>) -> (r: String)
    ensures
        r@ == login_cookie(Seq::empty()) + cookie_attributes(
            "0"@,
            forwarded_proto.deep_view(),
            same_site_config.deep_view(),
        ),
{
    let cookie = "auth=".to_owned();
    assert(cookie@ =~= login_cookie(Seq::empty()));
    add_attributes(cookie, "0", forwarded_proto, same_site_config)
}

/// The parts of a path that are not empty.
pub open spec fn path_parts(path: Seq<char>) -> Seq<Seq<char>> {
    split_of(path, '/').filter(|p: Seq<char>| p.len() > 0)
}

/// Whether a share request is open to visitors.
pub open spec fn is_open_share(parts: Seq<Seq<char>>, method: Method) -> bool {
    &&& parts.len() >= 3
    &&& {
        ||| parts.len() == 3 && method == Method::Get
        ||| parts.len() > 3 && parts[3] == "verify"@ && method == Method::Post
        ||| parts.len() > 3 && parts[3] == "file"@ && method == Method::Get
        ||| parts.len() > 3 && parts[3] == "download"@ && method == Method::Get
        ||| parts.len() > 3 && parts[3] == "qr"@ && method == Method::Get
    }
}

/// Whether a request needs no password.
pub open spec fn is_open(path: Seq<char>, method: Method) -> bool {
    ||| "/api/auth/verify"@.is_prefix_of(path)
    ||| "/api/healthz"@.is_prefix_of(path)
    ||| "/api/share/"@.is_prefix_of(path) && is_open_share(path_parts(path), method)
}

fn split_path(path: &str) -> (r: Vec<String>)
    ensures
        r.deep_view() == path_parts(path@),
{
    let parts = split(path, '/');
    let ghost pieces = split_of(path@, '/');
    let ghost filled = |p: Seq<char>| p.len() > 0;
    let mut r: Vec<String> = Vec::new();
    let mut i: usize = 0;
    proof {
        assert(pieces.take(0) =~= Seq::empty());
        reveal(Seq::filter);
        assert(r.deep_view() =~= pieces.take(0).filter(filled));
    }
    while i < parts.len()
        invariant
            i <= parts@.len(),
            parts.deep_view() == pieces,
            filled == (|p: Seq<char>| p.len() > 0),
            r.deep_view() == pieces.take(i as int).filter(filled),
        decreases parts@.len() - i,
    {
        let ghost before = r.deep_view();
        proof {
            assert(pieces[i as int] == parts[i as int]@);
            assert(pieces.take(i + 1).drop_last() =~= pieces.take(i as int));
            assert(pieces.take(i + 1).last() == pieces[i as int]);
            reveal(Seq::filter);
        }
        if !parts[i].as_str().is_empty() {
            r.push(parts[i].clone());
            assert(r.deep_view() =~= before.push(pieces[i as int]));
        }
        i = i + 1;
    }
    assert(pieces.take(pieces.len() as int) =~= pieces);
    r
}

/// Whether a request needs no password.
pub fn needs_no_password(path: &str, method: Method) -> (r: bool)
    ensures
        r == is_open(path@, method),
{
    if starts_with(path, "/api/auth/verify") || starts_with(path, "/api/healthz") {
        return true;
    }
    if !starts_with(path, "/api/share/") {
        return false;
    }
    let parts = split_path(path);
    let ghost views = path_parts(path@);
    if parts.len() < 3 {
        return false;
    }
    if parts.len() == 3 {
        return method == Method::Get;
    }
    let tail = parts[3].as_str();
    assert(tail@ == views[3]);
    (same(tail, "verify") && method == Method::Post) || (same(tail, "file") && method
        == Method::Get) || (same(tail, "download") && method == Method::Get) || (same(tail, "qr")
        && method == Method::Get)
}

/// Whether the headers of a request carry the password.
pub open spec fn headers_prove(
    authorization: Option<Seq<char>>,
    cookie: Option<Seq<char>>,
    password: Seq<char>,
) -> bool {
    ||| authorization matches Some(a) && a == "Bearer "@ + password
    ||| cookie matches Some(c) && cookie_holds(c, login_cookie(password))
}

/// Whether the pairs of a query carry the password.
pub open spec fn query_proves(pairs: Seq<(Seq<char>, Seq<char>)>, password: Seq<char>) -> bool {
    exists|i: int|
        0 <= i < pairs.len() && (#[trigger] pairs[i]).0 == "auth"@ && pairs[i].1 == password
}

/// Whether the configuration allows the password in the query.
pub open spec fn query_allowed(config: Option<Seq<char>>) -> bool {
    config matches Some(c) && is_switched_on(lower_of(c))
}

/// Whether a request may pass: it is open to everyone, or it carries the
/// password. `pairs` are those of its query, where they count.
pub open spec fn gate_of(
    path: Seq<char>,
    method: Method,
    password: Option<Seq<char>>,
    authorization: Option<Seq<char>>,
    cookie: Option<Seq<char>>,
    pairs: Seq<(Seq<char>, Seq<char>)>,
) -> Result<(), (u16, Seq<char>)> {
    if is_open(path, method) {
        Ok(())
    } else {
        match password {
            None => Err((500u16, "Authentication not configured on server"@)),
            Some(p) => if headers_prove(authorization, cookie, p) || query_proves(pairs, p) {
                Ok(())
            } else {
                Err((401u16, "Unauthorized"@))
            },
        }
    }
}

/// The pairs of a query that count for access.
pub open spec fn counted_pairs(
    allow_config: Option<Seq<char>>,
    query: Option<Seq<char>>,
) -> Seq<(Seq<char>, Seq<char>)> {
    match query {
        Some(q) if query_allowed(allow_config) => form_pairs_of(q),
        _ => Seq::empty(),
    }
}

/// The decision as a mathematical value.
pub open spec fn gate_view(r: Result<(), Refusal>) -> Result<(), (u16, Seq<char>)> {
    match r {
        Ok(u) => Ok(u),
        Err(e) => Err(e.deep_view()),
    }
}

fn proven_by_headers(authorization: Option<&str>, cookie: Option<&str>, password: &str) -> (r: bool)
    ensures
        r == headers_prove(authorization.deep_view(), cookie.deep_view(), password@),
{
    if let Some(a) = authorization {
        let mut wanted = "Bearer ".to_owned();
        wanted.append(password);
        if same(a, wanted.as_str()) {
            return true;
        }
    }
    match cookie {
        Some(c) => {
            let mut wanted = "auth=".to_owned();
            wanted.append(password);
            has_cookie(c, wanted.as_str())
        },
        None => false,
    }
}

fn proven_by_query(pairs: &Vec<(String, String)>, password: &str) -> (r: bool)
    ensures
        r == query_proves(pairs.deep_view(), password@),
{
    let ghost views = pairs.deep_view();
    let mut i: usize = 0;
    while i < pairs.len()
        invariant
            i <= pairs@.len(),
            views == pairs.deep_view(),
            forall|k: int|
                0 <= k < i ==> !((#[trigger] views[k]).0 == "auth"@ && views[k].1 == password@),
        decreases pairs@.len() - i,
    {
        assert(views[i as int] == (pairs[i as int].0@, pairs[i as int].1@));
        if same(pairs[i].0.as_str(), "auth") && same(pairs[i].1.as_str(), password) {
            return true;
        }
        i = i + 1;
    }
    false
}

/// Decides whether a request may pass; `pairs` are those of its query, where
/// they count.
pub fn decide_access(
    path: &str,
    method: Method,
    password: Option<&str>,
    authorization: Option<&str>,
    cookie: Option<&str>,
    pairs: &Vec<(String, String)>,
) -> (r: Result<(), Refusal>)
    ensures
        gate_view(r) == gate_of(
            path@,
            method,
            password.deep_view(),
            authorization.deep_view(),
            cookie.deep_view(),
            pairs.deep_view(),
        ),
{
    if needs_no_password(path, method) {
        return Ok(());
    }
    match password {
        None => Err(refuse(500, "Authentication not configured on server")),
        Some(p) => if proven_by_headers(authorization, cookie, p) || proven_by_query(pairs, p) {
            Ok(())
        } else {
            Err(refuse(401, "Unauthorized"))
        },
    }
}

/// Decides whether a request may pass. The query counts only where the
/// configuration allows it.
pub fn auth_mw(
    path: &str,
    method: Method,
    password: Option<&str>,
    authorization: Option<&str>,
    cookie: Option<&str>,
    allow_config: Option<&str>,
    query: Option<&str>,
) -> (r: Result<(), Refusal>)
    ensures
        gate_view(r) == gate_of(
            path@,
            method,
            password.deep_view(),
            authorization.deep_view(),
            cookie.deep_view(),
            counted_pairs(allow_config.deep_view(), query.deep_view()),
        ),
{
    let allowed = match allow_config {
        Some(c) => switched_on(to_lower(c).as_str()),
        None => false,
    };
    let pairs: Vec<(String, String)> = match query {
        Some(q) => if allowed {
            form_pairs(q)
        } else {
            Vec::new()
        },
        None => Vec::new(),
    };
    assert(pairs.deep_view() =~= counted_pairs(allow_config.deep_view(), query.deep_view()));
    decide_access(path, method, password, authorization, cookie, &pairs)
}

/// Whether a password can be carried by a cookie as it is: no semicolon, and no
/// white space at its end.
pub open spec fn fits_cookie(password: Seq<char>) -> bool {
    &&& !password.contains(';')
    &&& password.len() > 0 ==> !is_white(password.last())
}

proof fn lemma_login_cookie_plain(password: Seq<char>)
    requires
        fits_cookie(password),
    ensures
        ({
            let c = login_cookie(password);
            &&& !c.contains(';')
            &&& c.len() > 0
            &&& !is_white(c.first())
            &&& !is_white(c.last())
        }),
{
    let c = login_cookie(password);
    reveal_strlit("auth=");
    assert forall|i: int| 0 <= i < c.len() implies #[trigger] c[i] != ';' by {
        if i >= 5 {
            assert(c[i] == password[i - 5]);
        }
    }
    assert(c.first() == 'a');
    if password.len() > 0 {
        assert(c.last() == password.last());
    } else {
        assert(c.last() == "auth="@[4]);
    }
}

/// Who logs in with the right password is let through: what the browser keeps of
/// the answer is the login cookie, and a request with that cookie, alone or among
/// others, may pass wherever a password is asked for.
pub proof fn login_lets_through(
    password: Seq<char>,
    max_age: Seq<char>,
    forwarded_proto: Option<Seq<char>>,
    same_site_config: Option<Seq<char>>,
    before: Option<Seq<char>>,
    behind: Option<Seq<char>>,
    path: Seq<char>,
    method: Method,
    authorization: Option<Seq<char>>,
    pairs: Seq<(Seq<char>, Seq<char>)>,
)
    requires
        fits_cookie(password),
    ensures
        ({
            let set = login_cookie(password) + cookie_attributes(
                max_age,
                forwarded_proto,
                same_site_config,
            );
            let kept = split_of(set, ';')[0];
            &&& kept == login_cookie(password)
            &&& gate_of(
                path,
                method,
                Some(password),
                authorization,
                Some(carrying(kept, before, behind)),
                pairs,
            ) == Ok::<(), (u16, Seq<char>)>(())
        }),
{
    let cookie = login_cookie(password);
    lemma_login_cookie_plain(password);
    reveal_strlit("; Max-Age=");
    let attributes = cookie_attributes(max_age, forwarded_proto, same_site_config);
    assert(attributes[0] == "; Max-Age="@[0]);
    browsers_return_the_first_part(cookie, attributes);
    carried_cookies_are_found(cookie, before, behind);
}

/// A request with the password as its bearer token may pass, whatever the
/// password is.
pub proof fn bearer_lets_through(
    password: Seq<char>,
    path: Seq<char>,
    method: Method,
    cookie: Option<Seq<char>>,
    pairs: Seq<(Seq<char>, Seq<char>)>,
)
    ensures
        gate_of(path, method, Some(password), Some("Bearer "@ + password), cookie, pairs) == Ok::<
            (),
            (u16, Seq<char>),
        >(()),
{
}

/// What the browser keeps after a logout does not let a request through, unless
/// the password is empty.
pub proof fn logout_locks_out(
    password: Seq<char>,
    forwarded_proto: Option<Seq<char>>,
    same_site_config: Option<Seq<char>>,
    path: Seq<char>,
    method: Method,
)
    requires
        !is_open(path, method),
        password.len() > 0,
    ensures
        ({
            let set = login_cookie(Seq::empty()) + cookie_attributes(
                "0"@,
                forwarded_proto,
                same_site_config,
            );
            let kept = split_of(set, ';')[0];
            gate_of(path, method, Some(password), None, Some(kept), Seq::empty()) == Err::<
                (),
                (u16, Seq<char>),
            >((401u16, "Unauthorized"@))
        }),
{
    let cookie = login_cookie(Seq::empty());
    lemma_login_cookie_plain(Seq::empty());
    reveal_strlit("; Max-Age=");
    let attributes = cookie_attributes("0"@, forwarded_proto, same_site_config);
    assert(attributes[0] == "; Max-Age="@[0]);
    browsers_return_the_first_part(cookie, attributes);
    lemma_trim_unchanged(cookie);
    lemma_holds_alone(cookie, ';', login_cookie(password));
    assert(cookie.len() < login_cookie(password).len());
}

/// Without a password anywhere in the request, nothing but the open paths is
/// reached; without a configured password, nothing else at all.
pub proof fn nothing_passes_unproven(path: Seq<char>, method: Method, password: Option<Seq<char>>)
    ensures
        gate_of(path, method, password, None, None, Seq::empty()) is Ok <==> is_open(path, method),
{
}

/// A cookie that other sites may send along is sent over encrypted connections
/// only.
pub proof fn cross_site_cookies_are_secure(
    max_age: Seq<char>,
    forwarded_proto: Option<Seq<char>>,
    same_site_config: Option<Seq<char>>,
)
    requires
        same_site_of(same_site_config) == "None"@,
    ensures
        "; Secure"@.is_suffix_of(cookie_attributes(max_age, forwarded_proto, same_site_config)),
{
    let whole = cookie_attributes(max_age, forwarded_proto, same_site_config);
    assert(whole.subrange(whole.len() - "; Secure"@.len(), whole.len() as int) =~= "; Secure"@);
}

/// The path of a request to a share: for its description, or for what `tail`
/// names.
pub open spec fn share_path(token: Seq<char>, tail: Option<Seq<char>>) -> Seq<char> {
    "/api/share/"@ + token + (match tail {
        Some(t) => seq!['/'] + t,
        None => Seq::empty(),
    })
}

proof fn lemma_share_path_parts(token: Seq<char>, tail: Option<Seq<char>>)
    requires
        token.len() > 0,
        !token.contains('/'),
        tail matches Some(t) ==> t.len() > 0 && !t.contains('/'),
    ensures
        path_parts(share_path(token, tail)) == seq!["api"@, "share"@, token] + (match tail {
            Some(t) => seq![t],
            None => seq![],
        }),
{
    let nothing = Seq::<char>::empty();
    let api = "api"@;
    let share = "share"@;
    let filled = |p: Seq<char>| p.len() > 0;
    let path = share_path(token, tail);
    reveal_strlit("/api/share/");
    reveal_strlit("api");
    reveal_strlit("share");
    let rest = match tail {
        Some(t) => token.push('/') + t,
        None => token,
    };
    assert(path =~= nothing.push('/') + (api.push('/') + (share.push('/') + rest)));
    lemma_split_joined(nothing, '/', api.push('/') + (share.push('/') + rest));
    lemma_split_joined(api, '/', share.push('/') + rest);
    lemma_split_joined(share, '/', rest);
    lemma_split_without_separator(nothing, '/');
    lemma_split_without_separator(api, '/');
    lemma_split_without_separator(share, '/');
    lemma_split_without_separator(token, '/');
    if let Some(t) = tail {
        lemma_split_joined(token, '/', t);
        lemma_split_without_separator(t, '/');
        let pieces = seq![nothing, api, share, token, t];
        assert(split_of(path, '/') =~= pieces);
        reveal_with_fuel(Seq::filter, 6);
        assert(pieces.drop_last() =~= seq![nothing, api, share, token]);
        assert(seq![nothing, api, share, token].drop_last() =~= seq![nothing, api, share]);
        assert(seq![nothing, api, share].drop_last() =~= seq![nothing, api]);
        assert(seq![nothing, api].drop_last() =~= seq![nothing]);
        assert(seq![nothing].drop_last() =~= Seq::empty());
        assert(pieces.filter(filled) =~= seq![api, share, token, t]);
    } else {
        let pieces = seq![nothing, api, share, token];
        assert(split_of(path, '/') =~= pieces);
        reveal_with_fuel(Seq::filter, 5);
        assert(pieces.drop_last() =~= seq![nothing, api, share]);
        assert(seq![nothing, api, share].drop_last() =~= seq![nothing, api]);
        assert(seq![nothing, api].drop_last() =~= seq![nothing]);
        assert(seq![nothing].drop_last() =~= Seq::empty());
        assert(pieces.filter(filled) =~= seq![api, share, token]);
    }
}

/// Every public share endpoint is open to visitors: the description of a share,
/// its contents, its download and its QR code for reading, and the check of its
/// password. No login is asked for, whether a password is configured or not.
pub proof fn visitors_reach_shares(
    token: Seq<char>,
    tail: Option<Seq<char>>,
    method: Method,
    password: Option<Seq<char>>,
    authorization: Option<Seq<char>>,
    cookie: Option<Seq<char>>,
    pairs: Seq<(Seq<char>, Seq<char>)>,
)
    requires
        token.len() > 0,
        !token.contains('/'),
        match tail {
            None => method == Method::Get,
            Some(t) => if t == "verify"@ {
                method == Method::Post
            } else {
                method == Method::Get && (t == "file"@ || t == "download"@ || t == "qr"@)
            },
        },
    ensures
        gate_of(share_path(token, tail), method, password, authorization, cookie, pairs) == Ok::<
            (),
            (u16, Seq<char>),
        >(()),
{
    let path = share_path(token, tail);
    reveal_strlit("verify");
    reveal_strlit("file");
    reveal_strlit("download");
    reveal_strlit("qr");
    lemma_share_path_parts(token, tail);
    assert(path.subrange(0, "/api/share/"@.len() as int) =~= "/api/share/"@);
}

} // verus!

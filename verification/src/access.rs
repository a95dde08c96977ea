//! Who reaches the owner's side of the server, stated of the answers themselves.

use crate::auth::{
    auth_logout, auth_mw, auth_verify, counted_pairs, decide_access, fits_cookie, is_open,
    login_lets_through, max_age_of, needs_no_password, Method,
};
use crate::cookie::{carrying, has_cookie, request_scheme};
use crate::form::form_pairs_of;
use crate::number::{i64_of, signed_decimal};
use crate::reply::Refusal;
use crate::text::{lower_of, split_of};
use crate::visits::sends;
use vstd::prelude::*;

verus! {

/// How far a configured cookie goes to other sites: `none` and `strict`, in either
/// case, say so, anything else is `Lax`.
pub open spec fn site_of(config: Option<&str>) -> Seq<char> {
    if config is Some && lower_of(config->0@) == "none"@ {
        "None"@
    } else if config is Some && lower_of(config->0@) == "strict"@ {
        "Strict"@
    } else {
        "Lax"@
    }
}

/// Whether a cookie is for encrypted connections only: the request came over one,
/// or other sites may send the cookie along.
pub open spec fn only_encrypted(forwarded_proto: Option<&str>, site_config: Option<&str>) -> bool {
    ||| forwarded_proto is Some && lower_of(forwarded_proto->0@) == "https"@
    ||| site_config is Some && lower_of(site_config->0@) == "none"@
}

proof fn lemma_site(config: Option<&str>)
    ensures
        site_of(config) == "None"@ <==> config is Some && lower_of(config->0@) == "none"@,
        lower_of("http"@) != "https"@,
{
    reveal_strlit("None");
    reveal_strlit("Strict");
    reveal_strlit("Lax");
    reveal_strlit("http");
    reveal_strlit("https");
    assert("None"@.len() == 4 && "Strict"@.len() == 6 && "Lax"@.len() == 3);
    assert(lower_of("http"@).len() == 4 && "https"@.len() == 5);
}

/// A login succeeds with the configured password and no other. It sets a cookie
/// with the password, out of reach of scripts, for as many seconds as configured,
/// or for a week where no positive number is.
pub proof fn logins_are_checked(
    expected: Option<&str>,
    given: &str,
    forwarded_proto: Option<&str>,
    site_config: Option<&str>,
    age_config: Option<&str>,
    r: Result<String, Refusal>,
)
    requires
        call_ensures(auth_verify, (expected, given, forwarded_proto, site_config, age_config), r),
    ensures
        expected is None ==> r is Err && r->Err_0.status == 500 && r->Err_0.error@
            == "Authentication not configured on server"@,
        expected is Some && given@ != expected->0@ ==> r is Err && r->Err_0.status == 401
            && r->Err_0.error@ == "Invalid password"@,
        expected is Some && given@ == expected->0@ ==> {
            let configured = age_config is Some && i64_of(age_config->0@) is Some && i64_of(
                age_config->0@,
            )->0 > 0;
            let age = if configured {
                i64_of(age_config->0@)->0 as int
            } else {
                604800
            };
            let plain = "auth="@ + given@ + ("; Max-Age="@ + signed_decimal(age)
                + "; Path=/; SameSite="@ + site_of(site_config) + "; HttpOnly"@);
            &&& r is Ok
            &&& only_encrypted(forwarded_proto, site_config) ==> r->Ok_0@ == plain + "; Secure"@
            &&& !only_encrypted(forwarded_proto, site_config) ==> r->Ok_0@ == plain
        },
{
    lemma_site(site_config);
    reveal_strlit("");
    if r is Ok {
        let configured = age_config is Some && i64_of(age_config->0@) is Some && i64_of(
            age_config->0@,
        )->0 > 0;
        let age = if configured {
            i64_of(age_config->0@)->0 as int
        } else {
            604800
        };
        let plain = "auth="@ + given@ + ("; Max-Age="@ + signed_decimal(age)
            + "; Path=/; SameSite="@ + site_of(site_config) + "; HttpOnly"@);
        if only_encrypted(forwarded_proto, site_config) {
            assert(r->Ok_0@ =~= plain + "; Secure"@);
        } else {
            assert(r->Ok_0@ =~= plain);
        }
    }
}

/// A logout takes the password out of the cookie and ends it at once.
pub proof fn logouts_clear_the_cookie(
    forwarded_proto: Option<&str>,
    site_config: Option<&str>,
    r: String,
)
    requires
        call_ensures(auth_logout, (forwarded_proto, site_config), r),
    ensures
        ({
            let plain = "auth="@ + ("; Max-Age="@ + "0"@ + "; Path=/; SameSite="@ + site_of(
                site_config,
            ) + "; HttpOnly"@);
            &&& only_encrypted(forwarded_proto, site_config) ==> r@ == plain + "; Secure"@
            &&& !only_encrypted(forwarded_proto, site_config) ==> r@ == plain
        }),
{
    lemma_site(site_config);
    reveal_strlit("");
    let plain = "auth="@ + ("; Max-Age="@ + "0"@ + "; Path=/; SameSite="@ + site_of(site_config)
        + "; HttpOnly"@);
    if only_encrypted(forwarded_proto, site_config) {
        assert(r@ =~= plain + "; Secure"@);
    } else {
        assert(r@ =~= plain);
    }
}

/// Whether everyone may make a request: to log in, to ask for the health of the
/// server, and of a share to read its description, its contents, its download and
/// its QR code, and to give its password.
pub open spec fn for_everyone(path: Seq<char>, method: Method) -> bool {
    let parts = split_of(path, '/').filter(|p: Seq<char>| p.len() > 0);
    let reads = method == Method::Get;
    ||| "/api/auth/verify"@.is_prefix_of(path)
    ||| "/api/healthz"@.is_prefix_of(path)
    ||| "/api/share/"@.is_prefix_of(path) && parts.len() == 3 && reads
    ||| "/api/share/"@.is_prefix_of(path) && parts.len() > 3 && {
        ||| parts[3] == "verify"@ && method == Method::Post
        ||| (parts[3] == "file"@ || parts[3] == "download"@ || parts[3] == "qr"@) && reads
    }
}

/// What everyone may do is told apart by path and method alone.
pub proof fn open_requests_are_known(path: &str, method: Method, r: bool)
    requires
        call_ensures(needs_no_password, (path, method), r),
    ensures
        r <==> for_everyone(path@, method),
{
}

/// A header holds a cookie exactly where one of its parts is that cookie, and the
/// scheme of a request is what the proxy tells, in lower case, else `http`.
pub proof fn headers_are_read(
    header: &str,
    part: &str,
    holds: bool,
    forwarded_proto: Option<&str>,
    scheme: String,
)
    requires
        call_ensures(has_cookie, (header, part), holds),
        call_ensures(request_scheme, (forwarded_proto,), scheme),
    ensures
        holds <==> sends(Some(header), part@),
        forwarded_proto is Some ==> scheme@ == lower_of(forwarded_proto->0@),
        forwarded_proto is None ==> scheme@ == "http"@,
{
    reveal_strlit("http");
    assert(lower_of("http"@) =~= "http"@);
    assert(forwarded_proto.deep_view() is Some == forwarded_proto is Some);
}

/// Whether a request carries the password: as its bearer token, in its login
/// cookie, or in a pair `auth` of its query.
pub open spec fn carries(
    authorization: Option<&str>,
    cookie: Option<&str>,
    pairs: Seq<(Seq<char>, Seq<char>)>,
    password: Seq<char>,
) -> bool {
    ||| authorization is Some && authorization->0@ == "Bearer "@ + password
    ||| sends(cookie, "auth="@ + password)
    ||| exists|i: int|
        0 <= i < pairs.len() && (#[trigger] pairs[i]).0 == "auth"@ && pairs[i].1 == password
}

/// A request passes exactly where everyone may make it or it carries the
/// configured password. Any other is refused: 500 where no password is configured,
/// 401 where there is one.
pub proof fn only_the_password_lets_through(
    path: &str,
    method: Method,
    password: Option<&str>,
    authorization: Option<&str>,
    cookie: Option<&str>,
    pairs: Vec<(String, String)>,
    r: Result<(), Refusal>,
)
    requires
        call_ensures(decide_access, (path, method, password, authorization, cookie, &pairs), r),
    ensures
        ({
            let proven = password is Some && carries(
                authorization,
                cookie,
                pairs.deep_view(),
                password->0@,
            );
            let free = for_everyone(path@, method);
            &&& r is Ok <==> free || proven
            &&& !free && password is None ==> r->Err_0.status == 500 && r->Err_0.error@
                == "Authentication not configured on server"@
            &&& !free && password is Some && !proven ==> r->Err_0.status == 401 && r->Err_0.error@
                == "Unauthorized"@
        }),
{
    assert(for_everyone(path@, method) == is_open(path@, method));
    assert(password.deep_view() is Some == password is Some);
}

/// The query of a request counts only where the configuration says `1`, `true` or
/// `yes`, in either case; apart from that, a request passes as it would without one.
pub proof fn queries_count_where_allowed(
    path: &str,
    method: Method,
    password: Option<&str>,
    authorization: Option<&str>,
    cookie: Option<&str>,
    allow_config: Option<&str>,
    query: Option<&str>,
    r: Result<(), Refusal>,
)
    requires
        call_ensures(
            auth_mw,
            (path, method, password, authorization, cookie, allow_config, query),
            r,
        ),
    ensures
        ({
            let allowed = allow_config is Some && (lower_of(allow_config->0@) == "1"@ || lower_of(
                allow_config->0@,
            ) == "true"@ || lower_of(allow_config->0@) == "yes"@);
            let pairs = if allowed && query is Some {
                form_pairs_of(query->0@)
            } else {
                Seq::empty()
            };
            let proven = password is Some && carries(
                authorization,
                cookie,
                pairs,
                password->0@,
            );
            let free = for_everyone(path@, method);
            &&& r is Ok <==> free || proven
            &&& !free && password is None ==> r->Err_0.status == 500 && r->Err_0.error@
                == "Authentication not configured on server"@
            &&& !free && password is Some && !proven ==> r->Err_0.status == 401 && r->Err_0.error@
                == "Unauthorized"@
        }),
{
    assert(for_everyone(path@, method) == is_open(path@, method));
    assert(password.deep_view() is Some == password is Some);
    assert(query.deep_view() is Some == query is Some);
}

/// Who logs in reaches everything: the password is accepted, the browser keeps the
/// login cookie, and every request with it, alone or among others, passes. A
/// password that a cookie cannot carry is left aside.
pub proof fn logins_open_the_server(
    password: &str,
    forwarded_proto: Option<&str>,
    site_config: Option<&str>,
    age_config: Option<&str>,
    set: Result<String, Refusal>,
    before: Option<Seq<char>>,
    behind: Option<Seq<char>>,
    path: &str,
    method: Method,
    authorization: Option<&str>,
    cookie: Option<&str>,
    allow_config: Option<&str>,
    query: Option<&str>,
    r: Result<(), Refusal>,
)
    requires
        fits_cookie(password@),
        call_ensures(
            auth_verify,
            (Some(password), password, forwarded_proto, site_config, age_config),
            set,
        ),
        cookie is Some && cookie->0@ == carrying(split_of(set->Ok_0@, ';')[0], before, behind),
        call_ensures(
            auth_mw,
            (path, method, Some(password), authorization, cookie, allow_config, query),
            r,
        ),
    ensures
        set is Ok,
        r is Ok,
{
    logins_are_checked(Some(password), password, forwarded_proto, site_config, age_config, set);
    queries_count_where_allowed(
        path,
        method,
        Some(password),
        authorization,
        cookie,
        allow_config,
        query,
        r,
    );
    let age = max_age_of(age_config.deep_view());
    login_lets_through(
        password@,
        signed_decimal(age as int),
        forwarded_proto.deep_view(),
        site_config.deep_view(),
        before,
        behind,
        path@,
        method,
        authorization.deep_view(),
        counted_pairs(allow_config.deep_view(), query.deep_view()),
    );
}

} // verus!

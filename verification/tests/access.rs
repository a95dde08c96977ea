use clip_relay::auth::{auth_logout, auth_mw, auth_verify, decide_access, needs_no_password, Method};
use clip_relay::config::{cors_policy, health, listen_port, share_page, static_dir};
use clip_relay::reply::Refusal;

fn refused(r: Result<(), Refusal>) -> (u16, String) {
    let e = r.unwrap_err();
    (e.status, e.error)
}

#[test]
fn login_sets_a_cookie() {
    let cookie = auth_verify(Some("pw"), "pw", None, None, None).unwrap();
    assert_eq!(cookie, "auth=pw; Max-Age=604800; Path=/; SameSite=Lax; HttpOnly");
    let cookie = auth_verify(Some("pw"), "pw", Some("HTTPS"), Some("Strict"), Some("60")).unwrap();
    assert_eq!(cookie, "auth=pw; Max-Age=60; Path=/; SameSite=Strict; HttpOnly; Secure");
    let cookie = auth_verify(Some("pw"), "pw", Some("http"), Some("NONE"), Some("-5")).unwrap();
    assert_eq!(cookie, "auth=pw; Max-Age=604800; Path=/; SameSite=None; HttpOnly; Secure");
    let cookie = auth_verify(Some("pw"), "pw", None, Some("odd"), Some("soon")).unwrap();
    assert_eq!(cookie, "auth=pw; Max-Age=604800; Path=/; SameSite=Lax; HttpOnly");
}

#[test]
fn login_is_refused() {
    let e = auth_verify(Some("pw"), "no", None, None, None).unwrap_err();
    assert_eq!((e.status, e.error.as_str()), (401, "Invalid password"));
    let e = auth_verify(None, "pw", None, None, None).unwrap_err();
    assert_eq!((e.status, e.error.as_str()), (500, "Authentication not configured on server"));
}

#[test]
fn logout_clears_the_cookie() {
    assert_eq!(auth_logout(None, None), "auth=; Max-Age=0; Path=/; SameSite=Lax; HttpOnly");
    assert_eq!(
        auth_logout(Some("https"), Some("none")),
        "auth=; Max-Age=0; Path=/; SameSite=None; HttpOnly; Secure"
    );
}

#[test]
fn what_login_sets_lets_through() {
    let set = auth_verify(Some("p w"), "p w", None, None, None).unwrap();
    let kept = set.split(';').next().unwrap();
    let header = format!("theme=dark; {kept}; lang=de");
    for cookie in [kept, header.as_str()] {
        let r = auth_mw("/api/clipboard", Method::Get, Some("p w"), None, Some(cookie), None, None);
        assert!(r.is_ok());
    }
    let out = auth_logout(None, None);
    let kept = out.split(';').next().unwrap();
    let r = auth_mw("/api/clipboard", Method::Get, Some("p w"), None, Some(kept), None, None);
    assert_eq!(refused(r), (401, "Unauthorized".to_string()));
}

#[test]
fn bearer_lets_through() {
    let ask = |a: &str| auth_mw("/api/events", Method::Get, Some("a;b "), Some(a), None, None, None);
    assert!(ask("Bearer a;b ").is_ok());
    assert_eq!(refused(ask("Bearer a;b")).0, 401);
    assert_eq!(refused(ask("bearer a;b ")).0, 401);
}

#[test]
fn query_counts_only_where_allowed() {
    let ask = |allow: Option<&str>, q: Option<&str>| {
        auth_mw("/api/events", Method::Get, Some("a b"), None, None, allow, q)
    };
    assert!(ask(Some("1"), Some("x=1&auth=a+b")).is_ok());
    assert!(ask(Some("TRUE"), Some("auth=a%20b")).is_ok());
    assert!(ask(Some("yes"), Some("auth=no&auth=a%20b")).is_ok());
    assert_eq!(refused(ask(Some("yes"), Some("auth=a%2520b"))).0, 401);
    assert_eq!(refused(ask(Some("0"), Some("auth=a+b"))).0, 401);
    assert_eq!(refused(ask(None, Some("auth=a+b"))).0, 401);
    assert_eq!(refused(ask(Some("1"), None)).0, 401);
}

#[test]
fn pairs_of_a_query_prove_the_password() {
    let pairs = vec![("auth".to_string(), "pw".to_string())];
    assert!(decide_access("/api/events", Method::Get, Some("pw"), None, None, &pairs).is_ok());
    assert!(decide_access("/api/events", Method::Get, Some("no"), None, None, &pairs).is_err());
}

#[test]
fn open_paths() {
    assert!(needs_no_password("/api/auth/verify", Method::Post));
    assert!(needs_no_password("/api/healthz", Method::Get));
    assert!(needs_no_password("/api/share/tok", Method::Get));
    assert!(needs_no_password("/api/share/tok/", Method::Get));
    assert!(needs_no_password("/api/share/tok/verify", Method::Post));
    assert!(needs_no_password("/api/share/tok/file", Method::Get));
    assert!(needs_no_password("/api/share/tok/download", Method::Get));
    assert!(!needs_no_password("/api/share/", Method::Get));
    assert!(!needs_no_password("/api/share/tok", Method::Post));
    assert!(!needs_no_password("/api/share/tok/verify", Method::Get));
    assert!(!needs_no_password("/api/share/tok/file", Method::Other));
    assert!(needs_no_password("/api/share/tok/qr", Method::Get));
    assert!(!needs_no_password("/api/share/tok/qr", Method::Post));
    assert!(!needs_no_password("/api/share/tok/qrcode", Method::Get));
    assert!(!needs_no_password("/api/clipboard", Method::Get));
    assert!(auth_mw("/api/healthz", Method::Get, None, None, None, None, None).is_ok());
}

#[test]
fn visitors_reach_shares() {
    for password in [Some("pw"), None] {
        for tail in ["", "/file", "/download", "/qr"] {
            let path = format!("/api/share/abc{tail}");
            assert!(auth_mw(&path, Method::Get, password, None, None, None, None).is_ok());
        }
        let verify = "/api/share/abc/verify";
        assert!(auth_mw(verify, Method::Post, password, None, None, None, None).is_ok());
    }
    let r = auth_mw("/api/share/abc/qr", Method::Post, Some("pw"), None, None, None, None);
    assert_eq!(refused(r), (401, "Unauthorized".to_string()));
}

#[test]
fn no_configured_password_means_no_access() {
    let r = auth_mw("/api/clipboard", Method::Get, None, Some("Bearer "), None, None, None);
    assert_eq!(refused(r), (500, "Authentication not configured on server".to_string()));
}

#[test]
fn ports() {
    assert_eq!(listen_port(None), 8087);
    assert_eq!(listen_port(Some("80")), 80);
    assert_eq!(listen_port(Some("65535")), 65535);
    assert_eq!(listen_port(Some("65536")), 8087);
    assert_eq!(listen_port(Some(" 80")), 8087);
}

#[test]
fn places_of_the_front_end() {
    assert_eq!(static_dir(true, true, true), "out");
    assert_eq!(static_dir(false, true, true), ".next-export");
    assert_eq!(static_dir(false, false, true), "../out");
    assert_eq!(static_dir(false, false, false), "../.next-export");
    assert_eq!(share_page(true), "s/index.html");
    assert_eq!(share_page(false), "s.html");
}

#[test]
fn origins() {
    let p = cors_policy(Some("https://a.example, https://b.example ,bad\u{7f},,tab\tok"));
    assert!(p.credentials);
    assert_eq!(p.methods, vec!["GET", "POST", "DELETE", "PUT", "OPTIONS"]);
    assert_eq!(p.headers, vec!["accept", "content-type", "authorization"]);
    assert_eq!(
        p.origins.unwrap(),
        vec!["https://a.example", "https://b.example", "", "tab\tok"]
    );
    let p = cors_policy(Some("line\nbreak"));
    assert_eq!(p.origins.unwrap().len(), 0);
    let p = cors_policy(None);
    assert_eq!(p.methods, vec!["GET", "POST", "DELETE", "PUT", "OPTIONS"]);
    assert_eq!(p.headers, vec!["accept", "content-type", "authorization"]);
    assert!(p.origins.is_none());
    assert!(!p.credentials);
}

#[test]
fn health_reports() {
    let h = health(None, "/d", "/d/x.db");
    assert_eq!(h.message, "Good!");
    assert_eq!((h.data_dir, h.db_path), (None, None));
    for v in ["1", "true", "TRUE", "True"] {
        let h = health(Some(v), "/d", "/d/x.db");
        assert_eq!(h.data_dir, Some("/d".to_string()));
        assert_eq!(h.db_path, Some("/d/x.db".to_string()));
    }
    assert!(health(Some("yes"), "/d", "/d/x.db").data_dir.is_none());
}

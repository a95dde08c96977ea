use clip_relay::delivery::{after_open, get_file, item_file, Body, StoredFile};
use clip_relay::qr::{layout, page_url, picture, qr_query, share_qr, svg, QrQuery};
use clip_relay::reply::{disposition, Header, HeaderName};
use clip_relay::share::{ShareLimits, ShareLink};
use clip_relay::statics::{
    accept_br, br_variant, cache_headers_for_path, choose_form, make_weak_etag, serve_static,
    static_reply, static_target, FileMeta, Form, Target,
};

fn plain(headers: &[Header]) -> Vec<(HeaderName, String)> {
    headers.iter().map(|h| (h.name, h.value.clone())).collect()
}

fn line(name: HeaderName, value: &str) -> (HeaderName, String) {
    (name, value.to_string())
}

#[test]
fn brotli_is_recognized() {
    assert!(accept_br(Some("gzip, deflate, br")));
    assert!(accept_br(Some("br;q=1.0")));
    assert!(accept_br(Some("brotli")));
    assert!(!accept_br(Some("gzip, x-br")));
    assert!(!accept_br(Some("")));
    assert!(!accept_br(None));
}

#[test]
fn brotli_variants() {
    let br = Some("gzip, br");
    assert_eq!(br_variant(br, Some("app.js"), None), Some("app.js.br".to_string()));
    assert_eq!(br_variant(br, Some("a"), Some("index.html")), Some("a.br".to_string()));
    assert_eq!(br_variant(br, None, Some("index.html")), Some("index.html.br".to_string()));
    assert_eq!(br_variant(br, None, None), None);
    assert_eq!(br_variant(Some("gzip"), Some("app.js"), None), None);
    assert_eq!(br_variant(None, Some("app.js"), Some("index.html")), None);
}

#[test]
fn forms_of_a_file() {
    let name = || Some("a.js.br".to_string());
    assert!(matches!(choose_form(name(), true), Form::Brotli(n) if n == "a.js.br"));
    assert!(matches!(choose_form(name(), false), Form::Plain));
    assert!(matches!(choose_form(None, true), Form::Plain));
}

#[test]
fn static_targets() {
    assert_eq!(static_target("", false, true), Target::Index);
    assert_eq!(static_target("a", false, true), Target::Index);
    assert_eq!(static_target("a.js", true, false), Target::Requested);
    assert_eq!(static_target("gone", false, false), Target::Fallback);
    assert_eq!(static_target("", true, false), Target::Index);
}

#[test]
fn entity_tags() {
    let tag = |len, modified| make_weak_etag(&FileMeta { len, modified });
    assert_eq!(tag(12, Some(1700000000)), Some("W/\"12-1700000000\"".to_string()));
    assert_eq!(tag(12, None), None);
    assert_ne!(tag(1, Some(23)), tag(12, Some(3)));
}

#[test]
fn cache_rules() {
    let long = "public, max-age=31536000, immutable";
    for p in [
        "/_next/static/x", "a.js", "a.css", "a.map", "a.json", "a.svg", "a.woff2", "a.png", "a.jpg",
        "a.jpeg", "a.gif",
    ] {
        assert_eq!(cache_headers_for_path(Some(p), false), long);
        assert_eq!(cache_headers_for_path(Some(p), true), "no-cache");
    }
    assert_eq!(cache_headers_for_path(Some("_next/static/x"), false), "public, max-age=3600");
    assert_eq!(cache_headers_for_path(Some("a.txt"), false), "public, max-age=3600");
    assert_eq!(cache_headers_for_path(None, false), "public, max-age=300");
    assert_eq!(cache_headers_for_path(None, true), "no-cache");
}

#[test]
fn a_file_is_sent() {
    let meta = Some(FileMeta { len: 5, modified: Some(9) });
    let form = choose_form(br_variant(Some("br"), Some("app.js"), None), true);
    let r = serve_static("/srv/app.js", &form, true, meta, None, Some("app.js")).unwrap();
    assert_eq!(r.status, 200);
    assert_eq!(
        plain(&r.headers),
        vec![
            line(HeaderName::ContentType, "text/javascript"),
            line(HeaderName::ContentEncoding, "br"),
            line(HeaderName::Vary, "Accept-Encoding"),
            line(HeaderName::ContentLength, "5"),
            line(HeaderName::ETag, "W/\"5-9\""),
            line(HeaderName::CacheControl, "public, max-age=31536000, immutable"),
        ]
    );
    let r = serve_static("/srv/index.html", &Form::Plain, true, None, None, None).unwrap();
    assert_eq!(
        plain(&r.headers),
        vec![
            line(HeaderName::ContentType, "text/html"),
            line(HeaderName::CacheControl, "no-cache"),
        ]
    );
    let r = serve_static("/srv/unknown", &Form::Plain, true, None, None, None).unwrap();
    assert_eq!(plain(&r.headers)[0], line(HeaderName::ContentType, "application/octet-stream"));
}

#[test]
fn a_current_copy_is_not_sent_again() {
    let meta = Some(FileMeta { len: 5, modified: Some(9) });
    for inm in ["W/\"5-9\"", "W/\"1-1\", W/\"5-9\""] {
        let r = static_reply("text/css", true, true, meta, Some(inm), Some("a.css")).unwrap();
        assert_eq!(r.status, 304);
        assert_eq!(
            plain(&r.headers),
            vec![
                line(HeaderName::CacheControl, "public, max-age=31536000, immutable"),
                line(HeaderName::Vary, "Accept-Encoding"),
                line(HeaderName::ContentEncoding, "br"),
                line(HeaderName::ETag, "W/\"5-9\""),
            ]
        );
    }
    let r = static_reply("text/css", false, true, meta, Some("W/\"5-8\""), None).unwrap();
    assert_eq!(r.status, 200);
    let r = static_reply("text/css", false, true, None, Some("W/\"5-9\""), None).unwrap();
    assert_eq!(r.status, 200);
}

#[test]
fn a_file_that_cannot_be_opened() {
    let e = static_reply("text/css", false, false, None, None, None).unwrap_err();
    assert_eq!((e.status, e.error.as_str()), (404, "not found"));
}

#[test]
fn dispositions() {
    assert_eq!(disposition("inline", "a b.txt"), "inline; filename*=UTF-8''a%20b.txt");
    assert_eq!(
        disposition("attachment", "ü\"\n~_-.z"),
        "attachment; filename*=UTF-8''%C3%BC%22%0A~_-.z"
    );
}

#[test]
fn dispositions_can_stand_in_a_header() {
    for name in ["", "a\r\nb", "\u{0}\u{7f}", "日本語.txt", "\"quoted\""] {
        for kind in ["inline", "attachment"] {
            assert!(axum::http::HeaderValue::from_str(&disposition(kind, name)).is_ok());
        }
    }
}

fn stored(path: Option<&str>, inline: Option<Vec<u8>>) -> StoredFile {
    StoredFile {
        file_path: path.map(|s| s.to_string()),
        inline_data: inline,
        file_name: Some("a.bin".to_string()),
        content_type: None,
    }
}

#[test]
fn files_of_the_owner() {
    let d = get_file(Some(stored(None, Some(vec![1, 2]))), "x=1&download=yes").unwrap();
    assert_eq!(
        plain(&d.headers),
        vec![
            line(HeaderName::ContentType, "application/octet-stream"),
            line(HeaderName::ContentDisposition, "attachment; filename*=UTF-8''a.bin"),
            line(HeaderName::CacheControl, "public, max-age=31536000, immutable"),
        ]
    );
    assert!(matches!(d.body, Body::Bytes(b) if b == vec![1, 2]));
    assert!(d.once_open.is_empty());
    let d = get_file(Some(stored(Some("uploads/x"), Some(vec![1]))), "download=0").unwrap();
    assert_eq!(d.headers[1].value, "inline; filename*=UTF-8''a.bin");
    assert!(matches!(d.body, Body::File(p) if p == "uploads/x"));
    let e = item_file(None, false).unwrap_err();
    assert_eq!((e.status, e.error.as_str()), (404, "Not found"));
    let e = item_file(Some(stored(None, None)), false).unwrap_err();
    assert_eq!((e.status, e.error.as_str()), (404, "missing content"));
}

#[test]
fn opened_files() {
    let o = after_open(Vec::new(), Vec::new(), Some(17), true);
    assert_eq!(plain(&o.outcome.unwrap()), vec![line(HeaderName::ContentLength, "17")]);
    let o = after_open(Vec::new(), Vec::new(), None, true);
    assert!(o.outcome.unwrap().is_empty());
    let e = after_open(Vec::new(), Vec::new(), Some(17), false).outcome.unwrap_err();
    assert_eq!((e.status, e.error.as_str()), (404, "missing"));
}

fn pair(k: &str, v: &str) -> (String, String) {
    (k.to_string(), v.to_string())
}

#[test]
fn queries_for_a_code() {
    let q = |size, margin, download| QrQuery { size, margin, download };
    assert_eq!(qr_query(&vec![]), q(256, 2, false));
    assert_eq!(qr_query(&vec![pair("size", "1")]), q(64, 2, false));
    assert_eq!(qr_query(&vec![pair("size", "5000")]), q(4096, 2, false));
    assert_eq!(qr_query(&vec![pair("size", "300"), pair("size", "x")]), q(256, 2, false));
    assert_eq!(qr_query(&vec![pair("margin", "33"), pair("download", "1")]), q(256, 32, true));
    assert_eq!(qr_query(&vec![pair("margin", "-1")]), q(256, 2, false));
    assert_eq!(qr_query(&vec![pair("download", "1"), pair("download", "no")]), q(256, 2, false));
}

#[test]
fn addresses_of_the_share_page() {
    assert_eq!(page_url(None, None, "t"), "http://localhost/s/?token=t");
    assert_eq!(page_url(Some("HTTPS"), Some("c.example"), "t"), "https://c.example/s/?token=t");
}

#[test]
fn layouts() {
    let l = layout(&vec![vec![true, false], vec![false, true]], 3);
    assert_eq!(l.side, 8);
    assert_eq!(l.dark, vec![(3, 3), (4, 4)]);
    let e = picture(None, &qr_query(&vec![]), "t").unwrap_err();
    assert_eq!((e.status, e.error.as_str()), (500, "qr failed"));
}

fn link(token: &str, max: Option<i64>) -> ShareLink {
    ShareLink {
        token: token.to_string(),
        item_id: "item".to_string(),
        limits: ShareLimits {
            expires_at: None,
            max_downloads: max,
            download_count: 0,
            revoked: 0,
        },
        password_hash: Some("h".to_string()),
    }
}

#[test]
fn codes_are_those_of_the_encoder() {
    let token = "AAECAwQFBgcICQoLDA0ODxAR";
    let r = share_qr(Some(link(token, None)), "size=100&margin=1&download=1", None, None, 0).unwrap();
    assert!(r.changes.is_empty());
    let p = r.outcome.unwrap();
    assert_eq!(p.size, 100);
    assert_eq!(
        plain(&p.headers),
        vec![
            line(HeaderName::ContentType, "image/svg+xml"),
            line(HeaderName::CacheControl, "public, max-age=604800"),
            line(HeaderName::ContentDisposition, "attachment; filename=\"share-AAECAwQF.svg\""),
        ]
    );
    let text = format!("http://localhost/s/?token={token}");
    let code = qrcodegen::QrCode::encode_text(&text, qrcodegen::QrCodeEcc::Medium).unwrap();
    assert_eq!(p.layout.side, code.size() + 2);
    let mut dark = Vec::new();
    for y in 0..code.size() {
        for x in 0..code.size() {
            if code.get_module(x, y) {
                dark.push((x + 1, y + 1));
            }
        }
    }
    assert_eq!(p.layout.dark, dark);
}

#[test]
fn codes_that_are_refused() {
    let r = share_qr(None, "", None, None, 0).unwrap();
    assert_eq!(r.outcome.unwrap_err().status, 404);
    let r = share_qr(Some(link("t", Some(0))), "", None, None, 0).unwrap();
    assert_eq!(r.changes.len(), 1);
    assert_eq!(r.outcome.unwrap_err().error, "not found");
    let host = "h".repeat(3000);
    let r = share_qr(Some(link("t", None)), "", None, Some(&host), 0).unwrap();
    let e = r.outcome.unwrap_err();
    assert_eq!((e.status, e.error.as_str()), (500, "qr failed"));
    assert!(share_qr(Some(link("1234567ü", None)), "download=1", None, None, 0).is_none());
    assert!(share_qr(Some(link("1234567ü", None)), "", None, None, 0).unwrap().outcome.is_ok());
    let r = share_qr(Some(link("short", None)), "download=1", None, None, 0).unwrap();
    assert_eq!(r.outcome.unwrap().headers[2].value, "attachment; filename=\"share-short.svg\"");
}

#[test]
fn drawings() {
    let cells = vec![pair("1.000", "2.500")];
    assert_eq!(
        svg(64, &cells, "0.500"),
        "<?xml version=\"1.0\" encoding=\"UTF-8\"?><svg xmlns=\"http://www.w3.org/2000/svg\" width=\"64\" height=\"64\" viewBox=\"0 0 64 64\" shape-rendering=\"crispEdges\"><rect width=\"100%\" height=\"100%\" fill=\"#ffffff\"/><rect x=\"1.000\" y=\"2.500\" width=\"0.500\" height=\"0.500\" fill=\"#000000\"/></svg>"
    );
}

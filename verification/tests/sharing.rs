use clip_relay::delivery::{Body, StoredFile};
use clip_relay::reply::{HeaderName, Refusal};
use clip_relay::settings::{
    expiry, get_item_share, own_link, plan_update, share_url, stored_password, update_item_share,
    updated_view, CurrentLink, OwnLink, ReadBack, ShareUpdate,
};
use clip_relay::share::{
    is_authorized, share_download, share_file, share_meta, share_verify, ShareLimits, ShareLink,
    SharedFile, SharedItem,
};
use clip_relay::store::{statement, Change};
use clip_relay::token::{new_token, password_hash};

const COUNT: &str = "UPDATE ShareLink SET downloadCount=downloadCount+1, updatedAt=? WHERE token=?";
const DELETE: &str = "DELETE FROM ClipboardItem WHERE id=?";

fn limits(expires_at: Option<i64>, max: Option<i64>, count: i64, revoked: i64) -> ShareLimits {
    ShareLimits { expires_at, max_downloads: max, download_count: count, revoked }
}

fn link(limits: ShareLimits, hash: Option<&str>) -> ShareLink {
    ShareLink {
        token: "tok".to_string(),
        item_id: "item".to_string(),
        limits,
        password_hash: hash.map(|s| s.to_string()),
    }
}

fn open_link() -> ShareLink {
    link(limits(None, None, 0, 0), None)
}

fn item(item_type: &str) -> SharedItem {
    SharedItem {
        item_type: item_type.to_string(),
        file_name: Some("n".to_string()),
        file_size: Some(3),
        content_type: Some("x/y".to_string()),
        content: Some("hello".to_string()),
    }
}

fn file(item_type: &str, path: Option<&str>, inline: Option<Vec<u8>>) -> SharedFile {
    SharedFile {
        item_type: item_type.to_string(),
        content: Some("hello".to_string()),
        file: StoredFile {
            file_path: path.map(|s| s.to_string()),
            inline_data: inline,
            file_name: Some("n".to_string()),
            content_type: Some("x/y".to_string()),
        },
    }
}

fn sql(changes: Vec<Change>) -> Vec<String> {
    changes.into_iter().map(|c| statement(c).sql).collect()
}

fn shape(e: Refusal) -> (u16, String) {
    (e.status, e.error)
}

#[test]
fn validity() {
    assert!(limits(None, None, 9, 0).is_live(5));
    assert!(limits(Some(5), None, 0, 0).is_live(5));
    assert!(!limits(Some(4), None, 0, 0).is_live(5));
    assert!(limits(Some(4), None, 0, 0).is_expired(5));
    assert!(limits(None, Some(2), 1, 0).is_live(5));
    assert!(!limits(None, Some(2), 2, 0).is_live(5));
    assert!(limits(None, Some(2), 3, 0).is_exhausted());
    assert!(limits(None, Some(-1), 3, 0).is_live(5));
    assert!(!limits(None, Some(0), 0, 0).is_live(5));
    assert!(!limits(None, None, 0, 1).is_live(5));
}

#[test]
fn descriptions() {
    let r = share_meta(Some(link(limits(Some(0), Some(9), 3, 0), None)), Some(item("FILE")), None, 0);
    assert!(r.changes.is_empty());
    let m = r.outcome.unwrap();
    assert_eq!((m.token.as_str(), m.item_id.as_str()), ("tok", "item"));
    assert_eq!(m.item.item_type, "FILE");
    assert_eq!(m.item.file_name.as_deref(), Some("n"));
    assert_eq!(m.item.file_size, Some(3));
    assert_eq!(m.item.content, None);
    assert_eq!(m.expires_at.as_deref(), Some("1970-01-01T00:00:00Z"));
    assert_eq!((m.max_downloads, m.download_count), (Some(9), 3));
    assert!(!m.requires_password && m.authorized);
}

#[test]
fn descriptions_of_text_count() {
    let r = share_meta(Some(link(limits(None, Some(3), 1, 0), None)), Some(item("TEXT")), None, 0);
    assert_eq!(sql(r.changes), vec![COUNT]);
    let m = r.outcome.unwrap();
    assert_eq!(m.item.content.as_deref(), Some("hello"));
    assert_eq!(m.download_count, 2);
    let r = share_meta(Some(link(limits(None, Some(3), 2, 0), None)), Some(item("TEXT")), None, 0);
    assert_eq!(sql(r.changes), vec![COUNT, DELETE]);
    assert_eq!(r.outcome.unwrap().download_count, 3);
}

#[test]
fn descriptions_without_the_password() {
    let r = share_meta(Some(link(limits(None, None, 1, 0), Some("h"))), Some(item("TEXT")), None, 0);
    assert!(r.changes.is_empty());
    let m = r.outcome.unwrap();
    assert_eq!(m.item.content, None);
    assert_eq!(m.download_count, 1);
    assert!(m.requires_password && !m.authorized);
}

#[test]
fn descriptions_that_are_refused() {
    let r = share_meta(None, None, None, 0);
    assert!(r.changes.is_empty());
    assert_eq!(shape(r.outcome.unwrap_err()), (404, "not found".to_string()));
    let r = share_meta(Some(link(limits(None, None, 0, 1), None)), None, None, 0);
    assert!(r.changes.is_empty());
    assert_eq!(shape(r.outcome.unwrap_err()), (404, "not found".to_string()));
    let r = share_meta(Some(link(limits(Some(1), None, 0, 0), None)), None, None, 2);
    assert_eq!(sql(r.changes), vec![DELETE]);
    assert!(r.outcome.is_err());
    let r = share_meta(Some(link(limits(None, Some(1), 1, 1), None)), None, None, 2);
    assert_eq!(sql(r.changes), vec![DELETE]);
}

#[test]
fn descriptions_of_a_missing_item() {
    let m = share_meta(Some(open_link()), None, None, 0).outcome.unwrap();
    assert_eq!(m.item.item_type, "FILE");
    assert_eq!(m.item.file_name, None);
}

#[test]
fn cookies_open_a_link() {
    let l = link(limits(None, None, 0, 0), Some("h"));
    assert!(is_authorized(&l, Some("share_auth_tok=h")));
    assert!(is_authorized(&l, Some("a=1; share_auth_tok=h; b=2")));
    assert!(!is_authorized(&l, Some("share_auth_tok=i")));
    assert!(!is_authorized(&l, None));
    assert!(is_authorized(&open_link(), None));
}

#[test]
fn shown_contents() {
    let r = share_file(Some((open_link(), file("TEXT", None, None))), None, 0);
    assert!(r.changes.is_empty());
    let d = r.outcome.unwrap();
    assert_eq!(d.headers.len(), 1);
    assert_eq!(d.headers[0].value, "text/plain; charset=utf-8");
    assert!(matches!(d.body, Body::Text(t) if t == "hello"));
    assert!(d.once_open.is_empty());

    let limited = link(limits(None, Some(1), 0, 0), None);
    let r = share_file(Some((limited, file("FILE", Some("uploads/x"), None))), None, 0);
    assert!(r.changes.is_empty());
    let d = r.outcome.unwrap();
    assert_eq!(d.headers[0].value, "x/y");
    assert_eq!(d.headers[1].value, "inline; filename*=UTF-8''n");
    assert!(matches!(d.body, Body::File(p) if p == "uploads/x"));
    assert_eq!(sql(d.once_open), vec![COUNT, DELETE]);

    let r = share_file(Some((open_link(), file("FILE", None, None))), None, 0);
    assert_eq!(shape(r.outcome.unwrap_err()), (404, "missing content".to_string()));
}

#[test]
fn downloads() {
    let r = share_download(Some((open_link(), file("TEXT", None, None))), None, 0);
    assert_eq!(sql(r.changes), vec![COUNT]);
    let d = r.outcome.unwrap();
    assert_eq!(d.headers[1].name, HeaderName::ContentDisposition);
    assert_eq!(d.headers[1].value, "attachment; filename*=UTF-8''n.txt");

    let r = share_download(Some((open_link(), file("IMAGE", None, Some(vec![7])))), None, 0);
    assert_eq!(sql(r.changes), vec![COUNT]);
    let d = r.outcome.unwrap();
    assert_eq!(d.headers[1].value, "attachment; filename*=UTF-8''n");
    assert!(matches!(d.body, Body::Bytes(b) if b == vec![7]));

    let r = share_download(Some((open_link(), file("FILE", None, None))), None, 0);
    assert_eq!(sql(r.changes), vec![COUNT]);
    assert_eq!(shape(r.outcome.unwrap_err()), (404, "missing content".to_string()));
}

#[test]
fn contents_that_are_refused() {
    assert_eq!(shape(share_file(None, None, 0).outcome.unwrap_err()).0, 404);
    assert_eq!(shape(share_download(None, None, 0).outcome.unwrap_err()).0, 404);
    let locked = || link(limits(None, None, 0, 0), Some("h"));
    let r = share_file(Some((locked(), file("TEXT", None, None))), None, 0);
    assert_eq!(shape(r.outcome.unwrap_err()), (401, "unauthorized".to_string()));
    let r = share_download(Some((locked(), file("TEXT", None, None))), Some("x"), 0);
    assert!(r.changes.is_empty());
    assert_eq!(shape(r.outcome.unwrap_err()), (401, "unauthorized".to_string()));
    let over = link(limits(Some(1), None, 0, 0), Some("h"));
    let r = share_download(Some((over, file("TEXT", None, None))), None, 2);
    assert_eq!(sql(r.changes), vec![DELETE]);
    assert_eq!(shape(r.outcome.unwrap_err()), (404, "not found".to_string()));
}

#[test]
fn passwords_of_a_link() {
    let token = new_token();
    let hash = password_hash("open sesame", &token);
    let set = share_verify(Some(hash.clone()), "open sesame", &token, Some("https")).unwrap();
    assert_eq!(
        set,
        format!("share_auth_{token}={hash}; Max-Age=604800; Path=/; SameSite=Lax; HttpOnly; Secure")
    );
    let set = share_verify(Some(hash.clone()), "open sesame", &token, None).unwrap();
    assert!(set.ends_with("HttpOnly"));
    let kept = set.split(';').next().unwrap().to_string();
    let l = ShareLink {
        token: token.clone(),
        item_id: "item".to_string(),
        limits: limits(None, None, 0, 0),
        password_hash: Some(hash.clone()),
    };
    assert!(is_authorized(&l, Some(&format!("lang=de; {kept}"))));
    let e = share_verify(Some(hash), "other", &token, None).unwrap_err();
    assert_eq!(shape(e), (401, "invalid password".to_string()));
    let e = share_verify(None, "other", &token, None).unwrap_err();
    assert_eq!(shape(e), (400, "no password set".to_string()));
}

fn own(token: &str, limits: ShareLimits) -> OwnLink {
    OwnLink {
        token: token.to_string(),
        limits,
        password_hash: Some("h".to_string()),
        password_plain: Some("p".to_string()),
    }
}

#[test]
fn owners_see_their_link() {
    let r = own_link(Some(own("t", limits(Some(9), Some(4), 2, 0))), "item", 5, "new".to_string());
    assert!(r.changes.is_empty());
    assert_eq!((r.view.token.as_str(), r.view.url.as_str()), ("t", "/s/?token=t"));
    assert_eq!(r.view.expires_at.as_deref(), Some("1970-01-01T00:00:09Z"));
    assert_eq!((r.view.max_downloads, r.view.download_count), (Some(4), 2));
    assert!(r.view.requires_password);
    assert_eq!(r.view.password.as_deref(), Some("p"));
}

#[test]
fn owners_get_a_new_link() {
    for found in [
        None,
        Some(own("t", limits(None, None, 0, 1))),
        Some(own("t", limits(Some(4), None, 0, 0))),
        Some(own("t", limits(None, Some(1), 1, 0))),
        Some(own("", limits(None, None, 0, 0))),
    ] {
        let plain = found.as_ref().map(|_| "p");
        let r = own_link(found, "item", 5, "new".to_string());
        assert_eq!(r.view.password.as_deref(), plain);
        assert_eq!(r.view.url, "/s/?token=new");
        assert!(!r.view.requires_password);
        assert!(r.view.expires_at.is_none() && r.view.max_downloads.is_none());
        let mut changes = r.changes;
        assert_eq!(changes.len(), 1);
        assert!(matches!(
            changes.pop().unwrap(),
            Change::ProvisionLink { token, item_id, now: 5 } if token == "new" && item_id == "item"
        ));
    }
    let again = own_link(Some(own("new", limits(None, None, 0, 0))), "item", 6, "x".to_string());
    assert_eq!(again.view.url, "/s/?token=new");
    assert!(again.changes.is_empty());
    let r = get_item_share(None, "item", 5);
    assert_eq!(r.view.token.len(), 24);
    assert_eq!(r.view.url, share_url(&r.view.token));
}

fn update() -> ShareUpdate {
    ShareUpdate {
        expires_in: None,
        max_downloads: None,
        password: None,
        reset: None,
        disable: None,
    }
}

fn current() -> Option<CurrentLink> {
    Some(CurrentLink { token: "t".to_string(), max_downloads: Some(7) })
}

fn plan(current: Option<CurrentLink>, req: &ShareUpdate) -> (Vec<String>, Option<String>) {
    let p = plan_update(current, req, "item", 100, "fresh".to_string(), "next".to_string());
    (p.changes.into_iter().map(|c| format!("{:?}", statement(c))).collect(), p.token)
}

#[test]
fn sharing_is_switched_off() {
    let req = ShareUpdate { disable: Some(true), expires_in: Some(i64::MAX), ..update() };
    let (changes, token) = plan(current(), &req);
    assert_eq!(token, None);
    assert_eq!(changes.len(), 1);
    assert!(changes[0].contains("SET revoked=1"));
    assert!(changes[0].contains("[Integer(100), Text(\"item\")]"));
}

#[test]
fn settings_are_changed() {
    let req = ShareUpdate { expires_in: Some(60), password: Some("pw".to_string()), ..update() };
    let (changes, token) = plan(current(), &req);
    assert_eq!(token.as_deref(), Some("t"));
    assert_eq!(changes.len(), 1);
    let hash = password_hash("pw", "t");
    assert!(changes[0].contains(&format!(
        "[Integer(160), Integer(7), Text(\"{hash}\"), Text(\"pw\"), Integer(100), Text(\"t\")]"
    )));
    let req = ShareUpdate { max_downloads: Some(2), password: Some(" ".to_string()), ..update() };
    let (changes, _) = plan(current(), &req);
    assert!(changes[0].contains("[Null, Integer(2), Null, Null, Integer(100), Text(\"t\")]"));
    let (changes, token) = plan(current(), &update());
    assert!(changes.is_empty());
    assert_eq!(token.as_deref(), Some("t"));
}

#[test]
fn links_are_reset() {
    let req = ShareUpdate { reset: Some(true), password: Some("pw".to_string()), ..update() };
    let (changes, token) = plan(current(), &req);
    assert_eq!(token.as_deref(), Some("next"));
    let hash = password_hash("pw", "next");
    assert!(changes[0].contains(&format!(
        "[Text(\"next\"), Null, Integer(7), Text(\"{hash}\"), Text(\"pw\"), Integer(100), Text(\"t\")]"
    )));
    let (changes, token) = plan(None, &req);
    assert_eq!(changes.len(), 2);
    assert!(changes[0].contains("Text(\"fresh\")"));
    assert!(changes[1].contains("Integer(100), Text(\"fresh\")]"));
    assert_eq!(token.as_deref(), Some("next"));
}

#[test]
fn updates_make_fresh_tokens() {
    let p = update_item_share(None, &update(), "item", 100);
    assert_eq!(p.token.unwrap().len(), 24);
    assert_eq!(p.changes.len(), 1);
    let req = ShareUpdate { reset: Some(true), ..update() };
    let p = update_item_share(current(), &req, "item", 100);
    assert_eq!(p.token.unwrap().len(), 24);
}

#[test]
fn ends_of_a_link() {
    assert_eq!(expiry(None, 5), None);
    assert_eq!(expiry(Some(0), 5), None);
    assert_eq!(expiry(Some(-9), 5), None);
    assert_eq!(expiry(Some(9), 5), Some(14));
}

#[test]
fn blank_passwords_do_not_count() {
    assert_eq!(stored_password(&None, "t"), (None, None));
    assert_eq!(stored_password(&Some(" \t".to_string()), "t"), (None, None));
    let (plain, hash) = stored_password(&Some(" a ".to_string()), "t");
    assert_eq!(plain.as_deref(), Some(" a "));
    assert_eq!(hash, Some(password_hash(" a ", "t")));
}

#[test]
fn links_are_read_back() {
    let row = ReadBack {
        expires_at: Some(9),
        max_downloads: Some(1),
        download_count: 3,
        password_hash: Some("h".to_string()),
        password_plain: Some("p".to_string()),
    };
    let v = updated_view("t".to_string(), Some(row));
    assert_eq!(v.url, "/s/?token=t");
    assert_eq!(v.expires_at.as_deref(), Some("1970-01-01T00:00:09Z"));
    assert_eq!((v.max_downloads, v.download_count, v.requires_password), (Some(1), 3, true));
    assert_eq!(v.password.as_deref(), Some("p"));
    let v = updated_view("t".to_string(), None);
    assert_eq!((v.max_downloads, v.download_count, v.requires_password), (None, 0, false));
    assert!(v.expires_at.is_none() && v.password.is_none());
}

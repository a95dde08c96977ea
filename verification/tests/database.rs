use clip_relay::delivery::{Body, StoredFile};
use clip_relay::items::{create_item, delete_clipboard, reorder_clipboard, Draft};
use clip_relay::listing::{list_query, list_statement, page, Cursor, ItemRow};
use clip_relay::settings::{own_link, plan_update, CurrentLink, ShareUpdate};
use clip_relay::share::{share_download, share_meta, ShareLimits, ShareLink, SharedFile, SharedItem};
use clip_relay::store::{
    migration, statement, Change, SqlValue, Statement, PASSWORD_COLUMN_PROBE, SCHEMA,
};
use rusqlite::types::Value;
use rusqlite::Connection;

fn open() -> Connection {
    let conn = Connection::open_in_memory().unwrap();
    conn.execute_batch(SCHEMA).unwrap();
    let has_column = conn.prepare(PASSWORD_COLUMN_PROBE).is_ok();
    assert!(!has_column);
    conn.execute(migration(has_column).unwrap(), []).unwrap();
    assert!(conn.prepare(PASSWORD_COLUMN_PROBE).is_ok());
    assert!(migration(true).is_none());
    conn
}

fn values(s: &Statement) -> Vec<Value> {
    s.params
        .iter()
        .map(|p| match p {
            SqlValue::Null => Value::Null,
            SqlValue::Integer(n) => Value::Integer(*n),
            SqlValue::Text(t) => Value::Text(t.clone()),
            SqlValue::Blob(b) => Value::Blob(b.clone()),
        })
        .collect()
}

fn apply(conn: &Connection, change: Change) -> bool {
    let s = statement(change);
    conn.execute(&s.sql, rusqlite::params_from_iter(values(&s))).is_ok()
}

fn apply_all(conn: &Connection, changes: Vec<Change>) {
    for c in changes {
        assert!(apply(conn, c));
    }
}

fn add(conn: &Connection, id: &str, token: &str, max: Option<i64>) {
    let mut d = Draft::new();
    d.field("content", format!("text of {id}"));
    d.field("type", "TEXT".to_string());
    d.share_max_downloads = max;
    let top: i64 = conn
        .query_row("SELECT COALESCE(MAX(sortWeight),0) FROM ClipboardItem", [], |r| r.get(0))
        .unwrap();
    let c = create_item(d, id.to_string(), token.to_string(), top, 100).unwrap();
    assert!(apply(conn, c.insert_item));
    assert!(apply(conn, c.insert_link));
}

fn count(conn: &Connection, table: &str) -> i64 {
    conn.query_row(&format!("SELECT COUNT(*) FROM {table}"), [], |r| r.get(0)).unwrap()
}

fn find(conn: &Connection, token: &str) -> Option<ShareLink> {
    conn.query_row(
        "SELECT token, itemId, expiresAt, maxDownloads, downloadCount, revoked, passwordHash FROM ShareLink WHERE token=?",
        [token],
        |r| {
            Ok(ShareLink {
                token: r.get(0)?,
                item_id: r.get(1)?,
                limits: ShareLimits {
                    expires_at: r.get(2)?,
                    max_downloads: r.get(3)?,
                    download_count: r.get(4)?,
                    revoked: r.get(5)?,
                },
                password_hash: r.get(6)?,
            })
        },
    )
    .ok()
}

fn text_file() -> SharedFile {
    SharedFile {
        item_type: "TEXT".to_string(),
        content: None,
        file: StoredFile {
            file_path: None,
            inline_data: None,
            file_name: None,
            content_type: None,
        },
    }
}

/// Opens the database behind a connection once more.
fn reopen(conn: &Connection) {
    conn.execute_batch(SCHEMA).unwrap();
    let has_column = conn.prepare(PASSWORD_COLUMN_PROBE).is_ok();
    if let Some(sql) = migration(has_column) {
        conn.execute(sql, []).unwrap();
    }
}

fn dump(conn: &Connection) -> Vec<String> {
    let mut out = Vec::new();
    for sql in [
        "SELECT name, sql, '' FROM sqlite_master ORDER BY name",
        "SELECT id, content, sortWeight FROM ClipboardItem ORDER BY id",
        "SELECT token, itemId, passwordPlain FROM ShareLink ORDER BY token",
    ] {
        let mut st = conn.prepare(sql).unwrap();
        let rows = st
            .query_map([], |r| {
                let v: (Value, Value, Value) = (r.get(0)?, r.get(1)?, r.get(2)?);
                Ok(format!("{v:?}"))
            })
            .unwrap();
        out.extend(rows.map(|r| r.unwrap()));
    }
    out
}

#[test]
fn opening_again_keeps_everything() {
    let conn = open();
    add(&conn, "a", "ta", Some(3));
    conn.execute("UPDATE ShareLink SET passwordPlain='pw'", []).unwrap();
    let before = dump(&conn);
    reopen(&conn);
    assert_eq!(dump(&conn), before);
}

#[test]
fn old_databases_get_the_column() {
    let conn = Connection::open_in_memory().unwrap();
    conn.execute_batch(SCHEMA).unwrap();
    conn.execute("INSERT INTO ClipboardItem (id,type) VALUES ('a','TEXT')", []).unwrap();
    conn.execute("INSERT INTO ShareLink (token,itemId) VALUES ('ta','a')", []).unwrap();
    reopen(&conn);
    let plain: Option<String> =
        conn.query_row("SELECT passwordPlain FROM ShareLink", [], |r| r.get(0)).unwrap();
    assert_eq!(plain, None);
    assert_eq!((count(&conn, "ClipboardItem"), count(&conn, "ShareLink")), (1, 1));
    let before = dump(&conn);
    reopen(&conn);
    assert_eq!(dump(&conn), before);
    apply_all(&conn, delete_clipboard("a", None).changes);
    assert_eq!(count(&conn, "ShareLink"), 0);
}

#[test]
fn created_rows_are_there() {
    let conn = open();
    add(&conn, "a", "ta", Some(3));
    let l = find(&conn, "ta").unwrap();
    assert_eq!(l.item_id, "a");
    assert_eq!((l.limits.max_downloads, l.limits.download_count), (Some(3), 0));
    assert!(l.limits.is_live(100));
    let weight: i64 =
        conn.query_row("SELECT sortWeight FROM ClipboardItem WHERE id='a'", [], |r| r.get(0)).unwrap();
    assert_eq!(weight, 1);
}

#[test]
fn refused_rows_change_nothing() {
    let conn = open();
    add(&conn, "a", "ta", None);
    let again = |token: &str, item: &str| Change::ProvisionLink {
        token: token.to_string(),
        item_id: item.to_string(),
        now: 1,
    };
    assert!(!apply(&conn, again("ta", "a")));
    assert!(!apply(&conn, again("tb", "gone")));
    assert_eq!(count(&conn, "ShareLink"), 1);
    assert!(apply(&conn, again("tb", "a")));
    assert_eq!(count(&conn, "ShareLink"), 2);
}

#[test]
fn deleting_an_item_takes_its_links() {
    let conn = open();
    add(&conn, "a", "ta", None);
    add(&conn, "b", "tb", None);
    apply_all(&conn, delete_clipboard("a", None).changes);
    assert!(find(&conn, "ta").is_none());
    assert!(find(&conn, "tb").is_some());
    assert_eq!(count(&conn, "ClipboardItem"), 1);
}

#[test]
fn a_limited_link_serves_so_many_times() {
    let conn = open();
    add(&conn, "a", "ta", Some(3));
    let mut served = 0;
    for now in 101..110 {
        let found = find(&conn, "ta").map(|l| (l, text_file()));
        let r = share_download(found, None, now);
        apply_all(&conn, r.changes);
        if r.outcome.is_ok() {
            served += 1;
        }
    }
    assert_eq!(served, 3);
    assert_eq!(count(&conn, "ClipboardItem"), 0);
    assert_eq!(count(&conn, "ShareLink"), 0);
}

#[test]
fn the_first_visitors_are_served() {
    let conn = open();
    add(&conn, "a", "ta", Some(2));
    conn.execute("UPDATE ShareLink SET expiresAt=150, passwordHash='h'", []).unwrap();
    let served: Vec<bool> = (147..151)
        .map(|now| {
            let found = find(&conn, "ta").map(|l| (l, text_file()));
            let r = share_download(found, Some("share_auth_ta=h"), now);
            apply_all(&conn, r.changes);
            r.outcome.is_ok()
        })
        .collect();
    assert_eq!(served, vec![true, true, false, false]);
    assert_eq!((count(&conn, "ClipboardItem"), count(&conn, "ShareLink")), (0, 0));
}

#[test]
fn an_expired_link_takes_its_item() {
    let conn = open();
    add(&conn, "a", "ta", None);
    conn.execute("UPDATE ShareLink SET expiresAt=150", []).unwrap();
    let item = SharedItem {
        item_type: "TEXT".to_string(),
        file_name: None,
        file_size: None,
        content_type: None,
        content: None,
    };
    let r = share_meta(find(&conn, "ta"), Some(item), None, 151);
    assert!(r.outcome.is_err());
    apply_all(&conn, r.changes);
    assert_eq!(count(&conn, "ClipboardItem"), 0);
    assert_eq!(count(&conn, "ShareLink"), 0);
}

fn request() -> ShareUpdate {
    ShareUpdate {
        expires_in: None,
        max_downloads: None,
        password: None,
        reset: None,
        disable: None,
    }
}

fn change(conn: &Connection, current: Option<&str>, req: &ShareUpdate) -> Option<String> {
    let current = current.map(|t| CurrentLink {
        token: t.to_string(),
        max_downloads: find(conn, t).unwrap().limits.max_downloads,
    });
    let p = plan_update(current, req, "a", 200, "fresh".to_string(), "next".to_string());
    apply_all(conn, p.changes);
    p.token
}

#[test]
fn settings_are_written() {
    let conn = open();
    add(&conn, "a", "ta", Some(3));
    let req = ShareUpdate { expires_in: Some(50), password: Some("pw".to_string()), ..request() };
    assert_eq!(change(&conn, Some("ta"), &req).as_deref(), Some("ta"));
    let l = find(&conn, "ta").unwrap();
    assert_eq!(l.limits.expires_at, Some(250));
    assert_eq!(l.limits.max_downloads, Some(3));
    assert_eq!(l.password_hash, Some(clip_relay::token::password_hash("pw", "ta")));
}

#[test]
fn a_reset_link_moves() {
    let conn = open();
    add(&conn, "a", "ta", Some(3));
    let req = ShareUpdate { reset: Some(true), ..request() };
    assert_eq!(change(&conn, Some("ta"), &req).as_deref(), Some("next"));
    assert!(find(&conn, "ta").is_none());
    assert_eq!(find(&conn, "next").unwrap().limits.max_downloads, Some(3));
}

#[test]
fn a_switched_off_item_has_no_working_link() {
    let conn = open();
    add(&conn, "a", "ta", None);
    let r = own_link(None, "a", 150, "tb".to_string());
    apply_all(&conn, r.changes);
    assert!(find(&conn, "tb").unwrap().limits.is_live(1000));
    let req = ShareUpdate { disable: Some(true), ..request() };
    assert_eq!(change(&conn, Some("ta"), &req), None);
    for t in ["ta", "tb"] {
        assert!(!find(&conn, t).unwrap().limits.is_live(200));
        let r = share_download(find(&conn, t).map(|l| (l, text_file())), None, 200);
        assert_eq!(r.outcome.unwrap_err().status, 404);
    }
    assert_eq!(count(&conn, "ClipboardItem"), 1);
}

fn rows(conn: &Connection, s: &Statement) -> Vec<ItemRow> {
    let mut st = conn.prepare(&s.sql).unwrap();
    st.query_map(rusqlite::params_from_iter(values(s)), |r| {
        Ok(ItemRow {
            id: r.get(0)?,
            item_type: r.get(1)?,
            content: r.get(2)?,
            file_name: r.get(3)?,
            file_size: r.get(4)?,
            sort_weight: r.get(5)?,
            content_type: r.get(6)?,
            file_path: r.get(8)?,
            created_at: r.get(9)?,
            updated_at: r.get(10)?,
        })
    })
    .unwrap()
    .collect::<Result<Vec<_>, _>>()
    .unwrap()
}

fn listed(conn: &Connection, take: &str, search: Option<&str>) -> Vec<String> {
    let mut out = Vec::new();
    let mut cursor: Option<Cursor> = None;
    loop {
        let mut pairs = vec![("take".to_string(), take.to_string())];
        if let Some(s) = search {
            pairs.push(("search".to_string(), s.to_string()));
        }
        if let Some(c) = cursor {
            pairs.push(("cursorCreatedAt".to_string(), c.created_at));
            pairs.push(("cursorId".to_string(), c.id));
            pairs.push(("cursorSortWeight".to_string(), c.sort_weight.to_string()));
        }
        let q = list_query(pairs);
        let p = page(&rows(conn, &list_statement(&q)), q.take);
        out.extend(p.items.into_iter().map(|i| i.id));
        cursor = p.next_cursor;
        if cursor.is_none() {
            return out;
        }
    }
}

#[test]
fn pages_make_up_the_listing() {
    let conn = open();
    for (i, id) in ["a", "b", "c", "d", "e", "é", "z"].iter().enumerate() {
        add(&conn, id, &format!("t{i}"), None);
    }
    conn.execute("UPDATE ClipboardItem SET sortWeight=5", []).unwrap();
    conn.execute("UPDATE ClipboardItem SET createdAt=99 WHERE id IN ('e','z')", []).unwrap();
    conn.execute("UPDATE ClipboardItem SET sortWeight=9 WHERE id='b'", []).unwrap();
    let all = vec!["b", "é", "d", "c", "a", "z", "e"];
    for take in ["1", "2", "3", "48"] {
        assert_eq!(listed(&conn, take, None), all);
    }
    assert_eq!(listed(&conn, "1", Some("of d")), vec!["d"]);
}

#[test]
fn reordered_items_come_first() {
    let conn = open();
    for (i, id) in ["a", "b", "c", "d"].iter().enumerate() {
        add(&conn, id, &format!("t{i}"), None);
    }
    assert_eq!(listed(&conn, "2", None), vec!["d", "c", "b", "a"]);
    let ids = vec!["a".to_string(), "c".to_string()];
    let r = reorder_clipboard(&ids, 4, 300).unwrap();
    apply_all(&conn, r.changes);
    assert_eq!(listed(&conn, "2", None), vec!["a", "c", "d", "b"]);
    add(&conn, "new", "tn", None);
    assert_eq!(listed(&conn, "2", None)[0], "new");
}

#[test]
fn blobs_are_written() {
    let conn = open();
    let mut d = Draft::new();
    let mut u = clip_relay::upload::Upload::new();
    u.receive_chunk(&[1, 2, 3], None);
    d.file(Some("f".to_string()), None, u);
    let c = create_item(d, "f".to_string(), "tf".to_string(), 0, 1).unwrap();
    assert!(apply(&conn, c.insert_item));
    let b: Vec<u8> =
        conn.query_row("SELECT inlineData FROM ClipboardItem WHERE id='f'", [], |r| r.get(0)).unwrap();
    assert_eq!(b, vec![1, 2, 3]);
}

fn contents(conn: &Connection, id: &str) -> SharedFile {
    conn.query_row(
        "SELECT type, content, filePath, inlineData, fileName, contentType FROM ClipboardItem WHERE id=?",
        [id],
        |r| {
            Ok(SharedFile {
                item_type: r.get(0)?,
                content: r.get(1)?,
                file: StoredFile {
                    file_path: r.get(2)?,
                    inline_data: r.get(3)?,
                    file_name: r.get(4)?,
                    content_type: r.get(5)?,
                },
            })
        },
    )
    .unwrap()
}

#[test]
fn what_was_put_in_comes_out() {
    let conn = open();
    add(&conn, "a", "ta", None);
    let r = share_download(find(&conn, "ta").map(|l| (l, contents(&conn, "a"))), None, 100);
    assert!(matches!(r.outcome.unwrap().body, Body::Text(t) if t == "text of a"));

    let mut d = Draft::new();
    d.field("type", "FILE".to_string());
    let mut u = clip_relay::upload::Upload::new();
    u.receive_chunk(&[9, 8], None);
    u.receive_chunk(&[7], None);
    d.file(None, None, u);
    let c = create_item(d, "f".to_string(), "tf".to_string(), 1, 100).unwrap();
    assert!(apply(&conn, c.insert_item));
    assert!(apply(&conn, c.insert_link));
    let r = share_download(find(&conn, "tf").map(|l| (l, contents(&conn, "f"))), None, 100);
    assert!(matches!(r.outcome.unwrap().body, Body::Bytes(b) if b == vec![9, 8, 7]));
}

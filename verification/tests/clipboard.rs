use clip_relay::events::{created_event, Event, Field};
use clip_relay::items::{
    after_insert, create_clipboard, create_item, delete_clipboard, field_kind, reorder_clipboard,
    Draft, FieldKind,
};
use clip_relay::listing::{
    get_clipboard, list_query, list_statement, page, parse_list_query, ItemRow, ItemType,
};
use clip_relay::store::statement;
use clip_relay::token::password_hash;
use clip_relay::upload::{disk_refusal, stored_name, ChunkStep, DiskFault, Upload, MAX_INLINE};

fn draft(fields: &[(&str, &str)]) -> Draft {
    let mut d = Draft::new();
    for (k, v) in fields {
        d.field(k, v.to_string());
    }
    d
}

#[test]
fn parts_of_a_request() {
    assert_eq!(field_kind(None), FieldKind::Skip);
    assert_eq!(field_kind(Some("file")), FieldKind::File);
    assert_eq!(field_kind(Some("File")), FieldKind::Text);
    assert_eq!(field_kind(Some("")), FieldKind::Text);
}

#[test]
fn files_that_cannot_be_stored() {
    let e = disk_refusal(DiskFault::Open);
    assert_eq!((e.status, e.error.as_str()), (500, "open failed"));
    let e = disk_refusal(DiskFault::Write);
    assert_eq!((e.status, e.error.as_str()), (500, "write failed"));
}

#[test]
fn fields_of_a_draft() {
    let d = draft(&[
        ("content", "hi"),
        ("type", "IMAGE"),
        ("shareExpiresIn", "-5"),
        ("shareMaxDownloads", "3"),
        ("sharePassword", " pw"),
        ("sharePassword", "  "),
        ("shareMaxDownloads", "many"),
        ("unknown", "x"),
    ]);
    assert_eq!(d.content.as_deref(), Some("hi"));
    assert_eq!(d.item_type, Some(ItemType::Image));
    assert_eq!(d.share_expires_in, Some(0));
    assert_eq!(d.share_max_downloads, Some(3));
    assert_eq!(d.share_password.as_deref(), Some(" pw"));
    assert_eq!(draft(&[("type", "TEXT"), ("type", "text")]).item_type, None);
}

#[test]
fn items_are_created() {
    let d = draft(&[
        ("content", "hi"),
        ("shareExpiresIn", "60"),
        ("shareMaxDownloads", "2"),
        ("sharePassword", "pw"),
    ]);
    let c = create_item(d, "id".to_string(), "tok".to_string(), 41, 1700000000).unwrap();
    assert_eq!(c.told.id, "id");
    assert_eq!(c.told.item_type, "TEXT");
    assert_eq!(c.told.content.as_deref(), Some("hi"));
    assert_eq!(c.told.sort_weight, 42);
    assert_eq!(c.told.created_at, "2023-11-14T22:13:20Z");
    assert_eq!(c.told.share.token, "tok");
    assert_eq!(c.told.share.url, "/s/?token=tok");
    assert_eq!(c.told.share.expires_at.as_deref(), Some("2023-11-14T22:14:20Z"));
    assert_eq!(c.told.share.max_downloads, Some(2));
    assert!(c.told.share.requires_password);
    let s = statement(c.insert_item);
    assert_eq!(
        format!("{:?}", s.params),
        "[Text(\"id\"), Text(\"TEXT\"), Text(\"hi\"), Null, Null, Integer(42), Null, Null, Null, Integer(1700000000), Integer(1700000000)]"
    );
    let s = statement(c.insert_link);
    assert_eq!(
        format!("{:?}", s.params),
        format!(
            "[Text(\"tok\"), Text(\"id\"), Integer(1700000060), Integer(2), Text(\"{}\"), Text(\"pw\"), Integer(1700000000), Integer(1700000000)]",
            password_hash("pw", "tok")
        )
    );
}

fn listed(fields: &[Field]) -> String {
    let all: Vec<String> = fields.iter().map(|f| format!("{}={:?}", f.name, f.value)).collect();
    all.join(" ")
}

fn plain(e: &Event) -> String {
    format!("{} {}", e.name, listed(&e.fields))
}

#[test]
fn new_items_are_broadcast_without_their_link() {
    let fields = [("content", "hi"), ("shareMaxDownloads", "2"), ("sharePassword", "secret")];
    let c = create_item(draft(&fields), "id".to_string(), "tok".to_string(), 41, 0).unwrap();
    let told = "id=Text(\"id\") type=Text(\"TEXT\") content=Text(\"hi\") fileName=Null fileSize=Null sortWeight=Integer(42) createdAt=Text(\"1970-01-01T00:00:00Z\") updatedAt=Text(\"1970-01-01T00:00:00Z\")";
    assert_eq!(plain(&created_event(&c.told)), format!("clipboard:created {told}"));
    let p = after_insert(c.insert_link, &c.told, None).unwrap();
    assert_eq!(p.status, 201);
    assert_eq!(plain(&p.event), format!("clipboard:created {told}"));
    assert!(!plain(&p.event).contains("tok") && !plain(&p.event).contains("secret"));
    assert_eq!(listed(&p.item), told);
    assert_eq!(
        listed(&p.share),
        "token=Text(\"tok\") url=Text(\"/s/?token=tok\") expiresAt=Null maxDownloads=Integer(2) requiresPassword=Boolean(true) downloadCount=Integer(0)"
    );
    assert!(statement(p.insert_link).sql.starts_with("INSERT INTO ShareLink"));
}

#[test]
fn items_that_cannot_be_written() {
    let c = create_item(draft(&[("content", "")]), "i".to_string(), "t".to_string(), 0, 0).unwrap();
    let e = after_insert(c.insert_link, &c.told, Some("disk full".to_string())).unwrap_err();
    assert_eq!((e.status, e.error.as_str(), e.detail.as_str()), (500, "db write failed", "disk full"));
}

#[test]
fn created_items_get_fresh_names() {
    let c = create_clipboard(draft(&[("content", "")]), 0, 0).unwrap();
    assert_eq!(c.told.id.len(), 36);
    assert_eq!(c.told.share.token.len(), 24);
    assert_eq!(c.told.sort_weight, 1);
    assert!(!c.told.share.requires_password);
    assert_eq!(c.told.share.expires_at, None);
}

#[test]
fn nothing_to_create() {
    let e = create_clipboard(draft(&[("type", "TEXT")]), 0, 0).unwrap_err();
    assert_eq!((e.status, e.error.as_str()), (400, "Content or file is required"));
}

#[test]
fn small_uploads_stay_in_memory() {
    let mut u = Upload::new();
    assert!(matches!(u.receive_chunk(&[1, 2], Some("a.txt")), ChunkStep::Keep));
    assert!(matches!(u.receive_chunk(&vec![3; MAX_INLINE - 2], Some("a.txt")), ChunkStep::Keep));
    assert_eq!(u.total, MAX_INLINE);
    assert_eq!(u.buffered.len(), MAX_INLINE);
    let mut d = Draft::new();
    d.file(Some("a.txt".to_string()), Some("text/plain".to_string()), u);
    assert_eq!(d.file_size, Some(262144));
    assert_eq!(d.inline_data.as_ref().map(|b| b.len()), Some(MAX_INLINE));
    assert_eq!(d.file_path, None);
    let c = create_item(d, "i".to_string(), "t".to_string(), 0, 0).unwrap();
    assert_eq!(c.told.file_name.as_deref(), Some("a.txt"));
}

#[test]
fn large_uploads_go_to_disk() {
    let mut u = Upload::new();
    let mut disk: Vec<u8> = Vec::new();
    let mut all: Vec<u8> = Vec::new();
    for (i, len) in [10, MAX_INLINE - 10, 1, 5].into_iter().enumerate() {
        let chunk = vec![i as u8; len];
        all.extend_from_slice(&chunk);
        match u.receive(&chunk, format!("name{i}")) {
            ChunkStep::Keep => assert!(i < 2),
            ChunkStep::Open { name, first } => {
                assert_eq!((i, name.as_str()), (2, "name2"));
                disk.extend_from_slice(&first);
                disk.extend_from_slice(&chunk);
            }
            ChunkStep::Append => {
                assert_eq!(i, 3);
                disk.extend_from_slice(&chunk);
            }
        }
    }
    assert_eq!(disk, all);
    assert_eq!(u.total, all.len());
    assert_eq!(u.path.as_deref(), Some("uploads/name2"));
    let mut d = Draft::new();
    d.inline_data = Some(vec![1]);
    d.file(None, None, u);
    assert_eq!(d.file_path.as_deref(), Some("uploads/name2"));
    assert_eq!(d.inline_data, None);
}

#[test]
fn names_of_uploads() {
    assert_eq!(stored_name("id", Some("a.b.tar")), "id.tar");
    assert_eq!(stored_name("id", Some("../../x.sh")), "id.sh");
    assert_eq!(stored_name("id", Some("plain")), "id");
    assert_eq!(stored_name("id", Some("dot.")), "id");
    assert_eq!(stored_name("id", None), "id");
    let mut u = Upload::new();
    match u.receive_chunk(&vec![0; MAX_INLINE + 1], Some("x/y.bin/z.png")) {
        ChunkStep::Open { name, first } => {
            assert_eq!(name.len(), 40);
            assert!(name.ends_with(".png") && !name.contains('/'));
            assert!(first.is_empty());
        }
        other => panic!("{other:?}"),
    }
}

#[test]
fn items_are_reordered() {
    let ids = vec!["c".to_string(), "a".to_string(), "b".to_string()];
    let r = reorder_clipboard(&ids, 10, 77).unwrap();
    assert_eq!(
        r.weights,
        vec![("c".to_string(), 13), ("a".to_string(), 12), ("b".to_string(), 11)]
    );
    let params: Vec<String> =
        r.changes.into_iter().map(|c| format!("{:?}", statement(c).params)).collect();
    assert_eq!(params[0], "[Integer(13), Integer(77), Text(\"c\")]");
    assert_eq!(params[2], "[Integer(11), Integer(77), Text(\"b\")]");
    assert_eq!(
        plain(&r.event),
        "clipboard:reordered ids=Texts([\"c\", \"a\", \"b\"]) weights=Numbers([(\"c\", 13), (\"a\", 12), (\"b\", 11)])"
    );
    assert!(reorder_clipboard(&vec![], 10, 77).is_none());
}

#[test]
fn items_are_deleted() {
    let d = delete_clipboard("i", Some("uploads/x".to_string()));
    assert_eq!(d.remove_file.as_deref(), Some("uploads/x"));
    assert_eq!(d.changes.len(), 1);
    assert_eq!(plain(&d.event), "clipboard:deleted id=Text(\"i\")");
}

#[test]
fn queries_for_a_page() {
    let q = parse_list_query("");
    assert_eq!((q.search.as_deref(), q.take), (None, 24));
    let q = parse_list_query("search=a%20b+c&take=100&cursorId=x&cursorSortWeight=-3&other=1");
    assert_eq!((q.search.as_deref(), q.take), (Some("a b c"), 48));
    assert_eq!((q.cursor_id.as_deref(), q.cursor_sort), (Some("x"), Some(-3)));
    assert_eq!(parse_list_query("take=0").take, 1);
    assert_eq!(parse_list_query("take=12&take=x").take, 24);
    assert_eq!(parse_list_query("cursorCreatedAt=17").cursor_created_at, Some(17));
    let q = parse_list_query("cursorCreatedAt=2023-11-14T22%3A13%3A20Z&cursorCreatedAt=x");
    assert_eq!(q.cursor_created_at, Some(1700000000));
    let q = list_query(vec![("cursorSortWeight".to_string(), "x".to_string())]);
    assert_eq!(q.cursor_sort, None);
}

#[test]
fn statements_for_a_page() {
    let head = "SELECT id,type,content,fileName,fileSize,sortWeight,contentType,inlineData,filePath,createdAt,updatedAt FROM ClipboardItem";
    let tail = " ORDER BY sortWeight DESC, createdAt DESC, id DESC LIMIT ?";
    let s = list_statement(&parse_list_query("take=5"));
    assert_eq!(s.sql, format!("{head}{tail}"));
    assert_eq!(format!("{:?}", s.params), "[Integer(6)]");
    let s = list_statement(&parse_list_query("search=x&cursorCreatedAt=1&cursorId=i"));
    assert_eq!(
        s.sql,
        format!("{head} WHERE (content LIKE ? OR fileName LIKE ?) AND (createdAt < ? OR (createdAt = ? AND id < ?)){tail}")
    );
    assert_eq!(
        format!("{:?}", s.params),
        "[Text(\"%x%\"), Text(\"%x%\"), Integer(1), Integer(1), Text(\"i\"), Integer(25)]"
    );
    let s = list_statement(&parse_list_query("cursorSortWeight=9&cursorCreatedAt=1&cursorId=i"));
    assert_eq!(
        s.sql,
        format!("{head} WHERE (sortWeight < ? OR (sortWeight = ? AND (createdAt < ? OR (createdAt = ? AND id < ?)))){tail}")
    );
    assert_eq!(
        format!("{:?}", s.params),
        "[Integer(9), Integer(9), Integer(1), Integer(1), Text(\"i\"), Integer(25)]"
    );
    let s = list_statement(&parse_list_query("cursorSortWeight=9&cursorId=i"));
    assert_eq!(s.sql, format!("{head}{tail}"));
}

fn row(id: &str, item_type: &str) -> ItemRow {
    ItemRow {
        id: id.to_string(),
        item_type: item_type.to_string(),
        content: Some("c".to_string()),
        file_name: None,
        file_size: Some(4),
        sort_weight: 8,
        content_type: None,
        file_path: Some("uploads/x".to_string()),
        created_at: 0,
        updated_at: 60,
    }
}

#[test]
fn pages() {
    let rows = vec![row("a", "TEXT"), row("b", "IMAGE"), row("c", "odd")];
    let p = page(&rows, 2);
    assert!(p.has_more);
    assert_eq!(p.items.len(), 2);
    assert_eq!(p.items[1].item_type, ItemType::Image);
    assert_eq!(p.items[1].file_path, None);
    assert_eq!(p.items[1].updated_at, "1970-01-01T00:01:00Z");
    let c = p.next_cursor.unwrap();
    assert_eq!((c.id.as_str(), c.created_at.as_str(), c.sort_weight), ("b", "1970-01-01T00:00:00Z", 8));
    let p = page(&rows, 3);
    assert!(!p.has_more && p.next_cursor.is_none());
    assert_eq!(p.items[2].item_type, ItemType::File);
    assert!(page(&vec![], 3).items.is_empty());
}

#[test]
fn single_items() {
    let i = get_clipboard(Some(row("a", "TEXT"))).unwrap();
    assert_eq!(i.file_path.as_deref(), Some("uploads/x"));
    assert_eq!(i.item_type.name(), "TEXT");
    let e = get_clipboard(None).unwrap_err();
    assert_eq!((e.status, e.error.as_str()), (404, "Not found"));
}

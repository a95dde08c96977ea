//! The listing of clipboard items: its query, its order and its pages.

use crate::clock::{epoch_to_iso, is_iso_text, iso_to_epoch, rfc3339_instant, writable};
use crate::conditions::{conditions_mean_the_request, is_found, selects, Row};
use crate::form::{form_pairs, form_pairs_of};
use crate::number::{
    i64_of, integer_text_reads_back, is_digit, parse_i64, parse_unsigned, signed_decimal, unsigned_of,
};
use crate::reply::{refuse, Refusal};
use crate::store::{SqlValue, SqlView, Statement, StatementView};
use crate::text::{copy_opt, same};
use vstd::prelude::*;
use vstd::utf8::{encode_utf8, encode_utf8_decode_utf8};

verus! {

/// What an item is.
#[derive(Clone, Copy, Debug, PartialEq, Eq, Structural)]
pub enum ItemType {
    Text,
    Image,
    File,
}

impl ItemType {
    /// The name of the type in the database and in answers.
    pub open spec fn name_of(self) -> Seq<char> {
        match self {
            ItemType::Text => "TEXT"@,
            ItemType::Image => "IMAGE"@,
            ItemType::File => "FILE"@,
        }
    }

    /// The type that a row of the database names; anything unknown is a file.
    pub open spec fn of_row(name: Seq<char>) -> ItemType {
        if name == "TEXT"@ {
            ItemType::Text
        } else if name == "IMAGE"@ {
            ItemType::Image
        } else {
            ItemType::File
        }
    }

    /// The name of the type.
    pub fn name(&self) -> (r: &'static str)
        ensures
            r@ == self.name_of(),
    {
        match self {
            ItemType::Text => "TEXT",
            ItemType::Image => "IMAGE",
            ItemType::File => "FILE",
        }
    }

    /// The type that a row of the database names.
    pub fn from_row(name: &str) -> (r: ItemType)
        ensures
            r == ItemType::of_row(name@),
    {
        if same(name, "TEXT") {
            ItemType::Text
        } else if same(name, "IMAGE") {
            ItemType::Image
        } else {
            ItemType::File
        }
    }
}

/// A row of the item table, without the bytes of its file.
#[derive(Debug)]
pub struct ItemRow {
    pub id: String,
    pub item_type: String,
    pub content: Option<String>,
    pub file_name: Option<String>,
    pub file_size: Option<i64>,
    pub sort_weight: i64,
    pub content_type: Option<String>,
    pub file_path: Option<String>,
    pub created_at: i64,
    pub updated_at: i64,
}

/// An item as the owner is shown it.
#[derive(Debug)]
pub struct ClipboardItem {
    pub id: String,
    pub item_type: ItemType,
    pub content: Option<String>,
    pub file_name: Option<String>,
    pub file_size: Option<i64>,
    pub sort_weight: i64,
    pub content_type: Option<String>,
    pub file_path: Option<String>,
    pub created_at: String,
    pub updated_at: String,
}

/// Whether an item is what is shown of a row, with this path to its file.
pub open spec fn shows(item: ClipboardItem, row: ItemRow, file_path: Option<Seq<char>>) -> bool {
    &&& item.id@ == row.id@
    &&& item.item_type == ItemType::of_row(row.item_type@)
    &&& item.content.deep_view() == row.content.deep_view()
    &&& item.file_name.deep_view() == row.file_name.deep_view()
    &&& item.file_size == row.file_size
    &&& item.sort_weight == row.sort_weight
    &&& item.content_type.deep_view() == row.content_type.deep_view()
    &&& item.file_path.deep_view() == file_path
    &&& is_iso_text(row.created_at, item.created_at@)
    &&& is_iso_text(row.updated_at, item.updated_at@)
}

fn shown(row: &ItemRow, file_path: Option<String>) -> (r: ClipboardItem)
    ensures
        shows(r, *row, file_path.deep_view()),
{
    ClipboardItem {
        id: row.id.clone(),
        item_type: ItemType::from_row(row.item_type.as_str()),
        content: copy_opt(&row.content),
        file_name: copy_opt(&row.file_name),
        file_size: row.file_size,
        sort_weight: row.sort_weight,
        content_type: copy_opt(&row.content_type),
        file_path,
        created_at: epoch_to_iso(row.created_at),
        updated_at: epoch_to_iso(row.updated_at),
    }
}

/// Answers a request for one item.
pub fn get_clipboard(row: Option<ItemRow>) -> (r: Result<ClipboardItem, Refusal>)
    ensures
        match row {
            Some(row) => r matches Ok(item) && shows(item, row, row.file_path.deep_view()),
            None => r matches Err(e) && e.deep_view() == (404u16, "Not found"@),
        },
{
    match row {
        Some(row) => Ok(shown(&row, copy_opt(&row.file_path))),
        None => Err(refuse(404, "Not found")),
    }
}

/// How many items a page has where the request does not say.
pub const DEFAULT_TAKE: usize = 24;

/// How many items a page has at most.
pub const MAX_TAKE: usize = 48;

/// A request for a page of the listing.
#[derive(Debug)]
pub struct ListQuery {
    pub search: Option<String>,
    pub take: usize,
    pub cursor_created_at: Option<i64>,
    pub cursor_id: Option<String>,
    pub cursor_sort: Option<i64>,
}

/// `ListQuery` as a mathematical value.
pub struct ListQueryView {
    pub search: Option<Seq<char>>,
    pub take: usize,
    pub cursor_created_at: Option<i64>,
    pub cursor_id: Option<Seq<char>>,
    pub cursor_sort: Option<i64>,
}

impl DeepView for ListQuery {
    type V = ListQueryView;

    open spec fn deep_view(&self) -> ListQueryView {
        ListQueryView {
            search: self.search.deep_view(),
            take: self.take,
            cursor_created_at: self.cursor_created_at,
            cursor_id: self.cursor_id.deep_view(),
            cursor_sort: self.cursor_sort,
        }
    }
}

/// The page size that a text asks for, brought between 1 and the maximum.
pub open spec fn take_of(v: Seq<char>) -> usize {
    match unsigned_of(v, usize::MAX as u64) {
        None => DEFAULT_TAKE,
        Some(n) => if n < 1 {
            1
        } else if n > MAX_TAKE {
            MAX_TAKE
        } else {
            n as usize
        },
    }
}

/// The time that a text names: a Unix timestamp or an RFC 3339 instant.
pub open spec fn time_of(v: Seq<char>) -> Option<i64> {
    match i64_of(v) {
        Some(ts) => Some(ts),
        None => rfc3339_instant(v),
    }
}

/// The query with one more pair read into it.
pub open spec fn with_pair(q: ListQueryView, k: Seq<char>, v: Seq<char>) -> ListQueryView {
    if k == "search"@ {
        ListQueryView { search: Some(v), ..q }
    } else if k == "take"@ {
        ListQueryView { take: take_of(v), ..q }
    } else if k == "cursorCreatedAt"@ {
        match time_of(v) {
            Some(ts) => ListQueryView { cursor_created_at: Some(ts), ..q },
            None => q,
        }
    } else if k == "cursorId"@ {
        ListQueryView { cursor_id: Some(v), ..q }
    } else if k == "cursorSortWeight"@ {
        ListQueryView { cursor_sort: i64_of(v), ..q }
    } else {
        q
    }
}

/// The query that the pairs of a query string make.
pub open spec fn list_query_of(pairs: Seq<(Seq<char>, Seq<char>)>) -> ListQueryView
    decreases pairs.len(),
{
    if pairs.len() == 0 {
        ListQueryView {
            search: None,
            take: DEFAULT_TAKE,
            cursor_created_at: None,
            cursor_id: None,
            cursor_sort: None,
        }
    } else {
        with_pair(list_query_of(pairs.drop_last()), pairs.last().0, pairs.last().1)
    }
}

fn page_size(v: &str) -> (r: usize)
    ensures
        r == take_of(v@),
{
    match parse_unsigned(v, usize::MAX as u64) {
        None => DEFAULT_TAKE,
        Some(n) => if n < 1 {
            1
        } else if n > 48 {
            MAX_TAKE
        } else {
            n as usize
        },
    }
}

/// The query that the pairs of a query string make.
pub fn list_query(pairs: Vec<(String, String)>) -> (r: ListQuery)
    ensures
        r.deep_view() == list_query_of(pairs.deep_view()),
        1 <= r.take <= MAX_TAKE,
{
    let ghost views = pairs.deep_view();
    let mut q = ListQuery {
        search: None,
        take: DEFAULT_TAKE,
        cursor_created_at: None,
        cursor_id: None,
        cursor_sort: None,
    };
    let mut i: usize = 0;
    assert(views.take(0) =~= Seq::empty());
    while i < pairs.len()
        invariant
            i <= pairs@.len(),
            views == pairs.deep_view(),
            q.deep_view() == list_query_of(views.take(i as int)),
            1 <= q.take <= MAX_TAKE,
        decreases pairs@.len() - i,
    {
        let k = pairs[i].0.as_str();
        let v = pairs[i].1.as_str();
        proof {
            assert(views.take(i + 1).drop_last() =~= views.take(i as int));
            assert(views.take(i + 1).last() == (k@, v@));
        }
        if same(k, "search") {
            q.search = Some(v.to_owned());
        } else if same(k, "take") {
            q.take = page_size(v);
        } else if same(k, "cursorCreatedAt") {
            match parse_i64(v) {
                Some(ts) => {
                    q.cursor_created_at = Some(ts);
                },
                None => match iso_to_epoch(v) {
                    Some(ts) => {
                        q.cursor_created_at = Some(ts);
                    },
                    None => {},
                },
            }
        } else if same(k, "cursorId") {
            q.cursor_id = Some(v.to_owned());
        } else if same(k, "cursorSortWeight") {
            q.cursor_sort = parse_i64(v);
        }
        i = i + 1;
    }
    assert(views.take(views.len() as int) =~= views);
    q
}

/// The request that a query string makes.
pub fn parse_list_query(query: &str) -> (r: ListQuery)
    ensures
        r.deep_view() == list_query_of(form_pairs_of(query@)),
        1 <= r.take <= MAX_TAKE,
{
    let pairs = form_pairs(query);
    list_query(pairs)
}

/// The conditions of the listing statement, each with its parameters.
pub open spec fn search_clause(search: Option<Seq<char>>) -> Option<(Seq<char>, Seq<SqlView>)> {
    match search {
        None => None,
        Some(s) => {
            let like = SqlView::Text("%"@ + s + "%"@);
            Some(("(content LIKE ? OR fileName LIKE ?)"@, seq![like, like]))
        },
    }
}

/// The condition that only what comes after the cursor is listed.
pub open spec fn cursor_clause(q: ListQueryView) -> Option<(Seq<char>, Seq<SqlView>)> {
    match (q.cursor_created_at, q.cursor_id) {
        (Some(created), Some(id)) => match q.cursor_sort {
            Some(weight) => Some(
                (
                    "(sortWeight < ? OR (sortWeight = ? AND (createdAt < ? OR (createdAt = ? AND id < ?))))"@,
                    seq![
                        SqlView::Integer(weight),
                        SqlView::Integer(weight),
                        SqlView::Integer(created),
                        SqlView::Integer(created),
                        SqlView::Text(id),
                    ],
                ),
            ),
            None => Some(
                (
                    "(createdAt < ? OR (createdAt = ? AND id < ?))"@,
                    seq![
                        SqlView::Integer(created),
                        SqlView::Integer(created),
                        SqlView::Text(id),
                    ],
                ),
            ),
        },
        _ => None,
    }
}

/// The `WHERE` part of the listing statement and its parameters.
pub open spec fn where_of(q: ListQueryView) -> (Seq<char>, Seq<SqlView>) {
    match (search_clause(q.search), cursor_clause(q)) {
        (None, None) => (Seq::empty(), Seq::empty()),
        (Some(a), None) => (" WHERE "@ + a.0, a.1),
        (None, Some(b)) => (" WHERE "@ + b.0, b.1),
        (Some(a), Some(b)) => (" WHERE "@ + a.0 + " AND "@ + b.0, a.1 + b.1),
    }
}

/// The listing statement. It asks for one row more than the page has, to see
/// whether there is another page.
pub open spec fn list_statement_of(q: ListQueryView) -> StatementView {
    StatementView {
        sql: "SELECT id,type,content,fileName,fileSize,sortWeight,contentType,inlineData,filePath,createdAt,updatedAt FROM ClipboardItem"@
            + where_of(q).0 + " ORDER BY sortWeight DESC, createdAt DESC, id DESC LIMIT ?"@,
        params: where_of(q).1.push(SqlView::Integer((q.take + 1) as i64)),
    }
}

/// The listing statement.
pub fn list_statement(q: &ListQuery) -> (r: Statement)
    requires
        q.take < i64::MAX,
    ensures
        r.deep_view() == list_statement_of(q.deep_view()),
{
    let ghost view = q.deep_view();
    let mut sql = "SELECT id,type,content,fileName,fileSize,sortWeight,contentType,inlineData,filePath,createdAt,updatedAt FROM ClipboardItem".to_owned();
    let ghost base = sql@;
    let mut params: Vec<SqlValue> = Vec::new();
    let mut clauses: bool = false;
    if let Some(s) = &q.search {
        sql.append(" WHERE ");
        sql.append("(content LIKE ? OR fileName LIKE ?)");
        let mut like = "%".to_owned();
        like.append(s.as_str());
        like.append("%");
        params.push(SqlValue::Text(like.clone()));
        params.push(SqlValue::Text(like));
        clauses = true;
        assert(params.deep_view() =~= (search_clause(view.search)->0).1);
        assert(sql@ =~= base + (" WHERE "@ + (search_clause(view.search)->0).0));
    } else {
        assert(params.deep_view() =~= Seq::<SqlView>::empty());
        assert(sql@ =~= base + Seq::<char>::empty());
    }
    let ghost so_far = params.deep_view();
    if let (Some(created), Some(id)) = (&q.cursor_created_at, &q.cursor_id) {
        sql.append(
            if clauses {
                " AND "
            } else {
                " WHERE "
            },
        );
        if let Some(weight) = q.cursor_sort {
            sql.append(
                "(sortWeight < ? OR (sortWeight = ? AND (createdAt < ? OR (createdAt = ? AND id < ?))))",
            );
            params.push(SqlValue::Integer(weight));
            params.push(SqlValue::Integer(weight));
        } else {
            sql.append("(createdAt < ? OR (createdAt = ? AND id < ?))");
        }
        params.push(SqlValue::Integer(*created));
        params.push(SqlValue::Integer(*created));
        params.push(SqlValue::Text(id.clone()));
        assert(params.deep_view() =~= so_far + (cursor_clause(view)->0).1);
        assert(params.deep_view() =~= where_of(view).1);
        assert(sql@ =~= base + where_of(view).0);
    }
    assert(params.deep_view() =~= where_of(view).1);
    assert(sql@ =~= base + where_of(view).0);
    sql.append(" ORDER BY sortWeight DESC, createdAt DESC, id DESC LIMIT ?");
    params.push(SqlValue::Integer((q.take as i64) + 1));
    assert(params.deep_view() =~= list_statement_of(view).params);
    Statement { sql, params }
}

/// Where the next page begins.
#[derive(Debug)]
pub struct Cursor {
    pub id: String,
    pub created_at: String,
    pub sort_weight: i64,
}

/// A page of the listing.
#[derive(Debug)]
pub struct Page {
    pub items: Vec<ClipboardItem>,
    pub next_cursor: Option<Cursor>,
    pub has_more: bool,
}

/// How many of the rows are on the page.
pub open spec fn page_len(rows: int, take: int) -> int {
    if rows > take {
        take
    } else {
        rows
    }
}

/// The page that the rows of the listing statement make.
pub fn page(rows: &Vec<ItemRow>, take: usize) -> (r: Page)
    requires
        take >= 1,
    ensures
        r.has_more == (rows@.len() > take),
        r.items@.len() == page_len(rows@.len() as int, take as int),
        forall|i: int|
            0 <= i < r.items@.len() ==> shows(#[trigger] r.items@[i], rows@[i], None),
        r.has_more ==> (r.next_cursor matches Some(c) && {
            let last = rows@[take - 1];
            &&& c.id@ == last.id@
            &&& c.sort_weight == last.sort_weight
            &&& is_iso_text(last.created_at, c.created_at@)
        }),
        !r.has_more ==> r.next_cursor is None,
{
    let n: usize = rows.len();
    let has_more = n > take;
    let keep: usize = if has_more {
        take
    } else {
        n
    };
    let mut items: Vec<ClipboardItem> = Vec::new();
    let mut i: usize = 0;
    while i < keep
        invariant
            i <= keep <= rows@.len(),
            items@.len() == i,
            forall|k: int| 0 <= k < i ==> shows(#[trigger] items@[k], rows@[k], None),
        decreases keep - i,
    {
        items.push(shown(&rows[i], None));
        i = i + 1;
    }
    let next_cursor = if has_more {
        let last = &items[keep - 1];
        Some(
            Cursor {
                id: last.id.clone(),
                created_at: last.created_at.clone(),
                sort_weight: last.sort_weight,
            },
        )
    } else {
        None
    };
    Page { items, next_cursor, has_more }
}

/// What decides where an item stands in the listing.
pub struct Place {
    pub sort_weight: i64,
    pub created_at: i64,
    pub id: Seq<char>,
}

/// Whether bytes come before others: by the first that differs, a beginning
/// before the whole.
pub open spec fn bytes_before(a: Seq<u8>, b: Seq<u8>) -> bool
    decreases a.len(),
{
    if b.len() == 0 {
        false
    } else if a.len() == 0 {
        true
    } else if a[0] == b[0] {
        bytes_before(a.drop_first(), b.drop_first())
    } else {
        a[0] < b[0]
    }
}

/// Whether a text comes before another: by its bytes.
pub open spec fn text_before(a: Seq<char>, b: Seq<char>) -> bool {
    bytes_before(encode_utf8(a), encode_utf8(b))
}

/// Whether `x` is listed after `y`: the greater weight goes first, then the
/// later creation, then the greater identifier.
pub open spec fn listed_after(x: Place, y: Place) -> bool {
    ||| x.sort_weight < y.sort_weight
    ||| x.sort_weight == y.sort_weight && x.created_at < y.created_at
    ||| x.sort_weight == y.sort_weight && x.created_at == y.created_at && text_before(x.id, y.id)
}

/// Whether an item meets the condition that `cursor_clause` writes.
pub open spec fn passes_cursor(q: ListQueryView, p: Place) -> bool {
    match (q.cursor_created_at, q.cursor_id) {
        (Some(created), Some(id)) => match q.cursor_sort {
            Some(weight) => p.sort_weight < weight || (p.sort_weight == weight && (p.created_at
                < created || (p.created_at == created && text_before(p.id, id)))),
            None => p.created_at < created || (p.created_at == created && text_before(p.id, id)),
        },
        _ => true,
    }
}

/// Whether rows are in the order of the listing.
pub open spec fn in_listing_order(rows: Seq<Row>) -> bool {
    forall|i: int, j: int|
        0 <= i < j < rows.len() ==> listed_after(
            (#[trigger] rows[j]).place(),
            (#[trigger] rows[i]).place(),
        )
}

proof fn lemma_bytes_before(a: Seq<u8>, b: Seq<u8>)
    ensures
        !(bytes_before(a, b) && bytes_before(b, a)),
        a != b ==> bytes_before(a, b) || bytes_before(b, a),
        a == b ==> !bytes_before(a, b),
    decreases a.len(),
{
    if a.len() > 0 && b.len() > 0 {
        lemma_bytes_before(a.drop_first(), b.drop_first());
        if a[0] == b[0] && a.drop_first() == b.drop_first() {
            assert(a =~= seq![a[0]] + a.drop_first());
            assert(b =~= seq![b[0]] + b.drop_first());
        }
    } else if a.len() == 0 && b.len() == 0 {
        assert(a =~= b);
    }
}

/// Bytes are ordered by the first that differs, and a beginning comes before the
/// whole.
pub proof fn bytes_are_ordered(common: Seq<u8>, a: u8, b: u8, x: Seq<u8>, y: Seq<u8>)
    ensures
        a != b ==> (bytes_before(common.push(a) + x, common.push(b) + y) <==> a < b),
        bytes_before(common, common.push(a) + x),
        !bytes_before(common.push(a) + x, common),
    decreases common.len(),
{
    let left = common.push(a) + x;
    let right = common.push(b) + y;
    if common.len() > 0 {
        let rest = common.drop_first();
        bytes_are_ordered(rest, a, b, x, y);
        assert(left.drop_first() =~= rest.push(a) + x);
        assert(right.drop_first() =~= rest.push(b) + y);
        assert(left[0] == common[0] && right[0] == common[0]);
    }
}

/// Of two different items exactly one is listed after the other, and none after
/// itself.
pub proof fn listing_order_is_total(x: Place, y: Place)
    ensures
        !(listed_after(x, y) && listed_after(y, x)),
        x.id != y.id ==> listed_after(x, y) || listed_after(y, x),
        !listed_after(x, x),
{
    lemma_bytes_before(encode_utf8(x.id), encode_utf8(y.id));
    lemma_bytes_before(encode_utf8(x.id), encode_utf8(x.id));
    encode_utf8_decode_utf8(x.id);
    encode_utf8_decode_utf8(y.id);
}

proof fn lemma_filter_tail(rows: Seq<Row>, pred: spec_fn(Row) -> bool, t: int)
    requires
        0 <= t <= rows.len(),
        forall|i: int| 0 <= i < t ==> !pred(#[trigger] rows[i]),
        forall|i: int| t <= i < rows.len() ==> pred(#[trigger] rows[i]),
    ensures
        rows.filter(pred) == rows.skip(t),
    decreases rows.len(),
{
    reveal(Seq::filter);
    if rows.len() > 0 {
        let front = rows.drop_last();
        let last = rows.len() - 1;
        if t < rows.len() {
            lemma_filter_tail(front, pred, t);
            assert(pred(rows[last]));
            assert(rows.filter(pred) =~= rows.skip(t));
        } else {
            lemma_filter_tail(front, pred, t - 1);
            assert(!pred(rows[last]));
            assert(rows.filter(pred) =~= rows.skip(t));
        }
    } else {
        assert(rows.filter(pred) =~= rows.skip(t));
    }
}

/// Rows that meet the one and the other are the ones among the first that meet the
/// second.
proof fn lemma_filter_both(
    rows: Seq<Row>,
    both: spec_fn(Row) -> bool,
    a: spec_fn(Row) -> bool,
    b: spec_fn(Row) -> bool,
)
    requires
        forall|r: Row| #[trigger] both(r) <==> a(r) && b(r),
    ensures
        rows.filter(both) == rows.filter(a).filter(b),
    decreases rows.len(),
{
    reveal(Seq::filter);
    if rows.len() > 0 {
        let front = rows.drop_last();
        lemma_filter_both(front, both, a, b);
        if a(rows.last()) {
            assert(front.filter(a).push(rows.last()).drop_last() =~= front.filter(a));
        }
    }
}

/// What is left of rows was among them.
proof fn lemma_filter_from(rows: Seq<Row>, pred: spec_fn(Row) -> bool, i: int)
    requires
        0 <= i < rows.filter(pred).len(),
    ensures
        rows.contains(rows.filter(pred)[i]),
    decreases rows.len(),
{
    reveal(Seq::filter);
    let front = rows.drop_last();
    let before = front.filter(pred);
    if i < before.len() {
        lemma_filter_from(front, pred, i);
        let k = choose|k: int| 0 <= k < front.len() && front[k] == before[i];
        assert(rows[k] == rows.filter(pred)[i]);
    } else {
        assert(rows[rows.len() - 1] == rows.filter(pred)[i]);
    }
}

/// What is left of an ordered listing is ordered.
proof fn lemma_filter_order(rows: Seq<Row>, pred: spec_fn(Row) -> bool)
    requires
        in_listing_order(rows),
    ensures
        in_listing_order(rows.filter(pred)),
    decreases rows.len(),
{
    reveal(Seq::filter);
    if rows.len() > 0 {
        let front = rows.drop_last();
        let kept = rows.filter(pred);
        assert(in_listing_order(front)) by {
            assert forall|i: int, j: int| 0 <= i < j < front.len() implies listed_after(
                (#[trigger] front[j]).place(),
                (#[trigger] front[i]).place(),
            ) by {
                assert(front[i] == rows[i] && front[j] == rows[j]);
            }
        }
        lemma_filter_order(front, pred);
        let before = front.filter(pred);
        assert forall|i: int, j: int| 0 <= i < j < kept.len() implies listed_after(
            (#[trigger] kept[j]).place(),
            (#[trigger] kept[i]).place(),
        ) by {
            assert(kept[i] == before[i]);
            if j < before.len() {
                assert(kept[j] == before[j]);
            } else {
                lemma_filter_from(front, pred, i);
                let k = choose|k: int| 0 <= k < front.len() && front[k] == before[i];
                assert(rows[k] == front[k]);
                assert(kept[j] == rows[rows.len() - 1]);
            }
        }
    }
}

/// The pages of a listing follow each other without a gap and without anything
/// twice: what the search finds and the statement for what comes behind the last
/// item of a page selects is exactly what is found behind it.
pub proof fn pages_continue_the_listing(rows: Seq<Row>, t: int, q: ListQueryView)
    requires
        in_listing_order(rows),
        ({
            let found = rows.filter(|r: Row| is_found(q.search, r));
            &&& 1 <= t <= found.len()
            &&& q.cursor_created_at == Some(found[t - 1].item.created_at)
            &&& q.cursor_id == Some(found[t - 1].id)
            &&& q.cursor_sort == Some(found[t - 1].item.sort_weight)
        }),
    ensures
        rows.filter(|r: Row| selects(q, r)) == rows.filter(|r: Row| is_found(q.search, r)).skip(t),
{
    let finds = |r: Row| is_found(q.search, r);
    let found = rows.filter(finds);
    let passes = |r: Row| passes_cursor(q, r.place());
    let last = found[t - 1];
    lemma_filter_order(rows, finds);
    assert forall|i: int| 0 <= i < t implies !passes(#[trigger] found[i]) by {
        listing_order_is_total(found[i].place(), last.place());
        if i < t - 1 {
            assert(listed_after(last.place(), found[i].place()));
        }
    }
    assert forall|i: int| t <= i < found.len() implies passes(#[trigger] found[i]) by {
        assert(listed_after(found[i].place(), last.place()));
    }
    lemma_filter_tail(found, passes, t);
    lemma_selected(rows, q);
}

/// What a statement selects is what its search finds and its cursor lets pass.
proof fn lemma_selected(rows: Seq<Row>, q: ListQueryView)
    ensures
        rows.filter(|r: Row| selects(q, r)) == rows.filter(
            |r: Row| is_found(q.search, r),
        ).filter(|r: Row| passes_cursor(q, r.place())),
{
    let both = |r: Row| selects(q, r);
    let finds = |r: Row| is_found(q.search, r);
    let passes = |r: Row| passes_cursor(q, r.place());
    assert forall|r: Row| #[trigger] both(r) <==> finds(r) && passes(r) by {
        conditions_mean_the_request(q, r);
    }
    lemma_filter_both(rows, both, finds, passes);
}

/// The request for what is listed behind an item.
pub open spec fn behind(q: ListQueryView, p: Place) -> ListQueryView {
    ListQueryView {
        cursor_created_at: Some(p.created_at),
        cursor_id: Some(p.id),
        cursor_sort: Some(p.sort_weight),
        ..q
    }
}

/// The rows that the listing statement of a request gives: those that meet its
/// conditions, at most one more than the page has. `rows` are those of the table,
/// in the order of the listing.
pub open spec fn fetched(rows: Seq<Row>, q: ListQueryView) -> Seq<Row> {
    let selected = rows.filter(|r: Row| selects(q, r));
    selected.take(
        if selected.len() > q.take {
            q.take + 1
        } else {
            selected.len() as int
        },
    )
}

/// The items of up to `n` pages, from the page of this request on: each further
/// page is asked for with the cursor of the page before it, as long as there is
/// one.
pub open spec fn paged(rows: Seq<Row>, q: ListQueryView, n: nat) -> Seq<Row>
    decreases n,
{
    if n == 0 {
        Seq::empty()
    } else {
        let given = fetched(rows, q);
        if given.len() > q.take {
            given.take(q.take as int) + paged(
                rows,
                behind(q, given[q.take - 1].place()),
                (n - 1) as nat,
            )
        } else {
            given
        }
    }
}

proof fn lemma_paged(rows: Seq<Row>, q: ListQueryView, n: nat, t: int)
    requires
        in_listing_order(rows),
        q.take >= 1,
        0 <= t <= rows.filter(|r: Row| is_found(q.search, r)).len(),
        rows.filter(|r: Row| selects(q, r)) == rows.filter(|r: Row| is_found(q.search, r)).skip(t),
    ensures
        ({
            let found = rows.filter(|r: Row| is_found(q.search, r));
            paged(rows, q, n) == found.subrange(
                t,
                if t + n * q.take < found.len() {
                    t + n * q.take
                } else {
                    found.len() as int
                },
            )
        }),
    decreases n,
{
    let take = q.take as int;
    let found = rows.filter(|r: Row| is_found(q.search, r));
    if n == 0 {
        assert(n * take == 0) by (nonlinear_arith)
            requires
                n == 0,
        ;
        assert(paged(rows, q, n) =~= found.subrange(t, t));
    } else {
        let m = (n - 1) as nat;
        assert(n * take == m * take + take) by (nonlinear_arith)
            requires
                n == m + 1,
        ;
        assert(m * take >= 0) by (nonlinear_arith)
            requires
                take >= 1,
        ;
        let given = fetched(rows, q);
        let all = found.skip(t);
        if all.len() > take {
            assert(given.take(take) =~= found.subrange(t, t + take));
            assert(given[take - 1] == found[t + take - 1]);
            let next = behind(q, given[take - 1].place());
            pages_continue_the_listing(rows, t + take, next);
            lemma_paged(rows, next, m, t + take);
            assert(paged(rows, q, n) =~= found.subrange(
                t,
                if t + n * take < found.len() {
                    t + n * take
                } else {
                    found.len() as int
                },
            ));
        } else {
            assert(given =~= all);
            assert(paged(rows, q, n) =~= found.subrange(t, found.len() as int));
        }
    }
}

/// The pages of a search, asked for one after the other from the beginning, make
/// up what it finds: `n` pages are the first `n * take` of the matching items, in
/// the order of the listing and each once, and enough pages are all of them.
/// Without a search every item matches.
pub proof fn pages_make_up_the_listing(rows: Seq<Row>, q: ListQueryView, n: nat)
    requires
        in_listing_order(rows),
        q.take >= 1,
        q.cursor_created_at is None || q.cursor_id is None,
    ensures
        ({
            let found = rows.filter(|r: Row| is_found(q.search, r));
            &&& n * q.take < found.len() ==> paged(rows, q, n) == found.take(n * q.take)
            &&& n * q.take >= found.len() ==> paged(rows, q, n) == found
        }),
        q.search is None ==> rows.filter(|r: Row| is_found(q.search, r)) == rows,
        paged(rows, q, n).no_duplicates(),
{
    let finds = |r: Row| is_found(q.search, r);
    let passes = |r: Row| passes_cursor(q, r.place());
    let found = rows.filter(finds);
    assert(n * q.take >= 0) by (nonlinear_arith)
        requires
            q.take >= 1,
    ;
    lemma_selected(rows, q);
    lemma_filter_tail(found, passes, 0);
    lemma_paged(rows, q, n, 0);
    assert(found.subrange(0, found.len() as int) =~= found);
    if n * q.take < found.len() {
        assert(found.subrange(0, n * q.take) =~= found.take(n * q.take));
    }
    if q.search is None {
        lemma_filter_tail(rows, finds, 0);
        assert(rows.skip(0) =~= rows);
    }
    lemma_filter_order(rows, finds);
    let all = paged(rows, q, n);
    assert forall|i: int, j: int| 0 <= i < all.len() && 0 <= j < all.len() && i != j implies all[i]
        != all[j] by {
        assert(all[i] == found[i] && all[j] == found[j]);
        listing_order_is_total(found[i].place(), found[j].place());
        if i < j {
            assert(listed_after(found[j].place(), found[i].place()));
        } else {
            assert(listed_after(found[i].place(), found[j].place()));
        }
    }
}

/// The pairs of a query that carry a cursor.
pub open spec fn cursor_pairs(text: Seq<char>, id: Seq<char>, sort_weight: i64) -> Seq<
    (Seq<char>, Seq<char>),
> {
    seq![
        ("cursorCreatedAt"@, text),
        ("cursorId"@, id),
        ("cursorSortWeight"@, signed_decimal(sort_weight as int)),
    ]
}

/// Whether none of the pairs of a query is part of a cursor.
pub open spec fn no_cursor(pairs: Seq<(Seq<char>, Seq<char>)>) -> bool {
    forall|i: int|
        0 <= i < pairs.len() ==> (#[trigger] pairs[i]).0 != "cursorCreatedAt"@ && pairs[i].0
            != "cursorId"@ && pairs[i].0 != "cursorSortWeight"@
}

proof fn lemma_cursor_pairs(
    before: Seq<(Seq<char>, Seq<char>)>,
    created_at: i64,
    text: Seq<char>,
    id: Seq<char>,
    sort_weight: i64,
)
    requires
        writable(created_at),
        is_iso_text(created_at, text),
    ensures
        list_query_of(before + cursor_pairs(text, id, sort_weight)) == behind(
            list_query_of(before),
            Place { sort_weight, created_at, id },
        ),
{
    let a = ("cursorCreatedAt"@, text);
    let b = ("cursorId"@, id);
    let c = ("cursorSortWeight"@, signed_decimal(sort_weight as int));
    reveal_strlit("search");
    reveal_strlit("take");
    reveal_strlit("cursorCreatedAt");
    reveal_strlit("cursorId");
    reveal_strlit("cursorSortWeight");
    integer_text_reads_back(sort_weight);
    assert(i64_of(text) is None) by {
        assert(!is_digit(text[10]));
        assert(text.skip(1)[9] == text[10]);
    }
    assert("cursorCreatedAt"@.len() == 15 && "cursorId"@.len() == 8 && "cursorSortWeight"@.len()
        == 16 && "search"@.len() == 6 && "take"@.len() == 4);
    let one = before.push(a);
    let two = one.push(b);
    let three = two.push(c);
    assert(before + cursor_pairs(text, id, sort_weight) =~= three);
    assert(three.drop_last() =~= two);
    assert(two.drop_last() =~= one);
    assert(one.drop_last() =~= before);
    let q0 = list_query_of(before);
    assert(list_query_of(one) == with_pair(q0, a.0, a.1));
    assert(list_query_of(two) == with_pair(list_query_of(one), b.0, b.1));
    assert(list_query_of(three) == with_pair(list_query_of(two), c.0, c.1));
}

/// A cursor that the client sends back names the item that it was made of, as
/// long as the item was created at a time that can be written. The rest of the
/// query, such as what is searched for and the size of the page, is read as
/// without the cursor, wherever in the query the cursor stands.
pub proof fn cursors_read_back(
    before: Seq<(Seq<char>, Seq<char>)>,
    after: Seq<(Seq<char>, Seq<char>)>,
    created_at: i64,
    text: Seq<char>,
    id: Seq<char>,
    sort_weight: i64,
)
    requires
        writable(created_at),
        is_iso_text(created_at, text),
        no_cursor(after),
    ensures
        list_query_of(before + cursor_pairs(text, id, sort_weight) + after) == behind(
            list_query_of(before + after),
            Place { sort_weight, created_at, id },
        ),
    decreases after.len(),
{
    let with = before + cursor_pairs(text, id, sort_weight);
    if after.len() == 0 {
        assert(with + after =~= with);
        assert(before + after =~= before);
        lemma_cursor_pairs(before, created_at, text, id, sort_weight);
    } else {
        let front = after.drop_last();
        assert(no_cursor(front)) by {
            assert forall|i: int| 0 <= i < front.len() implies (#[trigger] front[i]).0
                != "cursorCreatedAt"@ && front[i].0 != "cursorId"@ && front[i].0
                != "cursorSortWeight"@ by {
                assert(front[i] == after[i]);
            }
        }
        cursors_read_back(before, front, created_at, text, id, sort_weight);
        assert((with + after).drop_last() =~= with + front);
        assert((before + after).drop_last() =~= before + front);
        assert((with + after).last() == after.last());
        assert((before + after).last() == after.last());
        assert(after[after.len() - 1] == after.last());
    }
}

} // verus!

//! What is read from the pairs of a query string, stated of the results
//! themselves.

use crate::clock::{is_iso_text, rfc3339_instant, writable};
use crate::form::form_pairs_of;
use crate::listing::{
    cursor_pairs, cursors_read_back, get_clipboard, list_query, list_query_of, no_cursor, page,
    parse_list_query, with_pair,
    ClipboardItem, ItemRow, ItemType, ListQuery, Page,
};
use crate::number::{i64_of, unsigned_of};
use crate::qr::{qr_query, qr_query_of, QrQuery};
use crate::reply::Refusal;
use crate::visits::tells_time;
use vstd::prelude::*;

verus! {

/// The value of the last pair of this name.
pub open spec fn last_value(pairs: Seq<(Seq<char>, Seq<char>)>, name: Seq<char>) -> Option<Seq<char>>
    decreases pairs.len(),
{
    if pairs.len() == 0 {
        None
    } else if pairs.last().0 == name {
        Some(pairs.last().1)
    } else {
        last_value(pairs.drop_last(), name)
    }
}

/// The last time that a pair of this name tells, as a Unix timestamp or as an RFC
/// 3339 instant.
pub open spec fn last_time(pairs: Seq<(Seq<char>, Seq<char>)>, name: Seq<char>) -> Option<i64>
    decreases pairs.len(),
{
    if pairs.len() == 0 {
        None
    } else if pairs.last().0 == name && i64_of(pairs.last().1) is Some {
        i64_of(pairs.last().1)
    } else if pairs.last().0 == name && rfc3339_instant(pairs.last().1) is Some {
        rfc3339_instant(pairs.last().1)
    } else {
        last_time(pairs.drop_last(), name)
    }
}

/// A number brought between two bounds.
pub open spec fn clamped(n: int, lo: int, hi: int) -> int {
    if n < lo {
        lo
    } else if n > hi {
        hi
    } else {
        n
    }
}

/// Of several pairs of a name the last is the one that stands behind the others.
pub proof fn later_pairs_count(
    before: Seq<(Seq<char>, Seq<char>)>,
    name: Seq<char>,
    value: Seq<char>,
    after: Seq<(Seq<char>, Seq<char>)>,
)
    requires
        forall|i: int| 0 <= i < after.len() ==> (#[trigger] after[i]).0 != name,
    ensures
        last_value(before.push((name, value)) + after, name) == Some(value),
    decreases after.len(),
{
    let with = before.push((name, value));
    if after.len() == 0 {
        assert(with + after =~= with);
        assert(with.last() == (name, value));
    } else {
        let front = after.drop_last();
        assert forall|i: int| 0 <= i < front.len() implies (#[trigger] front[i]).0 != name by {
            assert(front[i] == after[i]);
        }
        later_pairs_count(before, name, value, front);
        assert((with + after).drop_last() =~= with + front);
        assert((with + after).last() == after[after.len() - 1]);
    }
}

proof fn lemma_list_query(pairs: Seq<(Seq<char>, Seq<char>)>)
    ensures
        ({
            let q = list_query_of(pairs);
            let take = last_value(pairs, "take"@);
            let sort = last_value(pairs, "cursorSortWeight"@);
            &&& q.search == last_value(pairs, "search"@)
            &&& take is None || unsigned_of(take->0, usize::MAX as u64) is None ==> q.take == 24
            &&& take is Some && unsigned_of(take->0, usize::MAX as u64) is Some ==> q.take
                == clamped(unsigned_of(take->0, usize::MAX as u64)->0 as int, 1, 48)
            &&& q.cursor_created_at == last_time(pairs, "cursorCreatedAt"@)
            &&& q.cursor_id == last_value(pairs, "cursorId"@)
            &&& sort is None ==> q.cursor_sort is None
            &&& sort is Some ==> q.cursor_sort == i64_of(sort->0)
        }),
    decreases pairs.len(),
{
    reveal_strlit("search");
    reveal_strlit("take");
    reveal_strlit("cursorCreatedAt");
    reveal_strlit("cursorId");
    reveal_strlit("cursorSortWeight");
    assert("cursorCreatedAt"@.len() == 15 && "cursorId"@.len() == 8 && "cursorSortWeight"@.len()
        == 16 && "search"@.len() == 6 && "take"@.len() == 4);
    if pairs.len() > 0 {
        lemma_list_query(pairs.drop_last());
        assert(list_query_of(pairs) == with_pair(
            list_query_of(pairs.drop_last()),
            pairs.last().0,
            pairs.last().1,
        ));
    }
}

/// A request for a page says what to search for, how many items a page has and
/// where to go on, each by the last pair of its name. A page has 24 items where
/// no number is given, and between 1 and 48 where one is; a time that cannot be
/// read counts as not given.
pub proof fn listings_are_asked_for(pairs: Vec<(String, String)>, q: ListQuery)
    requires
        call_ensures(list_query, (pairs,), q),
    ensures
        ({
            let p = pairs.deep_view();
            let take = last_value(p, "take"@);
            let sort = last_value(p, "cursorSortWeight"@);
            &&& q.search.deep_view() == last_value(p, "search"@)
            &&& take is None || unsigned_of(take->0, usize::MAX as u64) is None ==> q.take == 24
            &&& take is Some && unsigned_of(take->0, usize::MAX as u64) is Some ==> q.take
                == clamped(unsigned_of(take->0, usize::MAX as u64)->0 as int, 1, 48)
            &&& q.cursor_created_at == last_time(p, "cursorCreatedAt"@)
            &&& q.cursor_id.deep_view() == last_value(p, "cursorId"@)
            &&& sort is None ==> q.cursor_sort is None
            &&& sort is Some ==> q.cursor_sort == i64_of(sort->0)
        }),
{
    lemma_list_query(pairs.deep_view());
}

/// The same is read from a query string, by its pairs.
pub proof fn query_strings_ask_for_listings(query: &str, q: ListQuery)
    requires
        call_ensures(parse_list_query, (query,), q),
    ensures
        ({
            let p = form_pairs_of(query@);
            let take = last_value(p, "take"@);
            let sort = last_value(p, "cursorSortWeight"@);
            &&& q.search.deep_view() == last_value(p, "search"@)
            &&& take is None || unsigned_of(take->0, usize::MAX as u64) is None ==> q.take == 24
            &&& take is Some && unsigned_of(take->0, usize::MAX as u64) is Some ==> q.take
                == clamped(unsigned_of(take->0, usize::MAX as u64)->0 as int, 1, 48)
            &&& q.cursor_created_at == last_time(p, "cursorCreatedAt"@)
            &&& q.cursor_id.deep_view() == last_value(p, "cursorId"@)
            &&& sort is None ==> q.cursor_sort is None
            &&& sort is Some ==> q.cursor_sort == i64_of(sort->0)
        }),
{
    lemma_list_query(form_pairs_of(query@));
}

proof fn lemma_qr_query(pairs: Seq<(Seq<char>, Seq<char>)>)
    ensures
        ({
            let q = qr_query_of(pairs);
            let size = last_value(pairs, "size"@);
            let margin = last_value(pairs, "margin"@);
            let download = last_value(pairs, "download"@);
            &&& size is None || unsigned_of(size->0, u32::MAX as u64) is None ==> q.size == 256
            &&& size is Some && unsigned_of(size->0, u32::MAX as u64) is Some ==> q.size == clamped(
                unsigned_of(size->0, u32::MAX as u64)->0 as int,
                64,
                4096,
            )
            &&& margin is None || unsigned_of(margin->0, u32::MAX as u64) is None ==> q.margin == 2
            &&& margin is Some && unsigned_of(margin->0, u32::MAX as u64) is Some ==> q.margin
                == clamped(unsigned_of(margin->0, u32::MAX as u64)->0 as int, 0, 32)
            &&& q.download <==> download is Some && (download->0 == "1"@ || download->0 == "true"@
                || download->0 == "yes"@)
        }),
    decreases pairs.len(),
{
    reveal_strlit("size");
    reveal_strlit("margin");
    reveal_strlit("download");
    assert("size"@.len() == 4 && "margin"@.len() == 6 && "download"@.len() == 8);
    if pairs.len() > 0 {
        lemma_qr_query(pairs.drop_last());
    }
}

/// A request for a picture says how large it is, how wide its border is and
/// whether it is a download, each by the last pair of its name. A picture has 256
/// pixels a side where no number is given, and between 64 and 4096 where one is;
/// a border has 2 modules, and at most 32.
pub proof fn pictures_are_asked_for(pairs: Vec<(String, String)>, q: QrQuery)
    requires
        call_ensures(qr_query, (&pairs,), q),
    ensures
        ({
            let p = pairs.deep_view();
            let size = last_value(p, "size"@);
            let margin = last_value(p, "margin"@);
            let download = last_value(p, "download"@);
            &&& size is None || unsigned_of(size->0, u32::MAX as u64) is None ==> q.size == 256
            &&& size is Some && unsigned_of(size->0, u32::MAX as u64) is Some ==> q.size == clamped(
                unsigned_of(size->0, u32::MAX as u64)->0 as int,
                64,
                4096,
            )
            &&& margin is None || unsigned_of(margin->0, u32::MAX as u64) is None ==> q.margin == 2
            &&& margin is Some && unsigned_of(margin->0, u32::MAX as u64) is Some ==> q.margin
                == clamped(unsigned_of(margin->0, u32::MAX as u64)->0 as int, 0, 32)
            &&& q.download <==> download is Some && (download->0 == "1"@ || download->0 == "true"@
                || download->0 == "yes"@)
        }),
{
    lemma_qr_query(pairs.deep_view());
}

/// Whether an item is shown as its row has it, with the time of its creation and
/// of its last change. A type that is not known is that of a file.
pub open spec fn is_shown(item: ClipboardItem, row: ItemRow) -> bool {
    &&& item.id@ == row.id@
    &&& row.item_type@ == "TEXT"@ ==> item.item_type == ItemType::Text
    &&& row.item_type@ == "IMAGE"@ ==> item.item_type == ItemType::Image
    &&& row.item_type@ != "TEXT"@ && row.item_type@ != "IMAGE"@ ==> item.item_type
        == ItemType::File
    &&& item.content.deep_view() == row.content.deep_view()
    &&& item.file_name.deep_view() == row.file_name.deep_view()
    &&& item.file_size == row.file_size
    &&& item.sort_weight == row.sort_weight
    &&& item.content_type.deep_view() == row.content_type.deep_view()
    &&& tells_time(Some(row.created_at), Some(item.created_at))
    &&& tells_time(Some(row.updated_at), Some(item.updated_at))
}

/// One item is shown as its row has it, with the path of its file; one that is not
/// there is refused.
pub proof fn items_are_shown(row: Option<ItemRow>, r: Result<ClipboardItem, Refusal>)
    requires
        call_ensures(get_clipboard, (row,), r),
    ensures
        row is Some ==> {
            &&& r is Ok
            &&& is_shown(r->Ok_0, row->0)
            &&& r->Ok_0.file_path.deep_view() == (row->0).file_path.deep_view()
        },
        row is None ==> r is Err && r->Err_0.status == 404 && r->Err_0.error@ == "Not found"@,
{
    reveal_strlit("TEXT");
    reveal_strlit("IMAGE");
    assert("TEXT"@[0] == 'T' && "IMAGE"@[0] == 'I');
}

/// A page shows the first rows, as many as it has room for, each as it is and
/// without the path of its file. There is more exactly where a row is left over,
/// and the cursor for it is made of the last row of the page.
pub proof fn pages_show_their_rows(rows: Vec<ItemRow>, take: usize, r: Page)
    requires
        call_ensures(page, (&rows, take), r),
        take >= 1,
    ensures
        r.has_more <==> rows@.len() > take,
        r.items@.len() <= take,
        r.items@.len() == take || r.items@.len() == rows@.len(),
        r.items@.len() <= rows@.len(),
        forall|i: int|
            0 <= i < r.items@.len() ==> is_shown(#[trigger] r.items@[i], rows@[i])
                && r.items@[i].file_path is None,
        r.next_cursor is Some <==> r.has_more,
        r.has_more ==> {
            let c = r.next_cursor->0;
            let last = rows@[take - 1];
            &&& c.id@ == last.id@
            &&& c.sort_weight == last.sort_weight
            &&& tells_time(Some(last.created_at), Some(c.created_at))
        },
{
    reveal_strlit("TEXT");
    reveal_strlit("IMAGE");
    assert("TEXT"@[0] == 'T' && "IMAGE"@[0] == 'I');
    assert forall|i: int| 0 <= i < r.items@.len() implies is_shown(#[trigger] r.items@[i], rows@[i])
        && r.items@[i].file_path is None by {
        assert(r.items@[i].file_path.deep_view() is Some == r.items@[i].file_path is Some);
    }
}

/// The cursor of a page that has more, sent back by the client, asks for what comes
/// behind the last item of the page, and the rest of the query is read as before.
/// Items that were created at a time that cannot be written are left aside.
pub proof fn next_pages_begin_behind(
    rows: Vec<ItemRow>,
    take: usize,
    r: Page,
    before: Seq<(Seq<char>, Seq<char>)>,
    after: Seq<(Seq<char>, Seq<char>)>,
    pairs: Vec<(String, String)>,
    q: ListQuery,
)
    requires
        call_ensures(page, (&rows, take), r),
        take >= 1,
        rows@.len() > take,
        writable(rows@[take - 1].created_at),
        no_cursor(after),
        ({
            let c = r.next_cursor->0;
            pairs.deep_view() == before + cursor_pairs(c.created_at@, c.id@, c.sort_weight) + after
        }),
        call_ensures(list_query, (pairs,), q),
    ensures
        ({
            let last = rows@[take - 1];
            let rest = list_query_of(before + after);
            &&& q.cursor_created_at == Some(last.created_at)
            &&& q.cursor_id is Some && q.cursor_id->0@ == last.id@
            &&& q.cursor_sort == Some(last.sort_weight)
            &&& q.search.deep_view() == rest.search
            &&& q.take == rest.take
        }),
{
    let last = rows@[take - 1];
    let c = r.next_cursor->0;
    assert(is_iso_text(last.created_at, c.created_at@));
    cursors_read_back(before, after, last.created_at, c.created_at@, c.id@, c.sort_weight);
    assert(q.cursor_id.deep_view() is Some == q.cursor_id is Some);
}

} // verus!

//! The conditions of the listing statement: how they are written in SQL, and
//! which rows meet them.

use crate::listing::{
    list_statement, list_statement_of, listed_after, passes_cursor, text_before, where_of, ListQuery,
    ListQueryView, Place,
};
use crate::store::{sql_text, ItemView, SqlView, Statement};
use vstd::prelude::*;

verus! {

/// A row of the item table, with its key.
pub struct Row {
    pub id: Seq<char>,
    pub item: ItemView,
}

impl Row {
    /// Where the item stands in the listing.
    pub open spec fn place(self) -> Place {
        Place {
            sort_weight: self.item.sort_weight,
            created_at: self.item.created_at,
            id: self.id,
        }
    }
}

/// A column that a condition speaks of.
pub enum Column {
    Id,
    Content,
    FileName,
    SortWeight,
    CreatedAt,
}

impl Column {
    /// The name of the column.
    pub open spec fn name(self) -> Seq<char> {
        match self {
            Column::Id => "id"@,
            Column::Content => "content"@,
            Column::FileName => "fileName"@,
            Column::SortWeight => "sortWeight"@,
            Column::CreatedAt => "createdAt"@,
        }
    }

    /// What a row holds in the column.
    pub open spec fn of(self, row: Row) -> SqlView {
        match self {
            Column::Id => SqlView::Text(row.id),
            Column::Content => sql_text(row.item.content),
            Column::FileName => sql_text(row.item.file_name),
            Column::SortWeight => SqlView::Integer(row.item.sort_weight),
            Column::CreatedAt => SqlView::Integer(row.item.created_at),
        }
    }
}

/// Two characters are the same to `LIKE`: they are, or they are the upper and the
/// lower case of one ASCII letter.
pub open spec fn alike(a: char, b: char) -> bool {
    ||| a == b
    ||| 'A' <= a <= 'Z' && b as int == a as int + 32
    ||| 'A' <= b <= 'Z' && a as int == b as int + 32
}

/// Whether a text matches a pattern of `LIKE`: `%` stands for any characters, `_`
/// for any one, and every other character for itself, in either case.
pub open spec fn like(pattern: Seq<char>, text: Seq<char>) -> bool
    decreases pattern.len(),
{
    if pattern.len() == 0 {
        text.len() == 0
    } else if pattern[0] == '%' {
        exists|k: int| 0 <= k <= text.len() && like(pattern.skip(1), #[trigger] text.skip(k))
    } else {
        text.len() > 0 && (pattern[0] == '_' || alike(pattern[0], text[0])) && like(
            pattern.skip(1),
            text.skip(1),
        )
    }
}

/// A condition on a row.
pub enum Cond {
    Like(Column, SqlView),
    Less(Column, SqlView),
    Same(Column, SqlView),
    Both(Box<Cond>, Box<Cond>),
    Either(Box<Cond>, Box<Cond>),
}

impl Cond {
    /// The condition in SQL. What is put together stands in brackets.
    pub open spec fn written(self) -> Seq<char>
        decreases self,
    {
        match self {
            Cond::Like(c, _) => c.name() + " LIKE ?"@,
            Cond::Less(c, _) => c.name() + " < ?"@,
            Cond::Same(c, _) => c.name() + " = ?"@,
            Cond::Both(a, b) => "("@ + a.written() + " AND "@ + b.written() + ")"@,
            Cond::Either(a, b) => "("@ + a.written() + " OR "@ + b.written() + ")"@,
        }
    }

    /// The values of its parameters, in their order.
    pub open spec fn bound(self) -> Seq<SqlView>
        decreases self,
    {
        match self {
            Cond::Like(_, v) => seq![v],
            Cond::Less(_, v) => seq![v],
            Cond::Same(_, v) => seq![v],
            Cond::Both(a, b) => a.bound() + b.bound(),
            Cond::Either(a, b) => a.bound() + b.bound(),
        }
    }

    /// Whether a row meets it. Where there is nothing in the column, nothing is
    /// like it, less than it or the same.
    pub open spec fn met_by(self, row: Row) -> bool
        decreases self,
    {
        match self {
            Cond::Like(c, v) => match (c.of(row), v) {
                (SqlView::Text(t), SqlView::Text(p)) => like(p, t),
                _ => false,
            },
            Cond::Less(c, v) => match (c.of(row), v) {
                (SqlView::Integer(m), SqlView::Integer(n)) => m < n,
                (SqlView::Text(s), SqlView::Text(t)) => text_before(s, t),
                _ => false,
            },
            Cond::Same(c, v) => match (c.of(row), v) {
                (SqlView::Integer(m), SqlView::Integer(n)) => m == n,
                (SqlView::Text(s), SqlView::Text(t)) => s == t,
                _ => false,
            },
            Cond::Both(a, b) => a.met_by(row) && b.met_by(row),
            Cond::Either(a, b) => a.met_by(row) || b.met_by(row),
        }
    }
}

/// Conditions one after the other, every one of which is to be met.
pub open spec fn joined(cs: Seq<Cond>) -> Seq<char>
    decreases cs.len(),
{
    if cs.len() == 0 {
        Seq::empty()
    } else if cs.len() == 1 {
        " WHERE "@ + cs[0].written()
    } else {
        joined(cs.drop_last()) + " AND "@ + cs.last().written()
    }
}

/// The values of the parameters of several conditions.
pub open spec fn all_bound(cs: Seq<Cond>) -> Seq<SqlView>
    decreases cs.len(),
{
    if cs.len() == 0 {
        Seq::empty()
    } else {
        all_bound(cs.drop_last()) + cs.last().bound()
    }
}

/// Whether a row meets every one of several conditions.
pub open spec fn all_met(cs: Seq<Cond>, row: Row) -> bool {
    forall|i: int| 0 <= i < cs.len() ==> (#[trigger] cs[i]).met_by(row)
}

/// The condition of a search: the text is somewhere in the contents or the file
/// name.
pub open spec fn search_cond(s: Seq<char>) -> Cond {
    let pattern = SqlView::Text("%"@ + s + "%"@);
    Cond::Either(
        Box::new(Cond::Like(Column::Content, pattern)),
        Box::new(Cond::Like(Column::FileName, pattern)),
    )
}

/// The condition that a row was created before another, by time and key.
pub open spec fn older_cond(created: i64, id: Seq<char>) -> Cond {
    Cond::Either(
        Box::new(Cond::Less(Column::CreatedAt, SqlView::Integer(created))),
        Box::new(
            Cond::Both(
                Box::new(Cond::Same(Column::CreatedAt, SqlView::Integer(created))),
                Box::new(Cond::Less(Column::Id, SqlView::Text(id))),
            ),
        ),
    )
}

/// The condition that a row is listed behind a place.
pub open spec fn behind_cond(p: Place) -> Cond {
    Cond::Either(
        Box::new(Cond::Less(Column::SortWeight, SqlView::Integer(p.sort_weight))),
        Box::new(
            Cond::Both(
                Box::new(Cond::Same(Column::SortWeight, SqlView::Integer(p.sort_weight))),
                Box::new(older_cond(p.created_at, p.id)),
            ),
        ),
    )
}

/// The conditions of a request: that of its search, then that of its cursor.
pub open spec fn conditions_of(q: ListQueryView) -> Seq<Cond> {
    let searched = match q.search {
        Some(s) => seq![search_cond(s)],
        None => seq![],
    };
    match (q.cursor_created_at, q.cursor_id) {
        (Some(created_at), Some(id)) => searched.push(
            match q.cursor_sort {
                Some(sort_weight) => behind_cond(Place { sort_weight, created_at, id }),
                None => older_cond(created_at, id),
            },
        ),
        _ => searched,
    }
}

/// Whether the listing statement of a request gives a row.
pub open spec fn selects(q: ListQueryView, row: Row) -> bool {
    all_met(conditions_of(q), row)
}

/// Whether a row is found by a search: what is searched for is somewhere in its
/// contents or its file name. Without a search every row is.
pub open spec fn is_found(search: Option<Seq<char>>, row: Row) -> bool {
    search is Some ==> {
        let pattern = "%"@ + search->0 + "%"@;
        ||| row.item.content is Some && like(pattern, row.item.content->0)
        ||| row.item.file_name is Some && like(pattern, row.item.file_name->0)
    }
}

proof fn lemma_search_text(s: Seq<char>)
    ensures
        search_cond(s).written() == "(content LIKE ? OR fileName LIKE ?)"@,
        search_cond(s).bound() == seq![
            SqlView::Text("%"@ + s + "%"@),
            SqlView::Text("%"@ + s + "%"@),
        ],
{
    let pattern = SqlView::Text("%"@ + s + "%"@);
    let a = Cond::Like(Column::Content, pattern);
    let b = Cond::Like(Column::FileName, pattern);
    reveal_with_fuel(Cond::written, 2);
    reveal_with_fuel(Cond::bound, 2);
    reveal_strlit("(");
    reveal_strlit(")");
    reveal_strlit("content");
    reveal_strlit("fileName");
    reveal_strlit(" LIKE ?");
    reveal_strlit(" OR ");
    reveal_strlit("content LIKE ?");
    reveal_strlit("fileName LIKE ?");
    reveal_strlit("(content LIKE ? OR fileName LIKE ?)");
    assert(a.written() =~= "content LIKE ?"@);
    assert(b.written() =~= "fileName LIKE ?"@);
    assert(search_cond(s).written() == "("@ + a.written() + " OR "@ + b.written() + ")"@);
    assert(search_cond(s).written() =~= "(content LIKE ? OR fileName LIKE ?)"@);
    assert(search_cond(s).bound() == a.bound() + b.bound());
    assert(search_cond(s).bound() =~= seq![pattern, pattern]);
}

proof fn lemma_older_text(created: i64, id: Seq<char>)
    ensures
        older_cond(created, id).written() == "(createdAt < ? OR (createdAt = ? AND id < ?))"@,
        older_cond(created, id).bound() == seq![
            SqlView::Integer(created),
            SqlView::Integer(created),
            SqlView::Text(id),
        ],
{
    let a = Cond::Less(Column::CreatedAt, SqlView::Integer(created));
    let b = Cond::Same(Column::CreatedAt, SqlView::Integer(created));
    let c = Cond::Less(Column::Id, SqlView::Text(id));
    let both = Cond::Both(Box::new(b), Box::new(c));
    let all = older_cond(created, id);
    reveal_strlit("(");
    reveal_strlit(")");
    reveal_strlit("createdAt");
    reveal_strlit("id");
    reveal_strlit(" < ?");
    reveal_strlit(" = ?");
    reveal_strlit(" AND ");
    reveal_strlit(" OR ");
    reveal_strlit("createdAt < ?");
    reveal_strlit("createdAt = ?");
    reveal_strlit("id < ?");
    reveal_strlit("(createdAt = ? AND id < ?)");
    reveal_strlit("(createdAt < ? OR (createdAt = ? AND id < ?))");
    assert(a.written() =~= "createdAt < ?"@);
    assert(b.written() =~= "createdAt = ?"@);
    assert(c.written() =~= "id < ?"@);
    assert(both.written() == "("@ + b.written() + " AND "@ + c.written() + ")"@);
    assert(both.written() =~= "(createdAt = ? AND id < ?)"@);
    assert(all.written() == "("@ + a.written() + " OR "@ + both.written() + ")"@);
    assert(all.written() =~= "(createdAt < ? OR (createdAt = ? AND id < ?))"@);
    assert(both.bound() == b.bound() + c.bound());
    assert(all.bound() == a.bound() + both.bound());
    assert(all.bound() =~= seq![
        SqlView::Integer(created),
        SqlView::Integer(created),
        SqlView::Text(id),
    ]);
}

proof fn lemma_behind_text(p: Place)
    ensures
        behind_cond(p).written()
            == "(sortWeight < ? OR (sortWeight = ? AND (createdAt < ? OR (createdAt = ? AND id < ?))))"@,
        behind_cond(p).bound() == seq![
            SqlView::Integer(p.sort_weight),
            SqlView::Integer(p.sort_weight),
            SqlView::Integer(p.created_at),
            SqlView::Integer(p.created_at),
            SqlView::Text(p.id),
        ],
{
    let a = Cond::Less(Column::SortWeight, SqlView::Integer(p.sort_weight));
    let b = Cond::Same(Column::SortWeight, SqlView::Integer(p.sort_weight));
    let c = older_cond(p.created_at, p.id);
    let both = Cond::Both(Box::new(b), Box::new(c));
    let all = behind_cond(p);
    lemma_older_text(p.created_at, p.id);
    reveal_strlit("(");
    reveal_strlit(")");
    reveal_strlit("sortWeight");
    reveal_strlit(" < ?");
    reveal_strlit(" = ?");
    reveal_strlit(" AND ");
    reveal_strlit(" OR ");
    reveal_strlit("sortWeight < ?");
    reveal_strlit("sortWeight = ?");
    reveal_strlit("(createdAt < ? OR (createdAt = ? AND id < ?))");
    reveal_strlit("(sortWeight = ? AND (createdAt < ? OR (createdAt = ? AND id < ?)))");
    reveal_strlit(
        "(sortWeight < ? OR (sortWeight = ? AND (createdAt < ? OR (createdAt = ? AND id < ?))))",
    );
    assert(a.written() =~= "sortWeight < ?"@);
    assert(b.written() =~= "sortWeight = ?"@);
    assert(both.written() == "("@ + b.written() + " AND "@ + c.written() + ")"@);
    assert(both.written()
        =~= "(sortWeight = ? AND (createdAt < ? OR (createdAt = ? AND id < ?)))"@);
    assert(all.written() == "("@ + a.written() + " OR "@ + both.written() + ")"@);
    assert(all.written()
        =~= "(sortWeight < ? OR (sortWeight = ? AND (createdAt < ? OR (createdAt = ? AND id < ?))))"@);
    assert(both.bound() == b.bound() + c.bound());
    assert(all.bound() == a.bound() + both.bound());
    assert(all.bound() =~= seq![
        SqlView::Integer(p.sort_weight),
        SqlView::Integer(p.sort_weight),
        SqlView::Integer(p.created_at),
        SqlView::Integer(p.created_at),
        SqlView::Text(p.id),
    ]);
}

/// The `WHERE` part of the listing statement is that every one of the conditions
/// of the request is met, whatever the request searches for and wherever it goes
/// on.
pub proof fn conditions_are_written(q: ListQueryView)
    ensures
        where_of(q).0 == joined(conditions_of(q)),
        where_of(q).1 == all_bound(conditions_of(q)),
{
    let cs = conditions_of(q);
    let none = Seq::<Cond>::empty();
    assert(joined(none) =~= Seq::empty());
    assert(all_bound(none) =~= Seq::empty());
    if let Some(s) = q.search {
        lemma_search_text(s);
    }
    if let (Some(created_at), Some(id)) = (q.cursor_created_at, q.cursor_id) {
        lemma_older_text(created_at, id);
        if let Some(sort_weight) = q.cursor_sort {
            lemma_behind_text(Place { sort_weight, created_at, id });
        }
    }
    if cs.len() == 2 {
        assert(cs.drop_last() =~= seq![cs[0]]);
        assert(joined(seq![cs[0]]) == " WHERE "@ + cs[0].written());
        assert(seq![cs[0]].drop_last() =~= none);
        assert(all_bound(seq![cs[0]]) =~= cs[0].bound());
        assert(where_of(q).0 =~= joined(cs));
        assert(where_of(q).1 =~= all_bound(cs));
    } else if cs.len() == 1 {
        assert(cs.drop_last() =~= none);
        assert(where_of(q).0 =~= joined(cs));
        assert(where_of(q).1 =~= all_bound(cs));
    }
}

/// The rows that meet the conditions of a request are exactly those that its
/// search finds and that come behind its cursor: with the weight in it, by weight,
/// time and key; without, by time and key; and all of them where it has none.
pub proof fn conditions_mean_the_request(q: ListQueryView, row: Row)
    ensures
        selects(q, row) <==> is_found(q.search, row) && passes_cursor(q, row.place()),
        q.cursor_created_at is None || q.cursor_id is None ==> passes_cursor(q, row.place()),
        q.cursor_created_at is Some && q.cursor_id is Some && q.cursor_sort is Some ==> (
        passes_cursor(q, row.place()) <==> listed_after(
            row.place(),
            Place {
                sort_weight: q.cursor_sort->0,
                created_at: q.cursor_created_at->0,
                id: q.cursor_id->0,
            },
        )),
        q.cursor_created_at is Some && q.cursor_id is Some && q.cursor_sort is None ==> (
        passes_cursor(q, row.place()) <==> row.item.created_at < q.cursor_created_at->0
            || row.item.created_at == q.cursor_created_at->0 && text_before(
            row.id,
            q.cursor_id->0,
        )),
{
    let cs = conditions_of(q);
    reveal_with_fuel(Cond::met_by, 5);
    if let Some(s) = q.search {
        assert(cs[0] == search_cond(s));
        assert(search_cond(s).met_by(row) <==> is_found(q.search, row));
    }
    if let (Some(created_at), Some(id)) = (q.cursor_created_at, q.cursor_id) {
        let c = match q.cursor_sort {
            Some(sort_weight) => behind_cond(Place { sort_weight, created_at, id }),
            None => older_cond(created_at, id),
        };
        assert(cs.last() == c);
        assert(cs[cs.len() - 1] == c);
        assert(c.met_by(row) <==> passes_cursor(q, row.place()));
    }
}

/// The listing statement asks for the rows that the search of a request finds and
/// that come behind its cursor, and for no others, in the order of the listing,
/// and for one more than the page has.
pub proof fn statements_select_the_page(q: ListQuery, r: Statement)
    requires
        call_ensures(list_statement, (&q,), r),
        q.take < i64::MAX,
    ensures
        ({
            let view = q.deep_view();
            let cs = conditions_of(view);
            &&& r.sql@
                == "SELECT id,type,content,fileName,fileSize,sortWeight,contentType,inlineData,filePath,createdAt,updatedAt FROM ClipboardItem"@
                + joined(cs) + " ORDER BY sortWeight DESC, createdAt DESC, id DESC LIMIT ?"@
            &&& r.params.deep_view().drop_last() == all_bound(cs)
            &&& r.params.deep_view().len() == all_bound(cs).len() + 1
            &&& r.params.deep_view().last() is Integer
            &&& r.params.deep_view().last()->Integer_0 == q.take + 1
            &&& forall|row: Row| #[trigger]
                all_met(cs, row) <==> is_found(view.search, row) && passes_cursor(
                    view,
                    row.place(),
                )
        }),
{
    let view = q.deep_view();
    let cs = conditions_of(view);
    conditions_are_written(view);
    assert(r.deep_view() == list_statement_of(view));
    assert(r.params.deep_view().drop_last() =~= all_bound(cs));
    assert forall|row: Row| #[trigger] all_met(cs, row) <==> is_found(view.search, row)
        && passes_cursor(view, row.place()) by {
        conditions_mean_the_request(view, row);
    }
}

proof fn lemma_like_prefix(s: Seq<char>, text: Seq<char>)
    requires
        text.len() >= s.len(),
        text.take(s.len() as int) == s,
    ensures
        like(s + "%"@, text),
    decreases s.len(),
{
    reveal_strlit("%");
    let pattern = s + "%"@;
    if s.len() == 0 {
        assert(pattern.skip(1) =~= Seq::empty());
        let rest = text.skip(text.len() as int);
        assert(like(pattern.skip(1), rest));
    } else {
        let s1 = s.skip(1);
        let t1 = text.skip(1);
        assert(text[0] == text.take(s.len() as int)[0]);
        assert(t1.take(s1.len() as int) =~= s1) by {
            assert forall|i: int| 0 <= i < s1.len() implies t1[i] == s1[i] by {
                assert(text[i + 1] == text.take(s.len() as int)[i + 1]);
            }
        }
        assert(pattern.skip(1) =~= s1 + "%"@);
        lemma_like_prefix(s1, t1);
        if pattern[0] == '%' {
            assert(like(pattern.skip(1), text.skip(1)));
        }
    }
}

/// A search finds every row with what is searched for somewhere in its contents or
/// its file name, whatever characters that is made of.
pub proof fn searches_find_what_is_there(s: Seq<char>, row: Row, text: Seq<char>, at: int)
    requires
        row.item.content == Some(text) || row.item.file_name == Some(text),
        0 <= at <= at + s.len() <= text.len(),
        text.subrange(at, at + s.len()) == s,
    ensures
        is_found(Some(s), row),
{
    reveal_strlit("%");
    let pattern = "%"@ + s + "%"@;
    let rest = text.skip(at);
    assert(rest.take(s.len() as int) =~= text.subrange(at, at + s.len()));
    lemma_like_prefix(s, rest);
    assert(pattern.skip(1) =~= s + "%"@);
    assert(pattern[0] == '%');
    assert(like(pattern, text));
}

/// Whether a text begins with another, upper and lower case of ASCII letters being
/// the same.
pub open spec fn begins_alike(text: Seq<char>, s: Seq<char>) -> bool {
    text.len() >= s.len() && forall|i: int|
        0 <= i < s.len() ==> alike(#[trigger] s[i], text[i])
}

proof fn lemma_like_begins(s: Seq<char>, text: Seq<char>)
    requires
        !s.contains('%'),
        !s.contains('_'),
        like(s + "%"@, text),
    ensures
        begins_alike(text, s),
    decreases s.len(),
{
    reveal_strlit("%");
    let pattern = s + "%"@;
    if s.len() > 0 {
        let s1 = s.skip(1);
        assert(s.contains(s[0]));
        assert(pattern.skip(1) =~= s1 + "%"@);
        assert(!s1.contains('%') && !s1.contains('_')) by {
            assert(forall|i: int| 0 <= i < s1.len() ==> s1[i] == s[i + 1]);
        }
        lemma_like_begins(s1, text.skip(1));
        assert forall|i: int| 0 <= i < s.len() implies alike(#[trigger] s[i], text[i]) by {
            if i > 0 {
                assert(s1[i - 1] == s[i]);
                assert(text.skip(1)[i - 1] == text[i]);
            }
        }
    }
}

/// A search for a text without `%` and `_` finds nothing else: the text is
/// somewhere in the contents or the file name of every row that it finds, but for
/// the case of ASCII letters.
pub proof fn searches_find_nothing_else(s: Seq<char>, row: Row)
    requires
        is_found(Some(s), row),
        !s.contains('%'),
        !s.contains('_'),
    ensures
        ({
            ||| row.item.content is Some && exists|at: int|
                0 <= at <= row.item.content->0.len() && begins_alike(
                    #[trigger] row.item.content->0.skip(at),
                    s,
                )
            ||| row.item.file_name is Some && exists|at: int|
                0 <= at <= row.item.file_name->0.len() && begins_alike(
                    #[trigger] row.item.file_name->0.skip(at),
                    s,
                )
        }),
{
    reveal_strlit("%");
    let pattern = "%"@ + s + "%"@;
    assert(pattern[0] == '%');
    assert(pattern.skip(1) =~= s + "%"@);
    if row.item.content is Some && like(pattern, row.item.content->0) {
        let text = row.item.content->0;
        let k = choose|k: int|
            0 <= k <= text.len() && like(pattern.skip(1), #[trigger] text.skip(k));
        lemma_like_begins(s, text.skip(k));
    } else {
        let text = row.item.file_name->0;
        let k = choose|k: int|
            0 <= k <= text.len() && like(pattern.skip(1), #[trigger] text.skip(k));
        lemma_like_begins(s, text.skip(k));
    }
}

} // verus!

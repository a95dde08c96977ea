//! What is written to the database, stated of the statements themselves and of the
//! rows that they leave.

use crate::store::{
    migration, statement, Change, ChangeView, LinkSettings, NewItem, NewLink, SqlView, Statement,
    Store,
};
use vstd::prelude::*;

verus! {

/// The value of an optional number in a statement.
pub open spec fn number_or_null(v: Option<i64>) -> SqlView {
    if v is Some {
        SqlView::Integer(v->0)
    } else {
        SqlView::Null
    }
}

/// The value of an optional text in a statement.
pub open spec fn words_or_null(v: Option<String>) -> SqlView {
    if v is Some {
        SqlView::Text(v->0@)
    } else {
        SqlView::Null
    }
}

/// The value of optional bytes in a statement.
pub open spec fn bytes_or_null(v: Option<Vec<u8>>) -> SqlView {
    if v is Some {
        SqlView::Blob(v->0@)
    } else {
        SqlView::Null
    }
}

/// A new item is written with one value for every column, in the order in which
/// the statement names them, and its row then holds these values.
pub proof fn items_are_written(new: NewItem, r: Statement, s: Store)
    requires
        call_ensures(statement, (Change::InsertItem(new),), r),
        !s.items.contains_key(new.id@),
    ensures
        r.sql@
            == "INSERT INTO ClipboardItem (id,type,content,fileName,fileSize,sortWeight,contentType,inlineData,filePath,createdAt,updatedAt) VALUES (?,?,?,?,?,?,?, ?, ?, ?, ?)"@,
        r.params.deep_view() == seq![
            SqlView::Text(new.id@),
            SqlView::Text(new.item_type@),
            words_or_null(new.content),
            words_or_null(new.file_name),
            number_or_null(new.file_size),
            SqlView::Integer(new.sort_weight),
            words_or_null(new.content_type),
            bytes_or_null(new.inline_data),
            words_or_null(new.file_path),
            SqlView::Integer(new.now),
            SqlView::Integer(new.now),
        ],
        ({
            let after = s.after(Change::InsertItem(new).deep_view());
            let row = after.items[new.id@];
            &&& after.items.contains_key(new.id@)
            &&& row.item_type == new.item_type@
            &&& row.content == new.content.deep_view()
            &&& row.file_name == new.file_name.deep_view()
            &&& row.file_size == new.file_size
            &&& row.sort_weight == new.sort_weight
            &&& row.content_type == new.content_type.deep_view()
            &&& row.inline_data is Some <==> new.inline_data is Some
            &&& new.inline_data is Some ==> row.inline_data->0 == new.inline_data->0@
            &&& row.file_path == new.file_path.deep_view()
            &&& row.created_at == new.now && row.updated_at == new.now
            &&& after.links == s.links
            &&& forall|id: Seq<char>|
                id != new.id@ ==> (#[trigger] after.items.contains_key(id) <==> s.items.contains_key(
                    id,
                )) && after.items[id] == s.items[id]
        }),
{
    assert(r.deep_view().params == r.params.deep_view());
    assert(new.content.deep_view() is Some == new.content is Some);
    assert(new.file_name.deep_view() is Some == new.file_name is Some);
    assert(new.content_type.deep_view() is Some == new.content_type is Some);
    assert(new.file_path.deep_view() is Some == new.file_path is Some);
}

/// A new link is written with its settings, unused and switched on, and its row
/// then holds these values.
pub proof fn links_are_written(new: NewLink, r: Statement, s: Store)
    requires
        call_ensures(statement, (Change::InsertLink(new),), r),
        !s.links.contains_key(new.token@),
        s.items.contains_key(new.item_id@),
    ensures
        r.sql@
            == "INSERT INTO ShareLink (token,itemId,expiresAt,maxDownloads,downloadCount,revoked,passwordHash,passwordPlain,createdAt,updatedAt) VALUES (?,?,?,?,0,0,?,?,?,?)"@,
        r.params.deep_view() == seq![
            SqlView::Text(new.token@),
            SqlView::Text(new.item_id@),
            number_or_null(new.expires_at),
            number_or_null(new.max_downloads),
            words_or_null(new.password_hash),
            words_or_null(new.password_plain),
            SqlView::Integer(new.now),
            SqlView::Integer(new.now),
        ],
        ({
            let after = s.after(Change::InsertLink(new).deep_view());
            let row = after.links[new.token@];
            &&& after.links.contains_key(new.token@)
            &&& row.item_id == new.item_id@
            &&& row.expires_at == new.expires_at
            &&& row.max_downloads == new.max_downloads
            &&& row.download_count == 0 && row.revoked == 0
            &&& row.password_hash == new.password_hash.deep_view()
            &&& row.password_plain == new.password_plain.deep_view()
            &&& row.created_at == new.now && row.updated_at == new.now
            &&& after.items == s.items
            &&& forall|t: Seq<char>|
                t != new.token@ ==> (#[trigger] after.links.contains_key(t)
                    <==> s.links.contains_key(t)) && after.links[t] == s.links[t]
        }),
{
    assert(r.deep_view().params == r.params.deep_view());
    assert(new.password_hash.deep_view() is Some == new.password_hash is Some);
    assert(new.password_plain.deep_view() is Some == new.password_plain is Some);
}

/// A link that an owner asked for is written without limits and password, and its
/// row then has none.
pub proof fn plain_links_are_written(
    token: String,
    item_id: String,
    now: i64,
    r: Statement,
    s: Store,
)
    requires
        call_ensures(statement, (Change::ProvisionLink { token, item_id, now },), r),
        !s.links.contains_key(token@),
        s.items.contains_key(item_id@),
    ensures
        r.sql@
            == "INSERT INTO ShareLink (token,itemId,expiresAt,maxDownloads,downloadCount,revoked,passwordHash,createdAt,updatedAt) VALUES (?,?,?,?,0,0,?,?,?)"@,
        r.params.deep_view() == seq![
            SqlView::Text(token@),
            SqlView::Text(item_id@),
            SqlView::Null,
            SqlView::Null,
            SqlView::Null,
            SqlView::Integer(now),
            SqlView::Integer(now),
        ],
        ({
            let after = s.after(
                ChangeView::ProvisionLink { token: token@, item_id: item_id@, now },
            );
            let row = after.links[token@];
            &&& after.links.contains_key(token@)
            &&& row.item_id == item_id@
            &&& row.expires_at is None && row.max_downloads is None
            &&& row.download_count == 0 && row.revoked == 0
            &&& row.password_hash is None && row.password_plain is None
            &&& row.created_at == now && row.updated_at == now
            &&& after.items == s.items
            &&& forall|t: Seq<char>|
                t != token@ ==> (#[trigger] after.links.contains_key(t) <==> s.links.contains_key(
                    t,
                )) && after.links[t] == s.links[t]
        }),
{
    assert(r.deep_view().params == r.params.deep_view());
}

/// A link is not added a second time under its token, nor for an item that is not
/// there, and an item is not added a second time under its key.
pub proof fn keys_are_not_taken_twice(s: Store, item: NewItem, link: NewLink, now: i64)
    ensures
        s.items.contains_key(item.id@) ==> s.after(Change::InsertItem(item).deep_view()) == s,
        s.links.contains_key(link.token@) || !s.items.contains_key(link.item_id@) ==> s.after(
            Change::InsertLink(link).deep_view(),
        ) == s && s.after(
            ChangeView::ProvisionLink { token: link.token@, item_id: link.item_id@, now },
        ) == s,
{
}

/// Counting an access adds one to the use of that link, and changes nothing else of
/// it and no other link.
pub proof fn accesses_are_written(token: String, now: i64, r: Statement, s: Store)
    requires
        call_ensures(statement, (Change::CountAccess { token, now },), r),
    ensures
        r.sql@
            == "UPDATE ShareLink SET downloadCount=downloadCount+1, updatedAt=? WHERE token=?"@,
        r.params.deep_view() == seq![SqlView::Integer(now), SqlView::Text(token@)],
        ({
            let after = s.after(ChangeView::CountAccess { token: token@, now });
            let row = after.links[token@];
            let before = s.links[token@];
            &&& after.items == s.items
            &&& forall|t: Seq<char>| #[trigger]
                after.links.contains_key(t) <==> s.links.contains_key(t)
            &&& forall|t: Seq<char>| t != token@ ==> #[trigger] after.links[t] == s.links[t]
            &&& s.links.contains_key(token@) ==> {
                &&& row.download_count == before.download_count + 1
                &&& row.updated_at == now
                &&& row.item_id == before.item_id
                &&& row.expires_at == before.expires_at
                &&& row.max_downloads == before.max_downloads
                &&& row.revoked == before.revoked
                &&& row.password_hash == before.password_hash
                &&& row.password_plain == before.password_plain
                &&& row.created_at == before.created_at
            }
        }),
{
    assert(r.deep_view().params == r.params.deep_view());
}

/// An item is deleted by its key.
pub proof fn deletions_are_written(id: String, r: Statement)
    requires
        call_ensures(statement, (Change::DeleteItem { id },), r),
    ensures
        r.sql@ == "DELETE FROM ClipboardItem WHERE id=?"@,
        r.params.deep_view() == seq![SqlView::Text(id@)],
{
    assert(r.deep_view().params == r.params.deep_view());
}

/// Switching off concerns every link of the item that is on, and of those only
/// whether they are on and when they were changed; every other link stays.
pub proof fn switching_off_is_written(item_id: String, now: i64, r: Statement, s: Store)
    requires
        call_ensures(statement, (Change::RevokeLinks { item_id, now },), r),
    ensures
        r.sql@ == "UPDATE ShareLink SET revoked=1, updatedAt=? WHERE itemId=? AND revoked=0"@,
        r.params.deep_view() == seq![SqlView::Integer(now), SqlView::Text(item_id@)],
        ({
            let after = s.after(ChangeView::RevokeLinks { item_id: item_id@, now });
            &&& after.items == s.items
            &&& forall|t: Seq<char>| #[trigger]
                after.links.contains_key(t) <==> s.links.contains_key(t)
            &&& forall|t: Seq<char>|
                s.links.contains_key(t) ==> {
                    let row = #[trigger] after.links[t];
                    let before = s.links[t];
                    &&& before.item_id != item_id@ || before.revoked != 0 ==> row == before
                    &&& before.item_id == item_id@ && before.revoked == 0 ==> row.revoked == 1
                        && row.updated_at == now
                    &&& row.item_id == before.item_id
                    &&& row.expires_at == before.expires_at
                    &&& row.max_downloads == before.max_downloads
                    &&& row.download_count == before.download_count
                    &&& row.password_hash == before.password_hash
                    &&& row.password_plain == before.password_plain
                    &&& row.created_at == before.created_at
                }
        }),
{
    assert(r.deep_view().params == r.params.deep_view());
}

/// New settings are written to the link with this token, and its row then holds
/// them.
pub proof fn settings_are_written(token: String, new: LinkSettings, r: Statement, s: Store)
    requires
        call_ensures(statement, (Change::UpdateLink { token, settings: new },), r),
    ensures
        r.sql@
            == "UPDATE ShareLink SET expiresAt=?, maxDownloads=?, passwordHash=?, passwordPlain=?, updatedAt=? WHERE token=?"@,
        r.params.deep_view() == seq![
            number_or_null(new.expires_at),
            number_or_null(new.max_downloads),
            words_or_null(new.password_hash),
            words_or_null(new.password_plain),
            SqlView::Integer(new.now),
            SqlView::Text(token@),
        ],
        s.links.contains_key(token@) ==> {
            let after = s.after(Change::UpdateLink { token, settings: new }.deep_view());
            holds_settings(s, after, token@, token@, new)
        },
        !s.links.contains_key(token@) ==> s.after(
            Change::UpdateLink { token, settings: new }.deep_view(),
        ) == s,
{
    assert(r.deep_view().params == r.params.deep_view());
    assert(new.password_hash.deep_view() is Some == new.password_hash is Some);
    assert(new.password_plain.deep_view() is Some == new.password_plain is Some);
}

/// Whether the link that had one token holds new settings under another, and every
/// other link is as it was.
pub open spec fn holds_settings(
    s: Store,
    after: Store,
    old_token: Seq<char>,
    token: Seq<char>,
    new: LinkSettings,
) -> bool {
    let row = after.links[token];
    let before = s.links[old_token];
    &&& after.items == s.items
    &&& after.links.contains_key(token)
    &&& row.expires_at == new.expires_at
    &&& row.max_downloads == new.max_downloads
    &&& row.password_hash == new.password_hash.deep_view()
    &&& row.password_plain == new.password_plain.deep_view()
    &&& row.updated_at == new.now
    &&& row.item_id == before.item_id
    &&& row.download_count == before.download_count
    &&& row.revoked == before.revoked
    &&& row.created_at == before.created_at
    &&& old_token != token ==> !after.links.contains_key(old_token)
    &&& forall|t: Seq<char>|
        t != token && t != old_token ==> (#[trigger] after.links.contains_key(t)
            <==> s.links.contains_key(t)) && after.links[t] == s.links[t]
}

/// A link that is reset gets new settings and another token; where that token is
/// taken by another link, nothing changes.
pub proof fn resets_are_written(
    old_token: String,
    token: String,
    new: LinkSettings,
    r: Statement,
    s: Store,
)
    requires
        call_ensures(statement, (Change::ReplaceLink { old_token, token, settings: new },), r),
    ensures
        r.sql@
            == "UPDATE ShareLink SET token=?, expiresAt=?, maxDownloads=?, passwordHash=?, passwordPlain=?, updatedAt=? WHERE token=?"@,
        r.params.deep_view() == seq![
            SqlView::Text(token@),
            number_or_null(new.expires_at),
            number_or_null(new.max_downloads),
            words_or_null(new.password_hash),
            words_or_null(new.password_plain),
            SqlView::Integer(new.now),
            SqlView::Text(old_token@),
        ],
        ({
            let after = s.after(
                Change::ReplaceLink { old_token, token, settings: new }.deep_view(),
            );
            let there = s.links.contains_key(old_token@);
            let free = token@ == old_token@ || !s.links.contains_key(token@);
            &&& there && free ==> holds_settings(s, after, old_token@, token@, new)
            &&& !there || !free ==> after == s
        }),
{
    assert(r.deep_view().params == r.params.deep_view());
    assert(new.password_hash.deep_view() is Some == new.password_hash is Some);
    assert(new.password_plain.deep_view() is Some == new.password_plain is Some);
}

/// A new weight is written to the item with this key, and nothing else of it
/// changes but the time of its last change, nor any other item.
pub proof fn weights_are_written(id: String, weight: i64, now: i64, r: Statement, s: Store)
    requires
        call_ensures(statement, (Change::SetWeight { id, weight, now },), r),
    ensures
        r.sql@ == "UPDATE ClipboardItem SET sortWeight=?, updatedAt=? WHERE id=?"@,
        r.params.deep_view() == seq![
            SqlView::Integer(weight),
            SqlView::Integer(now),
            SqlView::Text(id@),
        ],
        ({
            let after = s.after(ChangeView::SetWeight { id: id@, weight, now });
            let row = after.items[id@];
            let before = s.items[id@];
            &&& after.links == s.links
            &&& forall|i: Seq<char>| #[trigger]
                after.items.contains_key(i) <==> s.items.contains_key(i)
            &&& forall|i: Seq<char>| i != id@ ==> #[trigger] after.items[i] == s.items[i]
            &&& s.items.contains_key(id@) ==> {
                &&& row.sort_weight == weight
                &&& row.updated_at == now
                &&& row.item_type == before.item_type
                &&& row.content == before.content
                &&& row.file_name == before.file_name
                &&& row.file_size == before.file_size
                &&& row.content_type == before.content_type
                &&& row.inline_data == before.inline_data
                &&& row.file_path == before.file_path
                &&& row.created_at == before.created_at
            }
        }),
{
    assert(r.deep_view().params == r.params.deep_view());
}

/// The column for the text of passwords is added exactly where it is missing.
pub proof fn missing_columns_are_added(has_column: bool, r: Option<&'static str>)
    requires
        call_ensures(migration, (has_column,), r),
    ensures
        has_column ==> r is None,
        !has_column ==> r is Some && r->0@
            == "ALTER TABLE ShareLink ADD COLUMN passwordPlain TEXT"@,
{
    assert(r.deep_view() is Some == r is Some);
}

} // verus!

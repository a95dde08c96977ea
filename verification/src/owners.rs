//! What owners of items get and what their requests do, stated of the answers
//! themselves.

use crate::delivery::{after_open, get_file, item_file, BodyView, Delivery, Opened, StoredFile};
use crate::events::ValueView;
use crate::form::form_pairs_of;
use crate::items::{
    after_insert, create_clipboard, create_item, delete_clipboard, field_kind, is_creation,
    reorder_clipboard, CreatedItem, Creation, Deletion, Draft, DraftView, FieldKind, Published,
    Reordering, WriteFailure,
};
use crate::lifecycle::item_as_file;
use crate::listing::ItemType;
use crate::number::{decimal, i64_of};
use crate::reply::{Header, HeaderName, Refusal};
use crate::settings::{
    expiry, get_item_share, own_link, own_link_answer, plan_update, share_url, stored_password,
    update_item_share, update_plan_of, updated_view, CurrentLink, OwnLink, OwnLinkReply, ReadBack,
    ShareUpdate, ShareView, UpdatePlan,
};
use crate::share::{share_download, share_file, ShareLink, ShareReply, SharedFile};
use crate::store::{opt_bytes, Change, ChangeView, SettingsView};
use crate::text::trim_of;
use crate::token::{is_token, is_uuid, password_hash_of};
use crate::upload::{Upload, UploadView};
use crate::visits::{
    contents_are_downloaded, contents_are_shown, let_in, offered_as, tells_time, works,
};
use vstd::prelude::*;

verus! {

/// A link ends that many seconds from now; without a duration, or with one that
/// is not positive, it never does.
pub proof fn links_end_in_time(expires_in: Option<i64>, now: i64, r: Option<i64>)
    requires
        call_ensures(expiry, (expires_in, now), r),
        expires_in is Some ==> now + expires_in->0 <= i64::MAX,
    ensures
        expires_in is Some && expires_in->0 > 0 ==> r is Some && r->0 - now == expires_in->0,
        expires_in is None || expires_in->0 <= 0 ==> r is None,
{
}

/// A password that is more than white space is stored as it is, with its hash
/// under the token of the link. Of any other, nothing is stored.
pub proof fn passwords_are_stored(
    password: Option<String>,
    token: &str,
    r: (Option<String>, Option<String>),
)
    requires
        call_ensures(stored_password, (&password, token), r),
    ensures
        ({
            let counts = password is Some && trim_of(password->0@).len() > 0;
            &&& counts ==> r.0 is Some && (r.0->0)@ == password->0@
            &&& counts ==> r.1 is Some && (r.1->0)@ == password_hash_of(password->0@, token@)
            &&& !counts ==> r.0 is None && r.1 is None
        }),
{
    assert(password.deep_view() is Some == password is Some);
}

/// The page of a link is `/s/` with the token in its query, so two links have two
/// pages.
pub proof fn links_have_their_own_page(a: &str, b: &str, page_a: String, page_b: String)
    requires
        call_ensures(share_url, (a,), page_a),
        call_ensures(share_url, (b,), page_b),
    ensures
        page_a@ == "/s/?token="@ + a@,
        page_a@ == page_b@ ==> a@ == b@,
{
    let stem = "/s/?token="@;
    if page_a@ == page_b@ {
        assert(a@ =~= page_a@.skip(stem.len() as int));
        assert(b@ =~= page_b@.skip(stem.len() as int));
    }
}

/// The end of a link that a request asks for.
pub open spec fn asked_end(req: ShareUpdate, now: i64) -> Option<i64> {
    if req.expires_in is Some && req.expires_in->0 > 0 {
        Some((now + req.expires_in->0) as i64)
    } else {
        None
    }
}

/// The password that a request asks for.
pub open spec fn asked_password(req: ShareUpdate) -> Option<Seq<char>> {
    if req.password is Some && trim_of(req.password->0@).len() > 0 {
        Some(req.password->0@)
    } else {
        None
    }
}

/// Whether a link with this token has what a request asked for: the end, the
/// password, and the maximum, where one that the request left open is the one
/// that there was.
pub open spec fn has_asked(
    expires_at: Option<i64>,
    max_downloads: Option<i64>,
    password_plain: Option<Seq<char>>,
    password_hash: Option<Seq<char>>,
    req: ShareUpdate,
    max_before: Option<i64>,
    token: Seq<char>,
    now: i64,
) -> bool {
    let password = asked_password(req);
    &&& expires_at == asked_end(req, now)
    &&& req.max_downloads is Some ==> max_downloads == req.max_downloads
    &&& req.max_downloads is None ==> max_downloads == max_before
    &&& password_plain == password
    &&& password is Some ==> password_hash == Some(password_hash_of(password->0, token))
    &&& password is None ==> password_hash is None
}

/// Whether the settings that are written have what a request asked for.
pub open spec fn are_asked(
    s: SettingsView,
    req: ShareUpdate,
    max_before: Option<i64>,
    token: Seq<char>,
    now: i64,
) -> bool {
    &&& has_asked(
        s.expires_at,
        s.max_downloads,
        s.password_plain,
        s.password_hash,
        req,
        max_before,
        token,
        now,
    )
    &&& s.now == now
}

/// Whether a request for other settings writes what it asked for. `fresh` is the
/// token for an item without a link, `next` the one that replaces a link's token.
pub open spec fn does_what_was_asked(
    current: Option<CurrentLink>,
    req: ShareUpdate,
    item_id: Seq<char>,
    now: i64,
    fresh: Seq<char>,
    next: Seq<char>,
    r: UpdatePlan,
) -> bool {
    let cs = r.changes.deep_view();
    let off = req.disable == Some(true);
    let reset = req.reset == Some(true);
    let named = req.expires_in is Some || req.max_downloads is Some || req.password is Some;
    let token = if current is Some {
        (current->0).token@
    } else {
        fresh
    };
    let max_before = if current is Some {
        (current->0).max_downloads
    } else {
        None
    };
    let n: int = if current is None {
        1
    } else {
        0
    };
    &&& off ==> r.token is None && cs.len() == 1 && cs[0] == (ChangeView::RevokeLinks {
        item_id,
        now,
    })
    &&& !off && current is None ==> cs.len() > 0 && cs[0] == (ChangeView::ProvisionLink {
        token: fresh,
        item_id,
        now,
    })
    &&& !off && reset ==> {
        &&& r.token is Some && (r.token->0)@ == next
        &&& cs.len() == n + 1
        &&& cs[n] is ReplaceLink
        &&& cs[n]->ReplaceLink_old_token == token
        &&& cs[n]->ReplaceLink_token == next
        &&& are_asked(cs[n]->ReplaceLink_settings, req, max_before, next, now)
    }
    &&& !off && !reset ==> r.token is Some && (r.token->0)@ == token
    &&& !off && !reset && named ==> {
        &&& cs.len() == n + 1
        &&& cs[n] is UpdateLink
        &&& cs[n]->UpdateLink_token == token
        &&& are_asked(cs[n]->UpdateLink_settings, req, max_before, token, now)
    }
    &&& !off && !reset && !named ==> cs.len() == n
}

/// A request for other settings of a link writes what it asked for and nothing
/// else. Switching off comes before everything; a reset moves the link to the
/// next token, with the settings of the request; a request that names a setting
/// leaves the token; any other changes nothing. An item without a link gets one
/// first.
pub proof fn updates_do_what_was_asked(
    current: Option<CurrentLink>,
    req: ShareUpdate,
    item_id: &str,
    now: i64,
    fresh: String,
    next: String,
    r: UpdatePlan,
)
    requires
        call_ensures(plan_update, (current, &req, item_id, now, fresh, next), r),
    ensures
        does_what_was_asked(current, req, item_id@, now, fresh@, next@, r),
{
    lemma_updates(current, req, item_id@, now, fresh@, next@, r);
}

proof fn lemma_updates(
    current: Option<CurrentLink>,
    req: ShareUpdate,
    item_id: Seq<char>,
    now: i64,
    fresh: Seq<char>,
    next: Seq<char>,
    r: UpdatePlan,
)
    requires
        (r.changes.deep_view(), r.token.deep_view()) == update_plan_of(
            current,
            req,
            item_id,
            now,
            fresh,
            next,
        ),
    ensures
        does_what_was_asked(current, req, item_id, now, fresh, next, r),
{
    assert(req.password.deep_view() is Some == req.password is Some);
    assert(r.token.deep_view() is Some == r.token is Some);
}

/// A request that makes up the tokens that it needs does the same, with tokens of
/// the server's own making.
pub proof fn updates_with_fresh_tokens_do_too(
    current: Option<CurrentLink>,
    req: ShareUpdate,
    item_id: &str,
    now: i64,
    r: UpdatePlan,
)
    requires
        call_ensures(update_item_share, (current, &req, item_id, now), r),
    ensures
        exists|fresh: Seq<char>, next: Seq<char>|
            is_token(fresh) && is_token(next) && #[trigger] does_what_was_asked(
                current,
                req,
                item_id@,
                now,
                fresh,
                next,
                r,
            ),
{
    let (fresh, next) = choose|fresh: Seq<char>, next: Seq<char>|
        is_token(fresh) && is_token(next) && (r.changes.deep_view(), r.token.deep_view())
            == #[trigger] update_plan_of(current, req, item_id@, now, fresh, next);
    lemma_updates(current, req, item_id@, now, fresh, next, r);
}

/// An owner is handed the link that works, as it is: page, end, maximum, use and
/// password. Nothing is changed.
pub proof fn working_links_are_told(
    l: OwnLink,
    item_id: &str,
    now: i64,
    fresh: String,
    r: OwnLinkReply,
)
    requires
        call_ensures(own_link, (Some(l), item_id, now, fresh), r),
        works(l.limits, now),
        l.token@.len() > 0,
    ensures
        r.changes@.len() == 0,
        r.view.token@ == l.token@,
        r.view.url@ == "/s/?token="@ + l.token@,
        tells_time(l.limits.expires_at, r.view.expires_at),
        r.view.max_downloads == l.limits.max_downloads,
        r.view.download_count == l.limits.download_count,
        r.view.requires_password == l.password_hash is Some,
        r.view.password.deep_view() == l.password_plain.deep_view(),
{
    assert(r.changes.deep_view().len() == r.changes@.len());
}

/// An owner of an item whose link does not work, or that has none, is handed a
/// new one, under the fresh token and without limits and password check. The text
/// of the old password is still told.
pub proof fn new_links_are_told(
    found: Option<OwnLink>,
    item_id: &str,
    now: i64,
    fresh: String,
    r: OwnLinkReply,
)
    requires
        call_ensures(own_link, (found, item_id, now, fresh), r),
        found is Some ==> !works((found->0).limits, now) || (found->0).token@.len() == 0,
    ensures
        r.changes.deep_view().len() == 1,
        r.changes.deep_view()[0] == (ChangeView::ProvisionLink {
            token: fresh@,
            item_id: item_id@,
            now,
        }),
        r.view.token@ == fresh@,
        r.view.url@ == "/s/?token="@ + fresh@,
        r.view.expires_at is None,
        r.view.max_downloads is None,
        r.view.download_count == 0,
        !r.view.requires_password,
        found is Some ==> r.view.password.deep_view() == (found->0).password_plain.deep_view(),
        found is None ==> r.view.password is None,
{
    assert(r.view.password.deep_view() is Some == r.view.password is Some);
}

/// The link that an owner is handed without naming a token is the one that works,
/// as it is, or one under a token of the server's own making, without limits.
pub proof fn owners_always_get_a_link(
    found: Option<OwnLink>,
    item_id: &str,
    now: i64,
    r: OwnLinkReply,
)
    requires
        call_ensures(get_item_share, (found, item_id, now), r),
    ensures
        ({
            let l = found->0;
            let kept = found is Some && works(l.limits, now) && l.token@.len() > 0;
            let v = r.view;
            &&& v.url@ == "/s/?token="@ + v.token@
            &&& found is Some ==> v.password.deep_view() == l.password_plain.deep_view()
            &&& found is None ==> v.password is None
            &&& kept ==> {
                &&& r.changes@.len() == 0
                &&& v.token@ == l.token@
                &&& tells_time(l.limits.expires_at, v.expires_at)
                &&& v.max_downloads == l.limits.max_downloads
                &&& v.download_count == l.limits.download_count
                &&& v.requires_password == l.password_hash is Some
            }
            &&& !kept ==> {
                &&& is_token(v.token@)
                &&& r.changes.deep_view().len() == 1
                &&& r.changes.deep_view()[0] == (ChangeView::ProvisionLink {
                    token: v.token@,
                    item_id: item_id@,
                    now,
                })
                &&& v.expires_at is None && v.max_downloads is None
                &&& v.download_count == 0
                &&& !v.requires_password
            }
        }),
{
    let fresh = choose|fresh: Seq<char>|
        is_token(fresh) && own_link_answer(found, item_id@, now, fresh, r);
    assert(r.changes.deep_view().len() == r.changes@.len());
    assert(r.view.password.deep_view() is Some == r.view.password is Some);
}

/// After a change an owner is told the link as it was read back; one that could
/// not be read is told as one without limits.
pub proof fn changed_links_are_told(token: String, row: Option<ReadBack>, r: ShareView)
    requires
        call_ensures(updated_view, (token, row), r),
    ensures
        r.token@ == token@,
        r.url@ == "/s/?token="@ + token@,
        row is Some ==> {
            let l = row->0;
            &&& tells_time(l.expires_at, r.expires_at)
            &&& r.max_downloads == l.max_downloads
            &&& r.download_count == l.download_count
            &&& r.requires_password == l.password_hash is Some
            &&& r.password.deep_view() == l.password_plain.deep_view()
        },
        row is None ==> {
            &&& r.expires_at is None && r.max_downloads is None
            &&& r.download_count == 0
            &&& !r.requires_password && r.password is None
        },
{
}

/// Each text field of a request sets its own part of the draft and leaves every
/// other part as it was. A number that cannot be read and a blank password set
/// nothing, and a negative duration counts as none.
pub proof fn fields_set_their_part(draft: DraftView, name: Seq<char>, value: Seq<char>)
    ensures
        ({
            let after = draft.with_field(name, value);
            &&& name == "content"@ ==> after.content == Some(value)
            &&& name != "content"@ ==> after.content == draft.content
            &&& name == "type"@ && value == "TEXT"@ ==> after.item_type == Some(ItemType::Text)
            &&& name == "type"@ && value == "IMAGE"@ ==> after.item_type == Some(ItemType::Image)
            &&& name == "type"@ && value == "FILE"@ ==> after.item_type == Some(ItemType::File)
            &&& name == "type"@ && value != "TEXT"@ && value != "IMAGE"@ && value != "FILE"@
                ==> after.item_type is None
            &&& name != "type"@ ==> after.item_type == draft.item_type
            &&& name == "shareExpiresIn"@ && i64_of(value) is Some ==> after.share_expires_in
                is Some && after.share_expires_in->0 == if i64_of(value)->0 < 0 {
                0
            } else {
                i64_of(value)->0
            }
            &&& name != "shareExpiresIn"@ || i64_of(value) is None ==> after.share_expires_in
                == draft.share_expires_in
            &&& name == "shareMaxDownloads"@ && i64_of(value) is Some ==> after.share_max_downloads
                == i64_of(value)
            &&& name != "shareMaxDownloads"@ || i64_of(value) is None ==> after.share_max_downloads
                == draft.share_max_downloads
            &&& name == "sharePassword"@ && trim_of(value).len() > 0 ==> after.share_password
                == Some(value)
            &&& name != "sharePassword"@ || trim_of(value).len() == 0 ==> after.share_password
                == draft.share_password
            &&& after.file_name == draft.file_name
            &&& after.content_type == draft.content_type
            &&& after.file_size == draft.file_size
            &&& after.inline_data == draft.inline_data
            &&& after.file_path == draft.file_path
        }),
{
    reveal_strlit("content");
    reveal_strlit("type");
    reveal_strlit("shareExpiresIn");
    reveal_strlit("shareMaxDownloads");
    reveal_strlit("sharePassword");
    reveal_strlit("TEXT");
    reveal_strlit("IMAGE");
    reveal_strlit("FILE");
    assert("content"@.len() == 7 && "type"@.len() == 4 && "shareExpiresIn"@.len() == 14);
    assert("shareMaxDownloads"@.len() == 17 && "sharePassword"@.len() == 13);
    assert("TEXT"@[0] == 'T' && "IMAGE"@[0] == 'I' && "FILE"@[0] == 'F');
}

/// A draft takes a text field into its own part and leaves every other part.
pub proof fn drafts_take_fields(d: &mut Draft, name: &str, value: String, r: ())
    requires
        call_ensures(Draft::field, (d, name, value), r),
    ensures
        ({
            let after = *final(d);
            let before = *old(d);
            let n = i64_of(value@);
            &&& name@ == "content"@ ==> after.content is Some && after.content->0@ == value@
            &&& name@ != "content"@ ==> after.content.deep_view() == before.content.deep_view()
            &&& name@ == "type"@ && value@ == "TEXT"@ ==> after.item_type == Some(ItemType::Text)
            &&& name@ == "type"@ && value@ == "IMAGE"@ ==> after.item_type == Some(ItemType::Image)
            &&& name@ == "type"@ && value@ == "FILE"@ ==> after.item_type == Some(ItemType::File)
            &&& name@ == "type"@ && value@ != "TEXT"@ && value@ != "IMAGE"@ && value@ != "FILE"@
                ==> after.item_type is None
            &&& name@ != "type"@ ==> after.item_type == before.item_type
            &&& name@ == "shareExpiresIn"@ && n is Some ==> after.share_expires_in is Some
                && after.share_expires_in->0 == if n->0 < 0 {
                0
            } else {
                n->0
            }
            &&& name@ != "shareExpiresIn"@ || n is None ==> after.share_expires_in
                == before.share_expires_in
            &&& name@ == "shareMaxDownloads"@ && n is Some ==> after.share_max_downloads == n
            &&& name@ != "shareMaxDownloads"@ || n is None ==> after.share_max_downloads
                == before.share_max_downloads
            &&& name@ == "sharePassword"@ && trim_of(value@).len() > 0 ==> after.share_password
                is Some && after.share_password->0@ == value@
            &&& name@ != "sharePassword"@ || trim_of(value@).len() == 0
                ==> after.share_password.deep_view() == before.share_password.deep_view()
            &&& after.file_name.deep_view() == before.file_name.deep_view()
            &&& after.content_type.deep_view() == before.content_type.deep_view()
            &&& after.file_size == before.file_size
            &&& opt_bytes(after.inline_data) == opt_bytes(before.inline_data)
            &&& after.file_path.deep_view() == before.file_path.deep_view()
        }),
{
    fields_set_their_part(old(d).deep_view(), name@, value@);
    assert(final(d).content.deep_view() is Some == final(d).content is Some);
    assert(final(d).share_password.deep_view() is Some == final(d).share_password is Some);
}

/// A draft takes a file into the parts that speak of it and leaves every other part.
pub proof fn drafts_take_files(
    d: &mut Draft,
    file_name: Option<String>,
    content_type: Option<String>,
    upload: Upload,
    r: (),
)
    requires
        call_ensures(Draft::file, (d, file_name, content_type, upload), r),
        upload.total <= i64::MAX,
    ensures
        ({
            let after = *final(d);
            let before = *old(d);
            &&& after.file_name.deep_view() == file_name.deep_view()
            &&& after.content_type.deep_view() == content_type.deep_view()
            &&& after.file_size is Some && after.file_size->0 == upload.total
            &&& upload.path is Some ==> after.file_path.deep_view() == upload.path.deep_view()
                && after.inline_data is None
            &&& upload.path is None ==> after.inline_data is Some && after.inline_data->0@
                == upload.buffered@ && after.file_path.deep_view() == before.file_path.deep_view()
            &&& after.content.deep_view() == before.content.deep_view()
            &&& after.item_type == before.item_type
            &&& after.share_expires_in == before.share_expires_in
            &&& after.share_max_downloads == before.share_max_downloads
            &&& after.share_password.deep_view() == before.share_password.deep_view()
        }),
{
    files_set_their_part(
        old(d).deep_view(),
        file_name.deep_view(),
        content_type.deep_view(),
        upload.deep_view(),
    );
    assert(upload.path.deep_view() is Some == upload.path is Some);
}

/// It does not matter in which order two different fields come, and of two values
/// for the same text the later one counts.
pub proof fn fields_come_in_any_order(
    draft: DraftView,
    a: Seq<char>,
    v: Seq<char>,
    b: Seq<char>,
    w: Seq<char>,
)
    ensures
        a != b ==> draft.with_field(a, v).with_field(b, w) == draft.with_field(b, w).with_field(a, v),
        draft.with_field("content"@, v).with_field("content"@, w) == draft.with_field(
            "content"@,
            w,
        ),
{
}

/// A file sets the parts of the draft that speak of it and leaves every other: its
/// name and media type are those that came with it, its size is the number of
/// its bytes, and its bytes are in the row unless they went to disk.
pub proof fn files_set_their_part(
    draft: DraftView,
    file_name: Option<Seq<char>>,
    content_type: Option<Seq<char>>,
    upload: UploadView,
)
    requires
        0 <= upload.total <= i64::MAX,
    ensures
        ({
            let after = draft.with_file(file_name, content_type, upload);
            &&& after.file_name == file_name
            &&& after.content_type == content_type
            &&& after.file_size is Some && after.file_size->0 == upload.total
            &&& upload.path is Some ==> after.file_path == upload.path && after.inline_data is None
            &&& upload.path is None ==> after.inline_data == Some(upload.buffered)
                && after.file_path == draft.file_path
            &&& after.content == draft.content
            &&& after.item_type == draft.item_type
            &&& after.share_expires_in == draft.share_expires_in
            &&& after.share_max_downloads == draft.share_max_downloads
            &&& after.share_password == draft.share_password
        }),
{
}

/// A draft without text and without a file is refused.
pub proof fn empty_drafts_are_refused(
    draft: Draft,
    id: String,
    token: String,
    max_weight: i64,
    now: i64,
    r: Result<Creation, Refusal>,
)
    requires
        call_ensures(create_item, (draft, id, token, max_weight, now), r),
    ensures
        r is Err <==> draft.content is None && draft.inline_data is None && draft.file_path is None,
        r is Err ==> r->Err_0.status == 400 && r->Err_0.error@ == "Content or file is required"@,
{
    assert(draft.content.deep_view() is Some == draft.content is Some);
    assert(draft.file_path.deep_view() is Some == draft.file_path is Some);
}

/// Whether a new item is told and written as its draft has it, under this key and
/// one weight above the greatest that there was.
pub open spec fn row_of_draft(
    c: Creation,
    draft: Draft,
    id: Seq<char>,
    max_weight: i64,
    now: i64,
) -> bool {
    let row = c.insert_item->InsertItem_0;
    let name = if draft.item_type == Some(ItemType::File) {
        "FILE"@
    } else if draft.item_type == Some(ItemType::Image) {
        "IMAGE"@
    } else {
        "TEXT"@
    };
    &&& c.insert_item is InsertItem
    &&& row.id@ == id
    &&& row.item_type@ == name
    &&& row.content.deep_view() == draft.content.deep_view()
    &&& row.file_name.deep_view() == draft.file_name.deep_view()
    &&& row.file_size == draft.file_size
    &&& row.sort_weight == max_weight + 1
    &&& row.content_type.deep_view() == draft.content_type.deep_view()
    &&& opt_bytes(row.inline_data) == opt_bytes(draft.inline_data)
    &&& row.file_path.deep_view() == draft.file_path.deep_view()
    &&& row.now == now
    &&& c.told.id@ == id
    &&& c.told.item_type@ == name
    &&& c.told.content.deep_view() == draft.content.deep_view()
    &&& c.told.file_name.deep_view() == draft.file_name.deep_view()
    &&& c.told.file_size == draft.file_size
    &&& c.told.sort_weight == max_weight + 1
    &&& tells_time(Some(now), Some(c.told.created_at))
    &&& tells_time(Some(now), Some(c.told.updated_at))
}

/// Whether the link to a new item is told and written as its draft asks for, under
/// this token.
pub open spec fn link_of_draft(
    c: Creation,
    draft: Draft,
    id: Seq<char>,
    token: Seq<char>,
    now: i64,
) -> bool {
    let link = c.insert_link->InsertLink_0;
    let ends = draft.share_expires_in is Some && draft.share_expires_in->0 > 0;
    let closed = draft.share_password is Some && trim_of(draft.share_password->0@).len() > 0;
    &&& c.insert_link is InsertLink
    &&& link.token@ == token
    &&& link.item_id@ == id
    &&& ends ==> link.expires_at is Some && link.expires_at->0 - now == draft.share_expires_in->0
    &&& !ends ==> link.expires_at is None
    &&& link.max_downloads == draft.share_max_downloads
    &&& closed ==> link.password_plain.deep_view() == draft.share_password.deep_view()
        && link.password_hash is Some && link.password_hash->0@ == password_hash_of(
        draft.share_password->0@,
        token,
    )
    &&& !closed ==> link.password_plain is None && link.password_hash is None
    &&& link.now == now
    &&& c.told.share.token@ == token
    &&& c.told.share.url@ == "/s/?token="@ + token
    &&& tells_time(link.expires_at, c.told.share.expires_at)
    &&& c.told.share.max_downloads == draft.share_max_downloads
    &&& c.told.share.requires_password == draft.share_password is Some
}

proof fn lemma_row_of_draft(
    c: Creation,
    draft: Draft,
    id: Seq<char>,
    token: Seq<char>,
    max_weight: i64,
    now: i64,
)
    requires
        is_creation(draft.deep_view(), id, token, max_weight, now, c),
        max_weight < i64::MAX,
    ensures
        row_of_draft(c, draft, id, max_weight, now),
{
}

proof fn lemma_link_of_draft(
    c: Creation,
    draft: Draft,
    id: Seq<char>,
    token: Seq<char>,
    max_weight: i64,
    now: i64,
)
    requires
        is_creation(draft.deep_view(), id, token, max_weight, now, c),
        draft.share_expires_in is Some ==> now + draft.share_expires_in->0 <= i64::MAX,
    ensures
        link_of_draft(c, draft, id, token, now),
{
    let link = c.insert_link->InsertLink_0;
    assert(draft.share_password.deep_view() is Some == draft.share_password is Some);
    assert(link.password_plain.deep_view() is Some == link.password_plain is Some);
    assert(link.password_hash.deep_view() is Some == link.password_hash is Some);
    assert(link.password_hash is Some ==> link.password_hash.deep_view() == Some(
        link.password_hash->0@,
    ));
}

/// The row of a new item holds every part of the draft, one weight above the
/// greatest that there was; what the client is told is what the row holds.
pub proof fn rows_hold_the_draft(
    draft: Draft,
    id: String,
    token: String,
    max_weight: i64,
    now: i64,
    r: Result<Creation, Refusal>,
)
    requires
        call_ensures(create_item, (draft, id, token, max_weight, now), r),
        draft.content is Some || draft.inline_data is Some || draft.file_path is Some,
        max_weight < i64::MAX,
    ensures
        r is Ok,
        row_of_draft(r->Ok_0, draft, id@, max_weight, now),
{
    assert(draft.content.deep_view() is Some == draft.content is Some);
    assert(draft.file_path.deep_view() is Some == draft.file_path is Some);
    lemma_row_of_draft(r->Ok_0, draft, id@, token@, max_weight, now);
}

/// The link to a new item has the end, the maximum and the password that the
/// draft asked for; what the client is told of it is what was written.
pub proof fn links_hold_the_draft(
    draft: Draft,
    id: String,
    token: String,
    max_weight: i64,
    now: i64,
    r: Result<Creation, Refusal>,
)
    requires
        call_ensures(create_item, (draft, id, token, max_weight, now), r),
        draft.content is Some || draft.inline_data is Some || draft.file_path is Some,
        draft.share_expires_in is Some ==> now + draft.share_expires_in->0 <= i64::MAX,
    ensures
        r is Ok,
        link_of_draft(r->Ok_0, draft, id@, token@, now),
{
    assert(draft.content.deep_view() is Some == draft.content is Some);
    assert(draft.file_path.deep_view() is Some == draft.file_path is Some);
    lemma_link_of_draft(r->Ok_0, draft, id@, token@, max_weight, now);
}

/// An item that is created under a fresh key and shared under a fresh token holds
/// its draft in the same way; a draft without text and without a file is refused.
pub proof fn fresh_items_hold_the_draft(
    draft: Draft,
    max_weight: i64,
    now: i64,
    r: Result<Creation, Refusal>,
)
    requires
        call_ensures(create_clipboard, (draft, max_weight, now), r),
        max_weight < i64::MAX,
        draft.share_expires_in is Some ==> now + draft.share_expires_in->0 <= i64::MAX,
    ensures
        r is Err <==> draft.content is None && draft.inline_data is None && draft.file_path is None,
        r is Err ==> r->Err_0.status == 400 && r->Err_0.error@ == "Content or file is required"@,
        r is Ok ==> {
            let id = r->Ok_0.told.id@;
            let token = r->Ok_0.told.share.token@;
            &&& is_uuid(id)
            &&& is_token(token)
            &&& row_of_draft(r->Ok_0, draft, id, max_weight, now)
            &&& link_of_draft(r->Ok_0, draft, id, token, now)
        },
{
    assert(draft.content.deep_view() is Some == draft.content is Some);
    assert(draft.file_path.deep_view() is Some == draft.file_path is Some);
    if r is Ok {
        let c = r->Ok_0;
        let (id, token) = choose|id: Seq<char>, token: Seq<char>|
            is_uuid(id) && is_token(token) && #[trigger] is_creation(
                draft.deep_view(),
                id,
                token,
                max_weight,
                now,
                c,
            );
        lemma_row_of_draft(c, draft, id, token, max_weight, now);
        lemma_link_of_draft(c, draft, id, token, max_weight, now);
    }
}

/// A draft begins without anything.
pub proof fn drafts_begin_empty(d: Draft)
    requires
        call_ensures(Draft::new, (), d),
    ensures
        d.content is None && d.item_type is None && d.file_name is None,
        d.content_type is None && d.file_size is None && d.inline_data is None,
        d.file_path is None && d.share_expires_in is None && d.share_max_downloads is None,
        d.share_password is None,
{
    assert(d.content.deep_view() is Some == d.content is Some);
    assert(d.file_name.deep_view() is Some == d.file_name is Some);
    assert(d.content_type.deep_view() is Some == d.content_type is Some);
    assert(d.file_path.deep_view() is Some == d.file_path is Some);
    assert(d.share_password.deep_view() is Some == d.share_password is Some);
}

/// A part of a request is a file where it is named `file`, a text field under any
/// other name, and skipped without one.
pub proof fn parts_are_told_by_name(name: Option<&str>, r: FieldKind)
    requires
        call_ensures(field_kind, (name,), r),
    ensures
        r == FieldKind::Skip <==> name is None,
        r == FieldKind::File <==> name is Some && name->0@ == "file"@,
        r == FieldKind::Text <==> name is Some && name->0@ != "file"@,
{
    assert(name.deep_view() is Some == name is Some);
}

/// A file is handed out under the media type and the name that came with it: they
/// are in the row of the item, in what a visitor is shown and downloads, and in
/// what the owner gets. One without a media type goes out as plain bytes, one
/// without a name as `download`.
pub proof fn files_keep_their_type_and_name(
    before: DraftView,
    file_name: Option<Seq<char>>,
    content_type: Option<Seq<char>>,
    upload: UploadView,
    draft: Draft,
    id: String,
    token: String,
    max_weight: i64,
    now: i64,
    made: Result<Creation, Refusal>,
    l: ShareLink,
    f: SharedFile,
    cookie: Option<&str>,
    later: i64,
    shown: ShareReply,
    downloaded: ShareReply,
    download: bool,
    own: Result<Delivery, Refusal>,
)
    requires
        draft.deep_view() == before.with_file(file_name, content_type, upload),
        call_ensures(create_item, (draft, id, token, max_weight, now), made),
        max_weight < i64::MAX,
        f.deep_view() == item_as_file(made->Ok_0.insert_item->InsertItem_0.deep_view()),
        works(l.limits, later),
        let_in(l, cookie),
        call_ensures(share_file, (Some((l, f)), cookie, later), shown),
        call_ensures(share_download, (Some((l, f)), cookie, later), downloaded),
        call_ensures(item_file, (Some(f.file), download), own),
    ensures
        ({
            let row = made->Ok_0.insert_item->InsertItem_0;
            let ctype = if content_type is Some {
                content_type->0
            } else {
                "application/octet-stream"@
            };
            let name = if file_name is Some {
                file_name->0
            } else {
                "download"@
            };
            let kind = if download {
                "attachment"@
            } else {
                "inline"@
            };
            let seen = shown.outcome->Ok_0.headers.deep_view();
            let taken = downloaded.outcome->Ok_0.headers.deep_view();
            let mine = own->Ok_0.headers.deep_view();
            &&& made is Ok
            &&& row.content_type.deep_view() == content_type
            &&& row.file_name.deep_view() == file_name
            &&& row.item_type@ != "TEXT"@ ==> {
                &&& shown.outcome is Ok
                &&& seen.contains((HeaderName::ContentType, ctype))
                &&& seen.contains((HeaderName::ContentDisposition, offered_as("inline"@, name)))
                &&& downloaded.outcome is Ok
                &&& taken.contains((HeaderName::ContentType, ctype))
                &&& taken.contains(
                    (HeaderName::ContentDisposition, offered_as("attachment"@, name)),
                )
            }
            &&& own is Ok
            &&& mine.contains((HeaderName::ContentType, ctype))
            &&& mine.contains((HeaderName::ContentDisposition, offered_as(kind, name)))
        }),
{
    lemma_file_parts(before, file_name, content_type, upload);
    assert(draft.inline_data is Some || draft.file_path is Some) by {
        assert(draft.file_path.deep_view() is Some == draft.file_path is Some);
    }
    rows_hold_the_draft(draft, id, token, max_weight, now, made);
    let row = made->Ok_0.insert_item->InsertItem_0;
    assert(f.file.deep_view().content_type == content_type);
    assert(f.file.deep_view().file_name == file_name);
    assert(f.file.content_type.deep_view() == content_type);
    assert(f.file.file_name.deep_view() == file_name);
    assert(f.file.file_path.deep_view() is Some == f.file.file_path is Some);
    assert(f.file.inline_data is Some || f.file.file_path is Some);
    assert(f.item_type@ == row.item_type@);
    contents_are_shown(l, f, cookie, later, shown);
    contents_are_downloaded(l, f, cookie, later, downloaded);
    own_files_are_delivered(f.file, download, own);
    let seen = shown.outcome->Ok_0.headers.deep_view();
    let taken = downloaded.outcome->Ok_0.headers.deep_view();
    let mine = own->Ok_0.headers.deep_view();
    if row.item_type@ != "TEXT"@ {
        assert(seen == shown.outcome->Ok_0.deep_view().headers);
        assert(seen.contains(seen[0]) && seen.contains(seen[1]));
        assert(taken == downloaded.outcome->Ok_0.deep_view().headers);
        assert(taken.contains(taken[0]) && taken.contains(taken[1]));
    }
    assert(mine.contains(mine[0]) && mine.contains(mine[1]));
}

proof fn lemma_file_parts(
    draft: DraftView,
    file_name: Option<Seq<char>>,
    content_type: Option<Seq<char>>,
    upload: UploadView,
)
    ensures
        ({
            let after = draft.with_file(file_name, content_type, upload);
            &&& after.file_name == file_name
            &&& after.content_type == content_type
            &&& after.inline_data is Some || after.file_path is Some
        }),
{
}

/// Whether the file of an item is delivered to its owner: the one on disk before the
/// bytes in the row, with the media type and the name that were stored, to be kept
/// for a year. Nothing is changed, and an item without a file is refused.
pub open spec fn is_delivered(r: Result<Delivery, Refusal>, f: StoredFile, download: bool) -> bool {
    let h = r->Ok_0.headers.deep_view();
    let body = r->Ok_0.body.deep_view();
    let kind = if download {
        "attachment"@
    } else {
        "inline"@
    };
    let stored = f.file_path is Some || f.inline_data is Some;
    &&& stored ==> {
        &&& r is Ok
        &&& h.len() == 3
        &&& h[0].0 == HeaderName::ContentType
        &&& f.content_type is Some ==> h[0].1 == f.content_type->0@
        &&& f.content_type is None ==> h[0].1 == "application/octet-stream"@
        &&& h[1].0 == HeaderName::ContentDisposition
        &&& f.file_name is Some ==> h[1].1 == offered_as(kind, f.file_name->0@)
        &&& f.file_name is None ==> h[1].1 == offered_as(kind, "download"@)
        &&& h[2] == (HeaderName::CacheControl, "public, max-age=31536000, immutable"@)
        &&& f.file_path is Some ==> body == BodyView::File(f.file_path->0@)
        &&& f.file_path is None ==> body == BodyView::Bytes(f.inline_data->0@)
        &&& r->Ok_0.once_open@.len() == 0
    }
    &&& !stored ==> {
        &&& r is Err
        &&& r->Err_0.status == 404
        &&& r->Err_0.error@ == "missing content"@
    }
}

/// The owner of an item gets its file as it was stored, shown or as a download.
pub proof fn own_files_are_delivered(f: StoredFile, download: bool, r: Result<Delivery, Refusal>)
    requires
        call_ensures(item_file, (Some(f), download), r),
    ensures
        is_delivered(r, f, download),
{
    assert(f.file_path.deep_view() is Some == f.file_path is Some);
    assert(r is Ok ==> r->Ok_0.deep_view().once_open.len() == r->Ok_0.once_open@.len());
}

/// An item that is not there has no file.
pub proof fn missing_items_have_no_file(
    download: bool,
    query: &str,
    r: Result<Delivery, Refusal>,
)
    requires
        call_ensures(item_file, (None::<StoredFile>, download), r) || call_ensures(
            get_file,
            (None::<StoredFile>, query),
            r,
        ),
    ensures
        r is Err,
        r->Err_0.status == 404,
        r->Err_0.error@ == "Not found"@,
{
    assert(None::<StoredFile>.deep_view() is None);
}

/// A file is offered as a download exactly where the query asks for it, by
/// `download` with the value `1`, `true` or `yes`.
pub proof fn downloads_are_asked_for(f: StoredFile, query: &str, r: Result<Delivery, Refusal>)
    requires
        call_ensures(get_file, (Some(f), query), r),
    ensures
        ({
            let pairs = form_pairs_of(query@);
            let asked = exists|i: int|
                0 <= i < pairs.len() && (#[trigger] pairs[i]).0 == "download"@ && (pairs[i].1
                    == "1"@ || pairs[i].1 == "true"@ || pairs[i].1 == "yes"@);
            is_delivered(r, f, asked)
        }),
{
    assert(f.file_path.deep_view() is Some == f.file_path is Some);
    assert(r is Ok ==> r->Ok_0.deep_view().once_open.len() == r->Ok_0.once_open@.len());
}

/// A file that could be opened is sent with its length, where it is known, behind
/// the other headers, and what was to be changed then is. One that could not is
/// missing, and nothing is changed.
pub proof fn opened_files_are_sent(
    headers: Vec<Header>,
    once_open: Vec<Change>,
    len: Option<u64>,
    opened: bool,
    r: Opened,
)
    requires
        call_ensures(after_open, (headers, once_open, len, opened), r),
    ensures
        opened ==> {
            let h = r.outcome->Ok_0.deep_view();
            &&& r.outcome is Ok
            &&& r.changes == once_open
            &&& h.len() == headers@.len() + if len is Some {
                1int
            } else {
                0
            }
            &&& h.take(headers@.len() as int) == headers.deep_view()
            &&& len is Some ==> h.last() == (HeaderName::ContentLength, decimal(len->0 as int))
        },
        !opened ==> {
            &&& r.outcome is Err
            &&& r.outcome->Err_0.status == 404
            &&& r.outcome->Err_0.error@ == "missing"@
            &&& r.changes@.len() == 0
        },
{
    assert(headers.deep_view().len() == headers@.len());
    if opened {
        let h = r.outcome->Ok_0.deep_view();
        assert(h.take(headers@.len() as int) =~= headers.deep_view());
    }
}

/// Once the row of a new item is written, its creation is told to everyone, field
/// by field, and the client is told the same and the link. Where it could not be
/// written, nobody is told and no link is made.
pub proof fn creations_are_told(
    insert_link: Change,
    told: CreatedItem,
    failure: Option<String>,
    r: Result<Published, WriteFailure>,
)
    requires
        call_ensures(after_insert, (insert_link, &told, failure), r),
    ensures
        failure is Some ==> {
            &&& r is Err
            &&& r->Err_0.status == 500
            &&& r->Err_0.error@ == "db write failed"@
            &&& r->Err_0.detail@ == failure->0@
        },
        failure is None ==> {
            let p = r->Ok_0;
            let event = p.event.deep_view();
            let share = p.share.deep_view();
            &&& r is Ok
            &&& p.status == 201
            &&& p.insert_link == insert_link
            &&& event.name == "clipboard:created"@
            &&& p.item.deep_view() == event.fields
            &&& event.fields.len() == 8
            &&& event.fields[0] == ("id"@, ValueView::Text(told.id@))
            &&& event.fields[1] == ("type"@, ValueView::Text(told.item_type@))
            &&& event.fields[2].0 == "content"@
            &&& told.content is Some ==> event.fields[2].1 == ValueView::Text(told.content->0@)
            &&& told.content is None ==> event.fields[2].1 is Null
            &&& event.fields[3].0 == "fileName"@
            &&& told.file_name is Some ==> event.fields[3].1 == ValueView::Text(told.file_name->0@)
            &&& told.file_name is None ==> event.fields[3].1 is Null
            &&& event.fields[4].0 == "fileSize"@
            &&& told.file_size is Some ==> event.fields[4].1 == ValueView::Integer(
                told.file_size->0,
            )
            &&& told.file_size is None ==> event.fields[4].1 is Null
            &&& event.fields[5] == ("sortWeight"@, ValueView::Integer(told.sort_weight))
            &&& event.fields[6] == ("createdAt"@, ValueView::Text(told.created_at@))
            &&& event.fields[7] == ("updatedAt"@, ValueView::Text(told.updated_at@))
            &&& share.len() == 6
            &&& share[0] == ("token"@, ValueView::Text(told.share.token@))
            &&& share[1] == ("url"@, ValueView::Text(told.share.url@))
            &&& share[2].0 == "expiresAt"@
            &&& told.share.expires_at is Some ==> share[2].1 == ValueView::Text(
                told.share.expires_at->0@,
            )
            &&& told.share.expires_at is None ==> share[2].1 is Null
            &&& share[3].0 == "maxDownloads"@
            &&& told.share.max_downloads is Some ==> share[3].1 == ValueView::Integer(
                told.share.max_downloads->0,
            )
            &&& told.share.max_downloads is None ==> share[3].1 is Null
            &&& share[4] == (
                "requiresPassword"@,
                ValueView::Boolean(told.share.requires_password),
            )
            &&& share[5] == ("downloadCount"@, ValueView::Integer(0))
        },
{
    assert(told.content.deep_view() is Some == told.content is Some);
    assert(told.file_name.deep_view() is Some == told.file_name is Some);
    assert(told.share.expires_at.deep_view() is Some == told.share.expires_at is Some);
}

/// Of `n` reordered items the `i`th gets the weight `n - i` above the greatest
/// there was. What is written, what is answered and what everyone is told say the
/// same of every one of them. Without items nothing happens.
pub proof fn reorderings_are_told(
    ids: Vec<String>,
    max_weight: i64,
    now: i64,
    r: Option<Reordering>,
)
    requires
        call_ensures(reorder_clipboard, (&ids, max_weight, now), r),
        max_weight + ids@.len() <= i64::MAX,
    ensures
        ids@.len() == 0 ==> r is None,
        ids@.len() > 0 ==> {
            let o = r->0;
            let changes = o.changes.deep_view();
            let event = o.event.deep_view();
            &&& r is Some
            &&& o.changes@.len() == ids@.len()
            &&& o.weights@.len() == ids@.len()
            &&& forall|i: int|
                0 <= i < ids@.len() ==> {
                    let w = max_weight + ids@.len() - i;
                    &&& (#[trigger] changes[i]) is SetWeight
                    &&& changes[i]->SetWeight_id == ids@[i]@
                    &&& changes[i]->SetWeight_weight == w
                    &&& changes[i]->SetWeight_now == now
                }
            &&& forall|i: int|
                0 <= i < ids@.len() ==> (#[trigger] o.weights@[i]).0@ == ids@[i]@ && o.weights@[i].1
                    == max_weight + ids@.len() - i
            &&& event.name == "clipboard:reordered"@
            &&& event.fields.len() == 2
            &&& event.fields[0] == ("ids"@, ValueView::Texts(ids.deep_view()))
            &&& event.fields[1] == ("weights"@, ValueView::Numbers(o.weights.deep_view()))
        },
{
    if ids@.len() > 0 {
        let o = r->0;
        assert(ids.deep_view().len() == ids@.len());
        assert(o.changes.deep_view().len() == o.changes@.len());
        assert(o.weights.deep_view().len() == o.weights@.len());
        assert forall|i: int| 0 <= i < ids@.len() implies (#[trigger] o.weights@[i]).0@ == ids@[i]@
            && o.weights@[i].1 == max_weight + ids@.len() - i by {
            assert(o.weights.deep_view()[i] == (o.weights@[i].0@, o.weights@[i].1));
            assert(ids.deep_view()[i] == ids@[i]@);
        }
    }
}

/// Deleting an item removes its row and its file, and everyone is told which one
/// went.
pub proof fn deletions_are_told(id: &str, file_path: Option<String>, r: Deletion)
    requires
        call_ensures(delete_clipboard, (id, file_path), r),
    ensures
        r.changes.deep_view().len() == 1,
        r.changes.deep_view()[0] == (ChangeView::DeleteItem { id: id@ }),
        r.remove_file == file_path,
        r.event.deep_view().name == "clipboard:deleted"@,
        r.event.deep_view().fields.len() == 1,
        r.event.deep_view().fields[0] == ("id"@, ValueView::Text(id@)),
{
}

} // verus!

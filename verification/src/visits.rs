//! What visitors of a share link get, stated of the answers themselves.

use crate::clock::{is_moment_text, is_utc_second, rfc3339_instant, writable};
use crate::cookie::{browsers_return_the_first_part, carried_cookies_are_found, carrying};
use crate::delivery::{BodyView, DeliveryView};
use crate::reply::{percent_encoded, HeaderName, Refusal};
use crate::settings::stored_password;
use crate::share::{
    is_authorized, lemma_share_cookie_plain, share_cookie_of, share_download, share_file, share_meta, share_verify,
    MetaReply, ShareLimits, ShareLink, ShareReply, SharedFile, SharedItem,
};
use crate::store::ChangeView;
use crate::text::{lower_of, split_of, trim_of};
use crate::token::{is_token, password_hash_of};
use vstd::prelude::*;
use vstd::utf8::encode_utf8;

verus! {

/// The link is switched on, its end is not passed, and it has accesses left. A
/// negative maximum is none.
pub open spec fn works(l: ShareLimits, now: i64) -> bool {
    &&& l.revoked == 0
    &&& l.expires_at is None || now <= l.expires_at->0
    &&& l.max_downloads is None || l.max_downloads->0 < 0 || l.download_count < l.max_downloads->0
}

/// The end of the link is passed, or it has no access left.
pub open spec fn ran_out(l: ShareLimits, now: i64) -> bool {
    ||| l.expires_at is Some && l.expires_at->0 < now
    ||| l.max_downloads is Some && 0 <= l.max_downloads->0 <= l.download_count
}

/// One of the cookies of a request is this one.
pub open spec fn sends(cookie: Option<&str>, wanted: Seq<char>) -> bool {
    cookie is Some && exists|i: int|
        0 <= i < split_of(cookie->0@, ';').len() && trim_of(
            #[trigger] split_of(cookie->0@, ';')[i],
        ) == wanted
}

/// The link has no password, or the visitor sends the cookie that stands for it.
pub open spec fn let_in(l: ShareLink, cookie: Option<&str>) -> bool {
    l.password_hash is None || sends(
        cookie,
        "share_auth_"@ + l.token@ + "="@ + l.password_hash->0@,
    )
}

/// What an access changes: it is counted, and with the last one that the link
/// allows the item goes.
pub open spec fn counting(l: ShareLink, now: i64) -> Seq<ChangeView> {
    let counted = ChangeView::CountAccess { token: l.token@, now };
    if l.limits.max_downloads is Some && 0 <= l.limits.max_downloads->0
        && l.limits.max_downloads->0 <= l.limits.download_count + 1 {
        seq![counted, ChangeView::DeleteItem { id: l.item_id@ }]
    } else {
        seq![counted]
    }
}

/// What a visit to a link that does not work changes: an item whose link ran out
/// goes.
pub open spec fn clearing(l: ShareLink, now: i64) -> Seq<ChangeView> {
    if ran_out(l.limits, now) {
        seq![ChangeView::DeleteItem { id: l.item_id@ }]
    } else {
        seq![]
    }
}

/// Whether a text of an instant, or none, is that of a timestamp, or of none. A
/// timestamp before the year 0 has the empty text; one that has no calendar date at
/// all has the text of some moment.
pub open spec fn tells_time(ts: Option<i64>, text: Option<String>) -> bool {
    &&& ts is Some <==> text is Some
    &&& ts is Some && writable(ts->0) ==> rfc3339_instant(text->0@) == ts && is_utc_second(
        text->0@,
    )
    &&& ts is Some && -377705116800 <= ts->0 < -62167219200 ==> text->0@.len() == 0
    &&& ts is Some && !(-377705116800 <= ts->0 <= 253402300799) ==> is_moment_text(text->0@)
}

/// A link works until it is switched off, its end is passed or its accesses are
/// used up.
pub proof fn links_work_until_they_end(
    l: ShareLimits,
    now: i64,
    expired: bool,
    exhausted: bool,
    live: bool,
)
    requires
        call_ensures(ShareLimits::is_expired, (&l, now), expired),
        call_ensures(ShareLimits::is_exhausted, (&l,), exhausted),
        call_ensures(ShareLimits::is_live, (&l, now), live),
    ensures
        expired <==> l.expires_at is Some && l.expires_at->0 < now,
        exhausted <==> l.max_downloads is Some && 0 <= l.max_downloads->0 <= l.download_count,
        live <==> works(l, now),
{
}

/// A visitor may read through a link without a password, and through one with a
/// password by its own cookie and no other.
pub proof fn cookies_let_in(l: ShareLink, cookie: Option<&str>, r: bool)
    requires
        call_ensures(is_authorized, (&l, cookie), r),
    ensures
        r <==> let_in(l, cookie),
{
    assert(cookie.deep_view() is Some == cookie is Some);
    assert(l.password_hash.deep_view() is Some == l.password_hash is Some);
}

/// The description of a working link tells the item as it is. The text of a text
/// item is in it exactly where the visitor is let in, with or without a
/// password; then, and only then, the access is counted.
pub proof fn descriptions_tell_the_item(
    l: ShareLink,
    item: SharedItem,
    cookie: Option<&str>,
    now: i64,
    r: MetaReply,
)
    requires
        works(l.limits, now),
        call_ensures(share_meta, (Some(l), Some(item), cookie, now), r),
    ensures
        ({
            let m = r.outcome->Ok_0;
            let handed = let_in(l, cookie) && item.item_type@ == "TEXT"@;
            &&& r.outcome is Ok
            &&& m.token@ == l.token@
            &&& m.item_id@ == l.item_id@
            &&& m.item.item_type@ == item.item_type@
            &&& m.item.file_name.deep_view() == item.file_name.deep_view()
            &&& m.item.file_size == item.file_size
            &&& m.item.content_type.deep_view() == item.content_type.deep_view()
            &&& handed ==> m.item.content.deep_view() == item.content.deep_view()
            &&& !handed ==> m.item.content is None
            &&& tells_time(l.limits.expires_at, m.expires_at)
            &&& m.max_downloads == l.limits.max_downloads
            &&& m.download_count == l.limits.download_count + if handed {
                1int
            } else {
                0
            }
            &&& m.requires_password == l.password_hash is Some
            &&& m.authorized == let_in(l, cookie)
            &&& r.changes.deep_view() == if handed {
                counting(l, now)
            } else {
                seq![]
            }
        }),
{
}

/// A working link whose item cannot be read is described as one to a nameless
/// file, and no access is counted.
pub proof fn unreadable_items_are_described_as_files(
    l: ShareLink,
    cookie: Option<&str>,
    now: i64,
    r: MetaReply,
)
    requires
        works(l.limits, now),
        call_ensures(share_meta, (Some(l), None::<SharedItem>, cookie, now), r),
    ensures
        ({
            let m = r.outcome->Ok_0;
            &&& r.outcome is Ok
            &&& m.item.item_type@ == "FILE"@
            &&& m.item.file_name is None && m.item.file_size is None
            &&& m.item.content_type is None && m.item.content is None
            &&& m.token@ == l.token@
            &&& m.item_id@ == l.item_id@
            &&& tells_time(l.limits.expires_at, m.expires_at)
            &&& m.max_downloads == l.limits.max_downloads
            &&& m.download_count == l.limits.download_count
            &&& m.requires_password == l.password_hash is Some
            &&& m.authorized == let_in(l, cookie)
            &&& r.changes@.len() == 0
        }),
{
    reveal_strlit("FILE");
    reveal_strlit("TEXT");
    assert("FILE"@[0] == 'F' && "TEXT"@[0] == 'T');
    assert(r.changes.deep_view().len() == r.changes@.len());
}

/// A link that does not work is described to nobody, and so is an unknown one:
/// the answer is 404. Of an item whose link ran out nothing is left.
pub proof fn closed_links_are_not_described(
    l: Option<ShareLink>,
    item: Option<SharedItem>,
    cookie: Option<&str>,
    now: i64,
    r: MetaReply,
)
    requires
        l is Some ==> !works(l->0.limits, now),
        call_ensures(share_meta, (l, item, cookie, now), r),
    ensures
        r.outcome is Err,
        r.outcome->Err_0.status == 404,
        r.outcome->Err_0.error@ == "not found"@,
        r.changes.deep_view() == if l is Some {
            clearing(l->0, now)
        } else {
            seq![]
        },
{
    assert(r.changes@.len() == r.changes.deep_view().len());
    if l is None {
        assert(r.changes.deep_view() =~= seq![]);
    }
}

/// Who may not read gets neither to see nor to download the contents: 404 where
/// the link is unknown or does not work, 401 where the password was not given.
pub proof fn contents_are_kept_from_others(
    found: Option<(ShareLink, SharedFile)>,
    cookie: Option<&str>,
    now: i64,
    r: ShareReply,
)
    requires
        call_ensures(share_file, (found, cookie, now), r) || call_ensures(
            share_download,
            (found, cookie, now),
            r,
        ),
        found is Some ==> !(works((found->0).0.limits, now) && let_in((found->0).0, cookie)),
    ensures
        ({
            let e = r.outcome->Err_0;
            &&& r.outcome is Err
            &&& found is None ==> e.status == 404 && e.error@ == "not found"@
                && r.changes.deep_view() == Seq::<ChangeView>::empty()
            &&& found is Some && !works((found->0).0.limits, now) ==> e.status == 404 && e.error@
                == "not found"@ && r.changes.deep_view() == clearing((found->0).0, now)
            &&& found is Some && works((found->0).0.limits, now) ==> e.status == 401 && e.error@
                == "unauthorized"@ && r.changes.deep_view() == Seq::<ChangeView>::empty()
        }),
{
    assert(r.deep_view().changes == r.changes.deep_view());
    assert(r.deep_view().outcome is Err ==> r.outcome is Err);
}

/// The name under which contents are offered.
pub open spec fn offered_as(kind: Seq<char>, name: Seq<char>) -> Seq<char> {
    kind + "; filename*=UTF-8''"@ + percent_encoded(encode_utf8(name))
}

/// Whether a delivery is that of a stored file: the file on disk before the
/// bytes in the row, with the media type and the name that were stored.
pub open spec fn delivers_file(d: DeliveryView, f: SharedFile, kind: Seq<char>) -> bool {
    let ctype = if f.file.content_type is Some {
        f.file.content_type->0@
    } else {
        "application/octet-stream"@
    };
    let name = if f.file.file_name is Some {
        f.file.file_name->0@
    } else {
        "download"@
    };
    &&& d.headers.len() == 2
    &&& d.headers[0] == (HeaderName::ContentType, ctype)
    &&& d.headers[1] == (HeaderName::ContentDisposition, offered_as(kind, name))
    &&& f.file.file_path is Some ==> d.body == BodyView::File(f.file.file_path->0@)
    &&& f.file.file_path is None ==> f.file.inline_data is Some && d.body == BodyView::Bytes(
        f.file.inline_data->0@,
    )
}

/// Who may read is shown the contents of the item: a text as it is, and a file
/// with its stored bytes, media type and name. Showing a file counts as an access
/// once its body is at hand; showing a text does not count.
pub proof fn contents_are_shown(
    l: ShareLink,
    f: SharedFile,
    cookie: Option<&str>,
    now: i64,
    r: ShareReply,
)
    requires
        works(l.limits, now),
        let_in(l, cookie),
        call_ensures(share_file, (Some((l, f)), cookie, now), r),
    ensures
        ({
            let d = r.outcome->Ok_0.deep_view();
            let text = if f.content is Some {
                f.content->0@
            } else {
                Seq::empty()
            };
            let stored = f.file.file_path is Some || f.file.inline_data is Some;
            &&& r.changes.deep_view() == Seq::<ChangeView>::empty()
            &&& f.item_type@ == "TEXT"@ ==> {
                &&& r.outcome is Ok
                &&& d.headers.len() == 1
                &&& d.headers[0] == (HeaderName::ContentType, "text/plain; charset=utf-8"@)
                &&& d.body == BodyView::Text(text)
                &&& d.once_open == Seq::<ChangeView>::empty()
            }
            &&& f.item_type@ != "TEXT"@ && stored ==> {
                &&& r.outcome is Ok
                &&& delivers_file(d, f, "inline"@)
                &&& d.once_open == counting(l, now)
            }
            &&& f.item_type@ != "TEXT"@ && !stored ==> {
                &&& r.outcome is Err
                &&& r.outcome->Err_0.status == 404
                &&& r.outcome->Err_0.error@ == "missing content"@
            }
        }),
{
    assert(r.deep_view().changes == r.changes.deep_view());
    let o = r.deep_view().outcome;
    assert(o is Ok <==> r.outcome is Ok);
    assert(o is Ok ==> o->Ok_0 == r.outcome->Ok_0.deep_view());
    assert(o is Err ==> o->Err_0 == r.outcome->Err_0.deep_view());
}

/// Who may read downloads the contents of the item: a text as a file of that
/// name with `.txt` behind it, a file with its stored bytes, media type and name.
/// Every download counts as an access.
pub proof fn contents_are_downloaded(
    l: ShareLink,
    f: SharedFile,
    cookie: Option<&str>,
    now: i64,
    r: ShareReply,
)
    requires
        works(l.limits, now),
        let_in(l, cookie),
        call_ensures(share_download, (Some((l, f)), cookie, now), r),
    ensures
        ({
            let d = r.outcome->Ok_0.deep_view();
            let text = if f.content is Some {
                f.content->0@
            } else {
                Seq::empty()
            };
            let name = if f.file.file_name is Some {
                f.file.file_name->0@
            } else {
                "download"@
            };
            let stored = f.file.file_path is Some || f.file.inline_data is Some;
            &&& r.changes.deep_view() == counting(l, now)
            &&& f.item_type@ == "TEXT"@ ==> {
                &&& r.outcome is Ok
                &&& d.headers.len() == 2
                &&& d.headers[0] == (HeaderName::ContentType, "text/plain; charset=utf-8"@)
                &&& d.headers[1] == (
                    HeaderName::ContentDisposition,
                    offered_as("attachment"@, name + ".txt"@),
                )
                &&& d.body == BodyView::Text(text)
            }
            &&& f.item_type@ != "TEXT"@ && stored ==> {
                &&& r.outcome is Ok
                &&& delivers_file(d, f, "attachment"@)
            }
            &&& f.item_type@ != "TEXT"@ && !stored ==> {
                &&& r.outcome is Err
                &&& r.outcome->Err_0.status == 404
                &&& r.outcome->Err_0.error@ == "missing content"@
            }
            &&& r.outcome is Ok ==> d.once_open == Seq::<ChangeView>::empty()
        }),
{
    assert(r.deep_view().changes == r.changes.deep_view());
    let o = r.deep_view().outcome;
    assert(o is Ok <==> r.outcome is Ok);
    assert(o is Ok ==> o->Ok_0 == r.outcome->Ok_0.deep_view());
    assert(o is Err ==> o->Err_0 == r.outcome->Err_0.deep_view());
}

/// A password is accepted exactly where it hashes, with the link's token, to what
/// is stored. The answer is the link's cookie, for a week, out of reach of
/// scripts, and over `https` for encrypted connections only.
pub proof fn passwords_are_checked(
    stored: Option<String>,
    password: &str,
    token: &str,
    forwarded_proto: Option<&str>,
    r: Result<String, Refusal>,
)
    requires
        call_ensures(share_verify, (stored, password, token, forwarded_proto), r),
    ensures
        stored is None ==> r is Err && r->Err_0.status == 400 && r->Err_0.error@
            == "no password set"@,
        stored is Some && password_hash_of(password@, token@) != stored->0@ ==> r is Err
            && r->Err_0.status == 401 && r->Err_0.error@ == "invalid password"@,
        stored is Some && password_hash_of(password@, token@) == stored->0@ ==> {
            let https = forwarded_proto is Some && lower_of(forwarded_proto->0@) == "https"@;
            &&& r is Ok
            &&& https ==> r->Ok_0@ == "share_auth_"@ + token@ + "="@ + stored->0@
                + "; Max-Age=604800; Path=/; SameSite=Lax; HttpOnly"@ + "; Secure"@
            &&& !https ==> r->Ok_0@ == "share_auth_"@ + token@ + "="@ + stored->0@
                + "; Max-Age=604800; Path=/; SameSite=Lax; HttpOnly"@
        },
{
    reveal_strlit("http");
    reveal_strlit("https");
    reveal_strlit("");
    if forwarded_proto is None {
        assert(lower_of("http"@).len() == 4);
        assert("https"@.len() == 5);
    }
    if r is Ok {
        let c = r->Ok_0@;
        assert(c + ""@ =~= c);
    }
}

/// Who gives the password that a link was stored with reads the text behind it:
/// the password is accepted, the browser keeps the link's cookie, and with it,
/// alone or among others, the description carries the text of the item.
pub proof fn right_passwords_show_the_text(
    l: ShareLink,
    item: SharedItem,
    password: Option<String>,
    given: &str,
    token: &str,
    stored: (Option<String>, Option<String>),
    forwarded_proto: Option<&str>,
    set: Result<String, Refusal>,
    before: Option<Seq<char>>,
    behind: Option<Seq<char>>,
    cookie: Option<&str>,
    now: i64,
    r: MetaReply,
)
    requires
        works(l.limits, now),
        is_token(l.token@),
        token@ == l.token@,
        password is Some && password->0@ == given@,
        trim_of(given@).len() > 0,
        call_ensures(stored_password, (&password, token), stored),
        l.password_hash.deep_view() == stored.1.deep_view(),
        call_ensures(share_verify, (l.password_hash, given, token, forwarded_proto), set),
        cookie is Some && cookie->0@ == carrying(
            split_of(set->Ok_0@, ';')[0],
            before,
            behind,
        ),
        item.item_type@ == "TEXT"@,
        call_ensures(share_meta, (Some(l), Some(item), cookie, now), r),
    ensures
        set is Ok,
        r.outcome is Ok,
        r.outcome->Ok_0.authorized,
        r.outcome->Ok_0.item.content.deep_view() == item.content.deep_view(),
        r.outcome->Ok_0.download_count == l.limits.download_count + 1,
{
    let hash = password_hash_of(given@, token@);
    assert(password.deep_view() == Some(given@));
    assert(stored.1.deep_view() == Some(hash));
    assert(l.password_hash->0@ == hash);
    passwords_are_checked(l.password_hash, given, token, forwarded_proto, set);
    let key = "share_auth_"@ + token@ + "="@ + hash;
    assert(key == share_cookie_of(token@, hash));
    lemma_share_cookie_plain(token@, given@);
    let base = "; Max-Age=604800; Path=/; SameSite=Lax; HttpOnly"@;
    reveal_strlit("; Max-Age=604800; Path=/; SameSite=Lax; HttpOnly");
    let https = forwarded_proto is Some && lower_of(forwarded_proto->0@) == "https"@;
    let tail = if https {
        base + "; Secure"@
    } else {
        base
    };
    assert(set->Ok_0@ =~= key + tail);
    browsers_return_the_first_part(key, tail);
    carried_cookies_are_found(key, before, behind);
    descriptions_tell_the_item(l, item, cookie, now, r);
}

} // verus!

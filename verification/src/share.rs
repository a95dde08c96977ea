//! Public share links: when a link is valid, who may read through it, what a
//! visitor gets, and what each visit changes.

use crate::clock::{iso_of, opt_epoch_to_iso};
use crate::cookie::{
    browsers_return_the_first_part, carried_cookies_are_found, carrying, cookie_holds, has_cookie,
    request_scheme, scheme_of,
};
use crate::delivery::{
    delivery_view, file_body, file_headers, Body, BodyView, Delivery, DeliveryView, StoredFile,
    StoredFileView,
};
use crate::reply::{disposition, disposition_of, header, refuse, Header, HeaderName, Refusal};
use crate::store::{Change, ChangeView};
use crate::text::{is_white, same, split_of};
use crate::token::{
    hashes_are_hexadecimal, is_token, password_hash, password_hash_of, tokens_are_url_safe,
};
use vstd::prelude::*;

verus! {

/// What limits the use of a link.
#[derive(Clone, Copy, Debug)]
pub struct ShareLimits {
    pub expires_at: Option<i64>,
    pub max_downloads: Option<i64>,
    pub download_count: i64,
    pub revoked: i64,
}

impl ShareLimits {
    /// The link's time is over.
    pub open spec fn expired(self, now: i64) -> bool {
        self.expires_at matches Some(e) && e < now
    }

    /// The link was used as often as it may be. A negative maximum is none.
    pub open spec fn exhausted(self) -> bool {
        self.max_downloads matches Some(m) && m >= 0 && self.download_count >= m
    }

    /// The link still works.
    pub open spec fn live(self, now: i64) -> bool {
        self.revoked == 0 && !self.expired(now) && !self.exhausted()
    }

    /// One more access uses the link up.
    pub open spec fn used_up_by_next(self) -> bool {
        self.max_downloads matches Some(m) && m >= 0 && self.download_count + 1 >= m
    }

    pub fn is_expired(&self, now: i64) -> (r: bool)
        ensures
            r == self.expired(now),
    {
        match self.expires_at {
            Some(e) => e < now,
            None => false,
        }
    }

    pub fn is_exhausted(&self) -> (r: bool)
        ensures
            r == self.exhausted(),
    {
        match self.max_downloads {
            Some(m) => m >= 0 && self.download_count >= m,
            None => false,
        }
    }

    pub fn is_live(&self, now: i64) -> (r: bool)
        ensures
            r == self.live(now),
    {
        self.revoked == 0 && !self.is_expired(now) && !self.is_exhausted()
    }
}

/// A share link as a visitor's request finds it.
#[derive(Debug)]
pub struct ShareLink {
    pub token: String,
    pub item_id: String,
    pub limits: ShareLimits,
    pub password_hash: Option<String>,
}

/// `ShareLink` as a mathematical value.
pub struct ShareLinkView {
    pub token: Seq<char>,
    pub item_id: Seq<char>,
    pub limits: ShareLimits,
    pub password_hash: Option<Seq<char>>,
}

impl DeepView for ShareLink {
    type V = ShareLinkView;

    open spec fn deep_view(&self) -> ShareLinkView {
        ShareLinkView {
            token: self.token@,
            item_id: self.item_id@,
            limits: self.limits,
            password_hash: self.password_hash.deep_view(),
        }
    }
}

/// The cookie that proves that its holder gave the link's password.
pub open spec fn share_cookie_of(token: Seq<char>, hash: Seq<char>) -> Seq<char> {
    "share_auth_"@ + token + "="@ + hash
}

/// Whether a visitor with this `Cookie` header may read through the link.
pub open spec fn may_read(link: ShareLinkView, cookie: Option<Seq<char>>) -> bool {
    match link.password_hash {
        None => true,
        Some(hash) => cookie matches Some(c) && cookie_holds(c, share_cookie_of(link.token, hash)),
    }
}

/// What a visit to a link that no longer works changes: an item whose link
/// ran out goes.
pub open spec fn cleanup_of(link: ShareLinkView, now: i64) -> Seq<ChangeView> {
    if link.limits.expired(now) || link.limits.exhausted() {
        seq![ChangeView::DeleteItem { id: link.item_id }]
    } else {
        seq![]
    }
}

/// What an access through the link changes: it is counted, and the item goes
/// with the last access that the link allows.
pub open spec fn access_of(link: ShareLinkView, now: i64) -> Seq<ChangeView> {
    let counted = ChangeView::CountAccess { token: link.token, now };
    if link.limits.used_up_by_next() {
        seq![counted, ChangeView::DeleteItem { id: link.item_id }]
    } else {
        seq![counted]
    }
}

fn share_cookie(token: &str, hash: &str) -> (r: String)
    ensures
        r@ == share_cookie_of(token@, hash@),
{
    let mut r = "share_auth_".to_owned();
    r.append(token);
    r.append("=");
    r.append(hash);
    r
}

/// Whether a visitor with this `Cookie` header may read through the link.
pub fn is_authorized(link: &ShareLink, cookie: Option<&str>) -> (r: bool)
    ensures
        r == may_read(link.deep_view(), cookie.deep_view()),
{
    match &link.password_hash {
        None => true,
        Some(hash) => match cookie {
            Some(c) => has_cookie(c, share_cookie(link.token.as_str(), hash.as_str()).as_str()),
            None => false,
        },
    }
}

pub(crate) fn cleanup(link: &ShareLink, now: i64) -> (r: Vec<Change>)
    ensures
        r.deep_view() == cleanup_of(link.deep_view(), now),
{
    let mut r: Vec<Change> = Vec::new();
    if link.limits.is_expired(now) || link.limits.is_exhausted() {
        r.push(Change::DeleteItem { id: link.item_id.clone() });
    }
    assert(r.deep_view() =~= cleanup_of(link.deep_view(), now));
    r
}

fn access(link: &ShareLink, now: i64) -> (r: Vec<Change>)
    requires
        link.limits.live(now),
    ensures
        r.deep_view() == access_of(link.deep_view(), now),
{
    let mut r: Vec<Change> = Vec::new();
    r.push(Change::CountAccess { token: link.token.clone(), now });
    if let Some(m) = link.limits.max_downloads {
        if m >= 0 && link.limits.download_count + 1 >= m {
            r.push(Change::DeleteItem { id: link.item_id.clone() });
        }
    }
    assert(r.deep_view() =~= access_of(link.deep_view(), now));
    r
}

/// What a visitor is told of the item behind a link.
#[derive(Debug)]
pub struct SharedItem {
    pub item_type: String,
    pub file_name: Option<String>,
    pub file_size: Option<i64>,
    pub content_type: Option<String>,
    pub content: Option<String>,
}

/// The description of a share.
#[derive(Debug)]
pub struct ShareMeta {
    pub token: String,
    pub item_id: String,
    pub item: SharedItem,
    pub expires_at: Option<String>,
    pub max_downloads: Option<i64>,
    pub download_count: i64,
    pub requires_password: bool,
    pub authorized: bool,
}

/// The answer to a request for the description of a share, and what the
/// request changes.
#[derive(Debug)]
pub struct MetaReply {
    pub changes: Vec<Change>,
    pub outcome: Result<ShareMeta, Refusal>,
}

/// `SharedItem` as a mathematical value.
pub struct SharedItemView {
    pub item_type: Seq<char>,
    pub file_name: Option<Seq<char>>,
    pub file_size: Option<i64>,
    pub content_type: Option<Seq<char>>,
    pub content: Option<Seq<char>>,
}

impl DeepView for SharedItem {
    type V = SharedItemView;

    open spec fn deep_view(&self) -> SharedItemView {
        SharedItemView {
            item_type: self.item_type@,
            file_name: self.file_name.deep_view(),
            file_size: self.file_size,
            content_type: self.content_type.deep_view(),
            content: self.content.deep_view(),
        }
    }
}

/// What stands for an item that could not be read.
pub open spec fn or_unknown_item(item: Option<SharedItemView>) -> SharedItemView {
    match item {
        Some(i) => i,
        None => SharedItemView {
            item_type: "FILE"@,
            file_name: None,
            file_size: None,
            content_type: None,
            content: None,
        },
    }
}

/// Reading the description of a text share hands out the text, so it counts as
/// an access.
pub open spec fn meta_counts(
    link: ShareLinkView,
    item: Option<SharedItemView>,
    cookie: Option<Seq<char>>,
) -> bool {
    may_read(link, cookie) && or_unknown_item(item).item_type == "TEXT"@
}

/// What a description tells of the item: its text only where the reading counts.
pub open spec fn told_item(
    link: ShareLinkView,
    item: Option<SharedItemView>,
    cookie: Option<Seq<char>>,
) -> SharedItemView {
    let known = or_unknown_item(item);
    SharedItemView {
        content: if meta_counts(link, item, cookie) {
            known.content
        } else {
            None
        },
        ..known
    }
}

/// The description of a share whose link works.
pub open spec fn meta_of(
    link: ShareLinkView,
    item: Option<SharedItemView>,
    cookie: Option<Seq<char>>,
    m: ShareMeta,
) -> bool {
    let counts = meta_counts(link, item, cookie);
    &&& m.token@ == link.token
    &&& m.item_id@ == link.item_id
    &&& m.item.deep_view() == told_item(link, item, cookie)
    &&& iso_of(link.limits.expires_at, m.expires_at.deep_view())
    &&& m.max_downloads == link.limits.max_downloads
    &&& m.download_count == link.limits.download_count + if counts {
        1int
    } else {
        0
    }
    &&& m.requires_password == link.password_hash is Some
    &&& m.authorized == may_read(link, cookie)
}

/// Answers a request for the description of a share.
pub fn share_meta(
    link: Option<ShareLink>,
    item: Option<SharedItem>,
    cookie: Option<&str>,
    now: i64,
) -> (r: MetaReply)
    requires
        link matches Some(l) ==> (l.limits.live(now) && meta_counts(
            l.deep_view(),
            item.deep_view(),
            cookie.deep_view(),
        ) ==> l.limits.download_count < i64::MAX),
    ensures
        match link {
            None => r.outcome matches Err(e) && e.deep_view() == (404u16, "not found"@)
                && r.changes@.len() == 0,
            Some(l) => if !l.limits.live(now) {
                &&& r.outcome matches Err(e)
                &&& e.deep_view() == (404u16, "not found"@)
                &&& r.changes.deep_view() == cleanup_of(l.deep_view(), now)
            } else {
                &&& r.outcome matches Ok(m)
                &&& meta_of(l.deep_view(), item.deep_view(), cookie.deep_view(), m)
                &&& r.changes.deep_view() == if meta_counts(
                    l.deep_view(),
                    item.deep_view(),
                    cookie.deep_view(),
                ) {
                    access_of(l.deep_view(), now)
                } else {
                    seq![]
                }
            },
        },
{
    let link = match link {
        Some(l) => l,
        None => {
            return MetaReply { changes: Vec::new(), outcome: Err(refuse(404, "not found")) };
        },
    };
    if !link.limits.is_live(now) {
        let changes = cleanup(&link, now);
        return MetaReply { changes, outcome: Err(refuse(404, "not found")) };
    }
    let authorized = is_authorized(&link, cookie);
    let requires_password = link.password_hash.is_some();
    let ghost item_view = item.deep_view();
    let mut item = match item {
        Some(i) => i,
        None => SharedItem {
            item_type: "FILE".to_owned(),
            file_name: None,
            file_size: None,
            content_type: None,
            content: None,
        },
    };
    let counts = authorized && same(item.item_type.as_str(), "TEXT");
    let mut changes: Vec<Change> = Vec::new();
    let mut download_count: i64 = link.limits.download_count;
    if counts {
        changes = access(&link, now);
        download_count = download_count + 1;
    } else {
        item.content = None;
        assert(changes.deep_view() =~= seq![]);
    }
    let meta = ShareMeta {
        token: link.token,
        item_id: link.item_id,
        item,
        expires_at: opt_epoch_to_iso(link.limits.expires_at),
        max_downloads: link.limits.max_downloads,
        download_count,
        requires_password,
        authorized,
    };
    MetaReply { changes, outcome: Ok(meta) }
}

/// The item behind a link as a visitor's request for its contents finds it.
#[derive(Debug)]
pub struct SharedFile {
    pub item_type: String,
    pub content: Option<String>,
    pub file: StoredFile,
}

/// `SharedFile` as a mathematical value.
pub struct SharedFileView {
    pub item_type: Seq<char>,
    pub content: Option<Seq<char>>,
    pub file: StoredFileView,
}

impl DeepView for SharedFile {
    type V = SharedFileView;

    open spec fn deep_view(&self) -> SharedFileView {
        SharedFileView {
            item_type: self.item_type@,
            content: self.content.deep_view(),
            file: self.file.deep_view(),
        }
    }
}

impl SharedFileView {
    /// The text of a text item.
    pub open spec fn text(self) -> Seq<char> {
        match self.content {
            Some(c) => c,
            None => Seq::empty(),
        }
    }
}

/// The answer to a visitor's request for the contents of an item, and what is
/// to be changed before the answer is sent.
#[derive(Debug)]
pub struct ShareReply {
    pub changes: Vec<Change>,
    pub outcome: Result<Delivery, Refusal>,
}

/// `ShareReply` as a mathematical value.
pub struct ShareReplyView {
    pub changes: Seq<ChangeView>,
    pub outcome: Result<DeliveryView, (u16, Seq<char>)>,
}

impl DeepView for ShareReply {
    type V = ShareReplyView;

    open spec fn deep_view(&self) -> ShareReplyView {
        ShareReplyView { changes: self.changes.deep_view(), outcome: delivery_view(self.outcome) }
    }
}

/// Why a visitor gets nothing through a link: it is unknown or no longer works,
/// or its password was not given. `None` where the visitor may read.
pub open spec fn turned_away(
    link: Option<ShareLinkView>,
    cookie: Option<Seq<char>>,
    now: i64,
) -> Option<ShareReplyView> {
    match link {
        None => Some(ShareReplyView { changes: seq![], outcome: Err((404u16, "not found"@)) }),
        Some(l) => if !l.limits.live(now) {
            Some(
                ShareReplyView { changes: cleanup_of(l, now), outcome: Err((404u16, "not found"@)) },
            )
        } else if !may_read(l, cookie) {
            Some(ShareReplyView { changes: seq![], outcome: Err((401u16, "unauthorized"@)) })
        } else {
            None
        },
    }
}

/// The contents of an item, shown in place.
pub open spec fn shown_file(link: ShareLinkView, item: SharedFileView, now: i64) -> ShareReplyView {
    ShareReplyView {
        changes: seq![],
        outcome: if item.item_type == "TEXT"@ {
            Ok(
                DeliveryView {
                    headers: seq![(HeaderName::ContentType, "text/plain; charset=utf-8"@)],
                    body: BodyView::Text(item.text()),
                    once_open: seq![],
                },
            )
        } else {
            match item.file.body() {
                None => Err((404u16, "missing content"@)),
                Some(body) => Ok(
                    DeliveryView {
                        headers: item.file.headers("inline"@),
                        body,
                        once_open: access_of(link, now),
                    },
                ),
            }
        },
    }
}

/// The contents of an item, offered as a download. Every such request is
/// counted.
pub open spec fn downloaded_file(link: ShareLinkView, item: SharedFileView, now: i64) -> ShareReplyView {
    ShareReplyView {
        changes: access_of(link, now),
        outcome: if item.item_type == "TEXT"@ {
            Ok(
                DeliveryView {
                    headers: seq![
                        (HeaderName::ContentType, "text/plain; charset=utf-8"@),
                        (
                            HeaderName::ContentDisposition,
                            disposition_of("attachment"@, item.file.offered_name() + ".txt"@),
                        ),
                    ],
                    body: BodyView::Text(item.text()),
                    once_open: seq![],
                },
            )
        } else {
            match item.file.body() {
                None => Err((404u16, "missing content"@)),
                Some(body) => Ok(
                    DeliveryView {
                        headers: item.file.headers("attachment"@),
                        body,
                        once_open: seq![],
                    },
                ),
            }
        },
    }
}

fn turn_away(link: &ShareLink, cookie: Option<&str>, now: i64) -> (r: Option<ShareReply>)
    ensures
        r.deep_view() == turned_away(Some(link.deep_view()), cookie.deep_view(), now),
{
    if !link.limits.is_live(now) {
        return Some(
            ShareReply { changes: cleanup(link, now), outcome: Err(refuse(404, "not found")) },
        );
    }
    if !is_authorized(link, cookie) {
        let changes: Vec<Change> = Vec::new();
        assert(changes.deep_view() =~= seq![]);
        return Some(ShareReply { changes, outcome: Err(refuse(401, "unauthorized")) });
    }
    None
}

fn text_of(content: Option<String>) -> (r: String)
    ensures
        r@ == (match content.deep_view() {
            Some(c) => c,
            None => Seq::empty(),
        }),
{
    match content {
        Some(c) => c,
        None => String::new(),
    }
}

/// Answers a visitor's request to see the contents of an item.
pub fn share_file(
    found: Option<(ShareLink, SharedFile)>,
    cookie: Option<&str>,
    now: i64,
) -> (r: ShareReply)
    ensures
        match found.deep_view() {
            None => r.deep_view() == turned_away(None, cookie.deep_view(), now)->0,
            Some((link, item)) => match turned_away(Some(link), cookie.deep_view(), now) {
                Some(refusal) => r.deep_view() == refusal,
                None => r.deep_view() == shown_file(link, item, now),
            },
        },
{
    let (link, item) = match found {
        Some(f) => f,
        None => {
            let changes: Vec<Change> = Vec::new();
            assert(changes.deep_view() =~= seq![]);
            return ShareReply { changes, outcome: Err(refuse(404, "not found")) };
        },
    };
    if let Some(refusal) = turn_away(&link, cookie, now) {
        return refusal;
    }
    let changes: Vec<Change> = Vec::new();
    assert(changes.deep_view() =~= seq![]);
    if same(item.item_type.as_str(), "TEXT") {
        let mut headers: Vec<Header> = Vec::new();
        headers.push(header(HeaderName::ContentType, "text/plain; charset=utf-8"));
        assert(headers.deep_view() =~= seq![
            (HeaderName::ContentType, "text/plain; charset=utf-8"@),
        ]);
        let once_open: Vec<Change> = Vec::new();
        assert(once_open.deep_view() =~= seq![]);
        let body = Body::Text(text_of(item.content));
        return ShareReply { changes, outcome: Ok(Delivery { headers, body, once_open }) };
    }
    let headers = file_headers(&item.file, "inline");
    match file_body(item.file) {
        Some(body) => {
            let once_open = access(&link, now);
            ShareReply { changes, outcome: Ok(Delivery { headers, body, once_open }) }
        },
        None => ShareReply { changes, outcome: Err(refuse(404, "missing content")) },
    }
}

/// Answers a visitor's request to download the contents of an item.
pub fn share_download(
    found: Option<(ShareLink, SharedFile)>,
    cookie: Option<&str>,
    now: i64,
) -> (r: ShareReply)
    ensures
        match found.deep_view() {
            None => r.deep_view() == turned_away(None, cookie.deep_view(), now)->0,
            Some((link, item)) => match turned_away(Some(link), cookie.deep_view(), now) {
                Some(refusal) => r.deep_view() == refusal,
                None => r.deep_view() == downloaded_file(link, item, now),
            },
        },
{
    let (link, item) = match found {
        Some(f) => f,
        None => {
            let changes: Vec<Change> = Vec::new();
            assert(changes.deep_view() =~= seq![]);
            return ShareReply { changes, outcome: Err(refuse(404, "not found")) };
        },
    };
    if let Some(refusal) = turn_away(&link, cookie, now) {
        return refusal;
    }
    let changes = access(&link, now);
    let once_open: Vec<Change> = Vec::new();
    assert(once_open.deep_view() =~= seq![]);
    if same(item.item_type.as_str(), "TEXT") {
        let mut name = match item.file.file_name {
            Some(n) => n,
            None => "download".to_owned(),
        };
        name.append(".txt");
        let mut headers: Vec<Header> = Vec::new();
        headers.push(header(HeaderName::ContentType, "text/plain; charset=utf-8"));
        headers.push(Header {
            name: HeaderName::ContentDisposition,
            value: disposition("attachment", name.as_str()),
        });
        assert(headers.deep_view() =~= seq![
            (HeaderName::ContentType, "text/plain; charset=utf-8"@),
            (HeaderName::ContentDisposition, disposition_of("attachment"@, name@)),
        ]);
        let body = Body::Text(text_of(item.content));
        return ShareReply { changes, outcome: Ok(Delivery { headers, body, once_open }) };
    }
    let headers = file_headers(&item.file, "attachment");
    match file_body(item.file) {
        Some(body) => ShareReply { changes, outcome: Ok(Delivery { headers, body, once_open }) },
        None => ShareReply { changes, outcome: Err(refuse(404, "missing content")) },
    }
}

/// The `Set-Cookie` value for a visitor who gave the link's password.
pub open spec fn share_set_cookie(
    token: Seq<char>,
    hash: Seq<char>,
    forwarded_proto: Option<Seq<char>>,
) -> Seq<char> {
    share_cookie_of(token, hash) + "; Max-Age=604800; Path=/; SameSite=Lax; HttpOnly"@
        + if scheme_of(forwarded_proto) == "https"@ {
        "; Secure"@
    } else {
        ""@
    }
}

/// Checks the password that a visitor gave for a link. `stored` is the link's
/// password hash, absent where the link is unknown or has no password.
pub fn share_verify(
    stored: Option<String>,
    password: &str,
    token: &str,
    forwarded_proto: Option<&str>,
) -> (r: Result<String, Refusal>)
    ensures
        match stored {
            None => r matches Err(e) && e.deep_view() == (400u16, "no password set"@),
            Some(hash) => if password_hash_of(password@, token@) != hash@ {
                r matches Err(e) && e.deep_view() == (401u16, "invalid password"@)
            } else {
                r matches Ok(c) && c@ == share_set_cookie(
                    token@,
                    hash@,
                    forwarded_proto.deep_view(),
                )
            },
        },
{
    let expected = match stored {
        Some(h) => h,
        None => {
            return Err(refuse(400, "no password set"));
        },
    };
    let given = password_hash(password, token);
    if !same(given.as_str(), expected.as_str()) {
        return Err(refuse(401, "invalid password"));
    }
    let secure = same(request_scheme(forwarded_proto).as_str(), "https");
    let mut cookie = share_cookie(token, expected.as_str());
    cookie.append("; Max-Age=604800; Path=/; SameSite=Lax; HttpOnly");
    cookie.append(
        if secure {
            "; Secure"
        } else {
            ""
        },
    );
    Ok(cookie)
}

/// The cookie of a link with a token of the server's own making can stand in a
/// `Cookie` header as it is.
pub proof fn lemma_share_cookie_plain(token: Seq<char>, password: Seq<char>)
    requires
        is_token(token),
    ensures
        ({
            let c = share_cookie_of(token, password_hash_of(password, token));
            &&& !c.contains(';')
            &&& c.len() > 0
            &&& !is_white(c.first())
            &&& !is_white(c.last())
        }),
{
    let hash = password_hash_of(password, token);
    let c = share_cookie_of(token, hash);
    reveal_strlit("share_auth_");
    reveal_strlit("=");
    tokens_are_url_safe(token);
    hashes_are_hexadecimal(password, token);
    assert forall|i: int| 0 <= i < c.len() implies #[trigger] c[i] != ';' && !is_white(c[i]) by {
        if i < 11 {
            assert(c[i] == "share_auth_"@[i]);
        } else if i < 35 {
            assert(c[i] == token[i - 11]);
        } else if i == 35 {
            assert(c[i] == "="@[0]);
        } else {
            assert(c[i] == hash[i - 36]);
        }
    }
    assert(c.first() == c[0]);
    assert(c.last() == c[c.len() - 1]);
}

/// Who gives the password that a link was stored with is let in: the password is
/// accepted, what the browser keeps of the answer is the link's cookie, and with
/// that cookie, alone or among others, the contents may be read.
pub proof fn right_password_opens_the_link(
    link: ShareLinkView,
    password: Seq<char>,
    forwarded_proto: Option<Seq<char>>,
    before: Option<Seq<char>>,
    behind: Option<Seq<char>>,
)
    requires
        is_token(link.token),
        link.password_hash == Some(password_hash_of(password, link.token)),
    ensures
        ({
            let hash = link.password_hash->0;
            let kept = split_of(share_set_cookie(link.token, hash, forwarded_proto), ';')[0];
            &&& kept == share_cookie_of(link.token, hash)
            &&& may_read(link, Some(carrying(kept, before, behind)))
        }),
{
    let hash = link.password_hash->0;
    let cookie = share_cookie_of(link.token, hash);
    lemma_share_cookie_plain(link.token, password);
    let base = "; Max-Age=604800; Path=/; SameSite=Lax; HttpOnly"@;
    let tail = if scheme_of(forwarded_proto) == "https"@ {
        "; Secure"@
    } else {
        ""@
    };
    reveal_strlit("; Max-Age=604800; Path=/; SameSite=Lax; HttpOnly");
    assert(share_set_cookie(link.token, hash, forwarded_proto) =~= cookie + (base + tail));
    browsers_return_the_first_part(cookie, base + tail);
    carried_cookies_are_found(cookie, before, behind);
}

/// Nothing is read through a link with a password by a visitor without its
/// cookie, and nothing through a link that no longer works by anyone: the
/// request is refused and hands out nothing.
pub proof fn closed_links_hand_out_nothing(
    link: ShareLinkView,
    cookie: Option<Seq<char>>,
    now: i64,
)
    requires
        !link.limits.live(now) || (link.password_hash is Some && cookie is None),
    ensures
        turned_away(Some(link), cookie, now) matches Some(refusal) && refusal.outcome is Err,
{
}

} // verus!

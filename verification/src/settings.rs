//! The owner's side of sharing: reading and changing the settings of an item's
//! link.

use crate::clock::{iso_of, opt_epoch_to_iso};
use crate::share::ShareLimits;
use crate::store::{Change, ChangeView, LinkSettings, SettingsView};
use crate::text::{trim, trim_of};
use crate::token::{is_token, new_token, password_hash, password_hash_of};
use vstd::prelude::*;

verus! {

/// The page under which a link opens.
pub open spec fn share_url_of(token: Seq<char>) -> Seq<char> {
    "/s/?token="@ + token
}

/// The page under which a link opens.
pub fn share_url(token: &str) -> (r: String)
    ensures
        r@ == share_url_of(token@),
{
    let mut r = "/s/?token=".to_owned();
    r.append(token);
    r
}

/// A password counts only where it is more than white space.
pub open spec fn effective_password(p: Option<Seq<char>>) -> Option<Seq<char>> {
    match p {
        Some(s) if trim_of(s).len() > 0 => Some(s),
        _ => None,
    }
}

/// The hash that is stored for the password of a link.
pub open spec fn stored_hash(password: Option<Seq<char>>, token: Seq<char>) -> Option<Seq<char>> {
    match effective_password(password) {
        Some(p) => Some(password_hash_of(p, token)),
        None => None,
    }
}

/// The password as it is stored, and its hash.
pub fn stored_password(password: &Option<String>, token: &str) -> (r: (Option<String>, Option<String>))
    ensures
        r.0.deep_view() == effective_password(password.deep_view()),
        r.1.deep_view() == stored_hash(password.deep_view(), token@),
{
    match password {
        Some(p) => {
            let trimmed = trim(p.as_str());
            if trimmed.as_str().is_empty() {
                (None, None)
            } else {
                let hash = password_hash(p.as_str(), token);
                (Some(p.clone()), Some(hash))
            }
        },
        None => (None, None),
    }
}

/// The absolute time at which a link ends, for a duration in seconds. Zero and
/// negative durations mean that it never ends.
pub open spec fn end_of(expires_in: Option<i64>, now: i64) -> Option<i64> {
    match expires_in {
        Some(sec) if sec > 0 => Some((now + sec) as i64),
        _ => None,
    }
}

/// Whether the end of a link is a representable timestamp.
pub open spec fn end_fits(expires_in: Option<i64>, now: i64) -> bool {
    expires_in matches Some(sec) ==> now + sec <= i64::MAX
}

/// The absolute time at which a link ends.
pub fn expiry(expires_in: Option<i64>, now: i64) -> (r: Option<i64>)
    requires
        end_fits(expires_in, now),
    ensures
        r == end_of(expires_in, now),
{
    match expires_in {
        Some(sec) => if sec > 0 {
            Some(now + sec)
        } else {
            None
        },
        None => None,
    }
}

/// The latest link of an item, as its owner's request finds it.
#[derive(Debug)]
pub struct OwnLink {
    pub token: String,
    pub limits: ShareLimits,
    pub password_hash: Option<String>,
    pub password_plain: Option<String>,
}

/// What the owner of an item is told of its link.
#[derive(Debug)]
pub struct ShareView {
    pub token: String,
    pub url: String,
    pub expires_at: Option<String>,
    pub max_downloads: Option<i64>,
    pub download_count: i64,
    pub requires_password: bool,
    pub password: Option<String>,
}

/// The answer to an owner's request for an item's link, and what the request
/// changes.
#[derive(Debug)]
pub struct OwnLinkReply {
    pub changes: Vec<Change>,
    pub view: ShareView,
}

/// Whether the owner is handed the link that was found. Otherwise the item
/// gets a new one.
pub open spec fn keeps_link(found: Option<OwnLink>, now: i64) -> bool {
    found matches Some(l) && l.token@.len() > 0 && l.limits.live(now)
}

/// The answer to an owner's request for an item's link, where `fresh` is the
/// token of a new link if one is needed. A new link has no limits and no
/// password; the password text of a link that was replaced is still told.
pub open spec fn own_link_answer(
    found: Option<OwnLink>,
    item_id: Seq<char>,
    now: i64,
    fresh: Seq<char>,
    r: OwnLinkReply,
) -> bool {
    let v = r.view;
    &&& v.url@ == share_url_of(v.token@)
    &&& v.password.deep_view() == (match found {
        Some(l) => l.password_plain.deep_view(),
        None => None,
    })
    &&& if keeps_link(found, now) {
        let l = found->0;
        &&& v.token@ == l.token@
        &&& iso_of(l.limits.expires_at, v.expires_at.deep_view())
        &&& v.max_downloads == l.limits.max_downloads
        &&& v.download_count == l.limits.download_count
        &&& v.requires_password == l.password_hash is Some
        &&& r.changes.deep_view() == Seq::<ChangeView>::empty()
    } else {
        &&& v.token@ == fresh
        &&& v.expires_at is None
        &&& v.max_downloads is None
        &&& v.download_count == 0
        &&& !v.requires_password
        &&& r.changes.deep_view() == seq![
            ChangeView::ProvisionLink { token: fresh, item_id, now },
        ]
    }
}

/// Answers an owner's request for an item's link; `fresh` is the token of a new
/// link if one is needed.
pub fn own_link(found: Option<OwnLink>, item_id: &str, now: i64, fresh: String) -> (r: OwnLinkReply)
    ensures
        own_link_answer(found, item_id@, now, fresh@, r),
{
    let mut changes: Vec<Change> = Vec::new();
    let password;
    if let Some(link) = found {
        password = link.password_plain;
        if !link.token.as_str().is_empty() && link.limits.is_live(now) {
            assert(changes.deep_view() =~= Seq::<ChangeView>::empty());
            let url = share_url(link.token.as_str());
            return OwnLinkReply {
                changes,
                view: ShareView {
                    token: link.token,
                    url,
                    expires_at: opt_epoch_to_iso(link.limits.expires_at),
                    max_downloads: link.limits.max_downloads,
                    download_count: link.limits.download_count,
                    requires_password: link.password_hash.is_some(),
                    password,
                },
            };
        }
    } else {
        password = None;
    }
    changes.push(
        Change::ProvisionLink { token: fresh.clone(), item_id: item_id.to_owned(), now },
    );
    assert(changes.deep_view() =~= seq![
        ChangeView::ProvisionLink { token: fresh@, item_id: item_id@, now },
    ]);
    let url = share_url(fresh.as_str());
    OwnLinkReply {
        changes,
        view: ShareView {
            token: fresh,
            url,
            expires_at: None,
            max_downloads: None,
            download_count: 0,
            requires_password: false,
            password,
        },
    }
}

/// Answers an owner's request for an item's link. An item without a working
/// link gets a new one that never ends.
pub fn get_item_share(found: Option<OwnLink>, item_id: &str, now: i64) -> (r: OwnLinkReply)
    ensures
        exists|fresh: Seq<char>| is_token(fresh) && own_link_answer(found, item_id@, now, fresh, r),
{
    let fresh = new_token();
    let ghost token = fresh@;
    let r = own_link(found, item_id, now, fresh);
    assert(is_token(token) && own_link_answer(found, item_id@, now, token, r));
    r
}

/// A request for other settings of an item's link.
#[derive(Debug)]
pub struct ShareUpdate {
    pub expires_in: Option<i64>,
    pub max_downloads: Option<i64>,
    pub password: Option<String>,
    pub reset: Option<bool>,
    pub disable: Option<bool>,
}

/// What a change of settings needs to know of the item's latest link.
#[derive(Debug)]
pub struct CurrentLink {
    pub token: String,
    pub max_downloads: Option<i64>,
}

/// What a request for other settings does: the changes, and the token of the
/// link as it is afterwards. `None` where sharing was switched off.
#[derive(Debug)]
pub struct UpdatePlan {
    pub changes: Vec<Change>,
    pub token: Option<String>,
}

/// The token of the link that a request changes.
pub open spec fn changed_token(current: Option<CurrentLink>, fresh: Seq<char>) -> Seq<char> {
    match current {
        Some(c) => c.token@,
        None => fresh,
    }
}

/// The settings that a request leaves in the link that then has this token.
/// What the request leaves open is cleared, but for the maximum, which stays.
pub open spec fn new_settings(
    current: Option<CurrentLink>,
    req: ShareUpdate,
    token: Seq<char>,
    now: i64,
) -> SettingsView {
    SettingsView {
        expires_at: end_of(req.expires_in, now),
        max_downloads: match req.max_downloads {
            Some(m) => Some(m),
            None => match current {
                Some(c) => c.max_downloads,
                None => None,
            },
        },
        password_hash: stored_hash(req.password.deep_view(), token),
        password_plain: effective_password(req.password.deep_view()),
        now,
    }
}

/// The new link that an item without one gets first.
pub open spec fn first_link(
    current: Option<CurrentLink>,
    item_id: Seq<char>,
    now: i64,
    fresh: Seq<char>,
) -> Seq<ChangeView> {
    if current is None {
        seq![ChangeView::ProvisionLink { token: fresh, item_id, now }]
    } else {
        seq![]
    }
}

/// Whether a request names a setting.
pub open spec fn names_setting(req: ShareUpdate) -> bool {
    req.password is Some || req.expires_in is Some || req.max_downloads is Some
}

/// What a request for other settings does. `fresh` is the token for an item
/// that has no link, `next` the one that replaces a link's token.
pub open spec fn update_plan_of(
    current: Option<CurrentLink>,
    req: ShareUpdate,
    item_id: Seq<char>,
    now: i64,
    fresh: Seq<char>,
    next: Seq<char>,
) -> (Seq<ChangeView>, Option<Seq<char>>) {
    let token = changed_token(current, fresh);
    let first = first_link(current, item_id, now, fresh);
    if req.disable == Some(true) {
        (seq![ChangeView::RevokeLinks { item_id, now }], None)
    } else if req.reset == Some(true) {
        (
            first.push(
                ChangeView::ReplaceLink {
                    old_token: token,
                    token: next,
                    settings: new_settings(current, req, next, now),
                },
            ),
            Some(next),
        )
    } else if names_setting(req) {
        (
            first.push(
                ChangeView::UpdateLink {
                    token,
                    settings: new_settings(current, req, token, now),
                },
            ),
            Some(token),
        )
    } else {
        (first, Some(token))
    }
}

/// Decides what a request for other settings does. `fresh` is the token for an
/// item that has no link, `next` the one that replaces a link's token.
pub fn plan_update(
    current: Option<CurrentLink>,
    req: &ShareUpdate,
    item_id: &str,
    now: i64,
    fresh: String,
    next: String,
) -> (r: UpdatePlan)
    requires
        req.disable == Some(true) || end_fits(req.expires_in, now),
    ensures
        (r.changes.deep_view(), r.token.deep_view()) == update_plan_of(
            current,
            *req,
            item_id@,
            now,
            fresh@,
            next@,
        ),
{
    let mut changes: Vec<Change> = Vec::new();
    if let Some(disable) = req.disable {
        if disable {
            changes.push(Change::RevokeLinks { item_id: item_id.to_owned(), now });
            assert(changes.deep_view() =~= seq![
                ChangeView::RevokeLinks { item_id: item_id@, now },
            ]);
            return UpdatePlan { changes, token: None };
        }
    }
    let ghost first = first_link(current, item_id@, now, fresh@);
    let ghost settings = new_settings(current, *req, changed_token(current, fresh@), now);
    let ghost next_settings = new_settings(current, *req, next@, now);
    let mut max_downloads: Option<i64> = None;
    let token = match current {
        Some(c) => {
            max_downloads = c.max_downloads;
            c.token
        },
        None => {
            changes.push(
                Change::ProvisionLink { token: fresh.clone(), item_id: item_id.to_owned(), now },
            );
            fresh
        },
    };
    assert(changes.deep_view() =~= first);
    if req.max_downloads.is_some() {
        max_downloads = req.max_downloads;
    }
    let expires_at = expiry(req.expires_in, now);
    let reset = match req.reset {
        Some(b) => b,
        None => false,
    };
    if reset {
        let (password_plain, password_hash) = stored_password(&req.password, next.as_str());
        let change = Change::ReplaceLink {
            old_token: token,
            token: next.clone(),
            settings: LinkSettings { expires_at, max_downloads, password_hash, password_plain, now },
        };
        let ghost view = change.deep_view();
        changes.push(change);
        assert(changes.deep_view() =~= first.push(view));
        return UpdatePlan { changes, token: Some(next) };
    }
    if req.password.is_some() || req.expires_in.is_some() || req.max_downloads.is_some() {
        let (password_plain, password_hash) = stored_password(&req.password, token.as_str());
        let change = Change::UpdateLink {
            token: token.clone(),
            settings: LinkSettings { expires_at, max_downloads, password_hash, password_plain, now },
        };
        let ghost view = change.deep_view();
        changes.push(change);
        assert(changes.deep_view() =~= first.push(view));
    }
    UpdatePlan { changes, token: Some(token) }
}

/// Decides what a request for other settings of an item's link does.
pub fn update_item_share(
    current: Option<CurrentLink>,
    req: &ShareUpdate,
    item_id: &str,
    now: i64,
) -> (r: UpdatePlan)
    requires
        req.disable == Some(true) || end_fits(req.expires_in, now),
    ensures
        exists|fresh: Seq<char>, next: Seq<char>|
            is_token(fresh) && is_token(next) && (r.changes.deep_view(), r.token.deep_view())
                == #[trigger] update_plan_of(current, *req, item_id@, now, fresh, next),
{
    let fresh = new_token();
    let next = new_token();
    let ghost f = fresh@;
    let ghost n = next@;
    let r = plan_update(current, req, item_id, now, fresh, next);
    assert(is_token(f) && is_token(n) && (r.changes.deep_view(), r.token.deep_view())
        == update_plan_of(current, *req, item_id@, now, f, n));
    r
}

/// A link as it is read back after a change of its settings.
#[derive(Debug)]
pub struct ReadBack {
    pub expires_at: Option<i64>,
    pub max_downloads: Option<i64>,
    pub download_count: i64,
    pub password_hash: Option<String>,
    pub password_plain: Option<String>,
}

/// Describes a link to its owner after a change; a link that cannot be read
/// back is described as one without limits.
pub fn updated_view(token: String, row: Option<ReadBack>) -> (r: ShareView)
    ensures
        r.token@ == token@,
        r.url@ == share_url_of(token@),
        match row {
            Some(l) => {
                &&& iso_of(l.expires_at, r.expires_at.deep_view())
                &&& r.max_downloads == l.max_downloads
                &&& r.download_count == l.download_count
                &&& r.requires_password == l.password_hash is Some
                &&& r.password.deep_view() == l.password_plain.deep_view()
            },
            None => {
                &&& r.expires_at is None
                &&& r.max_downloads is None
                &&& r.download_count == 0
                &&& !r.requires_password
                &&& r.password is None
            },
        },
{
    let url = share_url(token.as_str());
    match row {
        Some(l) => ShareView {
            token,
            url,
            expires_at: opt_epoch_to_iso(l.expires_at),
            max_downloads: l.max_downloads,
            download_count: l.download_count,
            requires_password: l.password_hash.is_some(),
            password: l.password_plain,
        },
        None => ShareView {
            token,
            url,
            expires_at: None,
            max_downloads: None,
            download_count: 0,
            requires_password: false,
            password: None,
        },
    }
}

/// An owner who asks again is handed the same link, as long as it works, and
/// nothing is changed: `found` is the link that was handed out first, as the
/// next request finds it.
pub proof fn links_are_handed_out_again(
    before: Option<OwnLink>,
    item_id: Seq<char>,
    now: i64,
    fresh: Seq<char>,
    first: OwnLinkReply,
    found: OwnLink,
    later: i64,
    next: Seq<char>,
    again: OwnLinkReply,
)
    requires
        own_link_answer(before, item_id, now, fresh, first),
        found.token@ == first.view.token@,
        found.token@.len() > 0,
        found.limits.live(later),
        own_link_answer(Some(found), item_id, later, next, again),
    ensures
        again.view.token@ == first.view.token@,
        again.view.url@ == first.view.url@,
        again.changes@.len() == 0,
{
    assert(again.changes.deep_view().len() == again.changes@.len());
}

} // verus!

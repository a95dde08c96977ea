//! What becomes of items and links over several requests.

use crate::cookie::{carrying, cookie_holds};
use crate::delivery::{BodyView, DeliveryView, StoredFileView};
use crate::items::{new_weight, reorder_changes, DraftView};
use crate::listing::{listed_after, ItemType, Place};
use crate::owners::has_asked;
use crate::settings::{
    end_fits, names_setting, new_settings, update_plan_of, CurrentLink, ShareUpdate,
};
use crate::share::{
    access_of, cleanup_of, downloaded_file, may_read, meta_counts, right_password_opens_the_link,
    share_set_cookie, shown_file, told_item, turned_away, ShareLimits, ShareLinkView,
    ShareReplyView, SharedFileView, SharedItemView,
};
use crate::store::{lemma_after_one, lemma_after_two, ChangeView, ItemView, LinkView, Store};
use crate::text::{split_of, trim_of};
use crate::token::{is_token, password_hash_of};
use crate::upload::{bytes_of, received, uploads_keep_every_byte, Arrival};
use vstd::prelude::*;

verus! {

/// A link as a visitor's request finds it in the table.
pub open spec fn as_found(token: Seq<char>, link: LinkView) -> ShareLinkView {
    ShareLinkView {
        token,
        item_id: link.item_id,
        limits: ShareLimits {
            expires_at: link.expires_at,
            max_downloads: link.max_downloads,
            download_count: link.download_count as i64,
            revoked: link.revoked as i64,
        },
        password_hash: link.password_hash,
    }
}

/// What a visitor is told of an item, as its request finds it in the table.
pub open spec fn item_as_told(item: ItemView) -> SharedItemView {
    SharedItemView {
        item_type: item.item_type,
        file_name: item.file_name,
        file_size: item.file_size,
        content_type: item.content_type,
        content: item.content,
    }
}

/// The contents of an item, as a visitor's request finds them in the table.
pub open spec fn item_as_file(item: ItemView) -> SharedFileView {
    SharedFileView {
        item_type: item.item_type,
        content: item.content,
        file: StoredFileView {
            file_path: item.file_path,
            inline_data: item.inline_data,
            file_name: item.file_name,
            content_type: item.content_type,
        },
    }
}

/// What a visitor asks of a link.
pub enum Wish {
    /// The description of the share.
    Describe,
    /// The contents, shown in place.
    Show,
    /// The contents, as a download.
    Download,
}

/// A visit to a link: what is asked for, with which `Cookie` header, when, and
/// whether the item's file could be opened, if it has one.
pub struct Visit {
    pub wish: Wish,
    pub cookie: Option<Seq<char>>,
    pub now: i64,
    pub opened: bool,
}

/// The answer to a visit that asks for the contents.
pub open spec fn contents_reply(link: ShareLinkView, item: ItemView, v: Visit) -> ShareReplyView {
    match turned_away(Some(link), v.cookie, v.now) {
        Some(refusal) => refusal,
        None => if v.wish is Show {
            shown_file(link, item_as_file(item), v.now)
        } else {
            downloaded_file(link, item_as_file(item), v.now)
        },
    }
}

/// Whether the body of a delivery is at hand.
pub open spec fn at_hand(d: DeliveryView, opened: bool) -> bool {
    d.body is File ==> opened
}

/// Whether a visit hands out the contents of the item. A description hands out
/// the text that it carries; where the item has none to carry, that it counts.
pub open spec fn hands_out(link: ShareLinkView, item: ItemView, v: Visit) -> bool {
    match v.wish {
        Wish::Describe => link.limits.live(v.now) && (told_item(
            link,
            Some(item_as_told(item)),
            v.cookie,
        ).content is Some || item.content is None && meta_counts(
            link,
            Some(item_as_told(item)),
            v.cookie,
        )),
        _ => contents_reply(link, item, v).outcome matches Ok(d) && at_hand(d, v.opened),
    }
}

/// What a visit changes.
pub open spec fn visit_changes(link: ShareLinkView, item: ItemView, v: Visit) -> Seq<ChangeView> {
    match v.wish {
        Wish::Describe => if !link.limits.live(v.now) {
            cleanup_of(link, v.now)
        } else if meta_counts(link, Some(item_as_told(item)), v.cookie) {
            access_of(link, v.now)
        } else {
            seq![]
        },
        _ => {
            let reply = contents_reply(link, item, v);
            reply.changes + (match reply.outcome {
                Ok(d) if at_hand(d, v.opened) => d.once_open,
                _ => seq![],
            })
        },
    }
}

/// Whether a visit to the link with this token hands out the contents.
pub open spec fn visit_hands_out(s: Store, token: Seq<char>, v: Visit) -> bool {
    s.links.contains_key(token) && hands_out(
        as_found(token, s.links[token]),
        s.items[s.links[token].item_id],
        v,
    )
}

/// The tables after a visit to the link with this token.
pub open spec fn after_visit(s: Store, token: Seq<char>, v: Visit) -> Store {
    if s.links.contains_key(token) {
        s.after_all(
            visit_changes(
                as_found(token, s.links[token]),
                s.items[s.links[token].item_id],
                v,
            ),
        )
    } else {
        s
    }
}

/// The tables after visits to the link with this token, one after the other.
pub open spec fn after_visits(s: Store, token: Seq<char>, visits: Seq<Visit>) -> Store
    decreases visits.len(),
{
    if visits.len() == 0 {
        s
    } else {
        after_visit(after_visits(s, token, visits.drop_last()), token, visits.last())
    }
}

/// Whether the `i`th of these visits, one after the other, hands out the
/// contents.
pub open spec fn is_served(s: Store, token: Seq<char>, visits: Seq<Visit>, i: int) -> bool {
    visit_hands_out(after_visits(s, token, visits.take(i)), token, visits[i])
}

/// How many of these visits, one after the other, hand out the contents.
pub open spec fn handed_out(s: Store, token: Seq<char>, visits: Seq<Visit>) -> nat
    decreases visits.len(),
{
    if visits.len() == 0 {
        0
    } else {
        let before = visits.drop_last();
        if visit_hands_out(after_visits(s, token, before), token, visits.last()) {
            handed_out(s, token, before) + 1
        } else {
            handed_out(s, token, before)
        }
    }
}

/// A link whose counters are those of the table, with a maximum that is not
/// overdrawn.
pub open spec fn limited(link: LinkView, max: i64) -> bool {
    &&& max >= 0
    &&& link.max_downloads == Some(max)
    &&& 0 <= link.download_count <= max
    &&& i64::MIN <= link.revoked <= i64::MAX
}

/// Whether every visit that hands out the contents of this item is counted. Text
/// that is shown in place is not.
pub open spec fn counted_wish(item: ItemView, wish: Wish) -> bool {
    wish is Show ==> item.item_type != "TEXT"@
}

proof fn lemma_access(s: Store, token: Seq<char>, now: i64, max: i64)
    requires
        s.links.contains_key(token),
        limited(s.links[token], max),
        as_found(token, s.links[token]).limits.live(now),
    ensures
        ({
            let after = s.after_all(access_of(as_found(token, s.links[token]), now));
            if s.links[token].download_count + 1 >= max {
                !after.links.contains_key(token) && !after.items.contains_key(
                    s.links[token].item_id,
                )
            } else {
                &&& after.links.contains_key(token)
                &&& after.links[token] == s.links[token].accessed(now)
                &&& after.items == s.items
            }
        }),
{
    let link = as_found(token, s.links[token]);
    let counted = ChangeView::CountAccess { token, now };
    lemma_after_one(s, counted);
    lemma_after_two(s, counted, ChangeView::DeleteItem { id: link.item_id });
}

proof fn lemma_cleanup(s: Store, token: Seq<char>, now: i64)
    requires
        s.links.contains_key(token),
    ensures
        ({
            let link = as_found(token, s.links[token]);
            let after = s.after_all(cleanup_of(link, now));
            if link.limits.expired(now) || link.limits.exhausted() {
                !after.links.contains_key(token) && !after.items.contains_key(link.item_id)
            } else {
                after == s
            }
        }),
{
    let link = as_found(token, s.links[token]);
    lemma_after_one(s, ChangeView::DeleteItem { id: link.item_id });
}

/// What one visit to a limited link leaves of it.
proof fn lemma_visit(s: Store, token: Seq<char>, v: Visit, max: i64)
    requires
        s.links.contains_key(token),
        limited(s.links[token], max),
        counted_wish(s.items[s.links[token].item_id], v.wish),
    ensures
        ({
            let link = s.links[token];
            let after = after_visit(s, token, v);
            let rest = after.links[token];
            &&& visit_hands_out(s, token, v) ==> link.download_count < max
            &&& after.links.contains_key(token) ==> {
                &&& limited(rest, max)
                &&& rest.item_id == link.item_id
                &&& rest.revoked == link.revoked
                &&& rest.expires_at == link.expires_at
                &&& rest.password_hash == link.password_hash
                &&& after.items == s.items
                &&& rest.download_count >= link.download_count
                &&& visit_hands_out(s, token, v) ==> rest.download_count == link.download_count + 1
            }
        }),
{
    let link = as_found(token, s.links[token]);
    let item = s.items[s.links[token].item_id];
    lemma_cleanup(s, token, v.now);
    if link.limits.live(v.now) {
        lemma_access(s, token, v.now, max);
    }
    assert(s.after_all(seq![]) == s);
    let changes = visit_changes(link, item, v);
    let none = Seq::<ChangeView>::empty();
    if !(v.wish is Describe) {
        let reply = contents_reply(link, item, v);
        match reply.outcome {
            Ok(d) => {
                assert(reply.changes + d.once_open =~= access_of(link, v.now));
                assert(reply.changes + none =~= reply.changes);
                if !at_hand(d, v.opened) {
                    assert(changes =~= reply.changes);
                }
            },
            Err(_) => {
                assert(changes =~= reply.changes);
            },
        }
    }
    assert(changes == cleanup_of(link, v.now) || changes =~= none || changes == access_of(
        link,
        v.now,
    ));
}

/// What visits to a limited link leave of it.
proof fn lemma_visits(s: Store, token: Seq<char>, visits: Seq<Visit>, max: i64)
    requires
        s.links.contains_key(token),
        limited(s.links[token], max),
        forall|i: int|
            0 <= i < visits.len() ==> counted_wish(
                s.items[s.links[token].item_id],
                (#[trigger] visits[i]).wish,
            ),
    ensures
        ({
            let after = after_visits(s, token, visits);
            &&& handed_out(s, token, visits) <= max - s.links[token].download_count
            &&& after.links.contains_key(token) ==> {
                &&& limited(after.links[token], max)
                &&& after.links[token].item_id == s.links[token].item_id
                &&& after.items == s.items
                &&& after.links[token].download_count >= s.links[token].download_count
                    + handed_out(s, token, visits)
            }
        }),
    decreases visits.len(),
{
    if visits.len() > 0 {
        let before = visits.drop_last();
        assert forall|i: int| 0 <= i < before.len() implies counted_wish(
            s.items[s.links[token].item_id],
            (#[trigger] before[i]).wish,
        ) by {
            assert(before[i] == visits[i]);
        }
        lemma_visits(s, token, before, max);
        let then = after_visits(s, token, before);
        if then.links.contains_key(token) {
            assert(visits.last() == visits[visits.len() - 1]);
            lemma_visit(then, token, visits.last(), max);
        }
    }
}

/// A link with a maximum hands out the contents of its item at most that many
/// times, counting from how often it was used already, whatever the visitors ask
/// for. Text that is shown in place does not count.
pub proof fn limits_are_kept(s: Store, token: Seq<char>, visits: Seq<Visit>, max: i64)
    requires
        s.links.contains_key(token),
        limited(s.links[token], max),
        forall|i: int|
            0 <= i < visits.len() ==> counted_wish(
                s.items[s.links[token].item_id],
                (#[trigger] visits[i]).wish,
            ),
    ensures
        handed_out(s, token, visits) <= max - s.links[token].download_count,
{
    lemma_visits(s, token, visits, max);
}

/// Whether a visit asks for contents that the item has and that can be handed
/// out: the description of a text, a text as a download, or a file that is at
/// hand.
pub open spec fn asks_for_contents(item: ItemView, v: Visit) -> bool {
    let file_at_hand = match item_as_file(item).file.body() {
        Some(body) => body is File ==> v.opened,
        None => false,
    };
    match v.wish {
        Wish::Describe => item.item_type == "TEXT"@,
        Wish::Show => item.item_type != "TEXT"@ && file_at_hand,
        Wish::Download => item.item_type == "TEXT"@ || file_at_hand,
    }
}

/// Whether a visit comes in time and may read: the link's end is not passed, and
/// the visitor has the link's cookie if it has a password.
pub open spec fn comes_in_time(token: Seq<char>, link: LinkView, v: Visit) -> bool {
    &&& link.expires_at matches Some(e) ==> e >= v.now
    &&& may_read(as_found(token, link), v.cookie)
}

/// One visit to a link that has accesses left.
proof fn lemma_served_visit(s: Store, token: Seq<char>, v: Visit, max: i64)
    requires
        s.links.contains_key(token),
        limited(s.links[token], max),
        s.links[token].revoked == 0,
        s.links[token].download_count < max,
        comes_in_time(token, s.links[token], v),
        asks_for_contents(s.items[s.links[token].item_id], v),
    ensures
        visit_hands_out(s, token, v),
        ({
            let link = s.links[token];
            let after = after_visit(s, token, v);
            if link.download_count + 1 < max {
                &&& after.links.contains_key(token)
                &&& after.links[token] == link.accessed(v.now)
                &&& after.items == s.items
            } else {
                is_gone(after, token, link.item_id)
            }
        }),
{
    let link = as_found(token, s.links[token]);
    let item = s.items[s.links[token].item_id];
    assert(link.limits.live(v.now));
    lemma_access(s, token, v.now, max);
    if !(v.wish is Describe) {
        assert(visit_changes(link, item, v) =~= access_of(link, v.now));
    }
    lemma_after_two(
        s,
        ChangeView::CountAccess { token, now: v.now },
        ChangeView::DeleteItem { id: link.item_id },
    );
}

/// An item and every link to it are gone.
pub open spec fn is_gone(s: Store, token: Seq<char>, item_id: Seq<char>) -> bool {
    &&& !s.links.contains_key(token)
    &&& !s.items.contains_key(item_id)
    &&& forall|t: Seq<char>| #[trigger] s.links.contains_key(t) ==> s.links[t].item_id != item_id
}

/// What visits leave of a limited link, one after the other.
proof fn lemma_served_visits(s: Store, token: Seq<char>, visits: Seq<Visit>, max: i64)
    requires
        s.links.contains_key(token),
        limited(s.links[token], max),
        s.links[token].revoked == 0,
        forall|i: int|
            0 <= i < visits.len() ==> comes_in_time(token, s.links[token], #[trigger] visits[i])
                && asks_for_contents(s.items[s.links[token].item_id], visits[i]),
    ensures
        ({
            let link = s.links[token];
            let left = max - link.download_count;
            let after = after_visits(s, token, visits);
            &&& visits.len() == 0 || visits.len() < left ==> {
                &&& after.links.contains_key(token)
                &&& after.links[token] == (LinkView {
                    download_count: link.download_count + visits.len(),
                    updated_at: after.links[token].updated_at,
                    ..link
                })
                &&& after.items == s.items
            }
            &&& visits.len() > 0 && visits.len() >= left ==> is_gone(after, token, link.item_id)
            &&& handed_out(s, token, visits) == if visits.len() <= left {
                visits.len() as int
            } else {
                left
            }
            &&& visits.len() > 0 ==> (visit_hands_out(
                after_visits(s, token, visits.drop_last()),
                token,
                visits.last(),
            ) <==> visits.len() <= left)
        }),
    decreases visits.len(),
{
    if visits.len() > 0 {
        let link = s.links[token];
        let left = max - link.download_count;
        let before = visits.drop_last();
        let v = visits.last();
        assert forall|i: int| 0 <= i < before.len() implies comes_in_time(
            token,
            s.links[token],
            #[trigger] before[i],
        ) && asks_for_contents(s.items[s.links[token].item_id], before[i]) by {
            assert(before[i] == visits[i]);
        }
        lemma_served_visits(s, token, before, max);
        let then = after_visits(s, token, before);
        assert(v == visits[visits.len() - 1]);
        if before.len() < left {
            assert(comes_in_time(token, then.links[token], v));
            lemma_served_visit(then, token, v, max);
        } else if before.len() == 0 {
            ended_shares_are_removed(s, token, v);
            assert(is_gone(after_visits(s, token, visits), token, link.item_id)) by {
                assert(after_visits(s, token, before) == s);
                lemma_cleanup(s, token, v.now);
                assert(visit_changes(as_found(token, link), s.items[link.item_id], v)
                    =~= cleanup_of(as_found(token, link), v.now));
            }
        }
    }
}

/// A link with a maximum that is switched on is used to the full by visitors who
/// come in time, may read and ask for the contents: it is exactly the first
/// visits that are handed them, as many as the link has left. With the last of
/// these, or with the first visit where none is left, the item is gone and every
/// link to it.
pub proof fn limits_are_used_to_the_full(s: Store, token: Seq<char>, visits: Seq<Visit>, max: i64)
    requires
        s.links.contains_key(token),
        limited(s.links[token], max),
        s.links[token].revoked == 0,
        forall|i: int|
            0 <= i < visits.len() ==> comes_in_time(token, s.links[token], #[trigger] visits[i])
                && asks_for_contents(s.items[s.links[token].item_id], visits[i]),
    ensures
        ({
            let left = max - s.links[token].download_count;
            let after = after_visits(s, token, visits);
            &&& forall|i: int|
                0 <= i < visits.len() ==> (#[trigger] is_served(s, token, visits, i) <==> i < left)
            &&& handed_out(s, token, visits) == if visits.len() <= left {
                visits.len() as int
            } else {
                left
            }
            &&& visits.len() > 0 && visits.len() >= left ==> is_gone(
                after,
                token,
                s.links[token].item_id,
            )
            &&& visits.len() < left ==> after.items == s.items && after.links.contains_key(token)
        }),
{
    lemma_served_visits(s, token, visits, max);
    let left = max - s.links[token].download_count;
    assert forall|i: int| 0 <= i < visits.len() implies (#[trigger] is_served(s, token, visits, i)
        <==> i < left) by {
        let first = visits.take(i + 1);
        assert forall|k: int| 0 <= k < first.len() implies comes_in_time(
            token,
            s.links[token],
            #[trigger] first[k],
        ) && asks_for_contents(s.items[s.links[token].item_id], first[k]) by {
            assert(first[k] == visits[k]);
        }
        lemma_served_visits(s, token, first, max);
        assert(first.drop_last() =~= visits.take(i));
        assert(first.last() == visits[i]);
    }
}

/// The first visit to a link whose time is over, or that was used as often as it
/// may be, hands out nothing and removes the item with every link to it.
pub proof fn ended_shares_are_removed(s: Store, token: Seq<char>, v: Visit)
    requires
        s.links.contains_key(token),
        ({
            let limits = as_found(token, s.links[token]).limits;
            limits.expired(v.now) || limits.exhausted()
        }),
    ensures
        !visit_hands_out(s, token, v),
        ({
            let after = after_visit(s, token, v);
            &&& !after.items.contains_key(s.links[token].item_id)
            &&& forall|t: Seq<char>| #[trigger]
                after.links.contains_key(t) ==> after.links[t].item_id != s.links[token].item_id
        }),
{
    let link = as_found(token, s.links[token]);
    lemma_after_one(s, ChangeView::DeleteItem { id: link.item_id });
    assert(visit_changes(link, s.items[link.item_id], v) =~= cleanup_of(link, v.now));
}

/// The tables after an item was created.
pub open spec fn after_creation(
    s: Store,
    draft: DraftView,
    id: Seq<char>,
    token: Seq<char>,
    weight: i64,
    now: i64,
) -> Store {
    s.after_all(
        seq![
            ChangeView::InsertItem { id, item: draft.item(weight, now) },
            ChangeView::InsertLink { token, link: draft.link(id, token, now) },
        ],
    )
}

/// A new item is there after its creation, and its link works at once, unless it
/// allows no access at all.
pub proof fn created_items_are_shared(
    s: Store,
    draft: DraftView,
    id: Seq<char>,
    token: Seq<char>,
    weight: i64,
    now: i64,
)
    requires
        !s.items.contains_key(id),
        !s.links.contains_key(token),
        end_fits(draft.share_expires_in, now),
    ensures
        ({
            let after = after_creation(s, draft, id, token, weight, now);
            &&& after.items.contains_key(id)
            &&& after.items[id] == draft.item(weight, now)
            &&& after.links.contains_key(token)
            &&& after.links[token] == draft.link(id, token, now)
            &&& as_found(token, after.links[token]).limits.live(now)
                <==> draft.share_max_downloads != Some(0i64)
        }),
{
    lemma_after_two(
        s,
        ChangeView::InsertItem { id, item: draft.item(weight, now) },
        ChangeView::InsertLink { token, link: draft.link(id, token, now) },
    );
}

/// Once the owner has switched sharing off, no link to the item works: every
/// visitor is turned away, at any time and with any cookie.
pub proof fn switched_off_links_stay_closed(
    s: Store,
    current: Option<CurrentLink>,
    req: ShareUpdate,
    item_id: Seq<char>,
    now: i64,
    fresh: Seq<char>,
    next: Seq<char>,
    token: Seq<char>,
    cookie: Option<Seq<char>>,
    later: i64,
)
    requires
        req.disable == Some(true),
        s.links.contains_key(token),
        s.links[token].item_id == item_id,
        i64::MIN <= s.links[token].revoked <= i64::MAX,
    ensures
        ({
            let after = s.after_all(update_plan_of(current, req, item_id, now, fresh, next).0);
            &&& after.links.contains_key(token)
            &&& turned_away(Some(as_found(token, after.links[token])), cookie, later) is Some
        }),
{
    lemma_after_one(s, ChangeView::RevokeLinks { item_id, now });
}

/// Whether a row of the link table has what a request asked for.
pub open spec fn as_asked(
    link: LinkView,
    req: ShareUpdate,
    max_before: Option<i64>,
    token: Seq<char>,
    now: i64,
) -> bool {
    &&& has_asked(
        link.expires_at,
        link.max_downloads,
        link.password_plain,
        link.password_hash,
        req,
        max_before,
        token,
        now,
    )
    &&& link.updated_at == now
}

/// Other settings are there after a request for them: the link has the end, the
/// maximum and the password that the request asked for, and a maximum that the
/// request left open stays. How often the link was used stays too.
pub proof fn settings_are_kept(
    s: Store,
    current: CurrentLink,
    req: ShareUpdate,
    item_id: Seq<char>,
    now: i64,
    fresh: Seq<char>,
    next: Seq<char>,
)
    requires
        req.disable != Some(true),
        req.reset != Some(true),
        names_setting(req),
        s.links.contains_key(current.token@),
        s.links[current.token@].max_downloads == current.max_downloads,
    ensures
        ({
            let token = current.token@;
            let before = s.links[token];
            let after = s.after_all(update_plan_of(Some(current), req, item_id, now, fresh, next).0);
            let link = after.links[token];
            &&& after.links.contains_key(token)
            &&& as_asked(link, req, before.max_downloads, token, now)
            &&& link.download_count == before.download_count
            &&& link.item_id == before.item_id
            &&& link.revoked == before.revoked
            &&& link.created_at == before.created_at
            &&& after.items == s.items
            &&& forall|t: Seq<char>|
                t != token ==> (#[trigger] after.links.contains_key(t) <==> s.links.contains_key(t))
                    && after.links[t] == s.links[t]
        }),
{
    let change = ChangeView::UpdateLink {
        token: current.token@,
        settings: new_settings(Some(current), req, current.token@, now),
    };
    assert(update_plan_of(Some(current), req, item_id, now, fresh, next).0 =~= seq![change]);
    lemma_after_one(s, change);
}

/// A reset link has another token, with the end, the maximum and the password that
/// the request asked for, or the old maximum where it asked for none; its item
/// and how often it was used stay. Under its old token nothing is found any
/// more, and every other link is as it was.
pub proof fn reset_links_move(
    s: Store,
    current: CurrentLink,
    req: ShareUpdate,
    item_id: Seq<char>,
    now: i64,
    fresh: Seq<char>,
    next: Seq<char>,
)
    requires
        req.disable != Some(true),
        req.reset == Some(true),
        s.links.contains_key(current.token@),
        !s.links.contains_key(next),
    ensures
        ({
            let before = s.links[current.token@];
            let plan = update_plan_of(Some(current), req, item_id, now, fresh, next);
            let after = s.after_all(plan.0);
            &&& plan.1 == Some(next)
            &&& !after.links.contains_key(current.token@)
            &&& after.links.contains_key(next)
            &&& as_asked(after.links[next], req, current.max_downloads, next, now)
            &&& after.links[next].item_id == before.item_id
            &&& after.links[next].download_count == before.download_count
            &&& after.links[next].revoked == before.revoked
            &&& after.links[next].created_at == before.created_at
            &&& after.items == s.items
            &&& forall|t: Seq<char>|
                t != current.token@ && t != next ==> (#[trigger] after.links.contains_key(t)
                    <==> s.links.contains_key(t)) && after.links[t] == s.links[t]
        }),
{
    let change = ChangeView::ReplaceLink {
        old_token: current.token@,
        token: next,
        settings: new_settings(Some(current), req, next, now),
    };
    assert(update_plan_of(Some(current), req, item_id, now, fresh, next).0 =~= seq![change]);
    lemma_after_one(s, change);
}

/// An item without a link has one after a request for settings of it, with the
/// settings that the request asked for.
pub proof fn settings_make_a_link(
    s: Store,
    req: ShareUpdate,
    item_id: Seq<char>,
    now: i64,
    fresh: Seq<char>,
    next: Seq<char>,
)
    requires
        req.disable != Some(true),
        s.items.contains_key(item_id),
        !s.links.contains_key(fresh),
        !s.links.contains_key(next),
        fresh != next,
    ensures
        ({
            let plan = update_plan_of(None, req, item_id, now, fresh, next);
            let after = s.after_all(plan.0);
            let token = plan.1->0;
            &&& plan.1 is Some
            &&& after.links.contains_key(token)
            &&& after.links[token].item_id == item_id
            &&& after.links[token].download_count == 0
            &&& after.links[token].revoked == 0
            &&& after.links[token].created_at == now
            &&& token == if req.reset == Some(true) {
                next
            } else {
                fresh
            }
            &&& as_asked(after.links[token], req, None, token, now)
        }),
{
    let first = ChangeView::ProvisionLink { token: fresh, item_id, now };
    let plan = update_plan_of(None, req, item_id, now, fresh, next).0;
    lemma_after_one(s, first);
    if req.reset == Some(true) {
        let change = ChangeView::ReplaceLink {
            old_token: fresh,
            token: next,
            settings: new_settings(None, req, next, now),
        };
        assert(plan =~= seq![first, change]);
        lemma_after_two(s, first, change);
    } else if names_setting(req) {
        let change = ChangeView::UpdateLink {
            token: fresh,
            settings: new_settings(None, req, fresh, now),
        };
        assert(plan =~= seq![first, change]);
        lemma_after_two(s, first, change);
    } else {
        assert(plan =~= seq![first]);
    }
}

proof fn lemma_reorder_step(
    s: Store,
    ids: Seq<Seq<char>>,
    max_weight: i64,
    now: i64,
    n: int,
    id: Seq<char>,
)
    requires
        0 <= n <= ids.len(),
        ids.no_duplicates(),
    ensures
        ({
            let after = s.after_all(reorder_changes(ids, max_weight, now).take(n));
            &&& after.links == s.links
            &&& after.items.contains_key(id) == s.items.contains_key(id)
            &&& (forall|i: int| 0 <= i < n ==> ids[i] != id) ==> after.items[id] == s.items[id]
            &&& forall|i: int|
                0 <= i < n && #[trigger] ids[i] == id && s.items.contains_key(id)
                    ==> after.items[id] == (ItemView {
                    sort_weight: new_weight(max_weight, ids.len() as int, i),
                    updated_at: now,
                    ..s.items[id]
                })
        }),
    decreases n,
{
    let all = reorder_changes(ids, max_weight, now);
    if n > 0 {
        lemma_reorder_step(s, ids, max_weight, now, n - 1, id);
        assert(all.take(n).drop_last() =~= all.take(n - 1));
        assert(all.take(n).last() == all[n - 1]);
        if ids[n - 1] == id {
            assert forall|i: int| 0 <= i < n - 1 implies ids[i] != id by {
                assert(ids[i] != ids[n - 1]);
            }
        }
    } else {
        assert(all.take(0) =~= Seq::empty());
    }
}

/// Reordered items get weights above every weight that there was, the earlier of
/// two the higher one; nothing else about them changes, and nothing about any
/// other item or link.
pub proof fn reordering_moves_to_the_top(
    s: Store,
    ids: Seq<Seq<char>>,
    max_weight: i64,
    now: i64,
)
    requires
        ids.no_duplicates(),
        max_weight + ids.len() <= i64::MAX,
        forall|i: int| 0 <= i < ids.len() ==> s.items.contains_key(#[trigger] ids[i]),
        forall|id: Seq<char>| #[trigger]
            s.items.contains_key(id) ==> s.items[id].sort_weight <= max_weight,
    ensures
        ({
            let after = s.after_all(reorder_changes(ids, max_weight, now));
            &&& after.links == s.links
            &&& forall|id: Seq<char>| #[trigger]
                after.items.contains_key(id) == s.items.contains_key(id)
            &&& forall|id: Seq<char>|
                !ids.contains(id) ==> #[trigger] after.items[id] == s.items[id]
            &&& forall|i: int|
                0 <= i < ids.len() ==> #[trigger] after.items[ids[i]] == (ItemView {
                    sort_weight: new_weight(max_weight, ids.len() as int, i),
                    updated_at: now,
                    ..s.items[ids[i]]
                })
            &&& forall|i: int, j: int|
                0 <= i < j < ids.len() ==> #[trigger] after.items[ids[i]].sort_weight
                    > #[trigger] after.items[ids[j]].sort_weight
            &&& forall|i: int, id: Seq<char>|
                0 <= i < ids.len() && !ids.contains(id) && after.items.contains_key(id) ==> (
                #[trigger] after.items[ids[i]]).sort_weight > (
                #[trigger] after.items[id]).sort_weight
        }),
{
    let all = reorder_changes(ids, max_weight, now);
    let after = s.after_all(all);
    assert(all.take(ids.len() as int) =~= all);
    lemma_reorder_step(s, ids, max_weight, now, ids.len() as int, Seq::empty());
    assert forall|id: Seq<char>| #[trigger]
        after.items.contains_key(id) == s.items.contains_key(id) by {
        lemma_reorder_step(s, ids, max_weight, now, ids.len() as int, id);
    }
    assert forall|id: Seq<char>| !ids.contains(id) implies #[trigger] after.items[id]
        == s.items[id] by {
        lemma_reorder_step(s, ids, max_weight, now, ids.len() as int, id);
        assert forall|i: int| 0 <= i < ids.len() implies ids[i] != id by {
            if ids[i] == id {
                assert(ids.contains(id));
            }
        }
    }
    assert forall|i: int| 0 <= i < ids.len() implies #[trigger] after.items[ids[i]] == (ItemView {
        sort_weight: new_weight(max_weight, ids.len() as int, i),
        updated_at: now,
        ..s.items[ids[i]]
    }) by {
        lemma_reorder_step(s, ids, max_weight, now, ids.len() as int, ids[i]);
    }
}

/// Where an item stands in the listing.
pub open spec fn place_of(id: Seq<char>, item: ItemView) -> Place {
    Place { sort_weight: item.sort_weight, created_at: item.created_at, id }
}

/// A new item is listed before everything that was there.
pub proof fn new_items_come_first(
    s: Store,
    draft: DraftView,
    id: Seq<char>,
    max_weight: i64,
    now: i64,
    other: Seq<char>,
)
    requires
        max_weight < i64::MAX,
        s.items.contains_key(other),
        s.items[other].sort_weight <= max_weight,
    ensures
        listed_after(
            place_of(other, s.items[other]),
            place_of(id, draft.item((max_weight + 1) as i64, now)),
        ),
{
}

/// Reordered items are listed first, in the order in which they were given.
pub proof fn reordered_items_come_first(
    s: Store,
    ids: Seq<Seq<char>>,
    max_weight: i64,
    now: i64,
    i: int,
    other: Seq<char>,
)
    requires
        ids.no_duplicates(),
        max_weight + ids.len() <= i64::MAX,
        forall|k: int| 0 <= k < ids.len() ==> s.items.contains_key(#[trigger] ids[k]),
        forall|id: Seq<char>| #[trigger]
            s.items.contains_key(id) ==> s.items[id].sort_weight <= max_weight,
        0 <= i < ids.len(),
        s.items.contains_key(other),
        forall|k: int| 0 <= k <= i ==> ids[k] != other,
    ensures
        ({
            let after = s.after_all(reorder_changes(ids, max_weight, now));
            listed_after(
                place_of(other, after.items[other]),
                place_of(ids[i], after.items[ids[i]]),
            )
        }),
{
    let after = s.after_all(reorder_changes(ids, max_weight, now));
    reordering_moves_to_the_top(s, ids, max_weight, now);
    assert(after.items.contains_key(other) == s.items.contains_key(other));
    assert(after.items[ids[i]].sort_weight == new_weight(max_weight, ids.len() as int, i));
    if ids.contains(other) {
        let j = choose|j: int| 0 <= j < ids.len() && ids[j] == other;
        assert(after.items[ids[j]].sort_weight == new_weight(max_weight, ids.len() as int, j));
    }
}

/// Whether a link is the one that the owner of an item is shown: none of the
/// item's links is younger.
pub open spec fn is_latest(s: Store, item_id: Seq<char>, token: Seq<char>) -> bool {
    &&& s.links.contains_key(token)
    &&& s.links[token].item_id == item_id
    &&& forall|t: Seq<char>| #[trigger]
        s.links.contains_key(t) && s.links[t].item_id == item_id ==> s.links[t].created_at
            <= s.links[token].created_at
}

/// The link that an item gets on its owner's request works from then on, for
/// everyone and without an end, and is the one that the owner is shown.
pub proof fn provisioned_links_work(
    s: Store,
    item_id: Seq<char>,
    token: Seq<char>,
    now: i64,
    cookie: Option<Seq<char>>,
    later: i64,
)
    requires
        s.items.contains_key(item_id),
        !s.links.contains_key(token),
        forall|t: Seq<char>| #[trigger]
            s.links.contains_key(t) && s.links[t].item_id == item_id ==> s.links[t].created_at
                <= now,
    ensures
        ({
            let after = s.after_all(seq![ChangeView::ProvisionLink { token, item_id, now }]);
            &&& is_latest(after, item_id, token)
            &&& turned_away(Some(as_found(token, after.links[token])), cookie, later) is None
        }),
{
    lemma_after_one(s, ChangeView::ProvisionLink { token, item_id, now });
}

/// A file that was uploaded is given back byte for byte: what a delivery to a
/// visitor takes its body from are the bytes that came, in the table where they
/// fit there, else in the file that they were written to.
pub proof fn uploads_are_given_back(
    arrivals: Seq<Arrival>,
    draft: DraftView,
    file_name: Option<Seq<char>>,
    content_type: Option<Seq<char>>,
    weight: i64,
    now: i64,
)
    requires
        draft.file_path is None,
    ensures
        ({
            let (upload, disk) = received(arrivals);
            let bytes = bytes_of(arrivals);
            let item = draft.with_file(file_name, content_type, upload).item(weight, now);
            match item_as_file(item).file.body() {
                Some(BodyView::Bytes(b)) => b == bytes,
                Some(BodyView::File(path)) => upload.path == Some(path) && disk == bytes,
                _ => false,
            }
        }),
{
    uploads_keep_every_byte(arrivals);
}

/// Whether a visitor may read a share that was created from a draft: the draft
/// has no password but a blank one, or the visitor sends the cookie that stands
/// for it.
pub open spec fn let_into(draft: DraftView, token: Seq<char>, v: Visit) -> bool {
    let closed = draft.share_password is Some && trim_of(draft.share_password->0).len() > 0;
    closed ==> v.cookie is Some && cookie_holds(
        v.cookie->0,
        "share_auth_"@ + token + "="@ + password_hash_of(draft.share_password->0, token),
    )
}

/// Text that was put in comes out again: right after its creation, a visitor who
/// may read gets exactly the text of the item, in the description, in place and
/// as a download, with or without a password.
pub proof fn texts_are_given_back(
    s: Store,
    draft: DraftView,
    text: Seq<char>,
    id: Seq<char>,
    token: Seq<char>,
    weight: i64,
    now: i64,
    v: Visit,
)
    requires
        !s.items.contains_key(id),
        !s.links.contains_key(token),
        end_fits(draft.share_expires_in, now),
        draft.kind() == ItemType::Text,
        draft.content == Some(text),
        draft.share_max_downloads != Some(0i64),
        let_into(draft, token, v),
        v.now == now,
    ensures
        ({
            let after = after_creation(s, draft, id, token, weight, now);
            let link = as_found(token, after.links[token]);
            let item = after.items[id];
            &&& hands_out(link, item, v)
            &&& v.wish is Describe ==> told_item(
                link,
                Some(item_as_told(item)),
                v.cookie,
            ).content == Some(text)
            &&& !(v.wish is Describe) ==> contents_reply(link, item, v).outcome is Ok
                && contents_reply(link, item, v).outcome->Ok_0.body == BodyView::Text(text)
        }),
{
    created_items_are_shared(s, draft, id, token, weight, now);
}

/// A file comes out again too: right after its creation, a visitor who may read
/// is handed the body that was stored, in place and as a download, with or
/// without a password.
pub proof fn files_are_given_back(
    s: Store,
    draft: DraftView,
    id: Seq<char>,
    token: Seq<char>,
    weight: i64,
    now: i64,
    v: Visit,
)
    requires
        !s.items.contains_key(id),
        !s.links.contains_key(token),
        end_fits(draft.share_expires_in, now),
        draft.kind() != ItemType::Text,
        draft.inline_data is Some || draft.file_path is Some,
        draft.share_max_downloads != Some(0i64),
        let_into(draft, token, v),
        v.now == now,
        !(v.wish is Describe),
    ensures
        ({
            let after = after_creation(s, draft, id, token, weight, now);
            let reply = contents_reply(as_found(token, after.links[token]), after.items[id], v);
            let body = reply.outcome->Ok_0.body;
            &&& reply.outcome is Ok
            &&& draft.file_path is Some ==> body == BodyView::File(draft.file_path->0)
            &&& draft.file_path is None ==> body == BodyView::Bytes(draft.inline_data->0)
        }),
{
    created_items_are_shared(s, draft, id, token, weight, now);
    reveal_strlit("TEXT");
    reveal_strlit("IMAGE");
    reveal_strlit("FILE");
    assert("TEXT"@[0] == 'T' && "IMAGE"@[0] == 'I' && "FILE"@[0] == 'F');
}

/// A share that was created with a password is closed to visitors without its
/// cookie, and open to those who gave the password.
pub proof fn given_passwords_open_the_share(
    s: Store,
    draft: DraftView,
    password: Seq<char>,
    id: Seq<char>,
    token: Seq<char>,
    weight: i64,
    now: i64,
    forwarded_proto: Option<Seq<char>>,
    before: Option<Seq<char>>,
    behind: Option<Seq<char>>,
)
    requires
        !s.items.contains_key(id),
        !s.links.contains_key(token),
        end_fits(draft.share_expires_in, now),
        is_token(token),
        draft.share_password == Some(password),
        draft.password_counts(),
        draft.share_max_downloads != Some(0i64),
    ensures
        ({
            let after = after_creation(s, draft, id, token, weight, now);
            let link = as_found(token, after.links[token]);
            let hash = password_hash_of(password, token);
            let kept = split_of(share_set_cookie(token, hash, forwarded_proto), ';')[0];
            &&& link.password_hash == Some(hash)
            &&& turned_away(Some(link), None, now) is Some
            &&& turned_away(Some(link), Some(carrying(kept, before, behind)), now) is None
        }),
{
    created_items_are_shared(s, draft, id, token, weight, now);
    let after = after_creation(s, draft, id, token, weight, now);
    let link = as_found(token, after.links[token]);
    right_password_opens_the_link(link, password, forwarded_proto, before, behind);
}

} // verus!

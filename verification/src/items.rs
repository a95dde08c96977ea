//! Creating, reordering and deleting clipboard items.

use crate::clock::{epoch_to_iso, is_iso_text, iso_of, opt_epoch_to_iso};
use crate::events::{
    created_event, created_event_of, deleted_event, deleted_event_of, item_fields, item_fields_of,
    reordered_event, reordered_event_of, share_fields, share_fields_of, Event, Field,
};
use crate::listing::ItemType;
use crate::number::{i64_of, parse_i64};
use crate::reply::{refuse, Refusal};
use crate::settings::{
    effective_password, end_fits, end_of, expiry, share_url, share_url_of, stored_hash,
    stored_password,
};
use crate::store::{opt_bytes, Change, ChangeView, ItemView, LinkView, NewItem, NewLink};
use crate::text::{copy_opt, same, trim, trim_of};
use crate::token::{is_token, is_uuid, new_id, new_token};
use crate::upload::{Upload, UploadView};
use vstd::prelude::*;

verus! {

/// What the fields of a request for a new item have said so far.
#[derive(Debug)]
pub struct Draft {
    pub content: Option<String>,
    pub item_type: Option<ItemType>,
    pub file_name: Option<String>,
    pub content_type: Option<String>,
    pub file_size: Option<i64>,
    pub inline_data: Option<Vec<u8>>,
    pub file_path: Option<String>,
    /// For how many seconds the item is shared; zero is for ever.
    pub share_expires_in: Option<i64>,
    pub share_max_downloads: Option<i64>,
    pub share_password: Option<String>,
}

/// `Draft` as a mathematical value.
pub struct DraftView {
    pub content: Option<Seq<char>>,
    pub item_type: Option<ItemType>,
    pub file_name: Option<Seq<char>>,
    pub content_type: Option<Seq<char>>,
    pub file_size: Option<i64>,
    pub inline_data: Option<Seq<u8>>,
    pub file_path: Option<Seq<char>>,
    pub share_expires_in: Option<i64>,
    pub share_max_downloads: Option<i64>,
    pub share_password: Option<Seq<char>>,
}

impl DeepView for Draft {
    type V = DraftView;

    open spec fn deep_view(&self) -> DraftView {
        DraftView {
            content: self.content.deep_view(),
            item_type: self.item_type,
            file_name: self.file_name.deep_view(),
            content_type: self.content_type.deep_view(),
            file_size: self.file_size,
            inline_data: opt_bytes(self.inline_data),
            file_path: self.file_path.deep_view(),
            share_expires_in: self.share_expires_in,
            share_max_downloads: self.share_max_downloads,
            share_password: self.share_password.deep_view(),
        }
    }
}

impl DraftView {
    /// A draft of which nothing has been said.
    pub open spec fn empty() -> DraftView {
        DraftView {
            content: None,
            item_type: None,
            file_name: None,
            content_type: None,
            file_size: None,
            inline_data: None,
            file_path: None,
            share_expires_in: None,
            share_max_downloads: None,
            share_password: None,
        }
    }

    /// The draft after a text field. A field that is not known changes nothing.
    pub open spec fn with_field(self, name: Seq<char>, value: Seq<char>) -> DraftView {
        if name == "content"@ {
            DraftView { content: Some(value), ..self }
        } else if name == "type"@ {
            DraftView { item_type: named_type(value), ..self }
        } else if name == "shareExpiresIn"@ {
            match i64_of(value) {
                Some(n) => DraftView {
                    share_expires_in: Some(
                        if n < 0 {
                            0
                        } else {
                            n
                        },
                    ),
                    ..self
                },
                None => self,
            }
        } else if name == "shareMaxDownloads"@ {
            match i64_of(value) {
                Some(n) => DraftView { share_max_downloads: Some(n), ..self },
                None => self,
            }
        } else if name == "sharePassword"@ && trim_of(value).len() > 0 {
            DraftView { share_password: Some(value), ..self }
        } else {
            self
        }
    }

    /// The draft after a file: its bytes stay in the row unless they went to
    /// disk.
    pub open spec fn with_file(
        self,
        file_name: Option<Seq<char>>,
        content_type: Option<Seq<char>>,
        upload: UploadView,
    ) -> DraftView {
        let named = DraftView {
            file_name,
            content_type,
            file_size: Some(upload.total as i64),
            ..self
        };
        match upload.path {
            Some(p) => DraftView { file_path: Some(p), inline_data: None, ..named },
            None => DraftView { inline_data: Some(upload.buffered), ..named },
        }
    }

    /// Whether there is anything to store.
    pub open spec fn has_contents(self) -> bool {
        self.content is Some || self.inline_data is Some || self.file_path is Some
    }

    /// The type of the item: text where the request named none.
    pub open spec fn kind(self) -> ItemType {
        match self.item_type {
            Some(t) => t,
            None => ItemType::Text,
        }
    }

    /// A password is kept only where it is more than white space.
    pub open spec fn password_counts(self) -> bool {
        self.share_password == effective_password(self.share_password)
    }

    /// The row that the draft becomes.
    pub open spec fn item(self, weight: i64, now: i64) -> ItemView {
        ItemView {
            item_type: self.kind().name_of(),
            content: self.content,
            file_name: self.file_name,
            file_size: self.file_size,
            sort_weight: weight,
            content_type: self.content_type,
            inline_data: self.inline_data,
            file_path: self.file_path,
            created_at: now,
            updated_at: now,
        }
    }

    /// The link under which the new item is shared.
    pub open spec fn link(self, id: Seq<char>, token: Seq<char>, now: i64) -> LinkView {
        LinkView {
            item_id: id,
            expires_at: end_of(self.share_expires_in, now),
            max_downloads: self.share_max_downloads,
            download_count: 0,
            revoked: 0,
            password_hash: stored_hash(self.share_password, token),
            password_plain: effective_password(self.share_password),
            created_at: now,
            updated_at: now,
        }
    }
}

/// What a part of a request for a new item is.
#[derive(Clone, Copy, Debug, PartialEq, Eq, Structural)]
pub enum FieldKind {
    /// Nothing that counts: it has no name.
    Skip,
    /// The file of the item.
    File,
    /// A text field.
    Text,
}

/// Tells what a part of a request is, by its name.
pub fn field_kind(name: Option<&str>) -> (r: FieldKind)
    ensures
        r == (match name.deep_view() {
            None => FieldKind::Skip,
            Some(n) => if n == "file"@ {
                FieldKind::File
            } else {
                FieldKind::Text
            },
        }),
{
    match name {
        None => FieldKind::Skip,
        Some(n) => if same(n, "file") {
            FieldKind::File
        } else {
            FieldKind::Text
        },
    }
}

/// The type that a request names.
pub open spec fn named_type(v: Seq<char>) -> Option<ItemType> {
    if v == "TEXT"@ {
        Some(ItemType::Text)
    } else if v == "IMAGE"@ {
        Some(ItemType::Image)
    } else if v == "FILE"@ {
        Some(ItemType::File)
    } else {
        None
    }
}

fn type_named(v: &str) -> (r: Option<ItemType>)
    ensures
        r == named_type(v@),
{
    if same(v, "TEXT") {
        Some(ItemType::Text)
    } else if same(v, "IMAGE") {
        Some(ItemType::Image)
    } else if same(v, "FILE") {
        Some(ItemType::File)
    } else {
        None
    }
}

/// What the client is told of the link to a new item.
#[derive(Debug)]
pub struct NewShare {
    pub token: String,
    pub url: String,
    pub expires_at: Option<String>,
    pub max_downloads: Option<i64>,
    pub requires_password: bool,
}

/// What the client is told of a new item.
#[derive(Debug)]
pub struct CreatedItem {
    pub id: String,
    pub item_type: &'static str,
    pub content: Option<String>,
    pub file_name: Option<String>,
    pub file_size: Option<i64>,
    pub sort_weight: i64,
    pub created_at: String,
    pub updated_at: String,
    pub share: NewShare,
}

/// A new item: the row and the link to write, in this order, and what the
/// client is told.
#[derive(Debug)]
pub struct Creation {
    pub insert_item: Change,
    pub insert_link: Change,
    pub told: CreatedItem,
}

/// Whether a creation is what a draft becomes.
pub open spec fn is_creation(
    draft: DraftView,
    id: Seq<char>,
    token: Seq<char>,
    max_weight: i64,
    now: i64,
    c: Creation,
) -> bool {
    let weight = (max_weight + 1) as i64;
    &&& c.insert_item.deep_view() == ChangeView::InsertItem { id, item: draft.item(weight, now) }
    &&& c.insert_link.deep_view() == ChangeView::InsertLink {
        token,
        link: draft.link(id, token, now),
    }
    &&& c.told.id@ == id
    &&& c.told.item_type@ == draft.kind().name_of()
    &&& c.told.content.deep_view() == draft.content
    &&& c.told.file_name.deep_view() == draft.file_name
    &&& c.told.file_size == draft.file_size
    &&& c.told.sort_weight == weight
    &&& is_iso_text(now, c.told.created_at@)
    &&& is_iso_text(now, c.told.updated_at@)
    &&& c.told.share.token@ == token
    &&& c.told.share.url@ == share_url_of(token)
    &&& iso_of(end_of(draft.share_expires_in, now), c.told.share.expires_at.deep_view())
    &&& c.told.share.max_downloads == draft.share_max_downloads
    &&& c.told.share.requires_password == draft.share_password is Some
}

impl Draft {
    /// A draft of which nothing has been said.
    pub fn new() -> (r: Draft)
        ensures
            r.deep_view() == DraftView::empty(),
    {
        Draft {
            content: None,
            item_type: None,
            file_name: None,
            content_type: None,
            file_size: None,
            inline_data: None,
            file_path: None,
            share_expires_in: None,
            share_max_downloads: None,
            share_password: None,
        }
    }

    /// Takes a text field of the request.
    pub fn field(&mut self, name: &str, value: String)
        ensures
            final(self).deep_view() == old(self).deep_view().with_field(name@, value@),
    {
        if same(name, "content") {
            self.content = Some(value);
        } else if same(name, "type") {
            self.item_type = type_named(value.as_str());
        } else if same(name, "shareExpiresIn") {
            if let Some(n) = parse_i64(value.as_str()) {
                self.share_expires_in = Some(
                    if n < 0 {
                        0
                    } else {
                        n
                    },
                );
            }
        } else if same(name, "shareMaxDownloads") {
            if let Some(n) = parse_i64(value.as_str()) {
                self.share_max_downloads = Some(n);
            }
        } else if same(name, "sharePassword") {
            let trimmed = trim(value.as_str());
            if !trimmed.as_str().is_empty() {
                self.share_password = Some(value);
            }
        }
    }

    /// Takes a file of the request, all of whose chunks were received.
    pub fn file(&mut self, file_name: Option<String>, content_type: Option<String>, upload: Upload)
        requires
            upload.total <= i64::MAX,
        ensures
            final(self).deep_view() == old(self).deep_view().with_file(
                file_name.deep_view(),
                content_type.deep_view(),
                upload.deep_view(),
            ),
    {
        self.file_name = file_name;
        self.content_type = content_type;
        self.file_size = Some(upload.total as i64);
        match upload.path {
            Some(p) => {
                self.file_path = Some(p);
                self.inline_data = None;
            },
            None => {
                self.inline_data = Some(upload.buffered);
            },
        }
    }
}

/// Makes an item of a draft, under this identifier and shared under this token.
/// It goes to the top of the listing, above the greatest weight there is.
pub fn create_item(draft: Draft, id: String, token: String, max_weight: i64, now: i64) -> (r: Result<
    Creation,
    Refusal,
>)
    requires
        draft.deep_view().has_contents() ==> max_weight < i64::MAX && end_fits(
            draft.share_expires_in,
            now,
        ),
    ensures
        if draft.deep_view().has_contents() {
            r matches Ok(c) && is_creation(draft.deep_view(), id@, token@, max_weight, now, c)
        } else {
            r matches Err(e) && e.deep_view() == (400u16, "Content or file is required"@)
        },
{
    if draft.content.is_none() && draft.inline_data.is_none() && draft.file_path.is_none() {
        return Err(refuse(400, "Content or file is required"));
    }
    let kind = match draft.item_type {
        Some(t) => t,
        None => ItemType::Text,
    };
    let weight: i64 = max_weight + 1;
    let expires_at = expiry(draft.share_expires_in, now);
    let (password_plain, password_hash) = stored_password(&draft.share_password, token.as_str());
    let told = CreatedItem {
        id: id.clone(),
        item_type: kind.name(),
        content: copy_opt(&draft.content),
        file_name: copy_opt(&draft.file_name),
        file_size: draft.file_size,
        sort_weight: weight,
        created_at: epoch_to_iso(now),
        updated_at: epoch_to_iso(now),
        share: NewShare {
            token: token.clone(),
            url: share_url(token.as_str()),
            expires_at: opt_epoch_to_iso(expires_at),
            max_downloads: draft.share_max_downloads,
            requires_password: draft.share_password.is_some(),
        },
    };
    let insert_link = Change::InsertLink(
        NewLink {
            token,
            item_id: id.clone(),
            expires_at,
            max_downloads: draft.share_max_downloads,
            password_hash,
            password_plain,
            now,
        },
    );
    let insert_item = Change::InsertItem(
        NewItem {
            id,
            item_type: kind.name().to_owned(),
            content: draft.content,
            file_name: draft.file_name,
            file_size: draft.file_size,
            sort_weight: weight,
            content_type: draft.content_type,
            inline_data: draft.inline_data,
            file_path: draft.file_path,
            now,
        },
    );
    Ok(Creation { insert_item, insert_link, told })
}

/// Makes an item of a draft.
pub fn create_clipboard(draft: Draft, max_weight: i64, now: i64) -> (r: Result<Creation, Refusal>)
    requires
        draft.deep_view().has_contents() ==> max_weight < i64::MAX && end_fits(
            draft.share_expires_in,
            now,
        ),
    ensures
        if draft.deep_view().has_contents() {
            r matches Ok(c) && exists|id: Seq<char>, token: Seq<char>|
                is_uuid(id) && is_token(token) && #[trigger] is_creation(
                    draft.deep_view(),
                    id,
                    token,
                    max_weight,
                    now,
                    c,
                )
        } else {
            r matches Err(e) && e.deep_view() == (400u16, "Content or file is required"@)
        },
{
    let id = new_id();
    let token = new_token();
    let ghost i = id@;
    let ghost t = token@;
    let r = create_item(draft, id, token, max_weight, now);
    assert(r is Ok ==> is_uuid(i) && is_token(t) && is_creation(
        draft.deep_view(),
        i,
        t,
        max_weight,
        now,
        r->Ok_0,
    ));
    r
}

/// How a creation ends once its row was written: the one event to send, then
/// the link to write, and the answer, which is what the event tells and, under
/// `share`, what is told of the link.
#[derive(Debug)]
pub struct Published {
    pub event: Event,
    pub insert_link: Change,
    pub status: u16,
    pub item: Vec<Field>,
    pub share: Vec<Field>,
}

/// How a creation ends whose row could not be written: nobody is told, and no
/// link is written.
#[derive(Debug)]
pub struct WriteFailure {
    pub status: u16,
    pub error: String,
    pub detail: String,
}

/// Goes on with a creation after the attempt to write its row, which failed if
/// `failure` says so.
pub fn after_insert(insert_link: Change, told: &CreatedItem, failure: Option<String>) -> (r: Result<
    Published,
    WriteFailure,
>)
    ensures
        match failure {
            None => {
                &&& r matches Ok(p)
                &&& p.status == 201
                &&& p.event.deep_view() == created_event_of(*told)
                &&& p.insert_link == insert_link
                &&& p.item.deep_view() == item_fields_of(*told)
                &&& p.item.deep_view() == p.event.deep_view().fields
                &&& p.share.deep_view() == share_fields_of(told.share)
            },
            Some(detail) => {
                &&& r matches Err(e)
                &&& e.status == 500
                &&& e.error@ == "db write failed"@
                &&& e.detail@ == detail@
            },
        },
{
    match failure {
        None => Ok(
            Published {
                event: created_event(told),
                insert_link,
                status: 201,
                item: item_fields(told),
                share: share_fields(&told.share),
            },
        ),
        Some(detail) => Err(
            WriteFailure { status: 500, error: "db write failed".to_owned(), detail },
        ),
    }
}

/// The weight that the `i`th of `n` reordered items gets: above every weight
/// there is, and the higher the earlier.
pub open spec fn new_weight(max_weight: i64, n: int, i: int) -> i64 {
    (max_weight + n - i) as i64
}

/// A new order of items: the changes to write, the weight of each item, and the
/// one event to send then.
#[derive(Debug)]
pub struct Reordering {
    pub changes: Vec<Change>,
    pub weights: Vec<(String, i64)>,
    pub event: Event,
}

/// The weights of reordered items.
pub open spec fn weights_of(ids: Seq<Seq<char>>, max_weight: i64) -> Seq<(Seq<char>, i64)> {
    Seq::new(ids.len(), |i: int| (ids[i], new_weight(max_weight, ids.len() as int, i)))
}

/// The changes that give reordered items their weights.
pub open spec fn reorder_changes(ids: Seq<Seq<char>>, max_weight: i64, now: i64) -> Seq<ChangeView> {
    Seq::new(
        ids.len(),
        |i: int|
            ChangeView::SetWeight {
                id: ids[i],
                weight: new_weight(max_weight, ids.len() as int, i),
                now,
            },
    )
}

/// Gives the items weights so that they come first in the listing, in this
/// order. An empty order changes nothing, and nobody is told of it.
pub fn reorder_clipboard(ids: &Vec<String>, max_weight: i64, now: i64) -> (r: Option<Reordering>)
    requires
        ids@.len() <= i64::MAX,
        max_weight + ids@.len() <= i64::MAX,
    ensures
        r is None <==> ids@.len() == 0,
        r matches Some(o) ==> o.weights.deep_view() == weights_of(ids.deep_view(), max_weight)
            && o.changes.deep_view() == reorder_changes(ids.deep_view(), max_weight, now)
            && o.event.deep_view() == reordered_event_of(
            ids.deep_view(),
            weights_of(ids.deep_view(), max_weight),
        ),
{
    let n: usize = ids.len();
    if n == 0 {
        return None;
    }
    let base: i64 = max_weight + (n as i64);
    let mut weights: Vec<(String, i64)> = Vec::new();
    let mut changes: Vec<Change> = Vec::new();
    let mut told_ids: Vec<String> = Vec::new();
    let mut told_weights: Vec<(String, i64)> = Vec::new();
    let mut i: usize = 0;
    while i < n
        invariant
            i <= n,
            n == ids@.len(),
            n <= i64::MAX,
            max_weight + n <= i64::MAX,
            base == max_weight + n,
            weights@.len() == i,
            changes@.len() == i,
            told_ids@.len() == i,
            told_weights@.len() == i,
            forall|k: int| 0 <= k < i ==> (#[trigger] told_ids@[k])@ == ids@[k]@,
            forall|k: int|
                0 <= k < i ==> (#[trigger] told_weights@[k]).0@ == ids@[k]@ && told_weights@[k].1
                    == new_weight(max_weight, n as int, k),
            forall|k: int|
                0 <= k < i ==> (#[trigger] weights@[k]).0@ == ids@[k]@ && weights@[k].1
                    == new_weight(max_weight, n as int, k),
            forall|k: int|
                0 <= k < i ==> (#[trigger] changes@[k]).deep_view() == (ChangeView::SetWeight {
                    id: ids@[k]@,
                    weight: new_weight(max_weight, n as int, k),
                    now,
                }),
        decreases n - i,
    {
        let weight: i64 = base - (i as i64);
        changes.push(Change::SetWeight { id: ids[i].clone(), weight, now });
        weights.push((ids[i].clone(), weight));
        told_ids.push(ids[i].clone());
        told_weights.push((ids[i].clone(), weight));
        i = i + 1;
    }
    assert(weights.deep_view() =~= weights_of(ids.deep_view(), max_weight));
    assert(changes.deep_view() =~= reorder_changes(ids.deep_view(), max_weight, now));
    assert(told_ids.deep_view() =~= ids.deep_view());
    assert(told_weights.deep_view() =~= weights_of(ids.deep_view(), max_weight));
    let event = reordered_event(told_ids, told_weights);
    Some(Reordering { changes, weights, event })
}

/// What deleting an item does: the changes to write, the file to remove, below
/// the data directory, and the one event to send then.
#[derive(Debug)]
pub struct Deletion {
    pub changes: Vec<Change>,
    pub remove_file: Option<String>,
    pub event: Event,
}

/// Deletes an item whose row names this file.
pub fn delete_clipboard(id: &str, file_path: Option<String>) -> (r: Deletion)
    ensures
        r.changes.deep_view() == seq![ChangeView::DeleteItem { id: id@ }],
        r.remove_file == file_path,
        r.event.deep_view() == deleted_event_of(id@),
{
    let mut changes: Vec<Change> = Vec::new();
    changes.push(Change::DeleteItem { id: id.to_owned() });
    assert(changes.deep_view() =~= seq![ChangeView::DeleteItem { id: id@ }]);
    Deletion { changes, remove_file: file_path, event: deleted_event(id) }
}

/// The password in a draft is always more than white space: so it is at the
/// beginning, and so every field and every file leave it.
pub proof fn drafts_keep_no_blank_password(
    draft: DraftView,
    name: Seq<char>,
    value: Seq<char>,
    file_name: Option<Seq<char>>,
    content_type: Option<Seq<char>>,
    upload: UploadView,
)
    requires
        draft.password_counts(),
    ensures
        DraftView::empty().password_counts(),
        draft.with_field(name, value).password_counts(),
        draft.with_file(file_name, content_type, upload).password_counts(),
{
}

/// The client is told that the new link needs a password exactly where one was
/// stored.
pub proof fn new_shares_tell_of_their_password(
    draft: DraftView,
    id: Seq<char>,
    token: Seq<char>,
    max_weight: i64,
    now: i64,
    c: Creation,
)
    requires
        draft.password_counts(),
        is_creation(draft, id, token, max_weight, now, c),
    ensures
        c.told.share.requires_password <==> draft.link(id, token, now).password_hash is Some,
{
}

} // verus!

//! What every listening client is told of a change: an event with a name and
//! named values.

use crate::items::{CreatedItem, NewShare};
use crate::text::copy_opt;
use vstd::prelude::*;

verus! {

/// A value that a client is told.
#[derive(Debug)]
pub enum Value {
    Null,
    Boolean(bool),
    Integer(i64),
    Text(String),
    /// A list of texts.
    Texts(Vec<String>),
    /// A number for each of several names. Of two for the same name the later
    /// one counts.
    Numbers(Vec<(String, i64)>),
}

/// `Value` as a mathematical value.
pub enum ValueView {
    Null,
    Boolean(bool),
    Integer(i64),
    Text(Seq<char>),
    Texts(Seq<Seq<char>>),
    Numbers(Seq<(Seq<char>, i64)>),
}

impl DeepView for Value {
    type V = ValueView;

    open spec fn deep_view(&self) -> ValueView {
        match self {
            Value::Null => ValueView::Null,
            Value::Boolean(b) => ValueView::Boolean(*b),
            Value::Integer(n) => ValueView::Integer(*n),
            Value::Text(s) => ValueView::Text(s@),
            Value::Texts(list) => ValueView::Texts(list.deep_view()),
            Value::Numbers(list) => ValueView::Numbers(list.deep_view()),
        }
    }
}

/// A named value.
#[derive(Debug)]
pub struct Field {
    pub name: &'static str,
    pub value: Value,
}

impl DeepView for Field {
    type V = (Seq<char>, ValueView);

    open spec fn deep_view(&self) -> (Seq<char>, ValueView) {
        (self.name@, self.value.deep_view())
    }
}

/// What every listening client is told of a change.
#[derive(Debug)]
pub struct Event {
    pub name: &'static str,
    pub fields: Vec<Field>,
}

/// `Event` as a mathematical value.
pub struct EventView {
    pub name: Seq<char>,
    pub fields: Seq<(Seq<char>, ValueView)>,
}

impl DeepView for Event {
    type V = EventView;

    open spec fn deep_view(&self) -> EventView {
        EventView { name: self.name@, fields: self.fields.deep_view() }
    }
}

pub open spec fn text_value(v: Option<Seq<char>>) -> ValueView {
    match v {
        Some(s) => ValueView::Text(s),
        None => ValueView::Null,
    }
}

pub open spec fn integer_value(v: Option<i64>) -> ValueView {
    match v {
        Some(n) => ValueView::Integer(n),
        None => ValueView::Null,
    }
}

fn text_or_null(v: &Option<String>) -> (r: Value)
    ensures
        r.deep_view() == text_value(v.deep_view()),
{
    match copy_opt(v) {
        Some(s) => Value::Text(s),
        None => Value::Null,
    }
}

fn integer_or_null(v: Option<i64>) -> (r: Value)
    ensures
        r.deep_view() == integer_value(v),
{
    match v {
        Some(n) => Value::Integer(n),
        None => Value::Null,
    }
}

/// What is told of a new item itself, its link aside.
pub open spec fn item_fields_of(item: CreatedItem) -> Seq<(Seq<char>, ValueView)> {
    seq![
        ("id"@, ValueView::Text(item.id@)),
        ("type"@, ValueView::Text(item.item_type@)),
        ("content"@, text_value(item.content.deep_view())),
        ("fileName"@, text_value(item.file_name.deep_view())),
        ("fileSize"@, integer_value(item.file_size)),
        ("sortWeight"@, ValueView::Integer(item.sort_weight)),
        ("createdAt"@, ValueView::Text(item.created_at@)),
        ("updatedAt"@, ValueView::Text(item.updated_at@)),
    ]
}

/// What is told of a new item itself, its link aside.
pub fn item_fields(item: &CreatedItem) -> (r: Vec<Field>)
    ensures
        r.deep_view() == item_fields_of(*item),
{
    let mut r: Vec<Field> = Vec::new();
    r.push(Field { name: "id", value: Value::Text(item.id.clone()) });
    r.push(Field { name: "type", value: Value::Text(item.item_type.to_owned()) });
    r.push(Field { name: "content", value: text_or_null(&item.content) });
    r.push(Field { name: "fileName", value: text_or_null(&item.file_name) });
    r.push(Field { name: "fileSize", value: integer_or_null(item.file_size) });
    r.push(Field { name: "sortWeight", value: Value::Integer(item.sort_weight) });
    r.push(Field { name: "createdAt", value: Value::Text(item.created_at.clone()) });
    r.push(Field { name: "updatedAt", value: Value::Text(item.updated_at.clone()) });
    assert(r.deep_view() =~= item_fields_of(*item));
    r
}

/// What is told of the link to a new item.
pub open spec fn share_fields_of(share: NewShare) -> Seq<(Seq<char>, ValueView)> {
    seq![
        ("token"@, ValueView::Text(share.token@)),
        ("url"@, ValueView::Text(share.url@)),
        ("expiresAt"@, text_value(share.expires_at.deep_view())),
        ("maxDownloads"@, integer_value(share.max_downloads)),
        ("requiresPassword"@, ValueView::Boolean(share.requires_password)),
        ("downloadCount"@, ValueView::Integer(0)),
    ]
}

/// What is told of the link to a new item.
pub fn share_fields(share: &NewShare) -> (r: Vec<Field>)
    ensures
        r.deep_view() == share_fields_of(*share),
{
    let mut r: Vec<Field> = Vec::new();
    r.push(Field { name: "token", value: Value::Text(share.token.clone()) });
    r.push(Field { name: "url", value: Value::Text(share.url.clone()) });
    r.push(Field { name: "expiresAt", value: text_or_null(&share.expires_at) });
    r.push(Field { name: "maxDownloads", value: integer_or_null(share.max_downloads) });
    r.push(Field { name: "requiresPassword", value: Value::Boolean(share.requires_password) });
    r.push(Field { name: "downloadCount", value: Value::Integer(0) });
    assert(r.deep_view() =~= share_fields_of(*share));
    r
}

/// The event of a new item.
pub open spec fn created_event_of(item: CreatedItem) -> EventView {
    EventView { name: "clipboard:created"@, fields: item_fields_of(item) }
}

/// The event of a new item. Its link stays out of it.
pub fn created_event(item: &CreatedItem) -> (r: Event)
    ensures
        r.deep_view() == created_event_of(*item),
{
    Event { name: "clipboard:created", fields: item_fields(item) }
}

/// The event of reordered items: their order, and the weight of each.
pub open spec fn reordered_event_of(
    ids: Seq<Seq<char>>,
    weights: Seq<(Seq<char>, i64)>,
) -> EventView {
    EventView {
        name: "clipboard:reordered"@,
        fields: seq![
            ("ids"@, ValueView::Texts(ids)),
            ("weights"@, ValueView::Numbers(weights)),
        ],
    }
}

/// The event of reordered items.
pub fn reordered_event(ids: Vec<String>, weights: Vec<(String, i64)>) -> (r: Event)
    ensures
        r.deep_view() == reordered_event_of(ids.deep_view(), weights.deep_view()),
{
    let ghost expected = reordered_event_of(ids.deep_view(), weights.deep_view()).fields;
    let mut fields: Vec<Field> = Vec::new();
    fields.push(Field { name: "ids", value: Value::Texts(ids) });
    fields.push(Field { name: "weights", value: Value::Numbers(weights) });
    assert(fields.deep_view() =~= expected);
    Event { name: "clipboard:reordered", fields }
}

/// The event of a deleted item.
pub open spec fn deleted_event_of(id: Seq<char>) -> EventView {
    EventView { name: "clipboard:deleted"@, fields: seq![("id"@, ValueView::Text(id))] }
}

/// The event of a deleted item.
pub fn deleted_event(id: &str) -> (r: Event)
    ensures
        r.deep_view() == deleted_event_of(id@),
{
    let mut fields: Vec<Field> = Vec::new();
    fields.push(Field { name: "id", value: Value::Text(id.to_owned()) });
    assert(fields.deep_view() =~= deleted_event_of(id@).fields);
    Event { name: "clipboard:deleted", fields }
}

/// The event of a new item tells nothing of its link: whatever the link is, its
/// token and its password included, the event is the same.
pub proof fn events_do_not_tell_of_links(a: CreatedItem, b: CreatedItem)
    requires
        a.id@ == b.id@,
        a.item_type@ == b.item_type@,
        a.content.deep_view() == b.content.deep_view(),
        a.file_name.deep_view() == b.file_name.deep_view(),
        a.file_size == b.file_size,
        a.sort_weight == b.sort_weight,
        a.created_at@ == b.created_at@,
        a.updated_at@ == b.updated_at@,
    ensures
        created_event_of(a) == created_event_of(b),
{
}

} // verus!

//! Handing out the contents of an item.

use crate::form::{form_pairs, form_pairs_of, is_switched_on, switched_on};
use crate::number::{decimal, u64_text};
use crate::reply::{disposition, disposition_of, header, refuse, Header, HeaderName, Refusal};
use crate::store::{Change, ChangeView};
use crate::text::same;
use vstd::prelude::*;

verus! {

/// Where the body of an answer comes from.
#[derive(Debug)]
pub enum Body {
    /// The text itself.
    Text(String),
    /// A file, by its path below the data directory.
    File(String),
    /// The bytes themselves.
    Bytes(Vec<u8>),
}

/// `Body` as a mathematical value.
pub enum BodyView {
    Text(Seq<char>),
    File(Seq<char>),
    Bytes(Seq<u8>),
}

impl DeepView for Body {
    type V = BodyView;

    open spec fn deep_view(&self) -> BodyView {
        match self {
            Body::Text(s) => BodyView::Text(s@),
            Body::File(p) => BodyView::File(p@),
            Body::Bytes(b) => BodyView::Bytes(b@),
        }
    }
}

/// A successful answer in the making: a body that is a file has still to be
/// opened, and `once_open` is to be applied when the body is at hand.
#[derive(Debug)]
pub struct Delivery {
    pub headers: Vec<Header>,
    pub body: Body,
    pub once_open: Vec<Change>,
}

/// `Delivery` as a mathematical value.
pub struct DeliveryView {
    pub headers: Seq<(HeaderName, Seq<char>)>,
    pub body: BodyView,
    pub once_open: Seq<ChangeView>,
}

impl DeepView for Delivery {
    type V = DeliveryView;

    open spec fn deep_view(&self) -> DeliveryView {
        DeliveryView {
            headers: self.headers.deep_view(),
            body: self.body.deep_view(),
            once_open: self.once_open.deep_view(),
        }
    }
}

/// The stored contents of an item that is not text.
#[derive(Debug)]
pub struct StoredFile {
    pub file_path: Option<String>,
    pub inline_data: Option<Vec<u8>>,
    pub file_name: Option<String>,
    pub content_type: Option<String>,
}

/// `StoredFile` as a mathematical value.
pub struct StoredFileView {
    pub file_path: Option<Seq<char>>,
    pub inline_data: Option<Seq<u8>>,
    pub file_name: Option<Seq<char>>,
    pub content_type: Option<Seq<char>>,
}

impl DeepView for StoredFile {
    type V = StoredFileView;

    open spec fn deep_view(&self) -> StoredFileView {
        StoredFileView {
            file_path: self.file_path.deep_view(),
            inline_data: crate::store::opt_bytes(self.inline_data),
            file_name: self.file_name.deep_view(),
            content_type: self.content_type.deep_view(),
        }
    }
}

impl StoredFileView {
    /// The name under which the file is offered.
    pub open spec fn offered_name(self) -> Seq<char> {
        match self.file_name {
            Some(n) => n,
            None => "download"@,
        }
    }

    /// The media type under which the file is offered.
    pub open spec fn offered_type(self) -> Seq<char> {
        match self.content_type {
            Some(t) => t,
            None => "application/octet-stream"@,
        }
    }

    /// The body: a file on disk before bytes in the row. `None` where the item
    /// has neither.
    pub open spec fn body(self) -> Option<BodyView> {
        match self.file_path {
            Some(p) => Some(BodyView::File(p)),
            None => match self.inline_data {
                Some(b) => Some(BodyView::Bytes(b)),
                None => None,
            },
        }
    }

    /// The headers that describe the file.
    pub open spec fn headers(self, kind: Seq<char>) -> Seq<(HeaderName, Seq<char>)> {
        seq![
            (HeaderName::ContentType, self.offered_type()),
            (HeaderName::ContentDisposition, disposition_of(kind, self.offered_name())),
        ]
    }
}

/// The headers that describe a stored file.
pub fn file_headers(file: &StoredFile, kind: &str) -> (r: Vec<Header>)
    ensures
        r.deep_view() == file.deep_view().headers(kind@),
{
    let name = match &file.file_name {
        Some(n) => n.as_str(),
        None => "download",
    };
    let ctype = match &file.content_type {
        Some(t) => t.as_str(),
        None => "application/octet-stream",
    };
    let mut r: Vec<Header> = Vec::new();
    r.push(header(HeaderName::ContentType, ctype));
    r.push(Header {
        name: HeaderName::ContentDisposition,
        value: disposition(kind, name),
    });
    assert(r.deep_view() =~= file.deep_view().headers(kind@));
    r
}

/// The body of a stored file, on disk or in the row.
pub fn file_body(file: StoredFile) -> (r: Option<Body>)
    ensures
        r.deep_view() == file.deep_view().body(),
{
    match file.file_path {
        Some(p) => Some(Body::File(p)),
        None => match file.inline_data {
            Some(b) => Some(Body::Bytes(b)),
            None => None,
        },
    }
}

/// What is to be sent once a file was looked up and opened.
#[derive(Debug)]
pub struct Opened {
    pub changes: Vec<Change>,
    pub outcome: Result<Vec<Header>, Refusal>,
}

/// The headers with the length of the file added, where it is known.
pub open spec fn with_length(
    headers: Seq<(HeaderName, Seq<char>)>,
    len: Option<u64>,
) -> Seq<(HeaderName, Seq<char>)> {
    match len {
        Some(n) => headers.push((HeaderName::ContentLength, decimal(n as int))),
        None => headers,
    }
}

fn add_length(headers: &mut Vec<Header>, len: Option<u64>)
    ensures
        final(headers).deep_view() == with_length(old(headers).deep_view(), len),
{
    if let Some(n) = len {
        headers.push(Header { name: HeaderName::ContentLength, value: u64_text(n) });
    }
    assert(headers.deep_view() =~= with_length(old(headers).deep_view(), len));
}

/// Goes on with a delivery whose body is a file: `len` is the length that the
/// file system told, and `opened` whether the file could be opened.
pub fn after_open(headers: Vec<Header>, once_open: Vec<Change>, len: Option<u64>, opened: bool) -> (r:
    Opened)
    ensures
        opened ==> (r.outcome matches Ok(h) && h.deep_view() == with_length(
            headers.deep_view(),
            len,
        )),
        opened ==> r.changes == once_open,
        !opened ==> (r.outcome matches Err(e) && e.deep_view() == (404u16, "missing"@)),
        !opened ==> r.changes@.len() == 0,
{
    if !opened {
        return Opened { changes: Vec::new(), outcome: Err(refuse(404, "missing")) };
    }
    let mut headers = headers;
    add_length(&mut headers, len);
    Opened { changes: once_open, outcome: Ok(headers) }
}

/// Whether one of the pairs asks for a download.
pub open spec fn asks_download(pairs: Seq<(Seq<char>, Seq<char>)>) -> bool {
    exists|i: int|
        0 <= i < pairs.len() && (#[trigger] pairs[i]).0 == "download"@ && is_switched_on(pairs[i].1)
}

/// Whether one of the pairs of a query asks for a download.
pub fn wants_download(pairs: &Vec<(String, String)>) -> (r: bool)
    ensures
        r == asks_download(pairs.deep_view()),
{
    let ghost views = pairs.deep_view();
    let mut i: usize = 0;
    while i < pairs.len()
        invariant
            i <= pairs@.len(),
            views == pairs.deep_view(),
            forall|k: int|
                0 <= k < i ==> !((#[trigger] views[k]).0 == "download"@ && is_switched_on(
                    views[k].1,
                )),
        decreases pairs@.len() - i,
    {
        assert(views[i as int] == (pairs[i as int].0@, pairs[i as int].1@));
        if same(pairs[i].0.as_str(), "download") && switched_on(pairs[i].1.as_str()) {
            return true;
        }
        i = i + 1;
    }
    false
}

/// The value of `Cache-Control` for content that never changes.
pub open spec fn immutable_cache() -> Seq<char> {
    "public, max-age=31536000, immutable"@
}

/// The delivery of an item's file to its owner.
pub open spec fn own_file(
    file: Option<StoredFileView>,
    download: bool,
) -> Result<DeliveryView, (u16, Seq<char>)> {
    match file {
        None => Err((404u16, "Not found"@)),
        Some(f) => match f.body() {
            None => Err((404u16, "missing content"@)),
            Some(body) => Ok(
                DeliveryView {
                    headers: f.headers(
                        if download {
                            "attachment"@
                        } else {
                            "inline"@
                        },
                    ).push((HeaderName::CacheControl, immutable_cache())),
                    body,
                    once_open: seq![],
                },
            ),
        },
    }
}

/// The result of a step as a mathematical value.
pub open spec fn delivery_view(r: Result<Delivery, Refusal>) -> Result<
    DeliveryView,
    (u16, Seq<char>),
> {
    match r {
        Ok(d) => Ok(d.deep_view()),
        Err(e) => Err(e.deep_view()),
    }
}

/// Delivers the file of an item to its owner.
pub fn item_file(file: Option<StoredFile>, download: bool) -> (r: Result<Delivery, Refusal>)
    ensures
        delivery_view(r) == own_file(file.deep_view(), download),
{
    let file = match file {
        Some(f) => f,
        None => {
            return Err(refuse(404, "Not found"));
        },
    };
    let ghost view = file.deep_view();
    let mut headers = file_headers(
        &file,
        if download {
            "attachment"
        } else {
            "inline"
        },
    );
    let ghost before = headers.deep_view();
    headers.push(header(HeaderName::CacheControl, "public, max-age=31536000, immutable"));
    assert(headers.deep_view() =~= before.push((HeaderName::CacheControl, immutable_cache())));
    match file_body(file) {
        Some(body) => {
            let once_open: Vec<Change> = Vec::new();
            assert(once_open.deep_view() =~= seq![]);
            Ok(Delivery { headers, body, once_open })
        },
        None => Err(refuse(404, "missing content")),
    }
}

/// Answers a request for the file of an item.
pub fn get_file(file: Option<StoredFile>, query: &str) -> (r: Result<Delivery, Refusal>)
    ensures
        delivery_view(r) == own_file(file.deep_view(), asks_download(form_pairs_of(query@))),
{
    let pairs = form_pairs(query);
    item_file(file, wants_download(&pairs))
}

} // verus!

//! Serving the static front end: which file a request gets, in which encoding,
//! and how long it may be cached.

use crate::number::{decimal, decimal_is_injective, is_digit, lemma_decimal_reads_back, u64_text};
use crate::reply::{header, refuse, Header, HeaderName, Refusal};
use crate::text::{
    ends_with, has_piece, holds_piece, lemma_holds_alone, lemma_holds_joined, lemma_split_joined,
    lemma_split_without_separator, lemma_trim_after_space, lemma_trim_unchanged, split, split_of,
    starts_with, trim, trim_of,
};
use vstd::prelude::*;

verus! {

/// Whether an `Accept-Encoding` header names Brotli.
pub open spec fn names_br(accept_encoding: Seq<char>) -> bool {
    exists|i: int|
        0 <= i < split_of(accept_encoding, ',').len() && "br"@.is_prefix_of(
            trim_of(#[trigger] split_of(accept_encoding, ',')[i]),
        )
}

/// Whether the client takes Brotli.
pub fn accept_br(accept_encoding: Option<&str>) -> (r: bool)
    ensures
        r == (accept_encoding.deep_view() matches Some(h) && names_br(h)),
{
    let h = match accept_encoding {
        Some(h) => h,
        None => {
            return false;
        },
    };
    let parts = split(h, ',');
    let ghost pieces = split_of(h@, ',');
    let mut i: usize = 0;
    while i < parts.len()
        invariant
            i <= parts@.len(),
            pieces == split_of(h@, ','),
            parts.deep_view() == pieces,
            accept_encoding.deep_view() == Some(h@),
            forall|k: int| 0 <= k < i ==> !"br"@.is_prefix_of(trim_of(#[trigger] pieces[k])),
        decreases parts@.len() - i,
    {
        let piece = trim(parts[i].as_str());
        assert(pieces[i as int] == parts[i as int]@);
        if starts_with(piece.as_str(), "br") {
            return true;
        }
        i = i + 1;
    }
    false
}

/// The name of the Brotli variant to look for beside a file, where the client
/// takes Brotli: that of the file and `.br`. `default_name` stands for the name
/// of a path that has none.
pub open spec fn br_variant_of(
    accept_encoding: Option<Seq<char>>,
    file_name: Option<Seq<char>>,
    default_name: Option<Seq<char>>,
) -> Option<Seq<char>> {
    if accept_encoding matches Some(h) && names_br(h) {
        match (file_name, default_name) {
            (Some(name), _) => Some(name + ".br"@),
            (None, Some(name)) => Some(name + ".br"@),
            (None, None) => None,
        }
    } else {
        None
    }
}

/// The name of the Brotli variant to look for beside a file, if any.
pub fn br_variant(
    accept_encoding: Option<&str>,
    file_name: Option<&str>,
    default_name: Option<&str>,
) -> (r: Option<String>)
    ensures
        r.deep_view() == br_variant_of(
            accept_encoding.deep_view(),
            file_name.deep_view(),
            default_name.deep_view(),
        ),
{
    if !accept_br(accept_encoding) {
        return None;
    }
    let name = match (file_name, default_name) {
        (Some(name), _) => name,
        (None, Some(name)) => name,
        (None, None) => {
            return None;
        },
    };
    let mut r = name.to_owned();
    r.append(".br");
    Some(r)
}

/// In which form a file is sent.
#[derive(Debug)]
pub enum Form {
    /// As it is.
    Plain,
    /// Its Brotli variant, which has this name.
    Brotli(String),
}

/// `Form` as a mathematical value.
pub enum FormView {
    Plain,
    Brotli(Seq<char>),
}

impl DeepView for Form {
    type V = FormView;

    open spec fn deep_view(&self) -> FormView {
        match self {
            Form::Plain => FormView::Plain,
            Form::Brotli(name) => FormView::Brotli(name@),
        }
    }
}

/// The form in which a file is sent: the Brotli variant exactly where one is to
/// be looked for and is a file.
pub open spec fn form_of(variant: Option<Seq<char>>, is_file: bool) -> FormView {
    match variant {
        Some(name) if is_file => FormView::Brotli(name),
        _ => FormView::Plain,
    }
}

/// Chooses the form in which a file is sent. `variant` is the name that
/// `br_variant` gave, and `is_file` what the file system told of it.
pub fn choose_form(variant: Option<String>, is_file: bool) -> (r: Form)
    ensures
        r.deep_view() == form_of(variant.deep_view(), is_file),
{
    match variant {
        Some(name) => if is_file {
            Form::Brotli(name)
        } else {
            Form::Plain
        },
        None => Form::Plain,
    }
}

/// Which file answers a request for a static path.
#[derive(Clone, Copy, Debug, PartialEq, Eq, Structural)]
pub enum Target {
    /// The index of the static root.
    Index,
    /// The file that the path names.
    Requested,
    /// The page that the front end handles unknown paths with.
    Fallback,
}

/// Chooses the file for a sanitized path, of which the file system told whether
/// it is a file or a directory.
pub fn static_target(rel: &str, is_file: bool, is_dir: bool) -> (r: Target)
    ensures
        r == (if rel@.len() == 0 || is_dir {
            Target::Index
        } else if is_file {
            Target::Requested
        } else {
            Target::Fallback
        }),
{
    if rel.is_empty() || is_dir {
        Target::Index
    } else if !is_file {
        Target::Fallback
    } else {
        Target::Requested
    }
}

/// What the file system tells of a file: its length and, where it is known and
/// not before the Unix epoch, the second of its last change.
#[derive(Clone, Copy, Debug)]
pub struct FileMeta {
    pub len: u64,
    pub modified: Option<u64>,
}

/// The entity tag of a file of this length, last changed at this second.
pub open spec fn etag_of(len: u64, secs: u64) -> Seq<char> {
    "W/\""@ + decimal(len as int) + "-"@ + decimal(secs as int) + "\""@
}

/// The entity tag of a file, where it has one.
pub open spec fn meta_etag(meta: Option<FileMeta>) -> Option<Seq<char>> {
    match meta {
        Some(m) => match m.modified {
            Some(secs) => Some(etag_of(m.len, secs)),
            None => None,
        },
        None => None,
    }
}

/// The entity tag of a file, where the second of its last change is known.
pub fn make_weak_etag(meta: &FileMeta) -> (r: Option<String>)
    ensures
        r.deep_view() == meta_etag(Some(*meta)),
{
    match meta.modified {
        Some(secs) => {
            let mut r = "W/\"".to_owned();
            r.append(u64_text(meta.len).as_str());
            r.append("-");
            r.append(u64_text(secs).as_str());
            r.append("\"");
            Some(r)
        },
        None => None,
    }
}

/// Whether a path names a file whose contents never change under its name.
pub open spec fn is_immutable(p: Seq<char>) -> bool {
    ||| "/_next/static/"@.is_prefix_of(p)
    ||| ".js"@.is_suffix_of(p)
    ||| ".css"@.is_suffix_of(p)
    ||| ".map"@.is_suffix_of(p)
    ||| ".json"@.is_suffix_of(p)
    ||| ".svg"@.is_suffix_of(p)
    ||| ".woff2"@.is_suffix_of(p)
    ||| ".png"@.is_suffix_of(p)
    ||| ".jpg"@.is_suffix_of(p)
    ||| ".jpeg"@.is_suffix_of(p)
    ||| ".gif"@.is_suffix_of(p)
}

/// How long an answer may be cached. Pages are always checked again; where the
/// path is not known, anything else is cached for a short while.
pub open spec fn cache_control_of(req_path: Option<Seq<char>>, is_html: bool) -> Seq<char> {
    if is_html {
        "no-cache"@
    } else {
        match req_path {
            None => "public, max-age=300"@,
            Some(p) => if is_immutable(p) {
                "public, max-age=31536000, immutable"@
            } else {
                "public, max-age=3600"@
            },
        }
    }
}

/// The value of `Cache-Control` for an answer.
pub fn cache_headers_for_path(req_path: Option<&str>, is_html: bool) -> (r: &'static str)
    ensures
        r@ == cache_control_of(req_path.deep_view(), is_html),
{
    if is_html {
        return "no-cache";
    }
    match req_path {
        None => "public, max-age=300",
        Some(p) => {
            if starts_with(p, "/_next/static/") || ends_with(p, ".js") || ends_with(p, ".css")
                || ends_with(p, ".map") || ends_with(p, ".json") || ends_with(p, ".svg")
                || ends_with(p, ".woff2") || ends_with(p, ".png") || ends_with(p, ".jpg")
                || ends_with(p, ".jpeg") || ends_with(p, ".gif") {
                "public, max-age=31536000, immutable"
            } else {
                "public, max-age=3600"
            }
        },
    }
}

/// The media type that `mime_guess` finds for a path.
pub uninterp spec fn media_type_of(path: Seq<char>) -> Seq<char>;

/// Calls `mime_guess::from_path`, which goes by the extension of the path, and
/// takes the first guess, or `application/octet-stream` where there is none. A
/// path without a dot has no extension, so there is none.
#[verifier::external_body]
fn guess_mime(path: &str) -> (r: String)
    ensures
        r@ == media_type_of(path@),
        !path@.contains('.') ==> r@ == "application/octet-stream"@,
{
    mime_guess::from_path(path).first_or_octet_stream().to_string()
}

/// An answer with a file: its status and headers. The file itself goes along
/// with status 200 only.
#[derive(Debug)]
pub struct StaticReply {
    pub status: u16,
    pub headers: Vec<Header>,
}

/// `StaticReply` as a mathematical value.
pub struct StaticReplyView {
    pub status: u16,
    pub headers: Seq<(HeaderName, Seq<char>)>,
}

/// The answer as a mathematical value.
pub open spec fn static_view(r: Result<StaticReply, Refusal>) -> Result<
    StaticReplyView,
    (u16, Seq<char>),
> {
    match r {
        Ok(s) => Ok(StaticReplyView { status: s.status, headers: s.headers.deep_view() }),
        Err(e) => Err(e.deep_view()),
    }
}

/// Whether the client has the current version of a file with this tag.
pub open spec fn is_current(etag: Option<Seq<char>>, if_none_match: Option<Seq<char>>) -> bool {
    etag matches Some(tag) && if_none_match matches Some(h) && holds_piece(h, ',', tag)
}

/// The headers of an answer that sends no file because the client has it.
pub open spec fn not_modified_headers(
    brotli: bool,
    tag: Seq<char>,
    cache: Seq<char>,
) -> Seq<(HeaderName, Seq<char>)> {
    seq![(HeaderName::CacheControl, cache)] + (if brotli {
        seq![
            (HeaderName::Vary, "Accept-Encoding"@),
            (HeaderName::ContentEncoding, "br"@),
        ]
    } else {
        seq![]
    }) + seq![(HeaderName::ETag, tag)]
}

/// The headers of an answer that sends the file.
pub open spec fn file_answer_headers(
    content_type: Seq<char>,
    brotli: bool,
    meta: Option<FileMeta>,
    cache: Seq<char>,
) -> Seq<(HeaderName, Seq<char>)> {
    seq![(HeaderName::ContentType, content_type)] + (if brotli {
        seq![
            (HeaderName::ContentEncoding, "br"@),
            (HeaderName::Vary, "Accept-Encoding"@),
        ]
    } else {
        seq![]
    }) + (match meta {
        Some(m) => seq![(HeaderName::ContentLength, decimal(m.len as int))],
        None => seq![],
    }) + (match meta_etag(meta) {
        Some(tag) => seq![(HeaderName::ETag, tag)],
        None => seq![],
    }) + seq![(HeaderName::CacheControl, cache)]
}

/// The answer with a file of this media type, stored plain or in Brotli. `meta`
/// is what the file system told of it, if it could be opened at all.
pub open spec fn static_answer(
    content_type: Seq<char>,
    brotli: bool,
    opened: bool,
    meta: Option<FileMeta>,
    if_none_match: Option<Seq<char>>,
    req_path: Option<Seq<char>>,
) -> Result<StaticReplyView, (u16, Seq<char>)> {
    let cache = cache_control_of(req_path, "text/html"@.is_prefix_of(content_type));
    if !opened {
        Err((404u16, "not found"@))
    } else if is_current(meta_etag(meta), if_none_match) {
        Ok(
            StaticReplyView {
                status: 304,
                headers: not_modified_headers(brotli, meta_etag(meta)->0, cache),
            },
        )
    } else {
        Ok(
            StaticReplyView {
                status: 200,
                headers: file_answer_headers(content_type, brotli, meta, cache),
            },
        )
    }
}

/// Answers with a file of this media type, stored plain or in Brotli. `meta` is
/// what the file system told of it, if it could be opened at all.
pub fn static_reply(
    content_type: &str,
    brotli: bool,
    opened: bool,
    meta: Option<FileMeta>,
    if_none_match: Option<&str>,
    req_path: Option<&str>,
) -> (r: Result<StaticReply, Refusal>)
    ensures
        static_view(r) == static_answer(
            content_type@,
            brotli,
            opened,
            meta,
            if_none_match.deep_view(),
            req_path.deep_view(),
        ),
{
    if !opened {
        return Err(refuse(404, "not found"));
    }
    let cache = cache_headers_for_path(req_path, starts_with(content_type, "text/html"));
    let etag = match &meta {
        Some(m) => make_weak_etag(m),
        None => None,
    };
    assert(etag.deep_view() == meta_etag(meta));
    let mut headers: Vec<Header> = Vec::new();
    if let (Some(tag), Some(inm)) = (&etag, if_none_match) {
        if has_piece(inm, ',', tag.as_str()) {
            headers.push(header(HeaderName::CacheControl, cache));
            if brotli {
                headers.push(header(HeaderName::Vary, "Accept-Encoding"));
                headers.push(header(HeaderName::ContentEncoding, "br"));
            }
            headers.push(header(HeaderName::ETag, tag.as_str()));
            assert(headers.deep_view() =~= not_modified_headers(brotli, tag@, cache@));
            return Ok(StaticReply { status: 304, headers });
        }
    }
    headers.push(header(HeaderName::ContentType, content_type));
    if brotli {
        headers.push(header(HeaderName::ContentEncoding, "br"));
        headers.push(header(HeaderName::Vary, "Accept-Encoding"));
    }
    if let Some(m) = &meta {
        headers.push(Header { name: HeaderName::ContentLength, value: u64_text(m.len) });
    }
    if let Some(tag) = &etag {
        headers.push(header(HeaderName::ETag, tag.as_str()));
    }
    headers.push(header(HeaderName::CacheControl, cache));
    assert(headers.deep_view() =~= file_answer_headers(content_type@, brotli, meta, cache@));
    Ok(StaticReply { status: 200, headers })
}

/// Answers with the file at this path, in the form that was chosen. The media
/// type is that of the plain file also where the Brotli variant is sent.
/// `opened` and `meta` are what the file system told of what is sent. `req_path`
/// is the path that was asked for, where it decides on caching.
pub fn serve_static(
    path: &str,
    form: &Form,
    opened: bool,
    meta: Option<FileMeta>,
    if_none_match: Option<&str>,
    req_path: Option<&str>,
) -> (r: Result<StaticReply, Refusal>)
    ensures
        static_view(r) == static_answer(
            media_type_of(path@),
            form.deep_view() is Brotli,
            opened,
            meta,
            if_none_match.deep_view(),
            req_path.deep_view(),
        ),
{
    let content_type = guess_mime(path);
    let brotli = match form {
        Form::Plain => false,
        Form::Brotli(_) => true,
    };
    static_reply(content_type.as_str(), brotli, opened, meta, if_none_match, req_path)
}

proof fn lemma_decimal_digits(n: int)
    requires
        n >= 0,
    ensures
        decimal(n).len() > 0,
        forall|i: int| 0 <= i < decimal(n).len() ==> '0' <= #[trigger] decimal(n)[i] <= '9',
{
    lemma_decimal_reads_back(n);
    assert forall|i: int| 0 <= i < decimal(n).len() implies '0' <= #[trigger] decimal(n)[i]
        <= '9' by {
        assert(is_digit(decimal(n)[i]));
    }
}

/// Files of different lengths, or last changed at different seconds, have
/// different entity tags.
pub proof fn etags_tell_versions_apart(len1: u64, secs1: u64, len2: u64, secs2: u64)
    requires
        etag_of(len1, secs1) == etag_of(len2, secs2),
    ensures
        len1 == len2,
        secs1 == secs2,
{
    lemma_etag_parts(len1, secs1);
    lemma_etag_parts(len2, secs2);
    let parts = split_of(etag_body(etag_of(len1, secs1)), '-');
    assert(parts[0] == decimal(len1 as int) && parts[0] == decimal(len2 as int));
    assert(parts[1] == decimal(secs1 as int) && parts[1] == decimal(secs2 as int));
    decimal_is_injective(len1 as int, len2 as int);
    decimal_is_injective(secs1 as int, secs2 as int);
}

/// What stands between the quotation marks of an entity tag.
spec fn etag_body(tag: Seq<char>) -> Seq<char> {
    tag.subrange(3, tag.len() - 1)
}

proof fn lemma_etag_parts(len: u64, secs: u64)
    ensures
        split_of(etag_body(etag_of(len, secs)), '-') == seq![
            decimal(len as int),
            decimal(secs as int),
        ],
{
    let a = decimal(len as int);
    let b = decimal(secs as int);
    reveal_strlit("W/\"");
    reveal_strlit("-");
    reveal_strlit("\"");
    lemma_decimal_digits(len as int);
    lemma_decimal_digits(secs as int);
    assert(etag_body(etag_of(len, secs)) =~= a.push('-') + b);
    lemma_split_joined(a, '-', b);
    lemma_split_without_separator(a, '-');
    lemma_split_without_separator(b, '-');
    assert(split_of(a.push('-') + b, '-') =~= seq![a, b]);
}

/// A client that sends back the entity tag of the current version, alone or
/// behind others, is told that its copy is current, and is not sent the file.
pub proof fn current_copies_are_not_sent_again(
    content_type: Seq<char>,
    brotli: bool,
    len: u64,
    secs: u64,
    others: Option<Seq<char>>,
    req_path: Option<Seq<char>>,
)
    ensures
        ({
            let tag = etag_of(len, secs);
            let if_none_match = match others {
                Some(o) => o.push(',') + (seq![' '] + tag),
                None => tag,
            };
            static_answer(
                content_type,
                brotli,
                true,
                Some(FileMeta { len, modified: Some(secs) }),
                Some(if_none_match),
                req_path,
            ) matches Ok(reply) && reply.status == 304
        }),
{
    let tag = etag_of(len, secs);
    let a = decimal(len as int);
    let b = decimal(secs as int);
    let spaced = seq![' '] + tag;
    reveal_strlit("W/\"");
    reveal_strlit("-");
    reveal_strlit("\"");
    lemma_decimal_digits(len as int);
    lemma_decimal_digits(secs as int);
    assert forall|i: int| 0 <= i < tag.len() implies #[trigger] tag[i] != ',' by {
        if 3 <= i < 3 + a.len() {
            assert(tag[i] == a[i - 3]);
        } else if 4 + a.len() <= i < 4 + a.len() + b.len() {
            assert(tag[i] == b[i - 4 - a.len()]);
        }
    }
    assert(tag.first() == 'W');
    assert(tag.last() == '"');
    assert(!spaced.contains(',')) by {
        if spaced.contains(',') {
            let i = choose|i: int| 0 <= i < spaced.len() && spaced[i] == ',';
            assert(tag[i - 1] == ',');
        }
    }
    lemma_trim_unchanged(tag);
    lemma_trim_after_space(tag);
    lemma_holds_alone(tag, ',', tag);
    lemma_holds_alone(spaced, ',', tag);
    if others is Some {
        lemma_holds_joined(others->0, ',', spaced, tag);
    }
}

/// A file is declared as Brotli to nobody but a client that takes it, and only
/// where the variant is there.
pub proof fn brotli_goes_to_those_who_take_it(
    accept_encoding: Option<Seq<char>>,
    file_name: Option<Seq<char>>,
    default_name: Option<Seq<char>>,
    is_file: bool,
)
    ensures
        form_of(br_variant_of(accept_encoding, file_name, default_name), is_file) is Brotli <==> {
            &&& is_file
            &&& accept_encoding is Some
            &&& names_br(accept_encoding->0)
            &&& file_name is Some || default_name is Some
        },
{
}

} // verus!

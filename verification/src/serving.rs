//! How the front end is sent, stated of the answers themselves.

use crate::number::decimal;
use crate::reply::{HeaderName, Refusal};
use crate::statics::{
    accept_br, br_variant, cache_headers_for_path, choose_form, etags_tell_versions_apart,
    make_weak_etag, media_type_of, serve_static, static_reply, static_target, FileMeta, Form,
    StaticReply, Target,
};
use crate::text::{split_of, trim_of};
use vstd::prelude::*;

verus! {

/// Whether a header names Brotli: one of its parts begins with `br`.
pub open spec fn takes_brotli(accept_encoding: Option<&str>) -> bool {
    accept_encoding is Some && exists|i: int|
        0 <= i < split_of(accept_encoding->0@, ',').len() && {
            let part = trim_of(#[trigger] split_of(accept_encoding->0@, ',')[i]);
            part.len() >= 2 && part[0] == 'b' && part[1] == 'r'
        }
}

/// A client takes Brotli exactly where one of the parts of its header begins with
/// `br`.
pub proof fn brotli_is_asked_for(accept_encoding: Option<&str>, r: bool)
    requires
        call_ensures(accept_br, (accept_encoding,), r),
    ensures
        r <==> takes_brotli(accept_encoding),
{
    reveal_strlit("br");
    if accept_encoding is Some {
        let pieces = split_of(accept_encoding->0@, ',');
        assert forall|i: int| 0 <= i < pieces.len() implies {
            let part = trim_of(#[trigger] pieces[i]);
            "br"@.is_prefix_of(part) <==> part.len() >= 2 && part[0] == 'b' && part[1] == 'r'
        } by {
            let part = trim_of(pieces[i]);
            if part.len() >= 2 && part[0] == 'b' && part[1] == 'r' {
                assert("br"@ =~= part.subrange(0, 2));
            }
            if "br"@.is_prefix_of(part) {
                assert(part.subrange(0, 2)[0] == 'b' && part.subrange(0, 2)[1] == 'r');
            }
        }
    }
}

/// A Brotli variant is looked for beside a file exactly where the client takes
/// Brotli; it has the name of the file with `.br` behind it.
pub proof fn variants_are_looked_for(
    accept_encoding: Option<&str>,
    file_name: Option<&str>,
    default_name: Option<&str>,
    takes: bool,
    r: Option<String>,
)
    requires
        call_ensures(br_variant, (accept_encoding, file_name, default_name), r),
        call_ensures(accept_br, (accept_encoding,), takes),
    ensures
        !takes ==> r is None,
        takes && file_name is Some ==> r is Some && r->0@ == file_name->0@ + ".br"@,
        takes && file_name is None && default_name is Some ==> r is Some && r->0@
            == default_name->0@ + ".br"@,
        file_name is None && default_name is None ==> r is None,
{
    assert(r.deep_view() is Some == r is Some);
    assert(file_name.deep_view() is Some == file_name is Some);
    assert(default_name.deep_view() is Some == default_name is Some);
}

/// The Brotli variant is sent exactly where one was looked for and is a file.
pub proof fn variants_are_sent(variant: Option<String>, is_file: bool, r: Form)
    requires
        call_ensures(choose_form, (variant, is_file), r),
    ensures
        variant is Some && is_file ==> r is Brotli && r->Brotli_0@ == variant->0@,
        variant is None || !is_file ==> r is Plain,
{
    assert(variant.deep_view() is Some == variant is Some);
}

/// The root and every directory get the index, a file itself, and everything else
/// the page for unknown paths.
pub proof fn paths_have_their_file(rel: &str, is_file: bool, is_dir: bool, r: Target)
    requires
        call_ensures(static_target, (rel, is_file, is_dir), r),
    ensures
        r == Target::Index <==> rel@.len() == 0 || is_dir,
        r == Target::Requested <==> rel@.len() > 0 && !is_dir && is_file,
        r == Target::Fallback <==> rel@.len() > 0 && !is_dir && !is_file,
{
}

/// A file has an entity tag where the second of its last change is known, made of
/// its length and that second; two versions have the same only where both agree.
pub proof fn tags_tell_length_and_time(
    a: FileMeta,
    b: FileMeta,
    tag_a: Option<String>,
    tag_b: Option<String>,
)
    requires
        call_ensures(make_weak_etag, (&a,), tag_a),
        call_ensures(make_weak_etag, (&b,), tag_b),
    ensures
        tag_a is Some <==> a.modified is Some,
        a.modified is Some ==> tag_a->0@ == "W/\""@ + decimal(a.len as int) + "-"@ + decimal(
            a.modified->0 as int,
        ) + "\""@,
        tag_a is Some && tag_b is Some && tag_a->0@ == tag_b->0@ ==> a.len == b.len && a.modified
            == b.modified,
{
    assert(tag_a.deep_view() is Some == tag_a is Some);
    assert(tag_b.deep_view() is Some == tag_b is Some);
    if tag_a is Some && tag_b is Some && tag_a->0@ == tag_b->0@ {
        etags_tell_versions_apart(a.len, a.modified->0, b.len, b.modified->0);
    }
}

/// Whether a path names a file that never changes: it is below the directory for
/// such, or has one of their extensions.
pub open spec fn never_changes(p: Seq<char>) -> bool {
    ||| "/_next/static/"@.is_prefix_of(p)
    ||| ".js"@.is_suffix_of(p) || ".css"@.is_suffix_of(p) || ".map"@.is_suffix_of(p)
    ||| ".json"@.is_suffix_of(p) || ".svg"@.is_suffix_of(p) || ".woff2"@.is_suffix_of(p)
    ||| ".png"@.is_suffix_of(p) || ".jpg"@.is_suffix_of(p) || ".jpeg"@.is_suffix_of(p)
    ||| ".gif"@.is_suffix_of(p)
}

/// How long an answer may be kept.
pub open spec fn kept_for(req_path: Option<&str>, is_page: bool) -> Seq<char> {
    if is_page {
        "no-cache"@
    } else if req_path is None {
        "public, max-age=300"@
    } else if never_changes(req_path->0@) {
        "public, max-age=31536000, immutable"@
    } else {
        "public, max-age=3600"@
    }
}

/// A page is checked again every time. Anything else may be kept: for a year where
/// its path never changes, for an hour where it may, and for five minutes where
/// the path does not tell.
pub proof fn answers_are_kept_for(req_path: Option<&str>, is_page: bool, r: &'static str)
    requires
        call_ensures(cache_headers_for_path, (req_path, is_page), r),
    ensures
        r@ == kept_for(req_path, is_page),
{
    assert(req_path.deep_view() is Some == req_path is Some);
}

/// Whether the client says that it has the version with this tag.
pub open spec fn has_version(if_none_match: Option<&str>, tag: Seq<char>) -> bool {
    if_none_match is Some && exists|i: int|
        0 <= i < split_of(if_none_match->0@, ',').len() && trim_of(
            #[trigger] split_of(if_none_match->0@, ',')[i],
        ) == tag
}

/// Whether an answer is the one with a file of a media type.
pub open spec fn sends_file(
    r: Result<StaticReply, Refusal>,
    content_type: Seq<char>,
    brotli: bool,
    opened: bool,
    meta: Option<FileMeta>,
    if_none_match: Option<&str>,
    req_path: Option<&str>,
) -> bool {
    let h = r->Ok_0.headers.deep_view();
    let dated = meta is Some && (meta->0).modified is Some;
    let tag = "W/\""@ + decimal((meta->0).len as int) + "-"@ + decimal(
        (meta->0).modified->0 as int,
    ) + "\""@;
    let current = dated && has_version(if_none_match, tag);
    let cache = (
        HeaderName::CacheControl,
        kept_for(req_path, "text/html"@.is_prefix_of(content_type)),
    );
    let vary = (HeaderName::Vary, "Accept-Encoding"@);
    let encoding = (HeaderName::ContentEncoding, "br"@);
    let none = Seq::<(HeaderName, Seq<char>)>::empty();
    &&& !opened ==> r is Err && r->Err_0.status == 404 && r->Err_0.error@ == "not found"@
    &&& opened && current ==> {
        &&& r is Ok
        &&& r->Ok_0.status == 304
        &&& brotli ==> h == seq![cache, vary, encoding, (HeaderName::ETag, tag)]
        &&& !brotli ==> h == seq![cache, (HeaderName::ETag, tag)]
    }
    &&& opened && !current ==> {
        &&& r is Ok
        &&& r->Ok_0.status == 200
        &&& h == seq![(HeaderName::ContentType, content_type)] + (if brotli {
            seq![encoding, vary]
        } else {
            none
        }) + (if meta is Some {
            seq![(HeaderName::ContentLength, decimal((meta->0).len as int))]
        } else {
            none
        }) + (if dated {
            seq![(HeaderName::ETag, tag)]
        } else {
            none
        }) + seq![cache]
    }
}

/// A file is sent with its media type, its length and its entity tag, where they
/// are known, with how long it may be kept, and declared as Brotli exactly where
/// it is. A client that has the current version is told so instead, and a file that
/// could not be opened is not found.
pub proof fn files_are_sent(
    content_type: &str,
    brotli: bool,
    opened: bool,
    meta: Option<FileMeta>,
    if_none_match: Option<&str>,
    req_path: Option<&str>,
    r: Result<StaticReply, Refusal>,
)
    requires
        call_ensures(
            static_reply,
            (content_type, brotli, opened, meta, if_none_match, req_path),
            r,
        ),
    ensures
        sends_file(r, content_type@, brotli, opened, meta, if_none_match, req_path),
{
    assert(if_none_match.deep_view() is Some == if_none_match is Some);
    assert(req_path.deep_view() is Some == req_path is Some);
    if r is Ok {
        let h = r->Ok_0.headers.deep_view();
        let dated = meta is Some && (meta->0).modified is Some;
        let tag = "W/\""@ + decimal((meta->0).len as int) + "-"@ + decimal(
            (meta->0).modified->0 as int,
        ) + "\""@;
        let cache = (
            HeaderName::CacheControl,
            kept_for(req_path, "text/html"@.is_prefix_of(content_type@)),
        );
        let vary = (HeaderName::Vary, "Accept-Encoding"@);
        let encoding = (HeaderName::ContentEncoding, "br"@);
        if dated && has_version(if_none_match, tag) {
            if brotli {
                assert(h =~= seq![cache, vary, encoding, (HeaderName::ETag, tag)]);
            } else {
                assert(h =~= seq![cache, (HeaderName::ETag, tag)]);
            }
        }
    }
}

/// A file at a path is sent under the media type of that path, also where its
/// Brotli variant is what is sent.
pub proof fn variants_keep_the_media_type(
    path: &str,
    form: Form,
    opened: bool,
    meta: Option<FileMeta>,
    if_none_match: Option<&str>,
    req_path: Option<&str>,
    r: Result<StaticReply, Refusal>,
)
    requires
        call_ensures(serve_static, (path, &form, opened, meta, if_none_match, req_path), r),
    ensures
        sends_file(r, media_type_of(path@), form is Brotli, opened, meta, if_none_match, req_path),
{
    assert(if_none_match.deep_view() is Some == if_none_match is Some);
    assert(req_path.deep_view() is Some == req_path is Some);
    if r is Ok {
        let h = r->Ok_0.headers.deep_view();
        let dated = meta is Some && (meta->0).modified is Some;
        let tag = "W/\""@ + decimal((meta->0).len as int) + "-"@ + decimal(
            (meta->0).modified->0 as int,
        ) + "\""@;
        let cache = (
            HeaderName::CacheControl,
            kept_for(req_path, "text/html"@.is_prefix_of(media_type_of(path@))),
        );
        let vary = (HeaderName::Vary, "Accept-Encoding"@);
        let encoding = (HeaderName::ContentEncoding, "br"@);
        if dated && has_version(if_none_match, tag) {
            if form is Brotli {
                assert(h =~= seq![cache, vary, encoding, (HeaderName::ETag, tag)]);
            } else {
                assert(h =~= seq![cache, (HeaderName::ETag, tag)]);
            }
        }
    }
}

} // verus!

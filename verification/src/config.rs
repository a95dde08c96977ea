//! What the environment configures, and what the server says of itself.

use crate::number::{parse_unsigned, unsigned_of};
use crate::reply::{is_header_text, is_header_value};
use crate::text::{lower_of, same, split, split_of, to_lower, trim, trim_of};
use vstd::prelude::*;
use vstd::utf8::encode_utf8;

verus! {

/// The port to listen on: that of the variable `PORT`, or 8087 where it is not
/// set to a port number.
pub fn listen_port(port: Option<&str>) -> (r: u16)
    ensures
        r == (match port.deep_view() {
            Some(v) => match unsigned_of(v, u16::MAX as u64) {
                Some(n) => n as u16,
                None => 8087,
            },
            None => 8087,
        }),
{
    match port {
        Some(v) => match parse_unsigned(v, u16::MAX as u64) {
            Some(n) => n as u16,
            None => 8087,
        },
        None => 8087,
    }
}

/// Chooses the directory of the front end, relative to the working directory,
/// by which of the first three places exist.
pub fn static_dir(out: bool, next_export: bool, parent_out: bool) -> (r: &'static str)
    ensures
        r@ == (if out {
            "out"@
        } else if next_export {
            ".next-export"@
        } else if parent_out {
            "../out"@
        } else {
            "../.next-export"@
        }),
{
    if out {
        "out"
    } else if next_export {
        ".next-export"
    } else if parent_out {
        "../out"
    } else {
        "../.next-export"
    }
}

/// Chooses the page of a share, below the directory of the front end, by
/// whether the first of its two places exists.
pub fn share_page(index_exists: bool) -> (r: &'static str)
    ensures
        r@ == (if index_exists {
            "s/index.html"@
        } else {
            "s.html"@
        }),
{
    if index_exists {
        "s/index.html"
    } else {
        "s.html"
    }
}

/// Which other origins may call the server.
#[derive(Debug)]
pub struct CorsPolicy {
    /// The origins that may; `None` for all of them.
    pub origins: Option<Vec<String>>,
    /// Whether such calls may carry credentials.
    pub credentials: bool,
    /// The methods of such calls.
    pub methods: Vec<&'static str>,
    /// The request headers that such calls may carry.
    pub headers: Vec<&'static str>,
}

/// The methods that calls from other origins may use.
pub open spec fn cors_methods_of() -> Seq<Seq<char>> {
    seq!["GET"@, "POST"@, "DELETE"@, "PUT"@, "OPTIONS"@]
}

/// The request headers that calls from other origins may carry.
pub open spec fn cors_headers_of() -> Seq<Seq<char>> {
    seq!["accept"@, "content-type"@, "authorization"@]
}

fn cors_methods() -> (r: Vec<&'static str>)
    ensures
        r.deep_view() == cors_methods_of(),
{
    let mut r: Vec<&'static str> = Vec::new();
    r.push("GET");
    r.push("POST");
    r.push("DELETE");
    r.push("PUT");
    r.push("OPTIONS");
    assert(r.deep_view() =~= cors_methods_of());
    r
}

fn cors_headers() -> (r: Vec<&'static str>)
    ensures
        r.deep_view() == cors_headers_of(),
{
    let mut r: Vec<&'static str> = Vec::new();
    r.push("accept");
    r.push("content-type");
    r.push("authorization");
    assert(r.deep_view() =~= cors_headers_of());
    r
}

/// The origins that a comma-separated list names, but for those that could not
/// stand in a header.
pub open spec fn origins_of(pieces: Seq<Seq<char>>) -> Seq<Seq<char>>
    decreases pieces.len(),
{
    if pieces.len() == 0 {
        Seq::empty()
    } else {
        let before = origins_of(pieces.drop_last());
        let origin = trim_of(pieces.last());
        if is_header_text(encode_utf8(origin)) {
            before.push(origin)
        } else {
            before
        }
    }
}

/// Reads which other origins may call the server from the variable
/// `CORS_ALLOW_ORIGIN`. Where it is not set all may, without credentials.
pub fn cors_policy(allow_origin: Option<&str>) -> (r: CorsPolicy)
    ensures
        r.credentials == allow_origin is Some,
        r.methods.deep_view() == cors_methods_of(),
        r.headers.deep_view() == cors_headers_of(),
        match (r.origins, allow_origin.deep_view()) {
            (Some(origins), Some(list)) => origins.deep_view() == origins_of(split_of(list, ',')),
            (None, None) => true,
            _ => false,
        },
{
    let list = match allow_origin {
        Some(l) => l,
        None => {
            return CorsPolicy {
                origins: None,
                credentials: false,
                methods: cors_methods(),
                headers: cors_headers(),
            };
        },
    };
    let parts = split(list, ',');
    let ghost pieces = split_of(list@, ',');
    let mut origins: Vec<String> = Vec::new();
    let mut i: usize = 0;
    assert(pieces.take(0) =~= Seq::empty());
    assert(origins.deep_view() =~= Seq::empty());
    while i < parts.len()
        invariant
            i <= parts@.len(),
            parts.deep_view() == pieces,
            origins.deep_view() == origins_of(pieces.take(i as int)),
        decreases parts@.len() - i,
    {
        let ghost before = origins.deep_view();
        proof {
            assert(pieces[i as int] == parts@[i as int]@);
            assert(pieces.take(i + 1).drop_last() =~= pieces.take(i as int));
            assert(pieces.take(i + 1).last() == pieces[i as int]);
        }
        let origin = trim(parts[i].as_str());
        if is_header_value(origin.as_str()) {
            let ghost added = origin@;
            origins.push(origin);
            assert(origins.deep_view() =~= before.push(added));
        }
        i = i + 1;
    }
    assert(pieces.take(pieces.len() as int) =~= pieces);
    CorsPolicy {
        origins: Some(origins),
        credentials: true,
        methods: cors_methods(),
        headers: cors_headers(),
    }
}

/// What the server says of its health.
#[derive(Debug)]
pub struct Health {
    pub message: String,
    pub data_dir: Option<String>,
    pub db_path: Option<String>,
}

/// `Health` as a mathematical value.
pub struct HealthView {
    pub message: Seq<char>,
    pub data_dir: Option<Seq<char>>,
    pub db_path: Option<Seq<char>>,
}

impl DeepView for Health {
    type V = HealthView;

    open spec fn deep_view(&self) -> HealthView {
        HealthView {
            message: self.message@,
            data_dir: self.data_dir.deep_view(),
            db_path: self.db_path.deep_view(),
        }
    }
}

/// Whether the variable `HEALTH_VERBOSE` asks for the paths to be told.
pub open spec fn asks_verbose(verbose: Option<Seq<char>>) -> bool {
    verbose matches Some(v) && (v == "1"@ || lower_of(v) == "true"@)
}

/// Tells how the server is; where the data lies only if the variable
/// `HEALTH_VERBOSE` asks for it.
pub fn health(verbose: Option<&str>, data_dir: &str, db_path: &str) -> (r: Health)
    ensures
        r.deep_view() == (if asks_verbose(verbose.deep_view()) {
            HealthView { message: "Good!"@, data_dir: Some(data_dir@), db_path: Some(db_path@) }
        } else {
            HealthView { message: "Good!"@, data_dir: None, db_path: None }
        }),
{
    let told = match verbose {
        Some(v) => same(v, "1") || same(to_lower(v).as_str(), "true"),
        None => false,
    };
    if told {
        Health {
            message: "Good!".to_owned(),
            data_dir: Some(data_dir.to_owned()),
            db_path: Some(db_path.to_owned()),
        }
    } else {
        Health { message: "Good!".to_owned(), data_dir: None, db_path: None }
    }
}

} // verus!

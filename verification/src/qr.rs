//! The QR code of a share link.

use crate::cookie::{request_scheme, scheme_of};
use crate::form::{form_pairs, form_pairs_of, is_switched_on, switched_on};
use crate::number::{decimal, parse_unsigned, u64_text, unsigned_of};
use crate::reply::{header, refuse, Header, HeaderName, Refusal};
use crate::share::{cleanup, cleanup_of, ShareLink, ShareLinkView};
use crate::store::{Change, ChangeView};
use crate::text::same;
use crate::token::{is_token, is_url_safe, tokens_are_url_safe};
use qrcodegen::{QrCode, QrCodeEcc};
use vstd::prelude::*;
use vstd::utf8::{
    decode_utf8, encode_utf8, encode_utf8_decode_utf8, encode_utf8_valid_utf8, is_ascii_chars,
    is_ascii_chars_encode_utf8, is_char_boundary, is_char_boundary_iff_is_leading_byte,
    is_leading_byte_width_1,
};

verus! {

/// A QR code as `qrcodegen` holds it.
#[verifier::external_type_specification]
#[verifier::external_body]
pub struct ExQrCode(QrCode);

/// The modules of a QR code, row by row; `true` is dark.
pub uninterp spec fn qr_modules(code: QrCode) -> Seq<Seq<bool>>;

/// The modules of the QR code that `qrcodegen` makes of a text at an error
/// correction level, counted from the lowest, 0, to the highest, 3. `None`
/// where the text is too long for any QR code.
pub uninterp spec fn qr_encoding(text: Seq<char>, level: u8) -> Option<Seq<Seq<bool>>>;

/// The error correction level of the codes: the second lowest of the four.
pub const QR_LEVEL: u8 = 1;

/// Whether `qrcodegen` can count the bits of a text.
pub open spec fn qr_text_fits(text: Seq<char>) -> bool {
    8 * encode_utf8(text).len() <= isize::MAX
}

/// Calls `qrcodegen::QrCode::encode_text`. The code depends on the text and the
/// level alone; there is none where the text is too long.
#[verifier::external_body]
fn encode_text(text: &str, level: u8) -> (r: Option<QrCode>)
    requires
        level < 4,
        qr_text_fits(text@),
    ensures
        match r {
            Some(code) => qr_encoding(text@, level) == Some(qr_modules(code)),
            None => qr_encoding(text@, level) is None,
        },
{
    let ecl = match level {
        0 => QrCodeEcc::Low,
        1 => QrCodeEcc::Medium,
        2 => QrCodeEcc::Quartile,
        _ => QrCodeEcc::High,
    };
    QrCode::encode_text(text, ecl).ok()
}

/// Calls `qrcodegen::QrCode::size`: a code is a square of 21 to 177 modules a
/// side.
#[verifier::external_body]
fn code_size(code: &QrCode) -> (r: i32)
    ensures
        21 <= r <= 177,
        r == qr_modules(*code).len(),
        forall|y: int| 0 <= y < r ==> (#[trigger] qr_modules(*code)[y]).len() == r,
{
    code.size()
}

/// Calls `qrcodegen::QrCode::get_module`: whether the module in this column and
/// row is dark. What is outside the code is light.
#[verifier::external_body]
fn code_module(code: &QrCode, x: i32, y: i32) -> (r: bool)
    ensures
        r == (0 <= y < qr_modules(*code).len() && 0 <= x < qr_modules(*code)[y as int].len()
            && qr_modules(*code)[y as int][x as int]),
{
    code.get_module(x, y)
}

/// The modules of a code as plain values.
fn modules_of(code: &QrCode) -> (r: Vec<Vec<bool>>)
    ensures
        r.deep_view() == qr_modules(*code),
        21 <= r@.len() <= 177,
        is_square(r.deep_view()),
{
    let dim = code_size(code);
    let mut rows: Vec<Vec<bool>> = Vec::new();
    let mut y: i32 = 0;
    while y < dim
        invariant
            0 <= y <= dim,
            rows@.len() == y,
            dim == qr_modules(*code).len(),
            forall|k: int| 0 <= k < dim ==> (#[trigger] qr_modules(*code)[k]).len() == dim,
            forall|k: int| 0 <= k < y ==> (#[trigger] rows@[k])@ == qr_modules(*code)[k],
        decreases dim - y,
    {
        let mut row: Vec<bool> = Vec::new();
        let mut x: i32 = 0;
        while x < dim
            invariant
                0 <= x <= dim,
                0 <= y < dim,
                dim == qr_modules(*code).len(),
                qr_modules(*code)[y as int].len() == dim,
                row@ == qr_modules(*code)[y as int].take(x as int),
            decreases dim - x,
        {
            row.push(code_module(code, x, y));
            x = x + 1;
        }
        assert(row@ =~= qr_modules(*code)[y as int]);
        rows.push(row);
        y = y + 1;
    }
    proof {
        assert forall|k: int| 0 <= k < dim implies #[trigger] rows.deep_view()[k] == qr_modules(
            *code,
        )[k] by {
            assert(rows.deep_view()[k] =~= rows@[k]@);
        }
        assert(rows.deep_view() =~= qr_modules(*code));
    }
    rows
}

/// Whether the rows are as many as each of them is long.
pub open spec fn is_square(modules: Seq<Seq<bool>>) -> bool {
    forall|y: int| 0 <= y < modules.len() ==> (#[trigger] modules[y]).len() == modules.len()
}

/// The dark ones of the first `n` modules of row `y`, each by its column and
/// row, shifted by the border.
pub open spec fn dark_in_row(row: Seq<bool>, n: int, y: int, border: int) -> Seq<(int, int)>
    decreases n,
{
    if n <= 0 {
        Seq::empty()
    } else {
        let before = dark_in_row(row, n - 1, y, border);
        if row[n - 1] {
            before.push((n - 1 + border, y + border))
        } else {
            before
        }
    }
}

/// The dark modules of the first `n` rows, row by row.
pub open spec fn dark_in_rows(modules: Seq<Seq<bool>>, n: int, border: int) -> Seq<(int, int)>
    decreases n,
{
    if n <= 0 {
        Seq::empty()
    } else {
        dark_in_rows(modules, n - 1, border) + dark_in_row(
            modules[n - 1],
            modules[n - 1].len() as int,
            n - 1,
            border,
        )
    }
}

/// A drawing on a square grid: the cells of a side, and the dark ones by column
/// and row.
#[derive(Debug)]
pub struct Layout {
    pub side: i32,
    pub dark: Vec<(i32, i32)>,
}

/// `Layout` as a mathematical value.
pub struct LayoutView {
    pub side: int,
    pub dark: Seq<(int, int)>,
}

impl DeepView for Layout {
    type V = LayoutView;

    open spec fn deep_view(&self) -> LayoutView {
        LayoutView {
            side: self.side as int,
            dark: Seq::new(
                self.dark@.len(),
                |i: int| (self.dark@[i].0 as int, self.dark@[i].1 as int),
            ),
        }
    }
}

/// How a code is drawn: its dark modules, with a border of light ones around.
pub open spec fn layout_of(modules: Seq<Seq<bool>>, margin: u32) -> LayoutView {
    LayoutView {
        side: modules.len() + 2 * margin,
        dark: dark_in_rows(modules, modules.len() as int, margin as int),
    }
}

/// Lays out the modules of a code, with a border of `margin` light modules.
pub fn layout(modules: &Vec<Vec<bool>>, margin: u32) -> (r: Layout)
    requires
        is_square(modules.deep_view()),
        modules@.len() + 2 * margin <= i32::MAX,
    ensures
        r.deep_view() == layout_of(modules.deep_view(), margin),
{
    let n: usize = modules.len();
    let dim: i32 = n as i32;
    let border: i32 = margin as i32;
    let ghost grid = modules.deep_view();
    let mut out = Layout { side: dim + 2 * border, dark: Vec::new() };
    let mut y: usize = 0;
    assert(out.deep_view().dark =~= dark_in_rows(grid, 0, border as int));
    while y < n
        invariant
            y <= n,
            n == modules@.len(),
            n + 2 * border <= i32::MAX,
            0 <= border,
            grid == modules.deep_view(),
            is_square(grid),
            out.side == n + 2 * border,
            out.deep_view().dark == dark_in_rows(grid, y as int, border as int),
        decreases n - y,
    {
        let row = &modules[y];
        assert(grid[y as int] == row.deep_view());
        assert(row.deep_view() =~= row@);
        assert(grid[y as int].len() == grid.len());
        let ghost rows_before = dark_in_rows(grid, y as int, border as int);
        let mut x: usize = 0;
        assert(out.deep_view().dark =~= rows_before + dark_in_row(
            row@,
            0,
            y as int,
            border as int,
        ));
        while x < n
            invariant
                x <= n,
                y < n,
                n == row@.len(),
                n + 2 * border <= i32::MAX,
                0 <= border,
                out.side == n + 2 * border,
                out.deep_view().dark == rows_before + dark_in_row(
                    row@,
                    x as int,
                    y as int,
                    border as int,
                ),
            decreases n - x,
        {
            let ghost before = out.deep_view().dark;
            if row[x] {
                out.dark.push((x as i32 + border, y as i32 + border));
                assert(out.deep_view().dark =~= before.push((x + border, y + border)));
                assert(out.deep_view().dark =~= rows_before + dark_in_row(
                    row@,
                    x + 1,
                    y as int,
                    border as int,
                ));
            }
            x = x + 1;
        }
        y = y + 1;
    }
    out
}

/// What a request for a QR code asks for.
#[derive(Clone, Copy, Debug, PartialEq, Eq, Structural)]
pub struct QrQuery {
    /// The side of the picture in pixels.
    pub size: u32,
    /// The width of the border in modules.
    pub margin: u32,
    /// Whether the picture is offered as a download.
    pub download: bool,
}

/// The size that a query value asks for: between 64 and 4096 pixels, and 256
/// where the value is no number.
pub open spec fn size_of(v: Seq<char>) -> u32 {
    match unsigned_of(v, u32::MAX as u64) {
        None => 256,
        Some(n) => if n < 64 {
            64
        } else if n > 4096 {
            4096
        } else {
            n as u32
        },
    }
}

/// The margin that a query value asks for: at most 32 modules, and 2 where the
/// value is no number.
pub open spec fn margin_of(v: Seq<char>) -> u32 {
    match unsigned_of(v, u32::MAX as u64) {
        None => 2,
        Some(n) => if n > 32 {
            32
        } else {
            n as u32
        },
    }
}

/// What the pairs of a query string ask for. The last pair of a name counts.
pub open spec fn qr_query_of(pairs: Seq<(Seq<char>, Seq<char>)>) -> QrQuery
    decreases pairs.len(),
{
    if pairs.len() == 0 {
        QrQuery { size: 256, margin: 2, download: false }
    } else {
        let q = qr_query_of(pairs.drop_last());
        let (k, v) = pairs.last();
        if k == "size"@ {
            QrQuery { size: size_of(v), ..q }
        } else if k == "margin"@ {
            QrQuery { margin: margin_of(v), ..q }
        } else if k == "download"@ {
            QrQuery { download: is_switched_on(v), ..q }
        } else {
            q
        }
    }
}

fn picture_size(v: &str) -> (r: u32)
    ensures
        r == size_of(v@),
{
    match parse_unsigned(v, u32::MAX as u64) {
        None => 256,
        Some(n) => if n < 64 {
            64
        } else if n > 4096 {
            4096
        } else {
            n as u32
        },
    }
}

fn border_width(v: &str) -> (r: u32)
    ensures
        r == margin_of(v@),
{
    match parse_unsigned(v, u32::MAX as u64) {
        None => 2,
        Some(n) => if n > 32 {
            32
        } else {
            n as u32
        },
    }
}

/// Reads what the pairs of a query string ask for.
pub fn qr_query(pairs: &Vec<(String, String)>) -> (r: QrQuery)
    ensures
        r == qr_query_of(pairs.deep_view()),
        64 <= r.size <= 4096,
        r.margin <= 32,
{
    let ghost views = pairs.deep_view();
    let mut q = QrQuery { size: 256, margin: 2, download: false };
    let mut i: usize = 0;
    assert(views.take(0) =~= Seq::empty());
    while i < pairs.len()
        invariant
            i <= pairs@.len(),
            views == pairs.deep_view(),
            q == qr_query_of(views.take(i as int)),
            64 <= q.size <= 4096,
            q.margin <= 32,
        decreases pairs@.len() - i,
    {
        let k = pairs[i].0.as_str();
        let v = pairs[i].1.as_str();
        proof {
            assert(views.take(i + 1).drop_last() =~= views.take(i as int));
            assert(views.take(i + 1).last() == (k@, v@));
        }
        if same(k, "size") {
            q.size = picture_size(v);
        } else if same(k, "margin") {
            q.margin = border_width(v);
        } else if same(k, "download") {
            q.download = switched_on(v);
        }
        i = i + 1;
    }
    assert(views.take(views.len() as int) =~= views);
    q
}

/// The address of the share page, as the visitor's browser reaches it.
pub open spec fn page_url_of(
    forwarded_proto: Option<Seq<char>>,
    host: Option<Seq<char>>,
    token: Seq<char>,
) -> Seq<char> {
    scheme_of(forwarded_proto) + "://"@ + (match host {
        Some(h) => h,
        None => "localhost"@,
    }) + "/s/?token="@ + token
}

/// The address of the share page, as the visitor's browser reaches it.
pub fn page_url(forwarded_proto: Option<&str>, host: Option<&str>, token: &str) -> (r: String)
    ensures
        r@ == page_url_of(forwarded_proto.deep_view(), host.deep_view(), token@),
{
    let mut r = request_scheme(forwarded_proto);
    r.append("://");
    r.append(
        match host {
            Some(h) => h,
            None => "localhost",
        },
    );
    r.append("/s/?token=");
    r.append(token);
    r
}

/// How many bytes of a token stand in the name of its picture.
pub open spec fn stem_bytes(token: Seq<char>) -> int {
    if encode_utf8(token).len() < 8 {
        encode_utf8(token).len() as int
    } else {
        8
    }
}

/// Whether the first eight bytes of a token are whole characters.
pub open spec fn has_stem(token: Seq<char>) -> bool {
    is_char_boundary(encode_utf8(token), stem_bytes(token))
}

/// What the header of a picture offered as a download says.
pub open spec fn picture_disposition(token: Seq<char>) -> Seq<char> {
    "attachment; filename=\"share-"@ + decode_utf8(encode_utf8(token).take(stem_bytes(token)))
        + ".svg\""@
}

fn stem_length(token: &str) -> (r: usize)
    ensures
        r == stem_bytes(token@),
{
    let n: usize = token.as_bytes().len();
    if n < 8 {
        n
    } else {
        8
    }
}

fn picture_offer(token: &str) -> (r: String)
    requires
        has_stem(token@),
    ensures
        r@ == picture_disposition(token@),
{
    let (name, _) = token.split_at(stem_length(token));
    proof {
        assert(encode_utf8(name@) =~= encode_utf8(token@).take(stem_bytes(token@)));
        encode_utf8_decode_utf8(name@);
    }
    let mut r = "attachment; filename=\"share-".to_owned();
    r.append(name);
    r.append(".svg\"");
    r
}

/// The headers of a picture.
pub open spec fn picture_headers(token: Seq<char>, download: bool) -> Seq<(HeaderName, Seq<char>)> {
    seq![
        (HeaderName::ContentType, "image/svg+xml"@),
        (HeaderName::CacheControl, "public, max-age=604800"@),
    ] + (if download {
        seq![(HeaderName::ContentDisposition, picture_disposition(token))]
    } else {
        seq![]
    })
}

/// A picture of a QR code, to be drawn.
#[derive(Debug)]
pub struct Picture {
    /// The side of the picture in pixels.
    pub size: u32,
    pub layout: Layout,
    pub headers: Vec<Header>,
}

/// `Picture` as a mathematical value.
pub struct PictureView {
    pub size: u32,
    pub layout: LayoutView,
    pub headers: Seq<(HeaderName, Seq<char>)>,
}

impl DeepView for Picture {
    type V = PictureView;

    open spec fn deep_view(&self) -> PictureView {
        PictureView {
            size: self.size,
            layout: self.layout.deep_view(),
            headers: self.headers.deep_view(),
        }
    }
}

/// The answer to a request for a QR code, and what the request changes.
#[derive(Debug)]
pub struct QrReply {
    pub changes: Vec<Change>,
    pub outcome: Result<Picture, Refusal>,
}

/// `QrReply` as a mathematical value.
pub struct QrReplyView {
    pub changes: Seq<ChangeView>,
    pub outcome: Result<PictureView, (u16, Seq<char>)>,
}

impl DeepView for QrReply {
    type V = QrReplyView;

    open spec fn deep_view(&self) -> QrReplyView {
        QrReplyView {
            changes: self.changes.deep_view(),
            outcome: match self.outcome {
                Ok(p) => Ok(p.deep_view()),
                Err(e) => Err(e.deep_view()),
            },
        }
    }
}

/// The answer with a code for a link that works. `modules` are those of the
/// code, absent where the address is too long for one.
pub open spec fn picture_answer(
    modules: Option<Seq<Seq<bool>>>,
    query: QrQuery,
    token: Seq<char>,
) -> Result<PictureView, (u16, Seq<char>)> {
    match modules {
        None => Err((500u16, "qr failed"@)),
        Some(m) => Ok(
            PictureView {
                size: query.size,
                layout: layout_of(m, query.margin),
                headers: picture_headers(token, query.download),
            },
        ),
    }
}

/// Answers with a code for a link that works. `modules` are those of the code,
/// absent where the address is too long for one.
pub fn picture(modules: Option<Vec<Vec<bool>>>, query: &QrQuery, token: &str) -> (r: Result<
    Picture,
    Refusal,
>)
    requires
        query.download && modules is Some ==> has_stem(token@),
        modules matches Some(m) ==> is_square(m.deep_view()) && m@.len() + 2 * query.margin
            <= i32::MAX,
    ensures
        (match r {
            Ok(p) => Ok(p.deep_view()),
            Err(e) => Err(e.deep_view()),
        }) == picture_answer(modules.deep_view(), *query, token@),
{
    let modules = match modules {
        Some(m) => m,
        None => {
            return Err(refuse(500, "qr failed"));
        },
    };
    let layout = layout(&modules, query.margin);
    let mut headers: Vec<Header> = Vec::new();
    headers.push(header(HeaderName::ContentType, "image/svg+xml"));
    headers.push(header(HeaderName::CacheControl, "public, max-age=604800"));
    if query.download {
        headers.push(
            Header { name: HeaderName::ContentDisposition, value: picture_offer(token) },
        );
    }
    assert(headers.deep_view() =~= picture_headers(token@, query.download));
    Ok(Picture { size: query.size, layout, headers })
}

/// The answer to a request for the QR code of a link. No password is asked for:
/// the code shows what the visitor has, the address. `None` where the picture
/// is to be offered under a name that would end within a character.
pub open spec fn qr_answer(
    link: Option<ShareLinkView>,
    query: Seq<char>,
    forwarded_proto: Option<Seq<char>>,
    host: Option<Seq<char>>,
    now: i64,
) -> Option<QrReplyView> {
    match link {
        None => Some(QrReplyView { changes: seq![], outcome: Err((404u16, "not found"@)) }),
        Some(l) => if !l.limits.live(now) {
            Some(QrReplyView { changes: cleanup_of(l, now), outcome: Err((404u16, "not found"@)) })
        } else {
            let modules = qr_encoding(page_url_of(forwarded_proto, host, l.token), QR_LEVEL);
            let asked = qr_query_of(form_pairs_of(query));
            if modules is Some && asked.download && !has_stem(l.token) {
                None
            } else {
                Some(
                    QrReplyView {
                        changes: seq![],
                        outcome: picture_answer(modules, asked, l.token),
                    },
                )
            }
        },
    }
}

/// Answers a request for the QR code of a link.
pub fn share_qr(
    link: Option<ShareLink>,
    query: &str,
    forwarded_proto: Option<&str>,
    host: Option<&str>,
    now: i64,
) -> (r: Option<QrReply>)
    requires
        link matches Some(l) ==> (l.limits.live(now) ==> qr_text_fits(
            page_url_of(forwarded_proto.deep_view(), host.deep_view(), l.token@),
        )),
    ensures
        r.deep_view() == qr_answer(
            link.deep_view(),
            query@,
            forwarded_proto.deep_view(),
            host.deep_view(),
            now,
        ),
{
    let none: Vec<Change> = Vec::new();
    assert(none.deep_view() =~= seq![]);
    let link = match link {
        Some(l) => l,
        None => {
            return Some(QrReply { changes: none, outcome: Err(refuse(404, "not found")) });
        },
    };
    if !link.limits.is_live(now) {
        return Some(
            QrReply { changes: cleanup(&link, now), outcome: Err(refuse(404, "not found")) },
        );
    }
    let token = link.token.as_str();
    let asked = qr_query(&form_pairs(query));
    let url = page_url(forwarded_proto, host, token);
    let modules = match encode_text(url.as_str(), QR_LEVEL) {
        Some(code) => Some(modules_of(&code)),
        None => None,
    };
    if modules.is_some() && asked.download && !token.is_char_boundary(stem_length(token)) {
        return None;
    }
    let outcome = picture(modules, &asked, token);
    Some(QrReply { changes: none, outcome })
}

/// One dark cell of a drawing. The lengths are decimal numbers.
pub open spec fn cell_of(x: Seq<char>, y: Seq<char>, side: Seq<char>) -> Seq<char> {
    "<rect x=\""@ + x + "\" y=\""@ + y + "\" width=\""@ + side + "\" height=\""@ + side
        + "\" fill=\"#000000\"/>"@
}

/// Dark cells, one after the other.
pub open spec fn cells_of(cells: Seq<(Seq<char>, Seq<char>)>, side: Seq<char>) -> Seq<char>
    decreases cells.len(),
{
    if cells.len() == 0 {
        Seq::empty()
    } else {
        cells_of(cells.drop_last(), side) + cell_of(cells.last().0, cells.last().1, side)
    }
}

/// An SVG document: dark cells on white.
pub open spec fn svg_of(
    size: u32,
    cells: Seq<(Seq<char>, Seq<char>)>,
    side: Seq<char>,
) -> Seq<char> {
    let px = decimal(size as int);
    "<?xml version=\"1.0\" encoding=\"UTF-8\"?>"@
        + "<svg xmlns=\"http://www.w3.org/2000/svg\" width=\""@ + px + "\" height=\""@ + px
        + "\" viewBox=\"0 0 "@ + px + " "@ + px + "\" shape-rendering=\"crispEdges\">"@
        + "<rect width=\"100%\" height=\"100%\" fill=\"#ffffff\"/>"@ + cells_of(cells, side)
        + "</svg>"@
}

/// Writes a drawing as an SVG document. `cells` are the upper left corners of
/// the dark cells, `side` is the length of their sides; all of these are in
/// pixels, as decimal numbers.
pub fn svg(size: u32, cells: &Vec<(String, String)>, side: &str) -> (r: String)
    ensures
        r@ == svg_of(size, cells.deep_view(), side@),
{
    let px = u64_text(size as u64);
    let mut r = "<?xml version=\"1.0\" encoding=\"UTF-8\"?>".to_owned();
    r.append("<svg xmlns=\"http://www.w3.org/2000/svg\" width=\"");
    r.append(px.as_str());
    r.append("\" height=\"");
    r.append(px.as_str());
    r.append("\" viewBox=\"0 0 ");
    r.append(px.as_str());
    r.append(" ");
    r.append(px.as_str());
    r.append("\" shape-rendering=\"crispEdges\">");
    r.append("<rect width=\"100%\" height=\"100%\" fill=\"#ffffff\"/>");
    let ghost head = r@;
    let ghost views = cells.deep_view();
    let mut i: usize = 0;
    assert(views.take(0) =~= Seq::empty());
    assert(r@ =~= head + cells_of(views.take(0), side@));
    while i < cells.len()
        invariant
            i <= cells@.len(),
            views == cells.deep_view(),
            r@ == head + cells_of(views.take(i as int), side@),
        decreases cells@.len() - i,
    {
        let x = cells[i].0.as_str();
        let y = cells[i].1.as_str();
        proof {
            assert(views.take(i + 1).drop_last() =~= views.take(i as int));
            assert(views.take(i + 1).last() == (x@, y@));
        }
        r.append("<rect x=\"");
        r.append(x);
        r.append("\" y=\"");
        r.append(y);
        r.append("\" width=\"");
        r.append(side);
        r.append("\" height=\"");
        r.append(side);
        r.append("\" fill=\"#000000\"/>");
        assert(r@ =~= head + cells_of(views.take(i + 1), side@));
        i = i + 1;
    }
    assert(views.take(views.len() as int) =~= views);
    r.append("</svg>");
    r
}

/// The picture of a link with a token of the server's own making can always be
/// offered, under a name with the first eight characters of the token.
pub proof fn tokens_name_their_picture(token: Seq<char>)
    requires
        is_token(token),
    ensures
        has_stem(token),
        picture_disposition(token) == "attachment; filename=\"share-"@ + token.take(8) + ".svg\""@,
{
    let bytes = encode_utf8(token);
    let stem = token.take(8);
    tokens_are_url_safe(token);
    assert(is_ascii_chars(token)) by {
        assert forall|i: int| 0 <= i < token.len() implies '\0' <= #[trigger] token[i]
            <= '\u{7f}' by {
            assert(is_url_safe(token[i]));
        }
    }
    assert(is_ascii_chars(stem)) by {
        assert forall|i: int| 0 <= i < stem.len() implies '\0' <= #[trigger] stem[i]
            <= '\u{7f}' by {
            assert(stem[i] == token[i]);
        }
    }
    is_ascii_chars_encode_utf8(token);
    is_ascii_chars_encode_utf8(stem);
    encode_utf8_valid_utf8(token);
    assert(is_leading_byte_width_1(bytes[8])) by {
        let b = bytes[8];
        assert(is_url_safe(token[8]));
        assert(b == token[8] as u8);
        assert(b < 128);
    }
    is_char_boundary_iff_is_leading_byte(bytes, 8);
    assert(encode_utf8(stem) =~= bytes.take(8)) by {
        assert forall|i: int| 0 <= i < 8 implies encode_utf8(stem)[i] == bytes[i] by {
            assert(stem[i] == token[i]);
        }
    }
    encode_utf8_decode_utf8(stem);
}

proof fn lemma_dark_in_row(row: Seq<bool>, n: int, y: int, border: int, cell: (int, int))
    requires
        0 <= n <= row.len(),
    ensures
        dark_in_row(row, n, y, border).contains(cell) <==> {
            let x = cell.0 - border;
            0 <= x < n && row[x] && cell.1 == y + border
        },
    decreases n,
{
    if n > 0 {
        let before = dark_in_row(row, n - 1, y, border);
        let all = dark_in_row(row, n, y, border);
        lemma_dark_in_row(row, n - 1, y, border, cell);
        if before.contains(cell) {
            let i = choose|i: int| 0 <= i < before.len() && before[i] == cell;
            assert(all[i] == cell);
        }
        if all.contains(cell) && !before.contains(cell) {
            let i = choose|i: int| 0 <= i < all.len() && all[i] == cell;
            if i < before.len() {
                assert(before[i] == cell);
            }
        }
        if row[n - 1] && cell == (n - 1 + border, y + border) {
            assert(all[all.len() - 1] == cell);
        }
    }
}

proof fn lemma_dark_in_rows(modules: Seq<Seq<bool>>, n: int, border: int, cell: (int, int))
    requires
        0 <= n <= modules.len(),
    ensures
        dark_in_rows(modules, n, border).contains(cell) <==> {
            let x = cell.0 - border;
            let y = cell.1 - border;
            0 <= y < n && 0 <= x < modules[y].len() && modules[y][x]
        },
    decreases n,
{
    if n > 0 {
        let before = dark_in_rows(modules, n - 1, border);
        let row = modules[n - 1];
        let added = dark_in_row(row, row.len() as int, n - 1, border);
        let all = dark_in_rows(modules, n, border);
        lemma_dark_in_rows(modules, n - 1, border, cell);
        lemma_dark_in_row(row, row.len() as int, n - 1, border, cell);
        if before.contains(cell) {
            let i = choose|i: int| 0 <= i < before.len() && before[i] == cell;
            assert(all[i] == cell);
        }
        if added.contains(cell) {
            let i = choose|i: int| 0 <= i < added.len() && added[i] == cell;
            assert(all[before.len() + i] == cell);
        }
        if all.contains(cell) {
            let i = choose|i: int| 0 <= i < all.len() && all[i] == cell;
            if i < before.len() {
                assert(before[i] == cell);
            } else {
                assert(added[i - before.len()] == cell);
            }
        }
    }
}

/// A drawing shows the code as it is: a cell is dark exactly where the module
/// behind it is, and the border around the code is light.
pub proof fn drawings_show_the_code(modules: Seq<Seq<bool>>, margin: u32, x: int, y: int)
    requires
        is_square(modules),
        0 <= x < layout_of(modules, margin).side,
        0 <= y < layout_of(modules, margin).side,
    ensures
        layout_of(modules, margin).dark.contains((x, y)) <==> {
            &&& margin <= x < margin + modules.len()
            &&& margin <= y < margin + modules.len()
            &&& modules[y - margin][x - margin]
        },
{
    lemma_dark_in_rows(modules, modules.len() as int, margin as int, (x, y));
    if margin <= y < margin + modules.len() {
        assert(modules[y - margin].len() == modules.len());
    }
}

} // verus!

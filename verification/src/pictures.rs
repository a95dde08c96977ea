//! What a request for the QR code of a link gets, and how the code is drawn,
//! stated of the answers themselves.

use crate::form::form_pairs_of;
use crate::number::decimal;
use crate::qr::{
    cells_of, dark_in_row, dark_in_rows, drawings_show_the_code, has_stem, is_square, layout,
    layout_of, page_url, picture, picture_disposition, qr_encoding, qr_query, share_qr, svg, Layout,
    Picture, QrQuery, QrReply,
};
use crate::reply::{HeaderName, Refusal};
use crate::share::ShareLink;
use crate::store::ChangeView;
use crate::text::lower_of;
use crate::visits::{clearing, works};
use vstd::prelude::*;
use vstd::utf8::{decode_utf8, encode_utf8, is_char_boundary};

verus! {

/// A dark square of a drawing.
pub open spec fn square(x: Seq<char>, y: Seq<char>, side: Seq<char>) -> Seq<char> {
    "<rect x=\""@ + x + "\" y=\""@ + y + "\" width=\""@ + side + "\" height=\""@ + side
        + "\" fill=\"#000000\"/>"@
}

/// The squares of some cells, then those of others, are the squares of all of
/// them; those of one cell are the square at its own place.
pub proof fn squares_follow_each_other(
    a: Seq<(Seq<char>, Seq<char>)>,
    b: Seq<(Seq<char>, Seq<char>)>,
    cell: (Seq<char>, Seq<char>),
    side: Seq<char>,
)
    ensures
        cells_of(a + b, side) == cells_of(a, side) + cells_of(b, side),
        cells_of(seq![cell], side) == square(cell.0, cell.1, side),
        cells_of(Seq::empty(), side) == Seq::<char>::empty(),
    decreases b.len(),
{
    let none = Seq::<(Seq<char>, Seq<char>)>::empty();
    assert(cells_of(none, side) =~= Seq::empty());
    assert(seq![cell].drop_last() =~= none);
    assert(seq![cell].last() == cell);
    assert(cells_of(seq![cell], side) =~= square(cell.0, cell.1, side));
    if b.len() == 0 {
        assert(a + b =~= a);
        assert(cells_of(b, side) =~= Seq::empty());
        assert(cells_of(a, side) + cells_of(b, side) =~= cells_of(a, side));
    } else {
        squares_follow_each_other(a, b.drop_last(), cell, side);
        assert((a + b).drop_last() =~= a + b.drop_last());
        assert((a + b).last() == b.last());
        assert(cells_of(a + b, side) =~= cells_of(a, side) + cells_of(b, side));
    }
}

proof fn lemma_squares(cells: Seq<(Seq<char>, Seq<char>)>, side: Seq<char>)
    ensures
        cells_of(cells, side) == Seq::new(
            cells.len(),
            |i: int| square(cells[i].0, cells[i].1, side),
        ).flatten(),
    decreases cells.len(),
{
    let squares = Seq::new(cells.len(), |i: int| square(cells[i].0, cells[i].1, side));
    squares.lemma_flatten_and_flatten_alt_are_equivalent();
    if cells.len() > 0 {
        let front = cells.drop_last();
        let before = Seq::new(front.len(), |i: int| square(front[i].0, front[i].1, side));
        lemma_squares(front, side);
        before.lemma_flatten_and_flatten_alt_are_equivalent();
        assert(squares.drop_last() =~= before);
        assert(squares.last() == square(cells.last().0, cells.last().1, side));
    }
}

/// A drawing is a white square of the asked size, and on it, for every cell, one
/// dark square at the cell's own place and of the asked side: one after the other,
/// and no others.
pub proof fn drawings_have_their_squares(
    size: u32,
    cells: Vec<(String, String)>,
    side: &str,
    r: String,
)
    requires
        call_ensures(svg, (size, &cells, side), r),
    ensures
        ({
            let px = decimal(size as int);
            let squares = Seq::new(
                cells@.len(),
                |i: int| square(cells@[i].0@, cells@[i].1@, side@),
            );
            r@ == "<?xml version=\"1.0\" encoding=\"UTF-8\"?>"@
                + "<svg xmlns=\"http://www.w3.org/2000/svg\" width=\""@ + px + "\" height=\""@ + px
                + "\" viewBox=\"0 0 "@ + px + " "@ + px + "\" shape-rendering=\"crispEdges\">"@
                + "<rect width=\"100%\" height=\"100%\" fill=\"#ffffff\"/>"@ + squares.flatten()
                + "</svg>"@
        }),
{
    let views = cells.deep_view();
    lemma_squares(views, side@);
    assert(views.len() == cells@.len());
    assert(Seq::new(views.len(), |i: int| square(views[i].0, views[i].1, side@)) =~= Seq::new(
        cells@.len(),
        |i: int| square(cells@[i].0@, cells@[i].1@, side@),
    ));
}

/// A drawing of one cell more is the same up to its end, where it has the square of
/// that cell.
pub proof fn drawings_grow_by_a_square(
    size: u32,
    cells: Vec<(String, String)>,
    more: Vec<(String, String)>,
    side: &str,
    r: String,
    s: String,
)
    requires
        call_ensures(svg, (size, &cells, side), r),
        call_ensures(svg, (size, &more, side), s),
        more@.len() == cells@.len() + 1,
        more@.drop_last() == cells@,
    ensures
        s@.len() == r@.len() + square(more@.last().0@, more@.last().1@, side@).len(),
        s@.take(r@.len() - 6) == r@.take(r@.len() - 6),
        s@.skip(r@.len() - 6) == square(more@.last().0@, more@.last().1@, side@) + "</svg>"@,
{
    let a = cells.deep_view();
    let b = more.deep_view();
    reveal_strlit("</svg>");
    assert(a.len() == cells@.len() && b.len() == more@.len());
    assert(b.drop_last() =~= a) by {
        assert forall|i: int| 0 <= i < a.len() implies b[i] == a[i] by {
            assert(more@[i] == more@.drop_last()[i]);
        }
    }
    assert(b.last() == (more@.last().0@, more@.last().1@));
    let last = square(b.last().0, b.last().1, side@);
    assert(cells_of(b, side@) == cells_of(a, side@) + last);
    let head = r@.take(r@.len() - 6 - cells_of(a, side@).len());
    assert(r@ =~= head + cells_of(a, side@) + "</svg>"@);
    assert(s@ =~= head + cells_of(b, side@) + "</svg>"@);
    assert(s@.take(r@.len() - 6) =~= r@.take(r@.len() - 6));
    assert(s@.skip(r@.len() - 6) =~= last + "</svg>"@);
}

proof fn lemma_row_order(row: Seq<bool>, n: int, y: int, border: int)
    requires
        0 <= n <= row.len(),
    ensures
        ({
            let dark = dark_in_row(row, n, y, border);
            &&& forall|i: int|
                0 <= i < dark.len() ==> (#[trigger] dark[i]).1 == y + border && dark[i].0 < n + border
            &&& forall|i: int, j: int|
                0 <= i < j < dark.len() ==> (#[trigger] dark[i]).0 < (#[trigger] dark[j]).0
        }),
    decreases n,
{
    if n > 0 {
        let before = dark_in_row(row, n - 1, y, border);
        let dark = dark_in_row(row, n, y, border);
        lemma_row_order(row, n - 1, y, border);
        assert forall|i: int| 0 <= i < dark.len() implies (#[trigger] dark[i]).1 == y + border
            && dark[i].0 < n + border by {
            if i < before.len() {
                assert(dark[i] == before[i]);
            }
        }
        assert forall|i: int, j: int| 0 <= i < j < dark.len() implies (#[trigger] dark[i]).0 < (
        #[trigger] dark[j]).0 by {
            assert(dark[i] == before[i]);
            if j < before.len() {
                assert(dark[j] == before[j]);
            }
        }
    }
}

/// Whether a cell is drawn before another: from the top, and from the left in a
/// row.
pub open spec fn drawn_before(a: (int, int), b: (int, int)) -> bool {
    a.1 < b.1 || a.1 == b.1 && a.0 < b.0
}

proof fn lemma_rows_order(modules: Seq<Seq<bool>>, n: int, border: int)
    requires
        0 <= n <= modules.len(),
    ensures
        ({
            let dark = dark_in_rows(modules, n, border);
            &&& forall|i: int| 0 <= i < dark.len() ==> (#[trigger] dark[i]).1 < n + border
            &&& forall|i: int, j: int|
                0 <= i < j < dark.len() ==> drawn_before(#[trigger] dark[i], #[trigger] dark[j])
        }),
    decreases n,
{
    if n > 0 {
        let before = dark_in_rows(modules, n - 1, border);
        let row = modules[n - 1];
        let added = dark_in_row(row, row.len() as int, n - 1, border);
        let dark = dark_in_rows(modules, n, border);
        lemma_rows_order(modules, n - 1, border);
        lemma_row_order(row, row.len() as int, n - 1, border);
        assert forall|i: int| 0 <= i < dark.len() implies (#[trigger] dark[i]).1 < n + border by {
            if i >= before.len() {
                assert(dark[i] == added[i - before.len()]);
            } else {
                assert(dark[i] == before[i]);
            }
        }
        assert forall|i: int, j: int| 0 <= i < j < dark.len() implies drawn_before(
            #[trigger] dark[i],
            #[trigger] dark[j],
        ) by {
            if j < before.len() {
                assert(dark[i] == before[i] && dark[j] == before[j]);
            } else {
                assert(dark[j] == added[j - before.len()]);
                if i < before.len() {
                    assert(dark[i] == before[i]);
                } else {
                    assert(dark[i] == added[i - before.len()]);
                }
            }
        }
    }
}

/// A code is laid out with a light border of the asked width on every side: a cell
/// is dark exactly where the module behind it is, and every dark cell comes once,
/// from the top and from the left.
pub proof fn layouts_show_every_module_once(modules: Vec<Vec<bool>>, margin: u32, r: Layout)
    requires
        call_ensures(layout, (&modules, margin), r),
        is_square(modules.deep_view()),
    ensures
        r.side == modules@.len() + 2 * margin,
        forall|x: int, y: int|
            0 <= x < r.side && 0 <= y < r.side ==> (#[trigger] r.deep_view().dark.contains((x, y))
                <==> margin <= x < margin + modules@.len() && margin <= y < margin + modules@.len()
                && modules@[y - margin]@[x - margin]),
        forall|i: int, j: int|
            0 <= i < j < r.dark@.len() ==> {
                let a = #[trigger] r.dark@[i];
                let b = #[trigger] r.dark@[j];
                a.1 < b.1 || a.1 == b.1 && a.0 < b.0
            },
{
    let grid = modules.deep_view();
    assert(grid.len() == modules@.len());
    assert(r.deep_view() == layout_of(grid, margin));
    assert forall|x: int, y: int| 0 <= x < r.side && 0 <= y < r.side implies (
    #[trigger] r.deep_view().dark.contains((x, y)) <==> margin <= x < margin + modules@.len()
        && margin <= y < margin + modules@.len() && modules@[y - margin]@[x - margin]) by {
        drawings_show_the_code(grid, margin, x, y);
        if margin <= y < margin + modules@.len() {
            let row = modules@[y - margin];
            assert(grid[y - margin] == row.deep_view());
            assert(row.deep_view() =~= row@);
        }
    }
    lemma_rows_order(grid, grid.len() as int, margin as int);
    let dark = r.deep_view().dark;
    assert forall|i: int, j: int| 0 <= i < j < r.dark@.len() implies {
        let a = #[trigger] r.dark@[i];
        let b = #[trigger] r.dark@[j];
        a.1 < b.1 || a.1 == b.1 && a.0 < b.0
    } by {
        assert(drawn_before(dark[i], dark[j]));
    }
}

/// The address in a code is that of the share page, as the visitor's browser
/// reaches it: scheme in lower case, host, and the token in the query.
pub proof fn codes_hold_the_page(
    forwarded_proto: Option<&str>,
    host: Option<&str>,
    token: &str,
    r: String,
)
    requires
        call_ensures(page_url, (forwarded_proto, host, token), r),
    ensures
        ({
            let scheme = if forwarded_proto is Some {
                lower_of(forwarded_proto->0@)
            } else {
                lower_of("http"@)
            };
            let name = if host is Some {
                host->0@
            } else {
                "localhost"@
            };
            r@ == scheme + "://"@ + name + "/s/?token="@ + token@
        }),
{
}

/// Whether the first eight bytes of a token, or all of fewer, are whole characters.
pub open spec fn has_whole_stem(token: Seq<char>) -> bool {
    let bytes = encode_utf8(token);
    is_char_boundary(
        bytes,
        if bytes.len() < 8 {
            bytes.len() as int
        } else {
            8
        },
    )
}

/// How a picture is offered as a download: under a name with the first eight bytes
/// of the token, or all of fewer.
pub open spec fn offered_picture(token: Seq<char>) -> Seq<char> {
    let bytes = encode_utf8(token);
    let stem = if bytes.len() < 8 {
        bytes
    } else {
        bytes.take(8)
    };
    "attachment; filename=\"share-"@ + decode_utf8(stem) + ".svg\""@
}

proof fn lemma_offered(token: Seq<char>)
    ensures
        picture_disposition(token) == offered_picture(token),
        has_stem(token) == has_whole_stem(token),
{
    let bytes = encode_utf8(token);
    if bytes.len() < 8 {
        assert(bytes.take(bytes.len() as int) =~= bytes);
    }
}

/// A picture has the asked size and border; it may be kept for a week, and goes out
/// as a download exactly where that was asked for. Without a code there is none.
pub proof fn pictures_are_as_asked(
    modules: Option<Vec<Vec<bool>>>,
    query: QrQuery,
    token: &str,
    r: Result<Picture, Refusal>,
)
    requires
        call_ensures(picture, (modules, &query, token), r),
    ensures
        modules is None ==> r is Err && r->Err_0.status == 500 && r->Err_0.error@ == "qr failed"@,
        modules is Some ==> {
            let p = r->Ok_0;
            let h = p.headers.deep_view();
            &&& r is Ok
            &&& p.size == query.size
            &&& p.layout.side == modules->0@.len() + 2 * query.margin
            &&& h.len() == 2 + if query.download {
                1int
            } else {
                0
            }
            &&& h[0] == (HeaderName::ContentType, "image/svg+xml"@)
            &&& h[1] == (HeaderName::CacheControl, "public, max-age=604800"@)
            &&& query.download ==> h[2] == (
                HeaderName::ContentDisposition,
                offered_picture(token@),
            )
            &&& is_square(modules->0.deep_view()) ==> forall|x: int, y: int|
                0 <= x < p.layout.side && 0 <= y < p.layout.side ==> (
                #[trigger] p.layout.deep_view().dark.contains((x, y)) <==> query.margin <= x
                    < query.margin + modules->0@.len() && query.margin <= y < query.margin
                    + modules->0@.len() && modules->0.deep_view()[y - query.margin][x
                    - query.margin])
        },
{
    lemma_offered(token@);
    assert(modules.deep_view() is Some == modules is Some);
    if modules is Some && is_square(modules->0.deep_view()) {
        let p = r->Ok_0;
        let m = modules->0.deep_view();
        assert(m.len() == modules->0@.len());
        assert(p.layout.deep_view() == layout_of(m, query.margin));
        assert forall|x: int, y: int| 0 <= x < p.layout.side && 0 <= y < p.layout.side implies (
        #[trigger] p.layout.deep_view().dark.contains((x, y)) <==> query.margin <= x < query.margin
            + modules->0@.len() && query.margin <= y < query.margin + modules->0@.len() && m[y
            - query.margin][x - query.margin]) by {
            drawings_show_the_code(m, query.margin, x, y);
        }
    }
    if modules is Some {
        assert(modules.deep_view()->0.len() == modules->0@.len());
    }
}

/// A link that does not work has no QR code, and an unknown one has none: the
/// answer is 404. Of an item whose link ran out nothing is left.
pub proof fn closed_links_have_no_code(
    l: Option<ShareLink>,
    query: &str,
    forwarded_proto: Option<&str>,
    host: Option<&str>,
    now: i64,
    r: Option<QrReply>,
)
    requires
        call_ensures(share_qr, (l, query, forwarded_proto, host, now), r),
        l is Some ==> !works((l->0).limits, now),
    ensures
        r is Some,
        (r->0).outcome is Err,
        (r->0).outcome->Err_0.status == 404,
        (r->0).outcome->Err_0.error@ == "not found"@,
        (r->0).changes.deep_view() == if l is Some {
            clearing(l->0, now)
        } else {
            Seq::<ChangeView>::empty()
        },
{
    assert(r.deep_view() is Some == r is Some);
    assert(l.deep_view() is Some == l is Some);
}

/// A link that works has a QR code, with or without a password, and asking for it
/// counts as no access: the code is that of the address of the share page, drawn
/// as the query asks. Where the address is too long for a code, there is none.
pub proof fn working_links_have_a_code(
    l: ShareLink,
    query: &str,
    forwarded_proto: Option<&str>,
    host: Option<&str>,
    token: &str,
    url: String,
    pairs: Vec<(String, String)>,
    asked: QrQuery,
    now: i64,
    r: Option<QrReply>,
)
    requires
        call_ensures(share_qr, (Some(l), query, forwarded_proto, host, now), r),
        works(l.limits, now),
        token@ == l.token@,
        call_ensures(page_url, (forwarded_proto, host, token), url),
        pairs.deep_view() == form_pairs_of(query@),
        call_ensures(qr_query, (&pairs,), asked),
    ensures
        ({
            let m = qr_encoding(url@, 1u8);
            let offered = !asked.download || has_whole_stem(l.token@);
            let p = (r->0).outcome->Ok_0;
            let h = p.headers.deep_view();
            &&& r is Some ==> (r->0).changes@.len() == 0
            &&& m is None ==> {
                &&& r is Some
                &&& (r->0).outcome is Err
                &&& (r->0).outcome->Err_0.status == 500
                &&& (r->0).outcome->Err_0.error@ == "qr failed"@
            }
            &&& m is Some ==> (r is Some <==> offered)
            &&& m is Some && offered ==> {
                &&& (r->0).outcome is Ok
                &&& p.size == asked.size
                &&& p.layout.side == m->0.len() + 2 * asked.margin
                &&& is_square(m->0) ==> forall|x: int, y: int|
                    0 <= x < p.layout.side && 0 <= y < p.layout.side ==> (
                    #[trigger] p.layout.deep_view().dark.contains((x, y)) <==> asked.margin <= x
                        < asked.margin + m->0.len() && asked.margin <= y < asked.margin
                        + m->0.len() && m->0[y - asked.margin][x - asked.margin])
                &&& h.len() >= 2
                &&& h[0] == (HeaderName::ContentType, "image/svg+xml"@)
                &&& h[1] == (HeaderName::CacheControl, "public, max-age=604800"@)
                &&& asked.download ==> h.len() == 3 && h[2] == (
                    HeaderName::ContentDisposition,
                    offered_picture(l.token@),
                )
                &&& !asked.download ==> h.len() == 2
            }
        }),
{
    let m = qr_encoding(url@, 1u8);
    lemma_offered(l.token@);
    assert(r.deep_view() is Some == r is Some);
    assert(Some(l).deep_view() == Some(l.deep_view()));
    if r is Some {
        assert((r->0).changes.deep_view().len() == (r->0).changes@.len());
    }
    if m is Some && (!asked.download || has_stem(l.token@)) {
        let p = (r->0).outcome->Ok_0;
        assert(p.layout.deep_view() == layout_of(m->0, asked.margin));
        if is_square(m->0) {
            assert forall|x: int, y: int| 0 <= x < p.layout.side && 0 <= y < p.layout.side implies (
            #[trigger] p.layout.deep_view().dark.contains((x, y)) <==> asked.margin <= x
                < asked.margin + m->0.len() && asked.margin <= y < asked.margin + m->0.len()
                && m->0[y - asked.margin][x - asked.margin]) by {
                drawings_show_the_code(m->0, asked.margin, x, y);
            }
        }
    }
}

} // verus!

//! Paths as text, by the rules of Unix: a slash, and nothing else, separates the
//! segments, and a path is absolute where it begins with one. A backslash is a
//! character like any other, also where the host separates segments by it: the
//! server is run on Linux.

use crate::text::{
    after_prefix, ends_with, from_chars, lemma_split_joined, lemma_split_pieces,
    lemma_split_without_separator, same, split, split_of, strip_prefix, to_chars, trim, trim_of,
};
use vstd::prelude::*;

verus! {

/// A path segment that names an entry of its directory.
pub open spec fn is_normal(segment: Seq<char>) -> bool {
    segment.len() > 0 && segment != "."@ && segment != ".."@
}

/// The segments of a path that name something.
pub open spec fn normal_segments(path: Seq<char>) -> Seq<Seq<char>> {
    split_of(path, '/').filter(|s: Seq<char>| is_normal(s))
}

/// Segments with a slash between each two.
pub open spec fn join_of(segments: Seq<Seq<char>>) -> Seq<char>
    decreases segments.len(),
{
    if segments.len() == 0 {
        Seq::empty()
    } else if segments.len() == 1 {
        segments[0]
    } else {
        join_of(segments.drop_last()).push('/') + segments.last()
    }
}

/// A request path made safe: relative, and without `.` and `..`.
pub fn sanitize_path(input: &str) -> (r: String)
    ensures
        r@ == join_of(normal_segments(input@)),
{
    let parts = split(input, '/');
    let ghost pieces = split_of(input@, '/');
    let ghost normal = |s: Seq<char>| is_normal(s);
    let mut r = String::new();
    let mut first: bool = true;
    let mut i: usize = 0;
    proof {
        assert(pieces.take(0) =~= Seq::empty());
        reveal(Seq::filter);
    }
    while i < parts.len()
        invariant
            i <= parts@.len(),
            parts.deep_view() == pieces,
            normal == (|s: Seq<char>| is_normal(s)),
            r@ == join_of(pieces.take(i as int).filter(normal)),
            first == (pieces.take(i as int).filter(normal).len() == 0),
        decreases parts@.len() - i,
    {
        let part = parts[i].as_str();
        proof {
            assert(part@ == pieces[i as int]);
            assert(pieces.take(i + 1).drop_last() =~= pieces.take(i as int));
            assert(pieces.take(i + 1).last() == pieces[i as int]);
            reveal(Seq::filter);
        }
        if !part.is_empty() && !same(part, ".") && !same(part, "..") {
            let ghost before = pieces.take(i as int).filter(normal);
            assert(before.push(part@).drop_last() =~= before);
            if !first {
                r.push('/');
            }
            r.append(part);
            assert(r@ =~= join_of(before.push(part@)));
            first = false;
        }
        i = i + 1;
    }
    assert(pieces.take(pieces.len() as int) =~= pieces);
    r
}

/// The file path that a database URL names.
pub open spec fn db_path_in_url(url: Seq<char>) -> Option<Seq<char>> {
    let s = trim_of(url);
    let path = match after_prefix(s, "file:"@) {
        Some(p) => Some(p),
        None => after_prefix(s, "sqlite:"@),
    };
    match path {
        Some(p) if p.len() > 0 => Some(p),
        _ => None,
    }
}

/// The file path that a `file:` or `sqlite:` database URL names.
pub fn parse_db_path_from_database_url(database_url: &str) -> (r: Option<String>)
    ensures
        r.deep_view() == db_path_in_url(database_url@),
{
    let s = trim(database_url);
    let path = match strip_prefix(s.as_str(), "file:") {
        Some(p) => p,
        None => match strip_prefix(s.as_str(), "sqlite:") {
            Some(p) => p,
            None => {
                return None;
            },
        },
    };
    if path.as_str().is_empty() {
        None
    } else {
        Some(path)
    }
}

/// Whether a path begins at the root.
pub open spec fn is_rooted(p: Seq<char>) -> bool {
    p.len() > 0 && p[0] == '/'
}

/// Whether a path begins with the segment `.`.
pub open spec fn begins_with_dot(p: Seq<char>) -> bool {
    p.len() > 0 && p[0] == '.' && (p.len() == 1 || p[1] == '/')
}

/// Where the segments of a path begin: behind the root or a leading `.`.
pub open spec fn body_start(p: Seq<char>) -> int {
    if is_rooted(p) || begins_with_dot(p) {
        1
    } else {
        0
    }
}

/// Where the last segment of a path begins, not before `start`.
pub open spec fn last_start(p: Seq<char>, start: int) -> int
    decreases p.len(),
{
    if p.len() == 0 || p.len() <= start || p.last() == '/' {
        p.len() as int
    } else {
        last_start(p.drop_last(), start)
    }
}

/// The last segment of a path.
pub open spec fn last_segment(p: Seq<char>, start: int) -> Seq<char> {
    p.skip(last_start(p, start))
}

/// A path without its last segment and the slash in front of it.
pub open spec fn without_last(p: Seq<char>, start: int) -> Seq<char> {
    let k = last_start(p, start);
    p.take(
        if k > start {
            k - 1
        } else {
            start
        },
    )
}

/// A path without trailing slashes and trailing `.` segments.
pub open spec fn without_tail(p: Seq<char>, start: int) -> Seq<char>
    decreases p.len(),
{
    if 0 <= start < p.len() && (last_segment(p, start).len() == 0 || last_segment(p, start) == "."@)
        && without_last(p, start).len() < p.len() {
        without_tail(without_last(p, start), start)
    } else {
        p
    }
}

/// The directory of a path: what is left without the last segment. The root and
/// the empty path have none.
pub open spec fn parent_of(p: Seq<char>) -> Option<Seq<char>> {
    let start = body_start(p);
    let named = without_tail(p, start);
    if named.len() > start {
        Some(without_tail(without_last(named, start), start))
    } else if begins_with_dot(p) {
        Some(Seq::empty())
    } else {
        None
    }
}

/// The name of the entry that a path ends with.
pub open spec fn file_name_of(p: Seq<char>) -> Option<Seq<char>> {
    let start = body_start(p);
    let named = without_tail(p, start);
    if named.len() > start && last_segment(named, start) != ".."@ {
        Some(last_segment(named, start))
    } else {
        None
    }
}

/// Where the last dot of a name stands; `None` where it has none.
pub open spec fn last_dot(name: Seq<char>) -> Option<int>
    decreases name.len(),
{
    if name.len() == 0 {
        None
    } else if name.last() == '.' {
        Some(name.len() - 1)
    } else {
        last_dot(name.drop_last())
    }
}

/// What follows the last dot of a path's file name. A dot at the beginning of
/// the name does not count.
pub open spec fn extension_of(p: Seq<char>) -> Option<Seq<char>> {
    match file_name_of(p) {
        Some(name) => match last_dot(name) {
            Some(k) if k > 0 => Some(name.skip(k + 1)),
            _ => None,
        },
        None => None,
    }
}

proof fn lemma_last_start_take(p: Seq<char>, start: int, n: int, k: int)
    requires
        0 <= start <= k <= n <= p.len(),
        k == start || p[k - 1] == '/',
        forall|i: int| k <= i < n ==> p[i] != '/',
    ensures
        last_start(p.take(n), start) == k,
    decreases n - k,
{
    if n > k {
        assert(p.take(n).drop_last() =~= p.take(n - 1));
        assert(p.take(n).last() == p[n - 1]);
        lemma_last_start_take(p, start, n - 1, k);
    } else if k > start {
        assert(p.take(n).last() == p[n - 1]);
    }
}

/// Finds the beginning of the last segment of the first `n` characters.
fn find_last(p: &Vec<char>, start: usize, n: usize) -> (k: usize)
    requires
        start <= n <= p@.len(),
    ensures
        start <= k <= n,
        k == last_start(p@.take(n as int), start as int),
        forall|i: int| k <= i < n ==> p@[i] != '/',
{
    let mut k: usize = n;
    while k > start && p[k - 1] != '/'
        invariant
            start <= k <= n <= p@.len(),
            forall|i: int| k <= i < n ==> p@[i] != '/',
        decreases k,
    {
        k = k - 1;
    }
    proof {
        lemma_last_start_take(p@, start as int, n as int, k as int);
    }
    k
}

/// The length of the first `n` characters without trailing slashes and trailing
/// `.` segments.
fn cut_tail(p: &Vec<char>, start: usize, n: usize) -> (m: usize)
    requires
        start <= n <= p@.len(),
    ensures
        start <= m <= n,
        p@.take(m as int) == without_tail(p@.take(n as int), start as int),
{
    let mut m: usize = n;
    while m > start
        invariant
            start <= m <= n <= p@.len(),
            without_tail(p@.take(n as int), start as int) == without_tail(
                p@.take(m as int),
                start as int,
            ),
        ensures
            start <= m <= n,
            p@.take(m as int) == without_tail(p@.take(n as int), start as int),
        decreases m,
    {
        let k = find_last(p, start, m);
        let ghost cur = p@.take(m as int);
        let ghost seg = last_segment(cur, start as int);
        assert(seg =~= p@.subrange(k as int, m as int));
        proof {
            reveal_strlit(".");
        }
        if k == m || (k + 1 == m && p[k] == '.') {
            proof {
                if k + 1 == m {
                    assert(seg =~= "."@);
                }
                assert(without_last(cur, start as int) =~= p@.take(
                    if k > start {
                        k - 1
                    } else {
                        start as int
                    },
                ));
            }
            m = if k > start {
                k - 1
            } else {
                start
            };
        } else {
            proof {
                assert(seg.len() > 0);
                if seg == "."@ {
                    assert(seg[0] == '.');
                }
            }
            break;
        }
    }
    m
}

fn start_of(p: &Vec<char>) -> (r: usize)
    ensures
        r == body_start(p@),
        r <= p@.len(),
{
    if p.len() > 0 && (p[0] == '/' || (p[0] == '.' && (p.len() == 1 || p[1] == '/'))) {
        1
    } else {
        0
    }
}

/// The directory of a path.
pub fn parent(path: &str) -> (r: Option<String>)
    ensures
        r.deep_view() == parent_of(path@),
{
    let p = to_chars(path);
    let n: usize = p.len();
    let start = start_of(&p);
    assert(p@.take(n as int) =~= p@);
    let named = cut_tail(&p, start, n);
    if named > start {
        let k = find_last(&p, start, named);
        let end: usize = if k > start {
            k - 1
        } else {
            start
        };
        assert(without_last(p@.take(named as int), start as int) =~= p@.take(end as int));
        let m = cut_tail(&p, start, end);
        let r = from_chars(&p, 0, m);
        assert(r@ =~= p@.take(m as int));
        Some(r)
    } else if start == 1 && p[0] == '.' {
        Some(String::new())
    } else {
        None
    }
}

/// The extension of a path's file name.
pub fn file_extension(path: &str) -> (r: Option<String>)
    ensures
        r.deep_view() == extension_of(path@),
{
    let p = to_chars(path);
    let n: usize = p.len();
    let start = start_of(&p);
    assert(p@.take(n as int) =~= p@);
    let named = cut_tail(&p, start, n);
    if named <= start {
        return None;
    }
    let k = find_last(&p, start, named);
    let ghost name = p@.subrange(k as int, named as int);
    assert(last_segment(p@.take(named as int), start as int) =~= name);
    proof {
        reveal_strlit("..");
    }
    if named - k == 2 && p[k] == '.' && p[k + 1] == '.' {
        assert(name =~= ".."@);
        return None;
    }
    assert(name != ".."@) by {
        if name == ".."@ {
            assert(name[0] == '.' && name[1] == '.');
        }
    }
    let mut i: usize = named;
    assert(name.take(name.len() as int) =~= name);
    while i > k && p[i - 1] != '.'
        invariant
            k <= i <= named <= p@.len(),
            name == p@.subrange(k as int, named as int),
            last_dot(name) == last_dot(name.take(i - k)),
        decreases i,
    {
        assert(name.take(i - k).drop_last() =~= name.take(i - k - 1));
        i = i - 1;
    }
    if i - k <= 1 {
        return None;
    }
    let r = from_chars(&p, i, named);
    assert(r@ =~= name.skip(i - k));
    Some(r)
}

/// The path of an entry of a directory.
pub open spec fn entry_of(dir: Seq<char>, name: Seq<char>) -> Seq<char> {
    if dir.len() == 0 || dir.last() == '/' {
        dir + name
    } else {
        dir.push('/') + name
    }
}

/// The path of an entry of a directory.
pub fn entry(dir: &str, name: &str) -> (r: String)
    ensures
        r@ == entry_of(dir@, name@),
{
    let mut r = dir.to_owned();
    if !dir.is_empty() && !ends_with(dir, "/") {
        proof {
            reveal_strlit("/");
            if dir@.last() == '/' {
                assert("/"@ =~= dir@.subrange(dir@.len() - 1, dir@.len() as int));
            }
        }
        r.push('/');
    } else if !dir.is_empty() {
        proof {
            reveal_strlit("/");
            assert(dir@.subrange(dir@.len() - 1, dir@.len() as int)[0] == "/"@[0]);
        }
    } else {
        assert(dir@.len() == 0);
    }
    r.append(name);
    r
}

/// A segment that counts when paths are compared.
pub open spec fn counts(segment: Seq<char>) -> bool {
    segment.len() > 0 && segment != "."@
}

/// The segments that count when paths are compared.
pub open spec fn counting_segments(p: Seq<char>) -> Seq<Seq<char>> {
    split_of(p, '/').filter(|s: Seq<char>| counts(s))
}

/// Whether two paths are the same but for repeated or trailing slashes and `.`
/// segments behind the first.
pub open spec fn same_path_as(a: Seq<char>, b: Seq<char>) -> bool {
    &&& is_rooted(a) == is_rooted(b)
    &&& begins_with_dot(a) == begins_with_dot(b)
    &&& counting_segments(a) == counting_segments(b)
}

fn segments(p: &str) -> (r: Vec<String>)
    ensures
        r.deep_view() == counting_segments(p@),
{
    let parts = split(p, '/');
    let ghost pieces = split_of(p@, '/');
    let ghost counting = |s: Seq<char>| counts(s);
    let mut r: Vec<String> = Vec::new();
    let mut i: usize = 0;
    proof {
        assert(pieces.take(0) =~= Seq::empty());
        reveal(Seq::filter);
        assert(r.deep_view() =~= pieces.take(0).filter(counting));
    }
    while i < parts.len()
        invariant
            i <= parts@.len(),
            parts.deep_view() == pieces,
            counting == (|s: Seq<char>| counts(s)),
            r.deep_view() == pieces.take(i as int).filter(counting),
        decreases parts@.len() - i,
    {
        let part = parts[i].as_str();
        let ghost before = r.deep_view();
        proof {
            assert(part@ == pieces[i as int]);
            assert(pieces.take(i + 1).drop_last() =~= pieces.take(i as int));
            assert(pieces.take(i + 1).last() == pieces[i as int]);
            reveal(Seq::filter);
        }
        if !part.is_empty() && !same(part, ".") {
            r.push(part.to_owned());
            assert(r.deep_view() =~= before.push(part@));
        }
        i = i + 1;
    }
    assert(pieces.take(pieces.len() as int) =~= pieces);
    r
}

/// Whether two paths are the same but for repeated or trailing slashes and `.`
/// segments behind the first.
pub fn same_path(a: &str, b: &str) -> (r: bool)
    ensures
        r == same_path_as(a@, b@),
{
    let ca = to_chars(a);
    let cb = to_chars(b);
    let rooted_a = ca.len() > 0 && ca[0] == '/';
    let rooted_b = cb.len() > 0 && cb[0] == '/';
    if rooted_a != rooted_b || start_of(&ca) != start_of(&cb) {
        return false;
    }
    let sa = segments(a);
    let sb = segments(b);
    let ghost va = counting_segments(a@);
    let ghost vb = counting_segments(b@);
    assert(va.len() == sa@.len() && vb.len() == sb@.len());
    if sa.len() != sb.len() {
        return false;
    }
    let mut i: usize = 0;
    while i < sa.len()
        invariant
            i <= sa@.len(),
            sa@.len() == sb@.len(),
            sa.deep_view() == va,
            sb.deep_view() == vb,
            va == counting_segments(a@),
            vb == counting_segments(b@),
            forall|k: int| 0 <= k < i ==> va[k] == vb[k],
        decreases sa@.len() - i,
    {
        assert(va[i as int] == sa@[i as int]@);
        assert(vb[i as int] == sb@[i as int]@);
        if !same(sa[i].as_str(), sb[i].as_str()) {
            return false;
        }
        i = i + 1;
    }
    assert(va =~= vb);
    true
}

proof fn lemma_filter_keeps_all(s: Seq<Seq<char>>, pred: spec_fn(Seq<char>) -> bool)
    requires
        forall|i: int| 0 <= i < s.len() ==> pred(#[trigger] s[i]),
    ensures
        s.filter(pred) == s,
    decreases s.len(),
{
    reveal(Seq::filter);
    if s.len() > 0 {
        let front = s.drop_last();
        assert forall|i: int| 0 <= i < front.len() implies pred(#[trigger] front[i]) by {
            assert(front[i] == s[i]);
        }
        lemma_filter_keeps_all(front, pred);
        assert(pred(s[s.len() - 1]));
        assert(s.filter(pred) =~= s);
    }
}

/// What is kept of a list satisfies the condition and stood in the list.
proof fn lemma_filter_kept(s: Seq<Seq<char>>, pred: spec_fn(Seq<char>) -> bool, i: int)
    requires
        0 <= i < s.filter(pred).len(),
    ensures
        pred(s.filter(pred)[i]),
        s.contains(s.filter(pred)[i]),
    decreases s.len(),
{
    reveal(Seq::filter);
    if s.len() > 0 {
        let front = s.drop_last();
        let kept = s.filter(pred)[i];
        if i < front.filter(pred).len() {
            lemma_filter_kept(front, pred, i);
            let k = choose|k: int| 0 <= k < front.len() && front[k] == kept;
            assert(s[k] == kept);
        } else {
            assert(s[s.len() - 1] == kept);
        }
    }
}

proof fn lemma_filter_one(x: Seq<char>, pred: spec_fn(Seq<char>) -> bool)
    ensures
        seq![x].filter(pred) == if pred(x) {
            seq![x]
        } else {
            Seq::empty()
        },
{
    reveal_with_fuel(Seq::filter, 2);
    assert(seq![x].drop_last() =~= Seq::empty());
    assert(seq![x].filter(pred) =~= if pred(x) {
        seq![x]
    } else {
        Seq::empty()
    });
}

proof fn lemma_join_splits(segments: Seq<Seq<char>>)
    requires
        segments.len() > 0,
        forall|i: int| 0 <= i < segments.len() ==> !(#[trigger] segments[i]).contains('/'),
    ensures
        split_of(join_of(segments), '/') == segments,
    decreases segments.len(),
{
    assert(!segments[segments.len() - 1].contains('/'));
    if segments.len() == 1 {
        lemma_split_without_separator(segments[0], '/');
        assert(split_of(join_of(segments), '/') =~= segments);
    } else {
        let front = segments.drop_last();
        assert forall|i: int| 0 <= i < front.len() implies !(#[trigger] front[i]).contains('/') by {
            assert(front[i] == segments[i]);
        }
        lemma_join_splits(front);
        lemma_split_joined(join_of(front), '/', segments.last());
        lemma_split_without_separator(segments.last(), '/');
        assert(split_of(join_of(segments), '/') =~= segments);
    }
}

/// A sanitized path stays below the directory that it is looked up in: it does
/// not begin at the root, and each of its segments names an entry. Sanitizing it
/// once more changes nothing.
pub proof fn sanitized_paths_stay_below(input: Seq<char>)
    ensures
        ({
            let r = join_of(normal_segments(input));
            &&& !is_rooted(r)
            &&& r.len() > 0 ==> forall|i: int|
                0 <= i < split_of(r, '/').len() ==> is_normal(#[trigger] split_of(r, '/')[i])
            &&& normal_segments(r) == normal_segments(input)
            &&& join_of(normal_segments(r)) == r
        }),
{
    let pieces = split_of(input, '/');
    let normal = |s: Seq<char>| is_normal(s);
    let kept = normal_segments(input);
    let r = join_of(kept);
    assert forall|i: int| 0 <= i < kept.len() implies is_normal(#[trigger] kept[i])
        && !kept[i].contains('/') by {
        lemma_filter_kept(pieces, normal, i);
        let k = choose|k: int| 0 <= k < pieces.len() && pieces[k] == kept[i];
        lemma_split_pieces(input, '/', k);
    }
    if kept.len() > 0 {
        lemma_join_splits(kept);
        lemma_filter_keeps_all(kept, normal);
        if is_rooted(r) {
            lemma_split_joined(Seq::empty(), '/', r.drop_first());
            assert(r =~= Seq::<char>::empty().push('/') + r.drop_first());
            assert(split_of(r, '/')[0] == Seq::<char>::empty());
            assert(is_normal(kept[0]));
        }
    } else {
        assert(split_of(r, '/') =~= seq![Seq::<char>::empty()]);
        lemma_filter_one(Seq::empty(), normal);
        assert(kept =~= Seq::empty());
    }
}

proof fn lemma_last_start(p: Seq<char>, start: int)
    requires
        0 <= start <= p.len(),
    ensures
        start <= last_start(p, start) <= p.len(),
        last_start(p, start) > start ==> p[last_start(p, start) - 1] == '/',
        forall|i: int| last_start(p, start) <= i < p.len() ==> p[i] != '/',
    decreases p.len(),
{
    if p.len() > start && p.last() != '/' {
        let front = p.drop_last();
        lemma_last_start(front, start);
        assert forall|i: int| last_start(p, start) <= i < p.len() implies p[i] != '/' by {
            if i < front.len() {
                assert(front[i] == p[i]);
            }
        }
    }
}

/// The last segment of a path holds no slash.
pub proof fn lemma_last_segment(p: Seq<char>, start: int)
    requires
        0 <= start <= p.len(),
    ensures
        !last_segment(p, start).contains('/'),
{
    let seg = last_segment(p, start);
    lemma_last_start(p, start);
    if seg.contains('/') {
        let i = choose|i: int| 0 <= i < seg.len() && seg[i] == '/';
        assert(p[last_start(p, start) + i] == '/');
    }
}

/// A path begins as it did without its last segment, and has the segments that
/// were before it.
proof fn lemma_cut_segment(p: Seq<char>, start: int)
    requires
        start == body_start(p),
        start < p.len(),
    ensures
        start <= without_last(p, start).len() <= p.len(),
        is_rooted(without_last(p, start)) == is_rooted(p),
        begins_with_dot(without_last(p, start)) == begins_with_dot(p),
        counting_segments(p) == counting_segments(without_last(p, start)) + (if counts(
            last_segment(p, start),
        ) {
            seq![last_segment(p, start)]
        } else {
            Seq::empty()
        }),
{
    let k = last_start(p, start);
    let seg = last_segment(p, start);
    let rest = without_last(p, start);
    let nothing = Seq::<char>::empty();
    let counting = |s: Seq<char>| counts(s);
    lemma_last_start(p, start);
    lemma_last_segment(p, start);
    lemma_split_without_separator(seg, '/');
    lemma_filter_one(seg, counting);
    lemma_filter_one(nothing, counting);
    if k > start {
        assert(p =~= rest.push('/') + seg);
        lemma_split_joined(rest, '/', seg);
        Seq::filter_distributes_over_add(split_of(rest, '/'), seq![seg], counting);
    } else if is_rooted(p) {
        assert(p =~= nothing.push('/') + seg);
        assert(rest =~= nothing.push('/') + nothing);
        lemma_split_joined(nothing, '/', seg);
        lemma_split_joined(nothing, '/', nothing);
        lemma_split_without_separator(nothing, '/');
        Seq::filter_distributes_over_add(seq![nothing], seq![seg], counting);
        Seq::filter_distributes_over_add(seq![nothing], seq![nothing], counting);
        assert(counting_segments(rest) =~= Seq::empty());
    } else {
        assert(start == 0) by {
            if begins_with_dot(p) {
                assert(p[1] == '/');
            }
        }
        assert(p =~= seg);
        assert(rest =~= nothing);
        lemma_split_without_separator(nothing, '/');
        assert(counting_segments(rest) =~= Seq::empty());
    }
    assert(counting_segments(p) =~= counting_segments(rest) + seq![seg].filter(counting));
}

/// A path is the same without trailing slashes and `.` segments.
proof fn lemma_cut_tail(p: Seq<char>, start: int)
    requires
        start == body_start(p),
    ensures
        same_path_as(without_tail(p, start), p),
    decreases p.len(),
{
    if 0 <= start < p.len() {
        lemma_cut_segment(p, start);
        let seg = last_segment(p, start);
        if (seg.len() == 0 || seg == "."@) && without_last(p, start).len() < p.len() {
            lemma_cut_tail(without_last(p, start), start);
            assert(counting_segments(p) =~= counting_segments(without_last(p, start)));
        }
    }
}

/// The directory of an entry is the directory that it is an entry of.
pub proof fn entries_are_in_their_directory(dir: Seq<char>, name: Seq<char>)
    requires
        is_normal(name),
        !name.contains('/'),
    ensures
        parent_of(entry_of(dir, name)) matches Some(p) && same_path_as(p, dir),
{
    let e = entry_of(dir, name);
    let start = body_start(e);
    reveal_strlit(".");
    if dir.len() > 0 {
        assert(e[0] == dir[0]);
        if dir.len() == 1 {
            assert(dir.last() == dir[0]);
        } else {
            assert(e[1] == dir[1]);
        }
        assert(start == body_start(dir));
    } else {
        assert(e =~= name);
        assert(start == 0) by {
            if is_rooted(name) {
                assert(name.contains('/')) by {
                    assert(name[0] == '/');
                }
            }
            if begins_with_dot(name) {
                if name.len() == 1 {
                    assert(name =~= "."@);
                } else {
                    assert(name[1] == '/');
                }
            }
        }
    }
    let k = e.len() - name.len();
    assert forall|i: int| k <= i < e.len() implies e[i] != '/' by {
        assert(e[i] == name[i - k]);
        if e[i] == '/' {
            assert(name.contains('/'));
        }
    }
    assert(k == start || e[k - 1] == '/') by {
        if dir.len() > 0 && dir.last() == '/' {
            assert(e[k - 1] == dir.last());
        }
    }
    lemma_last_start_take(e, start, e.len() as int, k);
    assert(e.take(e.len() as int) =~= e);
    assert(last_segment(e, start) =~= name);
    assert(without_tail(e, start) == e);
    let rest = without_last(e, start);
    if dir.len() == 0 {
        assert(rest =~= dir);
    } else if dir.last() != '/' {
        assert(rest =~= dir);
    } else if dir.len() > start {
        assert(rest =~= dir.drop_last());
        assert(last_start(dir, start) == dir.len());
        assert(last_segment(dir, start).len() == 0);
        assert(without_last(dir, start) =~= rest);
        assert(without_tail(dir, start) == without_tail(rest, start));
    } else {
        assert(rest =~= dir);
    }
    lemma_cut_tail(dir, body_start(dir));
}

proof fn lemma_join_parts(a: Seq<Seq<char>>, b: Seq<Seq<char>>)
    ensures
        a.len() > 0 && b.len() > 0 ==> join_of(a + b) == join_of(a).push('/') + join_of(b),
        a.len() == 0 ==> join_of(a + b) == join_of(b),
        b.len() == 0 ==> join_of(a + b) == join_of(a),
    decreases b.len(),
{
    if a.len() == 0 {
        assert(a + b =~= b);
    }
    if b.len() == 0 {
        assert(a + b =~= a);
    } else if a.len() > 0 {
        assert((a + b).drop_last() =~= a + b.drop_last());
        assert((a + b).last() == b.last());
        if b.len() == 1 {
            assert(a + b.drop_last() =~= a);
            assert(join_of(a + b) =~= join_of(a).push('/') + join_of(b));
        } else {
            lemma_join_parts(a, b.drop_last());
            assert(join_of(a + b) =~= join_of(a).push('/') + join_of(b));
        }
    }
}

proof fn lemma_sanitized_empty(input: Seq<char>)
    ensures
        join_of(normal_segments(input)).len() == 0 <==> normal_segments(input).len() == 0,
{
    let pieces = split_of(input, '/');
    let kept = normal_segments(input);
    if kept.len() > 0 {
        lemma_filter_kept(pieces, |s: Seq<char>| is_normal(s), kept.len() - 1);
        assert(is_normal(kept.last()));
        assert(join_of(kept).len() >= kept.last().len());
    }
}

/// A path is made safe segment by segment: what names something stays, in its
/// order; an empty segment, `.` and `..` go, wherever they stand. A path of two
/// parts is made safe by making both parts safe.
pub proof fn paths_are_sanitized_by_segments(
    a: &str,
    b: &str,
    both: &str,
    safe_a: String,
    safe_b: String,
    safe: String,
)
    requires
        both@ == a@.push('/') + b@,
        call_ensures(sanitize_path, (a,), safe_a),
        call_ensures(sanitize_path, (b,), safe_b),
        call_ensures(sanitize_path, (both,), safe),
    ensures
        !a@.contains('/') && a@.len() > 0 && a@ != "."@ && a@ != ".."@ ==> safe_a@ == a@,
        a@.len() == 0 || a@ == "."@ || a@ == ".."@ ==> safe_a@.len() == 0,
        safe_a@.len() > 0 && safe_b@.len() > 0 ==> safe@ == safe_a@.push('/') + safe_b@,
        safe_a@.len() == 0 ==> safe@ == safe_b@,
        safe_b@.len() == 0 ==> safe@ == safe_a@,
{
    let normal = |s: Seq<char>| is_normal(s);
    reveal_strlit(".");
    reveal_strlit("..");
    lemma_split_joined(a@, '/', b@);
    Seq::filter_distributes_over_add(split_of(a@, '/'), split_of(b@, '/'), normal);
    assert(normal_segments(both@) == normal_segments(a@) + normal_segments(b@));
    lemma_join_parts(normal_segments(a@), normal_segments(b@));
    lemma_sanitized_empty(a@);
    lemma_sanitized_empty(b@);
    if !a@.contains('/') {
        lemma_split_without_separator(a@, '/');
        lemma_filter_one(a@, normal);
    }
    if a@.len() == 0 || a@ == "."@ || a@ == ".."@ {
        assert(!a@.contains('/')) by {
            assert forall|i: int| 0 <= i < a@.len() implies a@[i] != '/' by {
            }
        }
    }
}

proof fn lemma_last_dot_at(stem: Seq<char>, ext: Seq<char>)
    requires
        !ext.contains('.'),
    ensures
        last_dot(stem.push('.') + ext) == Some(stem.len() as int),
    decreases ext.len(),
{
    let name = stem.push('.') + ext;
    if ext.len() == 0 {
        assert(name =~= stem.push('.'));
    } else {
        let front = ext.drop_last();
        assert(!front.contains('.')) by {
            if front.contains('.') {
                let i = choose|i: int| 0 <= i < front.len() && front[i] == '.';
                assert(ext[i] == '.');
            }
        }
        lemma_last_dot_at(stem, front);
        assert(name.drop_last() =~= stem.push('.') + front);
        assert(name.last() == ext[ext.len() - 1]);
    }
}

proof fn lemma_no_dot(name: Seq<char>)
    requires
        !name.contains('.'),
    ensures
        last_dot(name) is None,
    decreases name.len(),
{
    if name.len() > 0 {
        let front = name.drop_last();
        assert(!front.contains('.')) by {
            if front.contains('.') {
                let i = choose|i: int| 0 <= i < front.len() && front[i] == '.';
                assert(name[i] == '.');
            }
        }
        lemma_no_dot(front);
        assert(name.last() == name[name.len() - 1]);
    }
}

/// A database URL names what follows `file:` or `sqlite:`, white space around the
/// URL aside; without one of these, or with nothing behind it, it names no path.
pub proof fn database_urls_name_a_path(url: &str, r: Option<String>, path: Seq<char>)
    requires
        call_ensures(parse_db_path_from_database_url, (url,), r),
    ensures
        path.len() > 0 && trim_of(url@) == "file:"@ + path ==> r is Some && r->0@ == path,
        path.len() > 0 && trim_of(url@) == "sqlite:"@ + path ==> r is Some && r->0@ == path,
        trim_of(url@) == "file:"@ || trim_of(url@) == "sqlite:"@ ==> r is None,
        r is Some ==> r->0@.len() > 0 && (trim_of(url@) == "file:"@ + r->0@ || trim_of(url@)
            == "sqlite:"@ + r->0@),
{
    let s = trim_of(url@);
    let a = "file:"@;
    let b = "sqlite:"@;
    reveal_strlit("file:");
    reveal_strlit("sqlite:");
    assert(r.deep_view() is Some == r is Some);
    if s == a + path {
        assert(a =~= s.subrange(0, a.len() as int));
        assert(s.skip(a.len() as int) =~= path);
    }
    if s == b + path {
        assert(b =~= s.subrange(0, b.len() as int));
        assert(s.skip(b.len() as int) =~= path);
        if a.is_prefix_of(s) {
            assert(s.subrange(0, a.len() as int)[0] == 'f');
            assert(s[0] == 's');
        }
    }
    if s == a {
        assert(s.skip(a.len() as int).len() == 0);
        assert(a =~= s.subrange(0, a.len() as int));
    }
    if s == b {
        assert(s.skip(b.len() as int).len() == 0);
        assert(s[0] == 's');
        if a.is_prefix_of(s) {
            assert(s.subrange(0, a.len() as int)[0] == 'f');
        }
    }
    if r is Some {
        if a.is_prefix_of(s) {
            assert(s =~= a + s.skip(a.len() as int)) by {
                assert(s.subrange(0, a.len() as int) == a);
            }
        } else {
            assert(s =~= b + s.skip(b.len() as int)) by {
                assert(s.subrange(0, b.len() as int) == b);
            }
        }
    }
}

/// The entry of a directory has its name behind the directory, with one slash
/// between them, and none where the directory ends with one or is empty.
pub proof fn entries_follow_their_directory(dir: &str, name: &str, r: String)
    requires
        call_ensures(entry, (dir, name), r),
    ensures
        dir@.len() == 0 ==> r@ == name@,
        dir@.len() > 0 && dir@.last() == '/' ==> r@ == dir@ + name@,
        dir@.len() > 0 && dir@.last() != '/' ==> r@ == dir@ + seq!['/'] + name@,
{
    if dir@.len() == 0 {
        assert(r@ =~= name@);
    }
    assert(dir@.push('/') + name@ =~= dir@ + seq!['/'] + name@);
}

/// The segments of a path that are neither empty nor `.`.
pub open spec fn told_segments(p: Seq<char>) -> Seq<Seq<char>> {
    split_of(p, '/').filter(|s: Seq<char>| s.len() > 0 && s != "."@)
}

proof fn lemma_told_segments(p: Seq<char>)
    ensures
        told_segments(p) == counting_segments(p),
{
    let told = |s: Seq<char>| s.len() > 0 && s != "."@;
    let counting = |s: Seq<char>| counts(s);
    assert(told =~= counting);
}

/// Two paths are the same exactly where both or neither begin at the root, both or
/// neither begin with `.`, and they have the same segments, empty ones and `.`
/// aside.
pub proof fn paths_are_told_apart(a: &str, b: &str, r: bool)
    requires
        call_ensures(same_path, (a, b), r),
    ensures
        r <==> {
            &&& (a@.len() > 0 && a@[0] == '/') == (b@.len() > 0 && b@[0] == '/')
            &&& (a@.len() > 0 && a@[0] == '.' && (a@.len() == 1 || a@[1] == '/')) == (b@.len() > 0
                && b@[0] == '.' && (b@.len() == 1 || b@[1] == '/'))
            &&& told_segments(a@) == told_segments(b@)
        },
{
    lemma_told_segments(a@);
    lemma_told_segments(b@);
}

/// What is left of a path without its tail is a beginning of it that does not end
/// with an empty segment or `.`.
proof fn lemma_without_tail(p: Seq<char>, start: int)
    requires
        0 <= start <= p.len(),
        start == body_start(p),
    ensures
        ({
            let named = without_tail(p, start);
            &&& start <= named.len() <= p.len()
            &&& named == p.take(named.len() as int)
            &&& named.len() > start ==> counts(last_segment(named, start))
            &&& body_start(named) == start
        }),
    decreases p.len(),
{
    lemma_cut_tail(p, start);
    assert(p.take(p.len() as int) =~= p);
    if start < p.len() {
        lemma_cut_segment(p, start);
        let seg = last_segment(p, start);
        let rest = without_last(p, start);
        lemma_last_start(p, start);
        if seg.len() == 0 || seg == "."@ {
            assert(rest.len() < p.len());
            lemma_without_tail(rest, start);
            let named = without_tail(rest, start);
            assert(named =~= p.take(named.len() as int));
        }
    }
}

/// The directory of a path is a beginning of it and has its segments but for the
/// last, so that the path is an entry of it. A path has a directory exactly where it
/// has a segment or begins with `.`.
pub proof fn directories_lack_the_last_segment(p: &str, r: Option<String>)
    requires
        call_ensures(parent, (p,), r),
    ensures
        r is Some <==> told_segments(p@).len() > 0 || begins_with_dot(p@),
        r is Some ==> r->0@.len() <= p@.len() && r->0@ == p@.take(r->0@.len() as int),
        r is Some && told_segments(p@).len() > 0 ==> {
            &&& told_segments(r->0@) == told_segments(p@).drop_last()
            &&& is_rooted(r->0@) == is_rooted(p@)
            &&& told_segments(r->0@).len() > 0 ==> r->0@.last() != '/'
        },
        r is Some && told_segments(p@).len() == 0 ==> r->0@.len() == 0,
{
    let path = p@;
    let start = body_start(path);
    let named = without_tail(path, start);
    assert(r.deep_view() is Some == r is Some);
    lemma_told_segments(path);
    lemma_cut_tail(path, start);
    lemma_without_tail(path, start);
    if named.len() > start {
        lemma_cut_segment(named, start);
        let rest = without_last(named, start);
        let dir = without_tail(rest, start);
        lemma_cut_tail(rest, start);
        lemma_without_tail(rest, start);
        lemma_told_segments(dir);
        lemma_last_start(named, start);
        assert(rest == named.take(rest.len() as int));
        assert(rest =~= path.take(rest.len() as int)) by {
            assert forall|i: int| 0 <= i < rest.len() implies rest[i] == path[i] by {
                assert(rest[i] == named[i]);
                assert(named[i] == path.take(named.len() as int)[i]);
            }
        }
        assert(dir =~= path.take(dir.len() as int));
        assert(counting_segments(path) =~= counting_segments(dir).push(last_segment(named, start)));
        assert(counting_segments(path).drop_last() =~= counting_segments(dir));
        if dir.len() > start {
            let seg = last_segment(dir, start);
            lemma_last_start(dir, start);
            lemma_last_segment(dir, start);
            assert(dir.last() == seg.last());
            assert(seg.contains(seg.last()));
        } else {
            assert(dir =~= path.take(start));
            lemma_no_segments(dir);
        }
    } else {
        assert(named =~= path.take(start));
        lemma_no_segments(named);
        assert(Seq::<char>::empty() =~= path.take(0));
    }
}

/// The root, a lone `.` and the empty path have no segments that count.
proof fn lemma_no_segments(p: Seq<char>)
    requires
        p.len() == body_start(p),
    ensures
        counting_segments(p).len() == 0,
{
    let nothing = Seq::<char>::empty();
    let counting = |s: Seq<char>| counts(s);
    reveal_strlit(".");
    lemma_split_without_separator(nothing, '/');
    lemma_filter_one(nothing, counting);
    if is_rooted(p) {
        assert(p =~= nothing.push('/') + nothing);
        lemma_split_joined(nothing, '/', nothing);
        Seq::filter_distributes_over_add(seq![nothing], seq![nothing], counting);
    } else if begins_with_dot(p) {
        assert(p =~= "."@);
        assert(!p.contains('/'));
        lemma_split_without_separator(p, '/');
        lemma_filter_one(p, counting);
    } else {
        assert(p =~= nothing);
    }
}

/// The file name of a path is the last of its segments, empty ones and `.` aside,
/// unless that is `..`.
pub proof fn file_names_are_the_last_segment(p: Seq<char>)
    ensures
        ({
            let told = told_segments(p);
            &&& told.len() > 0 && told.last() != ".."@ ==> file_name_of(p) == Some(told.last())
            &&& told.len() == 0 || told.last() == ".."@ ==> file_name_of(p) is None
        }),
{
    let start = body_start(p);
    let named = without_tail(p, start);
    lemma_told_segments(p);
    lemma_cut_tail(p, start);
    lemma_without_tail(p, start);
    if named.len() > start {
        lemma_cut_segment(named, start);
        let seg = last_segment(named, start);
        let rest = without_last(named, start);
        assert(counting_segments(p) =~= counting_segments(rest).push(seg));
    } else {
        assert(named =~= p.take(start));
        lemma_no_segments(named);
    }
}

/// The extension of a path whose file name has a dot with something before it, and
/// of one whose file name has none.
pub proof fn lemma_extension_of(p: Seq<char>, stem: Seq<char>, ext: Seq<char>)
    requires
        !ext.contains('.'),
        told_segments(p).len() > 0,
        told_segments(p).last() == stem.push('.') + ext,
        told_segments(p).last() != ".."@,
    ensures
        stem.len() > 0 ==> extension_of(p) == Some(ext),
        stem.len() == 0 ==> extension_of(p) is None,
{
    file_names_are_the_last_segment(p);
    let name = stem.push('.') + ext;
    lemma_last_dot_at(stem, ext);
    assert(name.skip(stem.len() as int + 1) =~= ext);
}

/// The extension of a path whose file name has no dot, or that has none.
pub proof fn lemma_no_extension(p: Seq<char>)
    requires
        told_segments(p).len() > 0 ==> !told_segments(p).last().contains('.')
            || told_segments(p).last() == ".."@,
    ensures
        extension_of(p) is None,
{
    file_names_are_the_last_segment(p);
    if told_segments(p).len() > 0 && told_segments(p).last() != ".."@ {
        lemma_no_dot(told_segments(p).last());
    }
}

/// The extension of a path is what stands behind the last dot of its file name,
/// where something stands before that dot. A name without a dot has none, nor has
/// one that only begins with a dot.
pub proof fn extensions_follow_the_last_dot(
    path: &str,
    stem: Seq<char>,
    ext: Seq<char>,
    r: Option<String>,
)
    requires
        call_ensures(file_extension, (path,), r),
    ensures
        ({
            let told = told_segments(path@);
            let named = told.len() > 0 && told.last() != ".."@;
            &&& named && told.last() == stem.push('.') + ext && !ext.contains('.') && stem.len() > 0
                ==> r is Some && r->0@ == ext
            &&& named && told.last() == stem.push('.') + ext && !ext.contains('.') && stem.len()
                == 0 ==> r is None
            &&& named && !told.last().contains('.') ==> r is None
            &&& !named ==> r is None
        }),
{
    let told = told_segments(path@);
    assert(r.deep_view() is Some == r is Some);
    if told.len() > 0 && told.last() != ".."@ && told.last() == stem.push('.') + ext
        && !ext.contains('.') {
        lemma_extension_of(path@, stem, ext);
    }
    if told.len() == 0 || told.last() == ".."@ || !told.last().contains('.') {
        lemma_no_extension(path@);
    }
}

} // verus!

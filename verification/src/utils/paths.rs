//! Paths as text, with `/` between their parts.
//!
//! A path is told from another by its parts: repeated separators, and `.`
//! anywhere but at the start of a relative path, do not count.
use crate::utils::text;
use vstd::prelude::*;

verus! {

/// Where a part of a path starts and ends.
pub open spec fn counts(s: Seq<char>, start: int, end: int) -> bool {
    start < end && (start == 0 || s.subrange(start, end) != seq!['.'])
}

/// The parts seen so far, with the part that ends here if it counts.
pub open spec fn with_part(
    s: Seq<char>,
    done: Seq<(int, int)>,
    start: int,
    end: int,
) -> Seq<(int, int)> {
    if counts(s, start, end) {
        done.push((start, end))
    } else {
        done
    }
}

/// The complete parts in the first `n` characters, and where the next one starts.
pub open spec fn parts_in(s: Seq<char>, n: int) -> (Seq<(int, int)>, int)
    decreases n,
{
    if n <= 0 {
        (Seq::empty(), 0)
    } else {
        let (done, start) = parts_in(s, n - 1);
        if s[n - 1] == '/' {
            (with_part(s, done, start, n - 1), n)
        } else {
            (done, start)
        }
    }
}

/// Where the parts of a path stand.
pub open spec fn spans(s: Seq<char>) -> Seq<(int, int)> {
    let (done, start) = parts_in(s, s.len() as int);
    with_part(s, done, start, s.len() as int)
}

/// The parts of a path.
pub open spec fn parts(s: Seq<char>) -> Seq<Seq<char>> {
    spans(s).map_values(|p: (int, int)| s.subrange(p.0, p.1))
}

pub open spec fn is_absolute(s: Seq<char>) -> bool {
    s.len() > 0 && s[0] == '/'
}

/// Whether two texts name the same path.
pub open spec fn same_path_spec(a: Seq<char>, b: Seq<char>) -> bool {
    is_absolute(a) == is_absolute(b) && parts(a) == parts(b)
}

/// A path continued by another. An absolute continuation stands alone.
pub open spec fn joined(base: Seq<char>, rest: Seq<char>) -> Seq<char> {
    if is_absolute(rest) || base.len() == 0 {
        rest
    } else if base.last() == '/' {
        base + rest
    } else {
        base.push('/') + rest
    }
}

/// What is left of a path below a base, or nothing when it is not below it. Every path
/// is below the empty one, which leaves all of it.
pub open spec fn below(path: Seq<char>, base: Seq<char>) -> Option<Seq<char>> {
    let all = spans(path);
    let n = parts(base).len();
    if base.len() == 0 && is_absolute(path) {
        Some(
            path.take(
                if all.len() == 0 {
                    1
                } else {
                    all.last().1
                },
            ),
        )
    } else if is_absolute(path) != is_absolute(base) || parts(path).len() < n || parts(path).take(n as int)
        != parts(base) {
        None
    } else if all.len() == n {
        Some(Seq::empty())
    } else {
        Some(path.subrange(all[n as int].0, all.last().1))
    }
}

/// The last part of a path, unless it is `.` or `..`.
pub open spec fn file_name_spec(s: Seq<char>) -> Option<Seq<char>> {
    if parts(s).len() == 0 || parts(s).last() == seq!['.'] || parts(s).last() == seq!['.', '.'] {
        None
    } else {
        Some(parts(s).last())
    }
}

/// The path above the last part.
pub open spec fn parent_spec(s: Seq<char>) -> Option<Seq<char>> {
    let all = spans(s);
    if all.len() == 0 {
        None
    } else if all.len() > 1 {
        Some(s.subrange(0, all[all.len() - 2].1))
    } else if is_absolute(s) {
        Some(seq!['/'])
    } else {
        Some(Seq::empty())
    }
}

/// Where the last dot of a text stands.
pub open spec fn last_dot(s: Seq<char>) -> Option<int>
    decreases s.len(),
{
    if s.len() == 0 {
        None
    } else if s.last() == '.' {
        Some(s.len() - 1)
    } else {
        last_dot(s.drop_last())
    }
}

/// What follows the last dot of the last part, unless that dot opens the part.
pub open spec fn extension_spec(s: Seq<char>) -> Option<Seq<char>> {
    match file_name_spec(s) {
        None => None,
        Some(name) => match last_dot(name) {
            Some(dot) => if dot > 0 {
                Some(name.skip(dot + 1))
            } else {
                None
            },
            None => None,
        },
    }
}

proof fn parts_in_bounds(s: Seq<char>, n: int)
    requires
        0 <= n <= s.len(),
    ensures
        0 <= parts_in(s, n).1 <= n,
        forall|i: int|
            0 <= i < parts_in(s, n).0.len() ==> {
                let p = #[trigger] parts_in(s, n).0[i];
                0 <= p.0 < p.1 < parts_in(s, n).1
            },
        forall|i: int, j: int|
            #![trigger parts_in(s, n).0[i], parts_in(s, n).0[j]]
            0 <= i < j < parts_in(s, n).0.len() ==> parts_in(s, n).0[i].1 < parts_in(s, n).0[j].0,
    decreases n,
{
    if n > 0 {
        parts_in_bounds(s, n - 1);
    }
}

/// The parts of a path stand in order, inside the text.
pub proof fn spans_in_order(s: Seq<char>)
    ensures
        forall|i: int|
            0 <= i < spans(s).len() ==> {
                let p = #[trigger] spans(s)[i];
                0 <= p.0 < p.1 <= s.len()
            },
        forall|i: int, j: int|
            #![trigger spans(s)[i], spans(s)[j]]
            0 <= i < j < spans(s).len() ==> spans(s)[i].1 < spans(s)[j].0,
{
    parts_in_bounds(s, s.len() as int);
}

spec fn span_views(v: Seq<(usize, usize)>) -> Seq<(int, int)> {
    v.map_values(|p: (usize, usize)| (p.0 as int, p.1 as int))
}

fn push_part(v: &Vec<char>, done: &mut Vec<(usize, usize)>, start: usize, end: usize)
    requires
        start <= end <= v@.len(),
    ensures
        span_views(final(done)@) == with_part(
            v@,
            span_views(old(done)@),
            start as int,
            end as int,
        ),
{
    let dot = end - start == 1 && v[start] == '.';
    proof {
        if start < end {
            assert(v@.subrange(start as int, end as int)[0] == v@[start as int]);
            if dot {
                assert(v@.subrange(start as int, end as int) =~= seq!['.']);
            } else if end - start == 1 {
                assert(seq!['.'][0] == '.');
            } else {
                assert(seq!['.'].len() == 1);
            }
        }
    }
    if start < end && (start == 0 || !dot) {
        done.push((start, end));
        assert(span_views(done@) =~= span_views(old(done)@).push((start as int, end as int)));
    }
}

fn find_spans(v: &Vec<char>) -> (r: Vec<(usize, usize)>)
    ensures
        span_views(r@) == spans(v@),
{
    let mut done: Vec<(usize, usize)> = Vec::new();
    let mut start: usize = 0;
    let mut n: usize = 0;
    assert(span_views(done@) =~= Seq::empty());
    while n < v.len()
        invariant
            start <= n <= v.len(),
            parts_in(v@, n as int) == (span_views(done@), start as int),
        decreases v.len() - n,
    {
        if v[n] == '/' {
            push_part(v, &mut done, start, n);
            start = n + 1;
        }
        n = n + 1;
    }
    push_part(v, &mut done, start, n);
    done
}

fn same_span(
    a: &Vec<char>,
    p: (usize, usize),
    b: &Vec<char>,
    q: (usize, usize),
) -> (r: bool)
    requires
        p.0 <= p.1 <= a@.len(),
        q.0 <= q.1 <= b@.len(),
    ensures
        r == (a@.subrange(p.0 as int, p.1 as int) == b@.subrange(q.0 as int, q.1 as int)),
{
    let ghost x = a@.subrange(p.0 as int, p.1 as int);
    let ghost y = b@.subrange(q.0 as int, q.1 as int);
    if p.1 - p.0 != q.1 - q.0 {
        assert(x.len() != y.len());
        return false;
    }
    let n: usize = p.1 - p.0;
    let mut i: usize = 0;
    while i < n
        invariant
            i <= n,
            p.0 + n == p.1 <= a@.len(),
            q.0 + n == q.1 <= b@.len(),
            x == a@.subrange(p.0 as int, p.1 as int),
            y == b@.subrange(q.0 as int, q.1 as int),
            forall|k: int| 0 <= k < i ==> x[k] == y[k],
        decreases n - i,
    {
        if a[p.0 + i] != b[q.0 + i] {
            assert(x[i as int] != y[i as int]);
            return false;
        }
        i = i + 1;
    }
    assert(x =~= y);
    true
}

/// Whether the parts of `a` begin with the parts of `b`.
fn parts_begin(
    a: &Vec<char>,
    sa: &Vec<(usize, usize)>,
    b: &Vec<char>,
    sb: &Vec<(usize, usize)>,
) -> (r: bool)
    requires
        span_views(sa@) == spans(a@),
        span_views(sb@) == spans(b@),
    ensures
        r == (parts(b@).len() <= parts(a@).len() && parts(a@).take(parts(b@).len() as int)
            == parts(b@)),
        parts(a@).len() == sa@.len(),
        parts(b@).len() == sb@.len(),
{
    proof {
        spans_in_order(a@);
        spans_in_order(b@);
        assert(spans(a@).len() == sa@.len());
        assert(spans(b@).len() == sb@.len());
    }
    if sb.len() > sa.len() {
        return false;
    }
    let mut i: usize = 0;
    while i < sb.len()
        invariant
            i <= sb.len() <= sa.len(),
            span_views(sa@) == spans(a@),
            span_views(sb@) == spans(b@),
            forall|k: int| 0 <= k < i ==> parts(a@)[k] == parts(b@)[k],
        decreases sb.len() - i,
    {
        proof {
            spans_in_order(a@);
            spans_in_order(b@);
            assert(spans(a@)[i as int] == (sa@[i as int].0 as int, sa@[i as int].1 as int));
            assert(spans(b@)[i as int] == (sb@[i as int].0 as int, sb@[i as int].1 as int));
        }
        if !same_span(a, sa[i], b, sb[i]) {
            assert(parts(a@).take(parts(b@).len() as int)[i as int] != parts(b@)[i as int]);
            return false;
        }
        i = i + 1;
    }
    assert(parts(a@).take(parts(b@).len() as int) =~= parts(b@));
    true
}

/// Whether two texts name the same path.
pub fn same_path(a: &str, b: &str) -> (r: bool)
    ensures
        r == same_path_spec(a@, b@),
{
    let x = text::to_chars(a);
    let y = text::to_chars(b);
    let sx = find_spans(&x);
    let sy = find_spans(&y);
    let rooted_x = x.len() > 0 && x[0] == '/';
    let rooted_y = y.len() > 0 && y[0] == '/';
    let begins = parts_begin(&x, &sx, &y, &sy);
    proof {
        if sx@.len() == sy@.len() {
            assert(parts(x@).take(parts(y@).len() as int) =~= parts(x@));
        }
    }
    rooted_x == rooted_y && sx.len() == sy.len() && begins
}

/// A path continued by another.
pub fn join(base: &str, rest: &str) -> (r: String)
    ensures
        r@ == joined(base@, rest@),
{
    let b = text::to_chars(base);
    let v = text::to_chars(rest);
    if b.len() == 0 || (v.len() > 0 && v[0] == '/') {
        return rest.to_owned();
    }
    let mut out = base.to_owned();
    if b[b.len() - 1] != '/' {
        out.push('/');
    }
    out.append(rest);
    out
}

/// Resolves a recording path against the project, never the working directory.
/// An absolute path names an outside file and is left unchanged.
pub fn resolve_project_file(project_dir: &str, stored: &str) -> (r: String)
    ensures
        r@ == joined(project_dir@, stored@),
{
    join(project_dir, stored)
}

/// Why a recording cannot be stored in a project.
#[derive(Clone, Copy, Debug, PartialEq, Eq, Structural)]
pub enum PathError {
    OutsideProject,
}

impl PathError {
    pub fn message(&self) -> (text: &'static str)
        ensures
            text@ == "Recording is outside the project directory"@,
    {
        "Recording is outside the project directory"
    }
}

/// The portable form of a recording's path: relative to the project directory.
pub fn stored_recording_path(project_dir: &str, recording: &str) -> (r: Result<String, PathError>)
    ensures
        match r {
            Ok(stored) => below(recording@, project_dir@) == Some(stored@),
            Err(e) => below(recording@, project_dir@) is None && e == PathError::OutsideProject,
        },
{
    let v = text::to_chars(recording);
    let base = text::to_chars(project_dir);
    let sv = find_spans(&v);
    let sb = find_spans(&base);
    let rooted = v.len() > 0 && v[0] == '/';
    let base_rooted = base.len() > 0 && base[0] == '/';
    if base.len() == 0 && rooted {
        let end: usize = if sv.len() == 0 {
            1
        } else {
            sv[sv.len() - 1].1
        };
        proof {
            spans_in_order(v@);
            if sv@.len() > 0 {
                assert(spans(v@).last() == (sv@.last().0 as int, end as int));
            }
            assert(v@.subrange(0, end as int) =~= v@.take(end as int));
        }
        return Ok(text::from_chars(vstd::slice::slice_subrange(v.as_slice(), 0, end)));
    }
    if rooted != base_rooted || !parts_begin(&v, &sv, &base, &sb) {
        return Err(PathError::OutsideProject);
    }
    if sv.len() == sb.len() {
        return Ok(String::new());
    }
    let from: usize = sv[sb.len()].0;
    let to: usize = sv[sv.len() - 1].1;
    proof {
        spans_in_order(v@);
        assert(spans(v@)[sb@.len() as int] == (from as int, sv@[sb@.len() as int].1 as int));
        assert(spans(v@).last() == (sv@.last().0 as int, to as int));
    }
    Ok(text::from_chars(vstd::slice::slice_subrange(v.as_slice(), from, to)))
}

/// The last part of a path.
pub fn file_name(path: &str) -> (r: Option<String>)
    ensures
        match r {
            Some(name) => file_name_spec(path@) == Some(name@),
            None => file_name_spec(path@) is None,
        },
{
    let v = text::to_chars(path);
    let all = find_spans(&v);
    assert(spans(v@).len() == all@.len());
    if all.len() == 0 {
        return None;
    }
    let (from, to) = all[all.len() - 1];
    proof {
        spans_in_order(v@);
        assert(spans(v@).last() == (from as int, to as int));
    }
    let ghost last = v@.subrange(from as int, to as int);
    assert(parts(v@).last() == last);
    let one = to - from == 1 && v[from] == '.';
    let two = to - from == 2 && v[from] == '.' && v[from + 1] == '.';
    proof {
        assert(last[0] == v@[from as int]);
        if to - from == 2 {
            assert(last[1] == v@[from + 1]);
        }
        assert(one ==> last =~= seq!['.']);
        assert(two ==> last =~= seq!['.', '.']);
    }
    if one || two {
        None
    } else {
        Some(text::from_chars(vstd::slice::slice_subrange(v.as_slice(), from, to)))
    }
}

/// The path above the last part.
pub fn parent(path: &str) -> (r: Option<String>)
    ensures
        match r {
            Some(above) => parent_spec(path@) == Some(above@),
            None => parent_spec(path@) is None,
        },
{
    let v = text::to_chars(path);
    let all = find_spans(&v);
    assert(spans(v@).len() == all@.len());
    if all.len() == 0 {
        return None;
    }
    if all.len() > 1 {
        let to: usize = all[all.len() - 2].1;
        proof {
            spans_in_order(v@);
            assert(spans(v@)[all@.len() - 2] == (all@[all@.len() - 2].0 as int, to as int));
        }
        return Some(text::from_chars(vstd::slice::slice_subrange(v.as_slice(), 0, to)));
    }
    let mut root = String::new();
    if v.len() > 0 && v[0] == '/' {
        root.push('/');
        assert(root@ =~= seq!['/']);
    }
    Some(root)
}

/// What follows the last dot of a file name.
pub fn extension(path: &str) -> (r: Option<String>)
    ensures
        match r {
            Some(ext) => extension_spec(path@) == Some(ext@),
            None => extension_spec(path@) is None,
        },
{
    let name = match file_name(path) {
        Some(name) => name,
        None => return None,
    };
    let v = text::to_chars(name.as_str());
    let mut n: usize = v.len();
    assert(v@.take(n as int) =~= v@);
    while n > 0
        invariant
            n <= v.len(),
            v@ == name@,
            file_name_spec(path@) == Some(name@),
            last_dot(v@) == last_dot(v@.take(n as int)),
        decreases n,
    {
        proof {
            assert(v@.take(n as int).drop_last() =~= v@.take(n - 1));
        }
        if v[n - 1] == '.' {
            if n == 1 {
                return None;
            }
            assert(v@.subrange(n as int, v@.len() as int) =~= v@.skip(n as int));
            return Some(
                text::from_chars(vstd::slice::slice_subrange(v.as_slice(), n, v.len())),
            );
        }
        n = n - 1;
    }
    None
}

proof fn parts_in_prefix(s: Seq<char>, t: Seq<char>, n: int)
    requires
        0 <= n <= s.len(),
        n <= t.len(),
        s.take(n) == t.take(n),
    ensures
        parts_in(s, n) == parts_in(t, n),
    decreases n,
{
    if n > 0 {
        assert(s.take(n - 1) =~= s.take(n).take(n - 1));
        assert(t.take(n - 1) =~= t.take(n).take(n - 1));
        parts_in_prefix(s, t, n - 1);
        assert(s[n - 1] == s.take(n)[n - 1]);
        assert(t[n - 1] == t.take(n)[n - 1]);
        parts_in_bounds(s, n - 1);
        let start = parts_in(s, n - 1).1;
        assert(s.subrange(start, n - 1) =~= s.take(n).subrange(start, n - 1));
        assert(t.subrange(start, n - 1) =~= t.take(n).subrange(start, n - 1));
    }
}

/// Whether a text starts with the part `.`.
spec fn starts_with_dot(s: Seq<char>) -> bool {
    s.len() > 0 && s[0] == '.' && (s.len() == 1 || s[1] == '/')
}

spec fn moved(all: Seq<(int, int)>, by: int) -> Seq<(int, int)> {
    all.map_values(|p: (int, int)| (p.0 + by, p.1 + by))
}

proof fn counts_alike(a: Seq<char>, b: Seq<char>, start: int, end: int)
    requires
        a.len() > 0,
        !starts_with_dot(b),
        0 <= start <= end <= b.len(),
        end == b.len() || b[end] == '/',
    ensures
        counts(a + b, start + a.len(), end + a.len()) == counts(b, start, end),
{
    let s = a + b;
    let p = a.len() as int;
    assert(s.subrange(start + p, end + p) =~= b.subrange(start, end));
    if start == 0 && end > 0 && b.subrange(0, end) == seq!['.'] {
        assert(b.subrange(0, end).len() == 1);
        assert(b[0] == b.subrange(0, end)[0]);
        assert(false);
    }
}

proof fn parts_behind(a: Seq<char>, b: Seq<char>, m: int)
    requires
        a.len() > 0,
        a.last() == '/',
        !starts_with_dot(b),
        0 <= m <= b.len(),
    ensures
        parts_in(a + b, a.len() + m) == (
            parts_in(a, a.len() as int).0 + moved(parts_in(b, m).0, a.len() as int),
            parts_in(b, m).1 + a.len(),
        ),
    decreases m,
{
    let s = a + b;
    let p = a.len() as int;
    let done = parts_in(a, p).0;
    if m == 0 {
        assert(s.take(p) =~= a.take(p));
        parts_in_prefix(s, a, p);
        assert(done + moved(parts_in(b, 0).0, p) =~= done);
    } else {
        parts_behind(a, b, m - 1);
        parts_in_bounds(b, m - 1);
        let (before, start) = parts_in(b, m - 1);
        assert(s[p + m - 1] == b[m - 1]);
        if b[m - 1] == '/' {
            counts_alike(a, b, start, m - 1);
            assert(moved(before.push((start, m - 1)), p) =~= moved(before, p).push(
                (start + p, m - 1 + p),
            ));
            assert((done + moved(before, p)).push((start + p, m - 1 + p)) =~= done + moved(
                before,
                p,
            ).push((start + p, m - 1 + p)));
        }
    }
}

/// A path that ends with a separator has the parts that it had without.
proof fn ends_with_separator(a: Seq<char>)
    requires
        a.len() > 0,
        a.last() == '/',
    ensures
        spans(a) == parts_in(a, a.len() as int).0,
{
}

/// Behind a separator come the parts of what follows.
proof fn parts_of_both(a: Seq<char>, b: Seq<char>)
    requires
        a.len() > 0,
        a.last() == '/',
        !starts_with_dot(b),
    ensures
        parts(a + b) == parts(a) + parts(b),
        spans(a + b) == spans(a) + moved(spans(b), a.len() as int),
{
    let s = a + b;
    let p = a.len() as int;
    let n = b.len() as int;
    parts_behind(a, b, n);
    parts_in_bounds(b, n);
    ends_with_separator(a);
    let (done, start) = parts_in(b, n);
    counts_alike(a, b, start, n);
    assert(moved(done.push((start, n)), p) =~= moved(done, p).push((start + p, n + p)));
    assert((spans(a) + moved(done, p)).push((start + p, n + p)) =~= spans(a) + moved(done, p).push(
        (start + p, n + p),
    ));
    assert(spans(s) =~= spans(a) + moved(spans(b), p));
    spans_in_order(a);
    spans_in_order(b);
    assert forall|i: int| 0 <= i < parts(s).len() implies parts(s)[i] == (parts(a) + parts(b))[i] by {
        if i < spans(a).len() {
            let q = spans(a)[i];
            assert(s.subrange(q.0, q.1) =~= a.subrange(q.0, q.1));
        } else {
            let q = spans(b)[i - spans(a).len()];
            assert(s.subrange(q.0 + p, q.1 + p) =~= b.subrange(q.0, q.1));
        }
    }
    assert(parts(s) =~= parts(a) + parts(b));
}

proof fn separator_adds_nothing(a: Seq<char>)
    ensures
        parts(a.push('/')) == parts(a),
{
    let s = a.push('/');
    let n = a.len() as int;
    assert(s.take(n) =~= a.take(n));
    parts_in_prefix(s, a, n);
    parts_in_bounds(a, n);
    let start = parts_in(a, n).1;
    assert(s.subrange(start, n) =~= a.subrange(start, n));
    ends_with_separator(s);
    assert(spans(s) =~= spans(a));
    spans_in_order(a);
    assert forall|i: int| 0 <= i < spans(a).len() implies parts(s)[i] == parts(a)[i] by {
        let q = spans(a)[i];
        assert(s.subrange(q.0, q.1) =~= a.subrange(q.0, q.1));
    }
    assert(parts(s) =~= parts(a));
}

/// The parts that were complete where a later one starts or ends.
proof fn parts_before(s: Seq<char>, n: int, i: int)
    requires
        0 <= n <= s.len(),
        0 <= i < parts_in(s, n).0.len(),
    ensures
        ({
            let all = parts_in(s, n).0;
            &&& parts_in(s, all[i].0) == (all.take(i), all[i].0)
            &&& parts_in(s, all[i].1) == (all.take(i), all[i].0)
            &&& 0 <= all[i].0 < all[i].1 < n
            &&& s[all[i].1] == '/'
            &&& counts(s, all[i].0, all[i].1)
            &&& all[i].0 > 0 ==> s[all[i].0 - 1] == '/'
        }),
    decreases n,
{
    let (before, start) = parts_in(s, n - 1);
    let all = parts_in(s, n).0;
    parts_in_bounds(s, n - 1);
    if i < before.len() {
        parts_before(s, n - 1, i);
        assert(all.take(i) =~= before.take(i));
    } else {
        assert(all.take(i) =~= before);
        open_part(s, n - 1);
    }
}

/// A part that is still open starts behind a separator or at the start.
proof fn open_part(s: Seq<char>, n: int)
    requires
        0 <= n <= s.len(),
    ensures
        ({
            let (done, start) = parts_in(s, n);
            &&& parts_in(s, start) == (done, start)
            &&& start > 0 ==> s[start - 1] == '/'
            &&& forall|k: int| start <= k < n ==> s[k] != '/'
        }),
    decreases n,
{
    if n > 0 {
        open_part(s, n - 1);
    }
}

/// Where a path is cut before one of its parts.
proof fn span_facts(s: Seq<char>, i: int)
    requires
        0 <= i < spans(s).len(),
    ensures
        ({
            let q = spans(s)[i];
            &&& 0 <= q.0 < q.1 <= s.len()
            &&& parts_in(s, q.0) == (spans(s).take(i), q.0)
            &&& parts_in(s, q.1) == (spans(s).take(i), q.0)
            &&& q.1 == s.len() || s[q.1] == '/'
            &&& counts(s, q.0, q.1)
            &&& q.0 > 0 ==> s[q.0 - 1] == '/'
            &&& s[q.0] != '/'
        }),
{
    let n = s.len() as int;
    let (done, start) = parts_in(s, n);
    parts_in_bounds(s, n);
    if i < done.len() {
        parts_before(s, n, i);
        assert(spans(s).take(i) =~= done.take(i));
        open_part(s, done[i].1);
    } else {
        assert(spans(s).take(i) =~= done);
        open_part(s, n);
    }
}

/// A path cut behind its last part has the same parts.
proof fn cut_behind(s: Seq<char>)
    requires
        spans(s).len() > 0,
    ensures
        parts(s.take(spans(s).last().1)) == parts(s),
{
    let i = spans(s).len() - 1;
    let e = spans(s).last().1;
    span_facts(s, i);
    let t = s.take(e);
    assert(s.take(e) =~= t.take(e));
    parts_in_prefix(s, t, e);
    let q = spans(s)[i];
    assert(t.subrange(q.0, e) =~= s.subrange(q.0, e));
    assert(spans(t) =~= spans(s).take(i).push(q));
    assert(spans(t) =~= spans(s));
    spans_in_order(s);
    assert forall|k: int| 0 <= k < spans(s).len() implies parts(t)[k] == parts(s)[k] by {
        span_facts(s, k);
        let r = spans(s)[k];
        if k < i {
            assert(r.1 < q.0);
        }
        assert(t.subrange(r.0, r.1) =~= s.subrange(r.0, r.1));
    }
    assert(parts(t) =~= parts(s));
}

/// A path cut before one of its parts: what is in front has the parts in front.
proof fn cut_before(s: Seq<char>, n: int)
    requires
        0 <= n < spans(s).len(),
        spans(s)[n].0 > 0,
    ensures
        ({
            let h = spans(s)[n].0;
            let (head, tail) = (s.take(h), s.skip(h));
            &&& head.len() > 0
            &&& head.last() == '/'
            &&& tail.len() > 0
            &&& tail[0] != '/'
            &&& !starts_with_dot(tail)
            &&& parts(head) == parts(s).take(n)
            &&& parts(tail) == parts(s).skip(n)
            &&& spans(s).last().1 == h + spans(tail).last().1
            &&& spans(tail).len() > 0
        }),
{
    span_facts(s, n);
    let q = spans(s)[n];
    let h = q.0;
    let (head, tail) = (s.take(h), s.skip(h));
    assert(head + tail =~= s);
    assert(s.take(h) =~= head.take(h));
    parts_in_prefix(s, head, h);
    ends_with_separator(head);
    if starts_with_dot(tail) {
        assert(s[h] == '.');
        if tail.len() > 1 {
            assert(s[h + 1] == '/');
        }
        open_part(s, q.1);
        assert(q.1 == h + 1);
        assert(s.subrange(h, q.1) =~= seq!['.']);
        assert(false);
    }
    parts_of_both(head, tail);
    assert(parts(head).len() == n);
    assert(parts(head) =~= parts(s).take(n));
    assert(parts(tail) =~= parts(s).skip(n));
    assert(spans(s).last() == moved(spans(tail), h).last());
}

/// A relative path that is not empty has a part.
proof fn relative_has_parts(s: Seq<char>, n: int)
    requires
        0 < n <= s.len(),
        s[0] != '/',
    ensures
        parts_in(s, n).0.len() > 0 || parts_in(s, n).1 == 0,
        n == s.len() ==> spans(s).len() > 0,
    decreases n,
{
    if n > 1 {
        relative_has_parts(s, n - 1);
    } else {
        assert(parts_in(s, 0).1 == 0);
    }
}

proof fn resolves_back_below(project_dir: Seq<char>, recording: Seq<char>)
    requires
        below(recording, project_dir) is Some,
        project_dir.len() > 0 || !is_absolute(recording),
    ensures
        same_path_spec(joined(project_dir, below(recording, project_dir)->0), recording),
{
    let rest = below(recording, project_dir)->0;
    let all = spans(recording);
    let n = parts(project_dir).len() as int;
    let whole = joined(project_dir, rest);
    let start = if project_dir.len() > 0 && project_dir.last() == '/' {
        project_dir
    } else {
        project_dir.push('/')
    };
    separator_adds_nothing(project_dir);
    assert(parts(start) == parts(project_dir));
    assert(parts(recording).len() == all.len());
    if all.len() == n {
        assert(parts(recording).take(n) =~= parts(recording));
        assert(project_dir.push('/') + rest =~= project_dir.push('/'));
        assert(project_dir + rest =~= project_dir);
        assert(parts(whole) =~= parts(recording));
    } else {
        let h = all[n].0;
        let tail = recording.skip(h);
        span_facts(recording, n);
        if h > 0 {
            cut_before(recording, n);
            cut_behind(tail);
            span_facts(tail, spans(tail).len() - 1);
            span_facts(recording, all.len() - 1);
            let k = spans(tail).last().1;
            assert(tail.take(k) =~= rest);
            assert(rest[0] == tail[0]);
            assert(!starts_with_dot(rest)) by {
                if k > 1 {
                    assert(rest[1] == tail[1]);
                }
            }
        } else {
            assert(n == 0) by {
                assert(parts_in(recording, 0).0.len() == 0);
                assert(all.take(n).len() == n);
            }
            assert(tail =~= recording);
            cut_behind(recording);
            span_facts(recording, all.len() - 1);
            assert(recording.take(all.last().1) =~= rest);
            if project_dir.len() > 0 {
                relative_has_parts(project_dir, project_dir.len() as int);
            }
        }
        assert(parts(rest) == parts(recording).skip(n)) by {
            if h == 0 {
                assert(parts(recording).skip(0) =~= parts(recording));
            }
        }
        assert(parts(project_dir) + parts(rest) =~= parts(recording));
        if project_dir.len() > 0 {
            assert(whole =~= start + rest);
            parts_of_both(start, rest);
        }
    }
}

/// The stored form of a recording's path resolves back to the recording.
pub proof fn stored_path_resolves_back(project_dir: Seq<char>, recording: Seq<char>)
    requires
        below(recording, project_dir) is Some,
    ensures
        same_path_spec(joined(project_dir, below(recording, project_dir)->0), recording),
{
    let rest = below(recording, project_dir)->0;
    let all = spans(recording);
    if project_dir.len() == 0 && is_absolute(recording) {
        if all.len() == 0 {
            assert(rest =~= seq!['/']);
            assert(parts_in(rest, 0).0.len() == 0);
            assert(parts_in(rest, 1) == (Seq::<(int, int)>::empty(), 1int));
            assert(parts(rest) =~= parts(recording));
        } else {
            span_facts(recording, all.len() - 1);
            cut_behind(recording);
        }
    } else {
        resolves_back_below(project_dir, recording);
    }
}

proof fn plain_text_is_open(name: Seq<char>, n: int)
    requires
        0 <= n <= name.len(),
        forall|k: int| 0 <= k < name.len() ==> name[k] != '/',
    ensures
        parts_in(name, n) == (Seq::<(int, int)>::empty(), 0int),
    decreases n,
{
    if n > 0 {
        plain_text_is_open(name, n - 1);
        assert(name[n - 1] != '/');
    }
}

proof fn plain_text_is_one_part(name: Seq<char>)
    requires
        name.len() > 0,
        forall|k: int| 0 <= k < name.len() ==> name[k] != '/',
    ensures
        parts(name) == seq![name],
{
    plain_text_is_open(name, name.len() as int);
    assert(spans(name) =~= seq![(0int, name.len() as int)]);
    assert(name.subrange(0, name.len() as int) =~= name);
    assert(parts(name) =~= seq![name]);
}

/// A name that is put behind a directory is the last part of the path, and the file name of
/// it; the parts before it are those of the directory.
pub proof fn joined_paths_end_with_the_name(dir: Seq<char>, name: Seq<char>)
    requires
        dir.len() > 0,
        name.len() > 0,
        forall|k: int| 0 <= k < name.len() ==> name[k] != '/',
        name[0] != '.',
    ensures
        parts(joined(dir, name)) == parts(dir).push(name),
        is_absolute(joined(dir, name)) == is_absolute(dir),
        file_name_spec(joined(dir, name)) == Some(name),
{
    let start = if dir.last() == '/' {
        dir
    } else {
        dir.push('/')
    };
    assert(!is_absolute(name));
    separator_adds_nothing(dir);
    plain_text_is_one_part(name);
    parts_of_both(start, name);
    assert(joined(dir, name) =~= start + name);
    assert(parts(dir) + seq![name] =~= parts(dir).push(name));
    let whole = joined(dir, name);
    assert(parts(whole).last() == name);
    assert(name != seq!['.']) by {
        assert(seq!['.'][0] == '.');
    }
    assert(name != seq!['.', '.']) by {
        assert(seq!['.', '.'][0] == '.');
    }
}

proof fn last_dot_stands(base: Seq<char>, extension: Seq<char>)
    requires
        forall|k: int| 0 <= k < extension.len() ==> extension[k] != '.',
    ensures
        last_dot(base.push('.') + extension) == Some(base.len() as int),
    decreases extension.len(),
{
    let s = base.push('.') + extension;
    if extension.len() == 0 {
        assert(s =~= base.push('.'));
        assert(s.last() == '.');
    } else {
        let rest = extension.drop_last();
        assert(s.last() == extension[extension.len() - 1]);
        assert forall|k: int| 0 <= k < rest.len() implies rest[k] != '.' by {
            assert(rest[k] == extension[k]);
        }
        last_dot_stands(base, rest);
        assert(s.drop_last() =~= base.push('.') + rest);
    }
}

/// The extension of a file is what stands behind the last dot of its name.
pub proof fn extensions_stand_behind_the_last_dot(
    dir: Seq<char>,
    base: Seq<char>,
    extension: Seq<char>,
)
    requires
        dir.len() > 0,
        base.len() > 0,
        base[0] != '.',
        forall|k: int| 0 <= k < base.len() ==> base[k] != '/',
        forall|k: int| 0 <= k < extension.len() ==> extension[k] != '/' && extension[k] != '.',
    ensures
        extension_spec(joined(dir, base.push('.') + extension)) == Some(extension),
{
    let name = base.push('.') + extension;
    assert forall|k: int| 0 <= k < name.len() implies name[k] != '/' by {
        if k > base.len() {
            assert(name[k] == extension[k - base.len() - 1]);
        }
    }
    assert(name[0] == base[0]);
    joined_paths_end_with_the_name(dir, name);
    last_dot_stands(base, extension);
    assert(name.skip(base.len() as int + 1) =~= extension);
}

proof fn cut_behind_part(s: Seq<char>, i: int)
    requires
        0 <= i < spans(s).len(),
    ensures
        parts(s.take(spans(s)[i].1)) == parts(s).take(i + 1),
{
    let e = spans(s)[i].1;
    span_facts(s, i);
    let t = s.take(e);
    assert(s.take(e) =~= t.take(e));
    parts_in_prefix(s, t, e);
    let q = spans(s)[i];
    assert(t.subrange(q.0, e) =~= s.subrange(q.0, e));
    assert(spans(t) =~= spans(s).take(i).push(q));
    assert(spans(t) =~= spans(s).take(i + 1));
    spans_in_order(s);
    assert forall|k: int| 0 <= k < i + 1 implies parts(t)[k] == parts(s)[k] by {
        span_facts(s, k);
        let r = spans(s)[k];
        if k < i {
            assert(r.1 < q.0);
        }
        assert(t.subrange(r.0, r.1) =~= s.subrange(r.0, r.1));
    }
    assert(parts(t) =~= parts(s).take(i + 1));
}

/// The parent of a path has all its parts but the last one, and is absolute if the path is.
/// A path without parts has no parent.
pub proof fn parents_have_all_parts_but_the_last(s: Seq<char>)
    ensures
        (parent_spec(s) is Some) == (parts(s).len() > 0),
        parts(s).len() > 0 ==> parts(parent_spec(s)->0) == parts(s).drop_last(),
        parts(s).len() > 0 ==> is_absolute(parent_spec(s)->0) == is_absolute(s),
{
    let n = spans(s).len() as int;
    if n > 1 {
        let e = spans(s)[n - 2].1;
        span_facts(s, n - 2);
        cut_behind_part(s, n - 2);
        assert(s.subrange(0, e) =~= s.take(e));
        assert(parts(s).take(n - 1) =~= parts(s).drop_last());
    } else if n == 1 {
        let root = seq!['/'];
        assert(parts_in(root, 0) == (Seq::<(int, int)>::empty(), 0int));
        assert(parts_in(root, 1) == (Seq::<(int, int)>::empty(), 1int));
        assert(parts(root) =~= Seq::empty());
        let none = Seq::<char>::empty();
        assert(parts_in(none, 0) == (Seq::<(int, int)>::empty(), 0int));
        assert(parts(none) =~= Seq::empty());
        assert(parts(s).drop_last() =~= Seq::empty());
    }
}

} // verus!

//! Unix paths as `std::path::Path` reads them: the components a path string holds, and the
//! part of one path that lies under another.

use vstd::prelude::*;
use crate::text::{chars_of, pieces, push_char, same_chars};

verus! {

/// One component of a path, as `std::path::Component` names it on Unix.
#[derive(Debug)]
pub enum Part {
    /// The leading `/`.
    Root,
    /// A leading `.`.
    Here,
    /// `..`.
    Up,
    /// Anything else: one name.
    Name(Vec<char>),
}

/// A component, by its characters.
pub enum PartView {
    Root,
    Here,
    Up,
    Name(Seq<char>),
}

impl View for Part {
    type V = PartView;

    open spec fn view(&self) -> PartView {
        match self {
            Part::Root => PartView::Root,
            Part::Here => PartView::Here,
            Part::Up => PartView::Up,
            Part::Name(v) => PartView::Name(v@),
        }
    }
}

/// What the `k`th piece of a path contributes: nothing for an empty piece or for a `.` other
/// than a relative path's first, `..` for `..`, and a name otherwise.
pub open spec fn part_of(piece: Seq<char>, k: int, rooted: bool) -> Seq<PartView> {
    if piece.len() == 0 {
        seq![]
    } else if piece == seq!['.'] {
        if k == 0 && !rooted {
            seq![PartView::Here]
        } else {
            seq![]
        }
    } else if piece == seq!['.', '.'] {
        seq![PartView::Up]
    } else {
        seq![PartView::Name(piece)]
    }
}

/// The components the pieces make, in order.
pub open spec fn parts_of(pieces: Seq<Seq<char>>, rooted: bool) -> Seq<PartView>
    decreases pieces.len(),
{
    if pieces.len() == 0 {
        seq![]
    } else {
        parts_of(pieces.drop_last(), rooted) + part_of(pieces.last(), pieces.len() - 1, rooted)
    }
}

/// Whether a path begins at the root.
pub open spec fn is_rooted(s: Seq<char>) -> bool {
    s.len() > 0 && s[0] == '/'
}

/// `Path::components`, for a Unix path.
pub open spec fn components(s: Seq<char>) -> Seq<PartView> {
    let rooted = is_rooted(s);
    (if rooted { seq![PartView::Root] } else { seq![] }) + parts_of(pieces(s, '/'), rooted)
}

/// What one piece contributes, as an exec value.
fn part_for(piece: Vec<char>, k: usize, rooted: bool) -> (r: Option<Part>)
    ensures
        part_of(piece@, k as int, rooted) == match r {
            Some(p) => seq![p@],
            None => Seq::<PartView>::empty(),
        },
{
    if piece.len() == 0 {
        None
    } else if piece.len() == 1 && piece[0] == '.' {
        proof {
            assert(piece@ =~= seq!['.']);
        }
        if k == 0 && !rooted {
            Some(Part::Here)
        } else {
            None
        }
    } else if piece.len() == 2 && piece[0] == '.' && piece[1] == '.' {
        proof {
            assert(piece@ =~= seq!['.', '.']);
        }
        Some(Part::Up)
    } else {
        proof {
            if piece@ == seq!['.'] {
                assert(piece@[0] == '.');
            }
            if piece@ == seq!['.', '.'] {
                assert(piece@[0] == '.' && piece@[1] == '.');
            }
        }
        Some(Part::Name(piece))
    }
}

/// The views of a list of components.
pub open spec fn views(parts: Seq<Part>) -> Seq<PartView> {
    parts.map_values(|p: Part| p@)
}

/// `Path::components`, for a Unix path.
pub fn components_of(s: &str) -> (parts: Vec<Part>)
    ensures
        views(parts@) == components(s@),
{
    let chars = chars_of(s);
    let rooted = chars.len() > 0 && chars[0] == '/';
    let mut parts: Vec<Part> = Vec::new();
    if rooted {
        parts.push(Part::Root);
    }
    let ghost lead: Seq<PartView> = if rooted { seq![PartView::Root] } else { seq![] };
    assert(views(parts@) =~= lead);
    let mut piece: Vec<char> = Vec::new();
    let ghost mut done: Seq<Seq<char>> = Seq::empty();
    let mut k: usize = 0;
    let mut i: usize = 0;
    assert(chars@.take(0) =~= Seq::<char>::empty());
    while i < chars.len()
        invariant
            i <= chars@.len(),
            chars@ == s@,
            rooted == is_rooted(s@),
            k == done.len(),
            k <= i,
            pieces(chars@.take(i as int), '/') == done.push(piece@),
            views(parts@) == lead + parts_of(done, rooted),
        decreases chars@.len() - i,
    {
        let c = chars[i];
        assert(chars@.take(i + 1).drop_last() =~= chars@.take(i as int));
        if c == '/' {
            let mut finished: Vec<char> = Vec::new();
            std::mem::swap(&mut finished, &mut piece);
            let ghost fin = finished@;
            let ghost before = parts@;
            let p = part_for(finished, k, rooted);
            match p {
                Some(p) => {
                    parts.push(p);
                    assert(views(parts@) =~= views(before) + seq![p@]);
                },
                None => {
                    assert(parts@ == before);
                },
            }
            proof {
                assert(done.push(fin).drop_last() =~= done);
                assert(done.push(fin).last() == fin);
                assert(parts_of(done.push(fin), rooted) == parts_of(done, rooted) + part_of(fin, k as int, rooted));
                done = done.push(fin);
                assert(views(parts@) =~= lead + parts_of(done, rooted));
                assert(pieces(chars@.take(i + 1), '/') =~= done.push(piece@));
            }
            k = k + 1;
        } else {
            piece.push(c);
            proof {
                assert(pieces(chars@.take(i + 1), '/') =~= done.push(piece@));
            }
        }
        i = i + 1;
    }
    let ghost fin = piece@;
    let ghost before = parts@;
    let p = part_for(piece, k, rooted);
    match p {
        Some(p) => {
            parts.push(p);
            assert(views(parts@) =~= views(before) + seq![p@]);
        },
        None => {
            assert(parts@ == before);
        },
    }
    proof {
        assert(chars@.take(chars@.len() as int) =~= chars@);
        assert(done.push(fin).drop_last() =~= done);
        assert(done.push(fin).last() == fin);
        assert(parts_of(done.push(fin), rooted) == parts_of(done, rooted) + part_of(fin, k as int, rooted));
        assert(views(parts@) =~= lead + parts_of(done.push(fin), rooted));
    }
    parts
}


/// Names joined with `/` between them.
pub open spec fn join_names(names: Seq<Seq<char>>) -> Seq<char>
    decreases names.len(),
{
    if names.len() == 0 {
        seq![]
    } else if names.len() == 1 {
        names[0]
    } else {
        join_names(names.drop_last()) + seq!['/'] + names.last()
    }
}

/// The name a component holds, for a name.
pub open spec fn name_in(p: PartView) -> Seq<char> {
    match p {
        PartView::Name(n) => n,
        _ => seq![],
    }
}

/// The path of `path` under `root`, `/`-separated, when `path` is plainly under it: every
/// component of `root` begins `path`, and what follows is one or more names, with no `..` among
/// them.
pub open spec fn path_under(root: Seq<char>, path: Seq<char>) -> Option<Seq<char>> {
    let rc = components(root);
    let pc = components(path);
    if rc.len() < pc.len() && pc.take(rc.len() as int) == rc && forall|i: int|
        rc.len() <= i < pc.len() ==> #[trigger] pc[i] is Name {
        Some(join_names(pc.skip(rc.len() as int).map_values(|p: PartView| name_in(p))))
    } else {
        None
    }
}

/// Whether two components are the same.
fn same_part(a: &Part, b: &Part) -> (r: bool)
    ensures
        r == (a@ == b@),
{
    match (a, b) {
        (Part::Root, Part::Root) => true,
        (Part::Here, Part::Here) => true,
        (Part::Up, Part::Up) => true,
        (Part::Name(x), Part::Name(y)) => same_chars(x, y),
        _ => false,
    }
}

/// A file's source path in the library: its path under the folder `root`, `/`-separated.
/// `None` for anything not plainly under it.
pub fn source_path(root: &str, path: &str) -> (r: Option<String>)
    ensures
        r matches Some(s) ==> path_under(root@, path@) == Some(s@),
        r is None ==> path_under(root@, path@) is None,
{
    let rc = components_of(root);
    let pc = components_of(path);
    let ghost rv = views(rc@);
    let ghost pv = views(pc@);
    if rc.len() >= pc.len() {
        return None;
    }
    let mut i: usize = 0;
    while i < rc.len()
        invariant
            i <= rc@.len() < pc@.len(),
            rv == views(rc@),
            pv == views(pc@),
            rv == components(root@),
            pv == components(path@),
            forall|j: int| 0 <= j < i ==> pv[j] == rv[j],
        decreases rc@.len() - i,
    {
        if !same_part(&rc[i], &pc[i]) {
            proof {
                assert(pv.take(rv.len() as int)[i as int] != rv[i as int]);
            }
            return None;
        }
        i = i + 1;
    }
    proof {
        assert(pv.take(rv.len() as int) =~= rv);
    }
    let ghost rest = pv.skip(rv.len() as int).map_values(|p: PartView| name_in(p));
    let mut out = String::new();
    let mut j: usize = rc.len();
    while j < pc.len()
        invariant
            rc@.len() <= j <= pc@.len(),
            rv == views(rc@),
            pv == views(pc@),
            rv == components(root@),
            pv == components(path@),
            pv.take(rv.len() as int) == rv,
            rest == pv.skip(rv.len() as int).map_values(|p: PartView| name_in(p)),
            forall|m: int| rv.len() <= m < j ==> #[trigger] pv[m] is Name,
            out@ == join_names(rest.take(j - rv.len())),
        decreases pc@.len() - j,
    {
        match &pc[j] {
            Part::Name(name) => {
                let ghost before = out@;
                if j > rc.len() {
                    push_char(&mut out, '/');
                }
                let mut q: usize = 0;
                while q < name.len()
                    invariant
                        q <= name@.len(),
                        out@ == (if j > rc@.len() { before + seq!['/'] } else { before }) + name@.take(q as int),
                    decreases name@.len() - q,
                {
                    push_char(&mut out, name[q]);
                    assert(name@.take(q + 1) =~= name@.take(q as int).push(name@[q as int]));
                    q = q + 1;
                }
                proof {
                    assert(name@.take(name@.len() as int) =~= name@);
                    let t = rest.take(j + 1 - rv.len());
                    assert(t.drop_last() =~= rest.take(j - rv.len()));
                    assert(pv[j as int] == PartView::Name(name@));
                    assert(t.last() == name@);
                    if j == rc@.len() {
                        assert(t.len() == 1);
                        assert(out@ =~= name@);
                    } else {
                        assert(out@ =~= join_names(t.drop_last()) + seq!['/'] + t.last());
                    }
                }
            },
            _ => {
                proof {
                    assert(pv[j as int] == pc@[j as int]@);
                    assert(!(pv[j as int] is Name));
                }
                return None;
            },
        }
        j = j + 1;
    }
    proof {
        assert(rest.take(pv.len() - rv.len()) =~= rest);
    }
    Some(out)
}

/// A name that stays where it is put: not empty, not `.` or `..`, and holding no `/`.
pub open spec fn plain_name(n: Seq<char>) -> bool {
    n.len() > 0 && n != seq!['.'] && n != seq!['.', '.'] && !n.contains('/')
}

/// No piece holds the separator.
proof fn lemma_pieces_free(s: Seq<char>, sep: char)
    ensures
        forall|k: int| 0 <= k < pieces(s, sep).len() ==> !(#[trigger] pieces(s, sep)[k]).contains(sep),
    decreases s.len(),
{
    if s.len() > 0 {
        lemma_pieces_free(s.drop_last(), sep);
        crate::text::lemma_pieces_nonempty(s.drop_last(), sep);
        let before = pieces(s.drop_last(), sep);
        if s.last() != sep {
            let l = before.last();
            assert forall|k: int| 0 <= k < pieces(s, sep).len() implies !(#[trigger] pieces(s, sep)[k]).contains(sep) by {
                if k == before.len() - 1 {
                    let n = l.push(s.last());
                    assert(pieces(s, sep)[k] == n);
                    if n.contains(sep) {
                        let j = choose|j: int| 0 <= j < n.len() && n[j] == sep;
                        if j < l.len() {
                            assert(l[j] == sep);
                            assert(l.contains(sep));
                        }
                    }
                } else {
                    assert(pieces(s, sep)[k] == before[k]);
                }
            }
        } else {
            assert forall|k: int| 0 <= k < pieces(s, sep).len() implies !(#[trigger] pieces(s, sep)[k]).contains(sep) by {
                if k < before.len() {
                    assert(pieces(s, sep)[k] == before[k]);
                } else {
                    assert(pieces(s, sep)[k] =~= Seq::<char>::empty());
                }
            }
        }
    }
}

/// Each name among the components that pieces free of `/` make is a plain name.
proof fn lemma_parts_plain(ps: Seq<Seq<char>>, rooted: bool)
    requires
        forall|k: int| 0 <= k < ps.len() ==> !(#[trigger] ps[k]).contains('/'),
    ensures
        forall|i: int| 0 <= i < parts_of(ps, rooted).len() && (#[trigger] parts_of(ps, rooted)[i]) is Name
            ==> plain_name(name_in(parts_of(ps, rooted)[i])),
    decreases ps.len(),
{
    if ps.len() > 0 {
        let front = ps.drop_last();
        assert forall|k: int| 0 <= k < front.len() implies !(#[trigger] front[k]).contains('/') by {
            assert(front[k] == ps[k]);
        }
        lemma_parts_plain(front, rooted);
        let a = parts_of(front, rooted);
        let b = part_of(ps.last(), ps.len() - 1, rooted);
        assert(!ps[ps.len() - 1].contains('/'));
        assert forall|i: int| 0 <= i < parts_of(ps, rooted).len() && (#[trigger] parts_of(ps, rooted)[i]) is Name
            implies plain_name(name_in(parts_of(ps, rooted)[i])) by {
            if i < a.len() {
                assert(parts_of(ps, rooted)[i] == a[i]);
            } else {
                assert(parts_of(ps, rooted)[i] == b[i - a.len()]);
            }
        }
    }
}

/// Splitting `a`, a separator, then `b` gives the pieces of `a`, then those of `b`.
proof fn lemma_pieces_concat(a: Seq<char>, b: Seq<char>, sep: char)
    ensures
        pieces(a + seq![sep] + b, sep) == pieces(a, sep) + pieces(b, sep),
    decreases b.len(),
{
    let s = a + seq![sep] + b;
    if b.len() == 0 {
        assert(s.drop_last() =~= a);
        assert(pieces(a, sep).push(Seq::empty()) =~= pieces(a, sep) + pieces(b, sep));
    } else {
        let b2 = b.drop_last();
        lemma_pieces_concat(a, b2, sep);
        assert(s.drop_last() =~= a + seq![sep] + b2);
        crate::text::lemma_pieces_nonempty(b2, sep);
        let pa = pieces(a, sep);
        let pb = pieces(b2, sep);
        if b.last() == sep {
            assert((pa + pb).push(Seq::empty()) =~= pa + pb.push(Seq::empty()));
        } else {
            let j = pa.len() + pb.len() - 1;
            assert((pa + pb).update(j, (pa + pb).last().push(b.last())) =~= pa + pb.update(
                pb.len() - 1,
                pb.last().push(b.last()),
            ));
        }
    }
}

/// A name free of the separator is one piece.
proof fn lemma_pieces_single(n: Seq<char>, sep: char)
    requires
        !n.contains(sep),
    ensures
        pieces(n, sep) == seq![n],
    decreases n.len(),
{
    if n.len() > 0 {
        let m = n.drop_last();
        assert(!m.contains(sep)) by {
            if m.contains(sep) {
                let j = choose|j: int| 0 <= j < m.len() && m[j] == sep;
                assert(n[j] == sep);
            }
        }
        lemma_pieces_single(m, sep);
        assert(n[n.len() - 1] != sep);
        assert(m.push(n.last()) =~= n);
        assert(seq![m].update(0, m.push(n.last())) =~= seq![n]);
    } else {
        assert(n =~= Seq::<char>::empty());
    }
}

/// Names free of `/`, joined with `/`, split back into the same names.
proof fn lemma_join_split(names: Seq<Seq<char>>)
    requires
        names.len() >= 1,
        forall|k: int| 0 <= k < names.len() ==> !(#[trigger] names[k]).contains('/'),
    ensures
        pieces(join_names(names), '/') == names,
    decreases names.len(),
{
    if names.len() == 1 {
        lemma_pieces_single(names[0], '/');
        assert(seq![names[0]] =~= names);
    } else {
        let front = names.drop_last();
        assert forall|k: int| 0 <= k < front.len() implies !(#[trigger] front[k]).contains('/') by {
            assert(front[k] == names[k]);
        }
        lemma_join_split(front);
        lemma_pieces_concat(join_names(front), names.last(), '/');
        lemma_pieces_single(names.last(), '/');
        assert(front + seq![names.last()] =~= names);
    }
}

/// What follows the folder's components in a path plainly under it: at least one plain name.
proof fn lemma_under_names(root: Seq<char>, path: Seq<char>)
    requires
        path_under(root, path) is Some,
    ensures
        ({
            let names = components(path).skip(components(root).len() as int).map_values(
                |p: PartView| name_in(p),
            );
            &&& names.len() >= 1
            &&& forall|k: int| 0 <= k < names.len() ==> plain_name(#[trigger] names[k])
            &&& path_under(root, path) == Some(join_names(names))
        }),
{
    let rc = components(root);
    let pc = components(path);
    let rooted = is_rooted(path);
    let lead: Seq<PartView> = if rooted { seq![PartView::Root] } else { seq![] };
    let ps = pieces(path, '/');
    lemma_pieces_free(path, '/');
    lemma_parts_plain(ps, rooted);
    let parts = parts_of(ps, rooted);
    assert(pc == lead + parts);
    let names = pc.skip(rc.len() as int).map_values(|p: PartView| name_in(p));
    assert forall|k: int| 0 <= k < names.len() implies plain_name(#[trigger] names[k]) by {
        let i = k + rc.len();
        assert(pc[i] is Name);
        assert(names[k] == name_in(pc[i]));
        if rooted && i == 0 {
            assert(pc[0] == PartView::Root);
        } else {
            assert(pc[i] == parts[i - lead.len()]);
        }
    }
}

/// A source path never leaves the folder: whatever [`source_path`] gives is not empty, and the
/// pieces between its `/`s are each a plain name, never empty, `.` or `..`.
pub proof fn source_path_stays_inside(root: Seq<char>, path: Seq<char>)
    requires
        path_under(root, path) is Some,
    ensures
        path_under(root, path).unwrap().len() > 0,
        forall|k: int| 0 <= k < pieces(path_under(root, path).unwrap(), '/').len()
            ==> plain_name(#[trigger] pieces(path_under(root, path).unwrap(), '/')[k]),
{
    lemma_under_names(root, path);
    let names = components(path).skip(components(root).len() as int).map_values(
        |p: PartView| name_in(p),
    );
    assert forall|k: int| 0 <= k < names.len() implies !(#[trigger] names[k]).contains('/') by {
        assert(plain_name(names[k]));
    }
    lemma_join_split(names);
    let s = join_names(names);
    assert(path_under(root, path) == Some(s));
    if s.len() == 0 {
        assert(pieces(s, '/') =~= seq![Seq::<char>::empty()]);
        assert(plain_name(names[0]));
    }
}

/// `Path::join` of a relative path `rel` onto `root`: `rel` alone onto an empty root, else with
/// one `/` between them unless `root` already ends in one.
pub open spec fn joined(root: Seq<char>, rel: Seq<char>) -> Seq<char> {
    if root.len() == 0 {
        rel
    } else if root.last() == '/' {
        root + rel
    } else {
        root + seq!['/'] + rel
    }
}

/// Plain names after some pieces add one name component each.
proof fn lemma_parts_names(front: Seq<Seq<char>>, names: Seq<Seq<char>>, rooted: bool)
    requires
        forall|k: int| 0 <= k < names.len() ==> plain_name(#[trigger] names[k]),
    ensures
        parts_of(front + names, rooted) == parts_of(front, rooted) + names.map_values(
            |n: Seq<char>| PartView::Name(n),
        ),
    decreases names.len(),
{
    if names.len() == 0 {
        assert(front + names =~= front);
        assert(parts_of(front, rooted) + names.map_values(|n: Seq<char>| PartView::Name(n)) =~= parts_of(
            front,
            rooted,
        ));
    } else {
        let rest = names.drop_last();
        assert forall|k: int| 0 <= k < rest.len() implies plain_name(#[trigger] rest[k]) by {
            assert(rest[k] == names[k]);
        }
        lemma_parts_names(front, rest, rooted);
        let all = front + names;
        assert(all.drop_last() =~= front + rest);
        assert(all.last() == names.last());
        let n = names.last();
        assert(plain_name(names[names.len() - 1]));
        assert(part_of(n, all.len() - 1, rooted) == seq![PartView::Name(n)]);
        assert(names.map_values(|n: Seq<char>| PartView::Name(n)) =~= rest.map_values(
            |n: Seq<char>| PartView::Name(n),
        ).push(PartView::Name(n)));
        assert(parts_of(all, rooted) =~= parts_of(front, rooted) + names.map_values(
            |n: Seq<char>| PartView::Name(n),
        ));
    }
}

/// The components of plain names joined onto a folder: the folder's, then one name each.
proof fn lemma_joined_components(root: Seq<char>, names: Seq<Seq<char>>)
    requires
        names.len() >= 1,
        forall|k: int| 0 <= k < names.len() ==> plain_name(#[trigger] names[k]),
    ensures
        components(joined(root, join_names(names))) == components(root) + names.map_values(
            |n: Seq<char>| PartView::Name(n),
        ),
{
    let rel = join_names(names);
    let path = joined(root, rel);
    assert forall|k: int| 0 <= k < names.len() implies !(#[trigger] names[k]).contains('/') by {
        assert(plain_name(names[k]));
    }
    lemma_join_split(names);
    let tail = names.map_values(|n: Seq<char>| PartView::Name(n));
    let q = if root.len() > 0 && root.last() == '/' { root.drop_last() } else { root };
    if root.len() == 0 {
        assert(path == rel);
        assert(pieces(root, '/') =~= seq![Seq::<char>::empty()]);
        assert(names[0].len() > 0);
        assert(!is_rooted(path)) by {
            if is_rooted(path) {
                lemma_pieces_free(rel, '/');
                assert(rel.len() > 0);
                let p0 = pieces(rel, '/')[0];
                assert(p0 == names[0]);
                lemma_first_piece(rel, '/');
            }
        }
        lemma_parts_names(Seq::empty(), names, false);
        assert(Seq::<Seq<char>>::empty() + names =~= names);
        assert(seq![Seq::<char>::empty()].drop_last() =~= Seq::<Seq<char>>::empty());
        assert(components(root) =~= Seq::<PartView>::empty());
        assert(components(path) =~= tail);
    } else {
        if root.last() == '/' {
            assert(q + seq!['/'] =~= root);
            assert(path =~= q + seq!['/'] + rel);
        }
        lemma_pieces_concat(q, rel, '/');
        let pq = pieces(q, '/');
        assert(pieces(path, '/') == pq + names);
        let rooted = is_rooted(root);
        assert(is_rooted(path) == rooted) by {
            if q.len() > 0 {
                assert(path[0] == q[0]);
                assert(root[0] == q[0]);
            } else {
                assert(path[0] == '/');
                assert(root =~= seq!['/']);
            }
        }
        lemma_parts_names(pq, names, rooted);
        let lead: Seq<PartView> = if rooted { seq![PartView::Root] } else { seq![] };
        assert(components(path) == lead + parts_of(pq + names, rooted));
        assert(components(root) == lead + parts_of(pq, rooted)) by {
            if root.last() == '/' {
                assert(root.drop_last() == q);
                assert(pieces(root, '/') == pq.push(Seq::empty()));
                assert(pq.push(Seq::empty()).drop_last() =~= pq);
                assert(parts_of(pq.push(Seq::empty()), rooted) =~= parts_of(pq, rooted) + part_of(
                    Seq::empty(),
                    pq.len() as int,
                    rooted,
                ));
                assert(parts_of(pq.push(Seq::empty()), rooted) =~= parts_of(pq, rooted));
            }
        }
        assert(components(path) =~= components(root) + tail);
    }
}

/// A file's source path comes back from the path it names: plain names joined with `/`, put
/// under any folder with `Path::join`, give those names joined with `/` again.
pub proof fn source_path_round_trip(root: Seq<char>, names: Seq<Seq<char>>)
    requires
        names.len() >= 1,
        forall|k: int| 0 <= k < names.len() ==> plain_name(#[trigger] names[k]),
    ensures
        path_under(root, joined(root, join_names(names))) == Some(join_names(names)),
{
    lemma_joined_components(root, names);
    let path = joined(root, join_names(names));
    let tail = names.map_values(|n: Seq<char>| PartView::Name(n));
    let rc = components(root);
    let pc = components(path);
    assert(pc =~= rc + tail);
    assert(pc.take(rc.len() as int) =~= rc);
    assert(pc.skip(rc.len() as int) =~= tail);
    assert(tail.map_values(|p: PartView| name_in(p)) =~= names);
    assert forall|i: int| rc.len() <= i < pc.len() implies #[trigger] pc[i] is Name by {
        assert(pc[i] == tail[i - rc.len()]);
    }
}

/// A path that begins with the separator has an empty first piece.
proof fn lemma_first_piece(s: Seq<char>, sep: char)
    requires
        s.len() > 0,
        s[0] == sep,
    ensures
        pieces(s, sep)[0].len() == 0,
    decreases s.len(),
{
    let d = s.drop_last();
    if s.len() == 1 {
        assert(d =~= Seq::<char>::empty());
    } else {
        assert(d[0] == sep);
        lemma_first_piece(d, sep);
        lemma_piece_count(d, sep);
        let before = pieces(d, sep);
        if s.last() == sep {
            assert(pieces(s, sep)[0] == before[0]);
        } else {
            assert(pieces(s, sep)[0] == before[0]);
        }
    }
}

/// A path that holds the separator splits into at least two pieces.
proof fn lemma_piece_count(s: Seq<char>, sep: char)
    requires
        s.contains(sep),
    ensures
        pieces(s, sep).len() >= 2,
    decreases s.len(),
{
    crate::text::lemma_pieces_nonempty(s.drop_last(), sep);
    if s.last() != sep {
        let j = choose|j: int| 0 <= j < s.len() && s[j] == sep;
        assert(s.drop_last()[j] == sep);
        lemma_piece_count(s.drop_last(), sep);
    } else if s.len() > 1 {
        crate::text::lemma_pieces_nonempty(s.drop_last(), sep);
    }
}

/// A source path names the file it came from: joined back onto the folder with `Path::join`, it
/// is the same path as `Path` compares them, component by component.
pub proof fn source_path_names_the_file(root: Seq<char>, path: Seq<char>)
    requires
        path_under(root, path) is Some,
    ensures
        components(joined(root, path_under(root, path).unwrap())) == components(path),
{
    lemma_under_names(root, path);
    let rc = components(root);
    let pc = components(path);
    let names = pc.skip(rc.len() as int).map_values(|p: PartView| name_in(p));
    lemma_joined_components(root, names);
    let tail = names.map_values(|n: Seq<char>| PartView::Name(n));
    assert forall|i: int| 0 <= i < tail.len() implies #[trigger] tail[i] == pc.skip(rc.len() as int)[i] by {
        assert(pc[i + rc.len()] is Name);
    }
    assert(tail =~= pc.skip(rc.len() as int));
    assert(rc + tail =~= pc);
}

} // verus!

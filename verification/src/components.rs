//! The components of a slash-separated path, as `Path::components` yields
//! them on Unix: the root, a leading `.`, `..`, and names; empty and inner
//! `.` components are dropped.
use vstd::prelude::*;

use crate::order::{chars_lt, lemma_str_lt_order, str_lt};
use crate::text::{chars_equal, chars_of, copy_range, find_char, find_char_from, lemma_find_char};

verus! {

/// A path component.
pub enum Comp {
    Root,
    Cur,
    Parent,
    Normal(Seq<char>),
}

/// A path component, with the characters of a name.
pub enum PathComp {
    RootDir,
    CurDir,
    ParentDir,
    Normal(Vec<char>),
}

impl View for PathComp {
    type V = Comp;

    open spec fn view(&self) -> Comp {
        match self {
            PathComp::RootDir => Comp::Root,
            PathComp::CurDir => Comp::Cur,
            PathComp::ParentDir => Comp::Parent,
            PathComp::Normal(n) => Comp::Normal(n@),
        }
    }
}

pub open spec fn comp_views(s: Seq<PathComp>) -> Seq<Comp> {
    s.map_values(|c: PathComp| c@)
}

/// The pieces of `s` between slashes, from index `i` on.
pub open spec fn pieces_from(s: Seq<char>, i: int) -> Seq<Seq<char>>
    decreases s.len() - i,
{
    if i < 0 || i > s.len() {
        seq![]
    } else {
        let e = find_char(s, i, '/');
        if e >= s.len() || e < i {
            seq![s.subrange(i, s.len() as int)]
        } else {
            seq![s.subrange(i, e)] + pieces_from(s, e + 1)
        }
    }
}

/// The component a piece stands for, if any: empty pieces and `.` are
/// dropped, except a `.` that starts a relative path.
pub open spec fn piece_comp(p: Seq<char>, first: bool, rooted: bool) -> Option<Comp> {
    if p.len() == 0 {
        None
    } else if p =~= seq!['.'] {
        if first && !rooted {
            Some(Comp::Cur)
        } else {
            None
        }
    } else if p =~= seq!['.', '.'] {
        Some(Comp::Parent)
    } else {
        Some(Comp::Normal(p))
    }
}

/// The components of the pieces `ps`, the first of which opens the path.
pub open spec fn comps_of(ps: Seq<Seq<char>>, rooted: bool) -> Seq<Comp>
    decreases ps.len(),
{
    if ps.len() == 0 {
        seq![]
    } else {
        comps_of(ps.drop_last(), rooted) + match piece_comp(ps.last(), ps.len() == 1, rooted) {
            Some(c) => seq![c],
            None => seq![],
        }
    }
}

/// The components of the path `s`.
pub open spec fn components(s: Seq<char>) -> Seq<Comp> {
    let rooted = s.len() > 0 && s[0] == '/';
    (if rooted {
        seq![Comp::Root]
    } else {
        seq![]
    }) + comps_of(pieces_from(s, 0), rooted)
}

fn piece_comp_exec(p: Vec<char>, first: bool, rooted: bool) -> (r: Option<PathComp>)
    ensures
        match r {
            Some(c) => piece_comp(p@, first, rooted) == Some(c@),
            None => piece_comp(p@, first, rooted) is None,
        },
{
    if p.len() == 0 {
        None
    } else if p.len() == 1 && p[0] == '.' {
        proof {
            assert(p@ =~= seq!['.']);
        }
        if first && !rooted {
            Some(PathComp::CurDir)
        } else {
            None
        }
    } else if p.len() == 2 && p[0] == '.' && p[1] == '.' {
        proof {
            assert(p@ =~= seq!['.', '.']);
            assert(!(p@ =~= seq!['.']));
        }
        Some(PathComp::ParentDir)
    } else {
        proof {
            if p@ =~= seq!['.'] {
                assert(p@[0] == '.');
            }
            if p@ =~= seq!['.', '.'] {
                assert(p@[0] == '.' && p@[1] == '.');
            }
        }
        Some(PathComp::Normal(p))
    }
}

/// The components of the path `s`.
pub fn path_components(s: &Vec<char>) -> (r: Vec<PathComp>)
    ensures
        comp_views(r@) == components(s@),
{
    let n = s.len();
    let rooted = n > 0 && s[0] == '/';
    let mut r: Vec<PathComp> = Vec::new();
    if rooted {
        r.push(PathComp::RootDir);
    }
    let ghost head = comp_views(r@);
    proof {
        assert(head =~= if rooted {
            seq![Comp::Root]
        } else {
            seq![]
        });
    }
    let ghost all = pieces_from(s@, 0);
    let mut i: usize = 0;
    let mut count: usize = 0;
    // `count` pieces have been read; the rest are those from `i` on.
    proof {
        assert(all.take(0) =~= Seq::<Seq<char>>::empty());
        assert(comp_views(r@) =~= head + comps_of(all.take(0), rooted));
    }
    loop
        invariant
            n == s@.len(),
            i <= n,
            count <= i,
            all == pieces_from(s@, 0),
            head == (if rooted {
                seq![Comp::Root]
            } else {
                seq![]
            }),
            rooted == (s@.len() > 0 && s@[0] == '/'),
            count as int + pieces_from(s@, i as int).len() == all.len(),
            all.take(count as int) + pieces_from(s@, i as int) == all,
            comp_views(r@) == head + comps_of(all.take(count as int), rooted),
        decreases n - i + 1,
    {
        let e = find_char_from(s, i, '/');
        let piece = copy_range(s, i, e);
        proof {
            lemma_find_char(s@, i as int, '/');
            if e < n {
                assert(pieces_from(s@, i as int) == seq![piece@] + pieces_from(s@, e + 1));
            } else {
                assert(pieces_from(s@, i as int) == seq![piece@]);
            }
            assert(all[count as int] == piece@) by {
                assert((all.take(count as int) + pieces_from(s@, i as int))[count as int] == piece@);
            }
            assert(all.take(count + 1).drop_last() =~= all.take(count as int));
            assert(all.take(count + 1).last() == piece@);
        }
        let ghost before = comp_views(r@);
        match piece_comp_exec(piece, count == 0, rooted) {
            Some(c) => {
                r.push(c);
                proof {
                    assert(comp_views(r@) =~= before.push(c@));
                }
            },
            None => {},
        }
        proof {
            assert(comp_views(r@) =~= head + comps_of(all.take(count + 1), rooted));
        }
        if e >= n {
            proof {
                assert(count + 1 == all.len());
                assert(all.take(count + 1) =~= all);
            }
            return r;
        }
        proof {
            assert(all.take(count + 1) + pieces_from(s@, e + 1) =~= all);
        }
        i = e + 1;
        count = count + 1;
    }
}

// ---------------------------------------------------------------------------
// The order of paths
// ---------------------------------------------------------------------------

/// The place of a component's kind in the order of components: the root,
/// then `.`, then `..`, then names.
pub open spec fn comp_rank(c: Comp) -> int {
    match c {
        Comp::Root => 0,
        Comp::Cur => 1,
        Comp::Parent => 2,
        Comp::Normal(_) => 3,
    }
}

/// Component `a` sorts strictly before `b`: by kind, names by their text.
pub open spec fn comp_lt(a: Comp, b: Comp) -> bool {
    match (a, b) {
        (Comp::Normal(x), Comp::Normal(y)) => str_lt(x, y),
        _ => comp_rank(a) < comp_rank(b),
    }
}

/// Comparison of the component lists `a` and `b` from index `i` on,
/// component by component; a proper prefix comes first.
pub open spec fn comps_lt_from(a: Seq<Comp>, b: Seq<Comp>, i: int) -> bool
    decreases a.len() - i,
{
    if i < 0 {
        false
    } else if i >= a.len() {
        i < b.len()
    } else if i >= b.len() {
        false
    } else if a[i] != b[i] {
        comp_lt(a[i], b[i])
    } else {
        comps_lt_from(a, b, i + 1)
    }
}

/// The path `a` sorts strictly before the path `b`, as `Path` orders paths:
/// by their components.
pub open spec fn path_lt(a: Seq<char>, b: Seq<char>) -> bool {
    comps_lt_from(components(a), components(b), 0)
}

proof fn lemma_comp_lt_order()
    ensures
        forall|a: Comp| !#[trigger] comp_lt(a, a),
        forall|a: Comp, b: Comp, c: Comp|
            #![trigger comp_lt(a, b), comp_lt(b, c)]
            comp_lt(a, b) && comp_lt(b, c) ==> comp_lt(a, c),
{
    lemma_str_lt_order();
}

proof fn lemma_comps_lt_from_irreflexive(a: Seq<Comp>, i: int)
    requires
        i >= 0,
    ensures
        !comps_lt_from(a, a, i),
    decreases a.len() - i,
{
    if i < a.len() {
        lemma_comps_lt_from_irreflexive(a, i + 1);
    }
}

proof fn lemma_comps_lt_from_transitive(a: Seq<Comp>, b: Seq<Comp>, c: Seq<Comp>, i: int)
    requires
        i >= 0,
        comps_lt_from(a, b, i),
        comps_lt_from(b, c, i),
    ensures
        comps_lt_from(a, c, i),
    decreases a.len() - i,
{
    lemma_comp_lt_order();
    if i < a.len() && i < b.len() && i < c.len() {
        if a[i] == b[i] && b[i] == c[i] {
            lemma_comps_lt_from_transitive(a, b, c, i + 1);
        } else if a[i] == c[i] {
            assert(comp_lt(a[i], b[i]) && comp_lt(b[i], c[i]));
            assert(comp_lt(a[i], a[i]));
        }
    }
}

/// `path_lt` is a strict order.
pub proof fn lemma_path_lt_order()
    ensures
        forall|a: Seq<char>| !#[trigger] path_lt(a, a),
        forall|a: Seq<char>, b: Seq<char>, c: Seq<char>|
            #![trigger path_lt(a, b), path_lt(b, c)]
            path_lt(a, b) && path_lt(b, c) ==> path_lt(a, c),
{
    assert forall|a: Seq<char>| !#[trigger] path_lt(a, a) by {
        lemma_comps_lt_from_irreflexive(components(a), 0);
    }
    assert forall|a: Seq<char>, b: Seq<char>, c: Seq<char>|
        #![trigger path_lt(a, b), path_lt(b, c)]
        path_lt(a, b) && path_lt(b, c) implies path_lt(a, c) by {
        lemma_comps_lt_from_transitive(components(a), components(b), components(c), 0);
    }
}

fn comp_rank_exec(c: &PathComp) -> (r: u8)
    ensures
        r as int == comp_rank(c@),
{
    match c {
        PathComp::RootDir => 0,
        PathComp::CurDir => 1,
        PathComp::ParentDir => 2,
        PathComp::Normal(_) => 3,
    }
}

fn comp_eq(a: &PathComp, b: &PathComp) -> (r: bool)
    ensures
        r == (a@ == b@),
{
    match (a, b) {
        (PathComp::Normal(x), PathComp::Normal(y)) => chars_equal(x, y),
        _ => comp_rank_exec(a) == comp_rank_exec(b),
    }
}

fn comp_lt_exec(a: &PathComp, b: &PathComp) -> (r: bool)
    ensures
        r == comp_lt(a@, b@),
{
    match (a, b) {
        (PathComp::Normal(x), PathComp::Normal(y)) => chars_lt(x, y),
        _ => comp_rank_exec(a) < comp_rank_exec(b),
    }
}

/// The path `a` sorts strictly before the path `b` (`path_lt`).
pub fn path_before(a: &str, b: &str) -> (r: bool)
    ensures
        r == path_lt(a@, b@),
{
    let ca = path_components(&chars_of(a));
    let cb = path_components(&chars_of(b));
    let ghost va = comp_views(ca@);
    let ghost vb = comp_views(cb@);
    let mut i: usize = 0;
    while i < ca.len() && i < cb.len() && comp_eq(&ca[i], &cb[i])
        invariant
            i <= ca@.len(),
            i <= cb@.len(),
            va == comp_views(ca@),
            vb == comp_views(cb@),
            comps_lt_from(va, vb, 0) == comps_lt_from(va, vb, i as int),
        decreases ca@.len() - i,
    {
        i = i + 1;
    }
    if i >= ca.len() {
        i < cb.len()
    } else if i >= cb.len() {
        false
    } else {
        comp_lt_exec(&ca[i], &cb[i])
    }
}

} // verus!

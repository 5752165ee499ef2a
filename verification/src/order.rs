//! Orders used to sort report rows, and the facts about sorting that the
//! parsers and renderers rely on.
use vstd::prelude::*;
use vstd::multiset::Multiset;

verus! {

broadcast use vstd::seq_lib::group_to_multiset_ensures;

// ---------------------------------------------------------------------------
// Lexicographic order on character sequences
// ---------------------------------------------------------------------------

/// Comparison of `a` and `b` from index `i` on, character by character by
/// code point; a proper prefix comes first.  This is the order of `String`:
/// comparing UTF-8 bytes orders strings as comparing their code points does.
pub open spec fn lt_from(a: Seq<char>, b: Seq<char>, i: int) -> bool
    decreases a.len() - i,
{
    if i < 0 {
        false
    } else if i >= a.len() {
        i < b.len()
    } else if i >= b.len() {
        false
    } else if a[i] != b[i] {
        a[i] < b[i]
    } else {
        lt_from(a, b, i + 1)
    }
}

/// `a` sorts strictly before `b`.
pub open spec fn str_lt(a: Seq<char>, b: Seq<char>) -> bool {
    lt_from(a, b, 0)
}

pub proof fn lemma_lt_from_irreflexive(a: Seq<char>, i: int)
    requires
        i >= 0,
    ensures
        !lt_from(a, a, i),
    decreases a.len() - i,
{
    if i < a.len() {
        lemma_lt_from_irreflexive(a, i + 1);
    }
}

pub proof fn lemma_lt_from_transitive(a: Seq<char>, b: Seq<char>, c: Seq<char>, i: int)
    requires
        i >= 0,
        lt_from(a, b, i),
        lt_from(b, c, i),
    ensures
        lt_from(a, c, i),
    decreases a.len() - i,
{
    if i < a.len() && i < b.len() && i < c.len() && a[i] == b[i] && b[i] == c[i] {
        lemma_lt_from_transitive(a, b, c, i + 1);
    }
}

pub proof fn lemma_lt_from_asymmetric(a: Seq<char>, b: Seq<char>, i: int)
    requires
        i >= 0,
        lt_from(a, b, i),
    ensures
        !lt_from(b, a, i),
    decreases a.len() - i,
{
    if i < a.len() && i < b.len() && a[i] == b[i] {
        lemma_lt_from_asymmetric(a, b, i + 1);
    }
}

pub proof fn lemma_str_lt_order()
    ensures
        forall|a: Seq<char>| !str_lt(a, a),
        forall|a: Seq<char>, b: Seq<char>, c: Seq<char>|
            #![trigger str_lt(a, b), str_lt(b, c)]
            str_lt(a, b) && str_lt(b, c) ==> str_lt(a, c),
        forall|a: Seq<char>, b: Seq<char>| #[trigger] str_lt(a, b) ==> !str_lt(b, a),
{
    assert forall|a: Seq<char>| !str_lt(a, a) by {
        lemma_lt_from_irreflexive(a, 0);
    }
    assert forall|a: Seq<char>, b: Seq<char>, c: Seq<char>|
        #![trigger str_lt(a, b), str_lt(b, c)]
        str_lt(a, b) && str_lt(b, c) implies str_lt(a, c) by {
        lemma_lt_from_transitive(a, b, c, 0);
    }
    assert forall|a: Seq<char>, b: Seq<char>| #[trigger] str_lt(a, b) implies !str_lt(b, a) by {
        lemma_lt_from_asymmetric(a, b, 0);
    }
}

pub proof fn lemma_lt_from_total(a: Seq<char>, b: Seq<char>, i: int)
    requires
        0 <= i <= a.len(),
        i <= b.len(),
        a.subrange(0, i) == b.subrange(0, i),
    ensures
        a == b || lt_from(a, b, i) || lt_from(b, a, i),
    decreases a.len() - i,
{
    if i == a.len() && i == b.len() {
        assert(a =~= a.subrange(0, i));
        assert(b =~= b.subrange(0, i));
        assert(a == b);
    } else if i < a.len() && i < b.len() && a[i] == b[i] {
        assert(a.subrange(0, i + 1) =~= a.subrange(0, i).push(a[i]));
        assert(b.subrange(0, i + 1) =~= b.subrange(0, i).push(b[i]));
        lemma_lt_from_total(a, b, i + 1);
    } else if i < a.len() && i < b.len() {
        assert(a[i] != b[i]);
        if a[i] < b[i] {
            assert(lt_from(a, b, i));
        } else {
            assert(lt_from(b, a, i));
        }
    } else if i == a.len() {
        assert(lt_from(a, b, i));
    } else {
        assert(lt_from(b, a, i));
    }
}

/// Two different sequences are ordered one way or the other.
pub proof fn lemma_str_lt_total(a: Seq<char>, b: Seq<char>)
    ensures
        a == b || str_lt(a, b) || str_lt(b, a),
{
    assert(a.subrange(0, 0) =~= b.subrange(0, 0));
    lemma_lt_from_total(a, b, 0);
}

/// `a` sorts strictly before `b`.
pub fn chars_lt(a: &Vec<char>, b: &Vec<char>) -> (r: bool)
    ensures
        r == str_lt(a@, b@),
{
    let mut i: usize = 0;
    while i < a.len() && i < b.len() && a[i] == b[i]
        invariant
            i <= a@.len(),
            i <= b@.len(),
            lt_from(a@, b@, 0) == lt_from(a@, b@, i as int),
        decreases a@.len() - i,
    {
        i = i + 1;
    }
    if i >= a.len() {
        i < b.len()
    } else if i >= b.len() {
        false
    } else {
        a[i] < b[i]
    }
}

/// The string `a` sorts strictly before the string `b`.
pub fn string_lt(a: &str, b: &str) -> (r: bool)
    ensures
        r == str_lt(a@, b@),
{
    let av = crate::text::chars_of(a);
    let bv = crate::text::chars_of(b);
    chars_lt(&av, &bv)
}

// ---------------------------------------------------------------------------
// Sorting
// ---------------------------------------------------------------------------

/// `lt` is a strict order: irreflexive and transitive.
pub open spec fn strict_order<A>(lt: spec_fn(A, A) -> bool) -> bool {
    &&& forall|a: A| !#[trigger] lt(a, a)
    &&& forall|a: A, b: A, c: A| #![trigger lt(a, b), lt(b, c)] lt(a, b) && lt(b, c) ==> lt(a, c)
}

/// No element of `s` sorts strictly before an element that precedes it.
pub open spec fn in_order<A>(s: Seq<A>, lt: spec_fn(A, A) -> bool) -> bool {
    forall|i: int, j: int| 0 <= i < j < s.len() ==> !lt(#[trigger] s[j], #[trigger] s[i])
}

/// `t` holds the elements of `s` in an order that `lt` accepts.
pub open spec fn sorted_version<A>(s: Seq<A>, t: Seq<A>, lt: spec_fn(A, A) -> bool) -> bool {
    &&& in_order(t, lt)
    &&& t.to_multiset() == s.to_multiset()
}

/// Where a stable insertion puts `x` in `s`, scanning from `k`: after every
/// element that `x` does not sort before.
pub open spec fn insert_pos<A>(s: Seq<A>, x: A, lt: spec_fn(A, A) -> bool, k: int) -> int
    decreases s.len() - k,
{
    if 0 <= k < s.len() && !lt(x, s[k]) {
        insert_pos(s, x, lt, k + 1)
    } else {
        k
    }
}

pub proof fn lemma_insert_pos<A>(s: Seq<A>, x: A, lt: spec_fn(A, A) -> bool, k: int)
    requires
        0 <= k <= s.len(),
    ensures
        k <= insert_pos(s, x, lt, k) <= s.len(),
        forall|m: int| k <= m < insert_pos(s, x, lt, k) ==> !lt(x, #[trigger] s[m]),
        insert_pos(s, x, lt, k) < s.len() ==> lt(x, s[insert_pos(s, x, lt, k)]),
    decreases s.len() - k,
{
    if k < s.len() && !lt(x, s[k]) {
        lemma_insert_pos(s, x, lt, k + 1);
    }
}

/// `s` with `x` inserted by a stable insertion.
pub open spec fn insert_sorted<A>(s: Seq<A>, x: A, lt: spec_fn(A, A) -> bool) -> Seq<A> {
    s.insert(insert_pos(s, x, lt, 0), x)
}

/// Stable insertion sort of `s`.
pub open spec fn sort_seq<A>(s: Seq<A>, lt: spec_fn(A, A) -> bool) -> Seq<A>
    decreases s.len(),
{
    if s.len() == 0 {
        s
    } else {
        insert_sorted(sort_seq(s.drop_last(), lt), s.last(), lt)
    }
}

pub proof fn lemma_insert_sorted<A>(s: Seq<A>, x: A, lt: spec_fn(A, A) -> bool)
    requires
        strict_order(lt),
        in_order(s, lt),
    ensures
        in_order(insert_sorted(s, x, lt), lt),
        insert_sorted(s, x, lt).to_multiset() == s.to_multiset().insert(x),
        insert_sorted(s, x, lt).len() == s.len() + 1,
{
    lemma_insert_pos(s, x, lt, 0);
    let p = insert_pos(s, x, lt, 0);
    let t = s.insert(p, x);
    assert forall|i: int, j: int| 0 <= i < j < t.len() implies !lt(#[trigger] t[j], #[trigger] t[i]) by {
        if j < p {
            assert(t[i] == s[i] && t[j] == s[j]);
        } else if j == p {
            assert(t[i] == s[i]);
        } else if i == p {
            assert(t[j] == s[j - 1]);
            if lt(s[j - 1], x) {
                assert(lt(x, s[p]));
                if j - 1 == p {
                } else {
                    assert(!lt(s[j - 1], s[p]));
                }
            }
        } else if i < p {
            assert(t[i] == s[i] && t[j] == s[j - 1]);
        } else {
            assert(t[i] == s[i - 1] && t[j] == s[j - 1]);
        }
    }
    vstd::seq_lib::to_multiset_insert(s, p, x);
}

/// Stable insertion sort puts the elements of `s` in order and keeps them all.
pub proof fn lemma_sort_seq<A>(s: Seq<A>, lt: spec_fn(A, A) -> bool)
    requires
        strict_order(lt),
    ensures
        sorted_version(s, sort_seq(s, lt), lt),
        sort_seq(s, lt).len() == s.len(),
    decreases s.len(),
{
    if s.len() == 0 {
        assert(s.to_multiset() =~= Multiset::<A>::empty());
    } else {
        lemma_sort_seq(s.drop_last(), lt);
        lemma_insert_sorted(sort_seq(s.drop_last(), lt), s.last(), lt);
        vstd::seq_lib::to_multiset_build(s.drop_last(), s.last());
        assert(s.drop_last().push(s.last()) =~= s);
    }
}

/// A stable sort of `s` that goes from the front: sorting the first `k + 1`
/// elements inserts element `k` into the sorted first `k`.
pub proof fn lemma_sort_seq_step<A>(s: Seq<A>, k: int, lt: spec_fn(A, A) -> bool)
    requires
        0 <= k < s.len(),
    ensures
        sort_seq(s.take(k + 1), lt) == insert_sorted(sort_seq(s.take(k), lt), s[k], lt),
{
    assert(s.take(k + 1).drop_last() =~= s.take(k));
}

} // verus!

//! Quoting strings the way `{:?}` prints them, for messages.
use vstd::prelude::*;

use crate::mapping::{join, strs};
use crate::text::push_str;

verus! {

/// What the `Debug` formatting of `str` prints for `s`: the text in double
/// quotes, with quotes, backslashes and non-printable characters escaped.
pub uninterp spec fn debug_str(s: Seq<char>) -> Seq<char>;

/// `format!("{:?}", s)` on a `str`.  Claimed: the result is a function of
/// `s` alone, named `debug_str`.
#[verifier::external_body]
pub(crate) fn debug_quote(s: &str) -> (r: String)
    ensures
        r@ == debug_str(s@),
{
    format!("{:?}", s)
}

/// The quoted forms of `items`, in order.
pub open spec fn debug_items(items: Seq<Seq<char>>) -> Seq<Seq<char>> {
    items.map_values(|s: Seq<char>| debug_str(s))
}

/// What `{:?}` prints for a list of strings: `[`, the quoted strings
/// separated by `, `, `]`.
pub open spec fn debug_list(items: Seq<Seq<char>>) -> Seq<char> {
    "["@ + join(debug_items(items), ", "@) + "]"@
}

/// Appends the `{:?}` form of the list `items`.
pub fn push_debug_list(out: &mut String, items: &Vec<String>)
    ensures
        final(out)@ == old(out)@ + debug_list(strs(items@)),
{
    let ghost qs = debug_items(strs(items@));
    push_str(out, "[");
    let ghost start = out@;
    let mut i: usize = 0;
    while i < items.len()
        invariant
            i <= items@.len(),
            qs == debug_items(strs(items@)),
            out@ == start + join(qs.take(i as int), ", "@),
        decreases items@.len() - i,
    {
        if i > 0 {
            push_str(out, ", ");
        }
        let q = debug_quote(items[i].as_str());
        push_str(out, q.as_str());
        proof {
            assert(qs.take(i + 1).drop_last() =~= qs.take(i as int));
            assert(qs[i as int] == q@);
            if i == 0 {
                assert(qs.take(1).len() == 1);
                assert(join(qs.take(1), ", "@) == qs.take(1)[0]);
                assert(join(qs.take(0), ", "@) == Seq::<char>::empty());
                assert(out@ =~= start + join(qs.take(1), ", "@));
            }
        }
        i = i + 1;
    }
    proof {
        assert(qs.take(items@.len() as int) =~= qs);
    }
    push_str(out, "]");
    proof {
        assert(out@ =~= old(out)@ + debug_list(strs(items@)));
    }
}

} // verus!

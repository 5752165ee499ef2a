//! Output of test commands.
use vstd::prelude::*;

use crate::mapping::join;
use crate::text::{chars_of, lines, push_chars, push_str, split_lines};

verus! {

/// How many lines of a command's output are kept.
pub const OUTPUT_TAIL_LINES: usize = 40;

/// The last `n` lines of `s` joined by line feeds, or `s` itself when it
/// has no more than `n` lines.
pub open spec fn tail_text(s: Seq<char>, n: nat) -> Seq<char> {
    let ls = lines(s);
    if ls.len() <= n {
        s
    } else {
        join(ls.skip(ls.len() - n), "\n"@)
    }
}

/// The last `n` lines of `s`.
pub fn tail_lines(s: &str, n: usize) -> (r: String)
    ensures
        r@ == tail_text(s@, n as nat),
{
    let chars = chars_of(s);
    let ls = split_lines(&chars);
    let ghost lv = ls.deep_view();
    if ls.len() <= n {
        return s.to_owned();
    }
    let start = ls.len() - n;
    let ghost tail = lv.skip(start as int);
    let mut out = String::new();
    let mut i = start;
    while i < ls.len()
        invariant
            start <= i <= ls@.len(),
            lv == ls.deep_view(),
            tail == lv.skip(start as int),
            out@ == join(tail.take(i - start), "\n"@),
        decreases ls@.len() - i,
    {
        if i > start {
            push_str(&mut out, "\n");
        }
        push_chars(&mut out, &ls[i]);
        proof {
            assert(ls@[i as int]@ =~= lv[i as int]);
            assert(tail.take(i + 1 - start).drop_last() =~= tail.take(i - start));
            assert(tail.take(i + 1 - start).last() == lv[i as int]);
            if i == start {
                assert(join(tail.take(1), "\n"@) == tail.take(1)[0]);
                assert(out@ =~= join(tail.take(1), "\n"@));
            }
        }
        i = i + 1;
    }
    proof {
        assert(tail.take(ls@.len() - start) =~= tail);
    }
    out
}

} // verus!

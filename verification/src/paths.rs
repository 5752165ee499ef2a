//! Slash-separated paths: the parent of a path and the joining of two paths,
//! with the meaning `std::path::Path` gives them on Unix, stated over the
//! characters of the path.
use vstd::prelude::*;

use crate::text::{chars_of, copy_range, string_of};

verus! {

/// The path is absolute.
pub open spec fn has_root(s: Seq<char>) -> bool {
    s.len() > 0 && s[0] == '/'
}

/// The path starts with a `.` component, which is kept (`./x`, `.`).
pub open spec fn starts_with_cur_dir(s: Seq<char>) -> bool {
    !has_root(s) && s.len() >= 1 && s[0] == '.' && (s.len() == 1 || s[1] == '/')
}

/// Where the components after the root or the leading `.` begin.
pub open spec fn body_start(s: Seq<char>) -> int {
    if has_root(s) || starts_with_cur_dir(s) {
        1
    } else {
        0
    }
}

/// The index of the last `/` in `s` between `lo` and `end`, or `lo - 1`.
pub open spec fn rfind_sep(s: Seq<char>, lo: int, end: int) -> int
    decreases end - lo,
{
    if end <= lo {
        lo - 1
    } else if s[end - 1] == '/' {
        end - 1
    } else {
        rfind_sep(s, lo, end - 1)
    }
}

pub proof fn lemma_rfind_sep(s: Seq<char>, lo: int, end: int)
    requires
        0 <= lo <= end <= s.len(),
    ensures
        lo - 1 <= rfind_sep(s, lo, end) < end,
        rfind_sep(s, lo, end) >= lo ==> s[rfind_sep(s, lo, end)] == '/',
    decreases end - lo,
{
    if end > lo && s[end - 1] != '/' {
        lemma_rfind_sep(s, lo, end - 1);
    }
}

/// A component that path parsing skips: empty (a repeated or trailing `/`)
/// or `.` after the start.
pub open spec fn skipped_component(c: Seq<char>) -> bool {
    c.len() == 0 || c =~= seq!['.']
}

/// Where the prefix of `s` ending at `end` ends once components that are
/// skipped are taken off its back, not going below `lo`.
pub open spec fn trim_back(s: Seq<char>, lo: int, end: int) -> int
    decreases end - lo,
{
    if end <= lo {
        end
    } else {
        let k = rfind_sep(s, lo, end);
        if k < lo - 1 || k >= end {
            end
        } else if skipped_component(s.subrange(k + 1, end)) {
            trim_back(s, lo, if k >= lo { k } else { lo })
        } else {
            end
        }
    }
}

pub proof fn lemma_trim_back(s: Seq<char>, lo: int, end: int)
    requires
        0 <= lo <= end <= s.len(),
    ensures
        lo <= trim_back(s, lo, end) <= end,
    decreases end - lo,
{
    if end > lo {
        lemma_rfind_sep(s, lo, end);
        let k = rfind_sep(s, lo, end);
        if skipped_component(s.subrange(k + 1, end)) {
            lemma_trim_back(s, lo, if k >= lo { k } else { lo });
        }
    }
}

/// The parent of a path (`Path::parent`): the path without its last
/// component and the separators and `.` components before it; `""` for a
/// single relative component; none for the root and the empty path.
pub open spec fn path_parent(s: Seq<char>) -> Option<Seq<char>> {
    let lo = body_start(s);
    let e1 = trim_back(s, lo, s.len() as int);
    if e1 > lo {
        let k = rfind_sep(s, lo, e1);
        let e2 = if k >= lo { k } else { lo };
        Some(s.subrange(0, trim_back(s, lo, e2)))
    } else if starts_with_cur_dir(s) {
        Some(seq![])
    } else {
        None
    }
}

/// `rel` pushed onto `base` (`Path::join`): an absolute `rel` replaces
/// `base`; otherwise a `/` goes between them unless `base` is empty or
/// already ends with one.
pub open spec fn path_join(base: Seq<char>, rel: Seq<char>) -> Seq<char> {
    if has_root(rel) {
        rel
    } else if base.len() > 0 && base.last() != '/' {
        base + seq!['/'] + rel
    } else {
        base + rel
    }
}

/// Where the last component before `end` starts: one past the last `/`
/// between `lo` and `end`, or `lo`.
fn component_start(s: &Vec<char>, lo: usize, end: usize) -> (r: usize)
    requires
        lo <= end <= s@.len(),
    ensures
        r == rfind_sep(s@, lo as int, end as int) + 1,
{
    proof {
        lemma_rfind_sep(s@, lo as int, end as int);
    }
    let mut e = end;
    while e > lo
        invariant
            lo <= e <= end <= s@.len(),
            rfind_sep(s@, lo as int, end as int) == rfind_sep(s@, lo as int, e as int),
        decreases e,
    {
        if s[e - 1] == '/' {
            return e;
        }
        e = e - 1;
    }
    lo
}

fn trim_back_exec(s: &Vec<char>, lo: usize, end: usize) -> (r: usize)
    requires
        lo <= end <= s@.len(),
    ensures
        r == trim_back(s@, lo as int, end as int),
        lo <= r <= end,
{
    proof {
        lemma_trim_back(s@, lo as int, end as int);
    }
    let mut e = end;
    while e > lo
        invariant
            lo <= e <= end <= s@.len(),
            trim_back(s@, lo as int, end as int) == trim_back(s@, lo as int, e as int),
        decreases e,
    {
        let start = component_start(s, lo, e);
        proof {
            lemma_rfind_sep(s@, lo as int, e as int);
        }
        let ghost k = start - 1;
        let skipped = start == e || (start + 1 == e && s[start] == '.');
        proof {
            let c = s@.subrange(k + 1, e as int);
            if start + 1 == e && s@[start as int] == '.' {
                assert(c =~= seq!['.']);
            }
            if skipped_component(c) && c.len() == 1 {
                assert(c[0] == '.');
            }
        }
        if !skipped {
            return e;
        }
        e = if start > lo { start - 1 } else { lo };
    }
    e
}

/// The parent of the path `s`.
pub fn parent_of(s: &Vec<char>) -> (r: Option<Vec<char>>)
    ensures
        match r {
            Some(p) => path_parent(s@) == Some(p@),
            None => path_parent(s@) is None,
        },
{
    let n = s.len();
    let has_root = n > 0 && s[0] == '/';
    let cur = !has_root && n >= 1 && s[0] == '.' && (n == 1 || s[1] == '/');
    let lo: usize = if has_root || cur { 1 } else { 0 };
    let e1 = trim_back_exec(s, lo, n);
    if e1 > lo {
        let start = component_start(s, lo, e1);
        proof {
            lemma_rfind_sep(s@, lo as int, e1 as int);
        }
        let e2: usize = if start > lo { start - 1 } else { lo };
        let e3 = trim_back_exec(s, lo, e2);
        Some(copy_range(s, 0, e3))
    } else if cur {
        Some(Vec::new())
    } else {
        None
    }
}

/// `rel` joined onto `base`.
pub fn join_paths(base: &Vec<char>, rel: &Vec<char>) -> (r: Vec<char>)
    ensures
        r@ == path_join(base@, rel@),
{
    if rel.len() > 0 && rel[0] == '/' {
        return copy_range(rel, 0, rel.len());
    }
    let mut r = copy_range(base, 0, base.len());
    if base.len() > 0 && base[base.len() - 1] != '/' {
        r.push('/');
    }
    let mut k: usize = 0;
    let ghost start = r@;
    while k < rel.len()
        invariant
            k <= rel@.len(),
            r@ == start + rel@.subrange(0, k as int),
        decreases rel@.len() - k,
    {
        r.push(rel[k]);
        k = k + 1;
        proof {
            assert(r@ =~= start + rel@.subrange(0, k as int));
        }
    }
    proof {
        assert(rel@.subrange(0, rel@.len() as int) =~= rel@);
        assert(base@.subrange(0, base@.len() as int) =~= base@);
    }
    r
}

/// Where a report is written: the path given, or else `default_file_name`
/// beside the interface report (in `.` when the report path has no parent).
pub open spec fn output_path(report_path: Seq<char>, output: Option<Seq<char>>, default_file_name: Seq<char>) -> Seq<char> {
    match output {
        Some(p) => p,
        None => path_join(
            match path_parent(report_path) {
                Some(d) => d,
                None => seq!['.'],
            },
            default_file_name,
        ),
    }
}

/// The output path of the `map` command.
pub fn resolve_output_path(report_path: &str, output: Option<String>, default_file_name: &str) -> (r: String)
    ensures
        r@ == output_path(
            report_path@,
            match output {
                Some(p) => Some(p@),
                None => None,
            },
            default_file_name@,
        ),
{
    match output {
        Some(p) => p,
        None => {
            let rp = chars_of(report_path);
            let dir = match parent_of(&rp) {
                Some(d) => d,
                None => {
                    let mut dot: Vec<char> = Vec::new();
                    dot.push('.');
                    proof {
                        assert(dot@ =~= seq!['.']);
                    }
                    dot
                },
            };
            let name = chars_of(default_file_name);
            let joined = join_paths(&dir, &name);
            string_of(&joined)
        },
    }
}

/// The output path of the `discover` command: the path given, or
/// `default_file_name` itself.
pub fn resolve_output_path_direct(output: Option<String>, default_file_name: &str) -> (r: String)
    ensures
        r@ == match output {
            Some(p) => p@,
            None => default_file_name@,
        },
{
    match output {
        Some(p) => p,
        None => default_file_name.to_owned(),
    }
}

} // verus!

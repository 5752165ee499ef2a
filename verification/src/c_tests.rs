//! Discovery of C test functions in C sources, and the discovery report.
//!
//! A test function is a definition that starts a line with `void` or `int`,
//! whitespace, a name that starts with `test_` and continues with ASCII
//! letters, digits and underscores, optional whitespace and `(`.  Its body is
//! the text from the first `{` after the header to the `}` that balances it.
use vstd::prelude::*;

use crate::order::{
    insert_pos, insert_sorted, lemma_insert_pos, lemma_sort_seq, lemma_sort_seq_step, lemma_str_lt_order,
    sort_seq, sorted_version, str_lt, strict_order, string_lt,
};
use crate::components::{lemma_path_lt_order, path_before, path_lt};
use crate::text::{
    chars_equal, chars_of, copy_range, decimal, find_char, find_char_from, lemma_find_char, matches_at, occurs_at, push_decimal, push_str, skip_ws, string_of, ws_end,
};

verus! {

/// A C source file: its path as it is to be shown, and its text.
pub struct SourceFile {
    pub path: String,
    pub content: String,
}

/// A discovered C test function.
#[derive(Debug, Clone, PartialEq, Eq)]
pub struct CTestCase {
    pub name: String,
    pub file: String,
    pub body: String,
}

/// What a test case holds, as values.
pub struct TestRow {
    pub name: Seq<char>,
    pub file: Seq<char>,
    pub body: Seq<char>,
}

impl View for CTestCase {
    type V = TestRow;

    open spec fn view(&self) -> TestRow {
        TestRow { name: self.name@, file: self.file@, body: self.body@ }
    }
}

impl CTestCase {
    /// A copy of this test case.
    pub fn duplicate(&self) -> (r: CTestCase)
        ensures
            r@ == self@,
    {
        CTestCase { name: self.name.clone(), file: self.file.clone(), body: self.body.clone() }
    }
}

pub open spec fn test_rows(s: Seq<CTestCase>) -> Seq<TestRow> {
    s.map_values(|t: CTestCase| t@)
}

// ---------------------------------------------------------------------------
// Function bodies
// ---------------------------------------------------------------------------

/// The change of brace depth at one character.
pub open spec fn brace_delta(c: char) -> int {
    if c == '{' {
        1
    } else if c == '}' {
        -1
    } else {
        0
    }
}

/// Opening minus closing braces in `s` from `a` up to `k`.
pub open spec fn balance(s: Seq<char>, a: int, k: int) -> int
    decreases k - a,
{
    if k <= a {
        0
    } else {
        balance(s, a, k - 1) + brace_delta(s[k - 1])
    }
}

/// The first index at or after `k` whose character brings the braces from
/// `a` on back into balance, or the length of `s`.
pub open spec fn closing_from(s: Seq<char>, a: int, k: int) -> int
    decreases s.len() - k,
{
    if k < 0 || k >= s.len() {
        s.len() as int
    } else if balance(s, a, k + 1) == 0 {
        k
    } else {
        closing_from(s, a, k + 1)
    }
}

/// The body of the function whose header ends where `s` starts: from the
/// first `{` through the `}` that closes it, or to the end of `s` when it is
/// never closed; empty when `s` holds no `{`.
pub open spec fn function_body(s: Seq<char>) -> Seq<char> {
    let a = find_char(s, 0, '{');
    if a >= s.len() {
        seq![]
    } else {
        let b = closing_from(s, a, a);
        if b < s.len() {
            s.subrange(a, b + 1)
        } else {
            s.subrange(a, s.len() as int)
        }
    }
}

pub proof fn lemma_closing_from(s: Seq<char>, a: int, k: int)
    requires
        0 <= a <= k <= s.len(),
    ensures
        k <= closing_from(s, a, k) <= s.len(),
    decreases s.len() - k,
{
    if k < s.len() && balance(s, a, k + 1) != 0 {
        lemma_closing_from(s, a, k + 1);
    }
}

/// The body of the function whose header ends where `src` starts.
pub fn extract_function_body(src: &Vec<char>) -> (body: Vec<char>)
    ensures
        body@ == function_body(src@),
{
    let n = src.len();
    let a = find_char_from(src, 0, '{');
    if a >= n {
        return Vec::new();
    }
    proof {
        lemma_find_char(src@, 0, '{');
        lemma_closing_from(src@, a as int, a as int);
    }
    let mut depth: usize = 0;
    let mut k = a;
    while k < n
        invariant
            n == src@.len(),
            a <= k <= n,
            src@[a as int] == '{',
            a == find_char(src@, 0, '{'),
            depth as int == balance(src@, a as int, k as int),
            k > a ==> depth >= 1,
            depth <= k - a,
            closing_from(src@, a as int, a as int) == closing_from(src@, a as int, k as int),
        decreases n - k,
    {
        let c = src[k];
        if c == '{' {
            depth = depth + 1;
        } else if c == '}' {
            depth = depth - 1;
        }
        proof {
            assert(balance(src@, a as int, k + 1) == depth as int);
        }
        if depth == 0 {
            proof {
                assert(closing_from(src@, a as int, k as int) == k);
                assert(closing_from(src@, a as int, a as int) == k);
                assert(find_char(src@, 0, '{') == a);
                assert(function_body(src@) == src@.subrange(a as int, k + 1));
            }
            return copy_range(src, a, k + 1);
        }
        k = k + 1;
    }
    copy_range(src, a, n)
}

// ---------------------------------------------------------------------------
// Test function headers
// ---------------------------------------------------------------------------

pub open spec fn is_name_char(c: char) -> bool {
    ('A' <= c <= 'Z') || ('a' <= c <= 'z') || ('0' <= c <= '9') || c == '_'
}

/// The first index at or after `i` that does not hold a name character.
pub open spec fn name_end(s: Seq<char>, i: int) -> int
    decreases s.len() - i,
{
    if 0 <= i < s.len() && is_name_char(s[i]) {
        name_end(s, i + 1)
    } else {
        i
    }
}

pub proof fn lemma_name_end(s: Seq<char>, i: int)
    requires
        0 <= i <= s.len(),
    ensures
        i <= name_end(s, i) <= s.len(),
    decreases s.len() - i,
{
    if i < s.len() && is_name_char(s[i]) {
        lemma_name_end(s, i + 1);
    }
}

/// `p` starts a line of `c`.
pub open spec fn line_start(c: Seq<char>, p: int) -> bool {
    p == 0 || (0 < p <= c.len() && c[p - 1] == '\n')
}

/// The test function header that starts at `p`, if there is one: the test
/// name and the index just after its `(`.
pub open spec fn header_at(c: Seq<char>, p: int) -> Option<(Seq<char>, int)> {
    let kw = if occurs_at(c, "void"@, p) {
        4int
    } else if occurs_at(c, "int"@, p) {
        3int
    } else {
        0int
    };
    let a = p + kw;
    let b = ws_end(c, a);
    let d = name_end(c, b + 5);
    let e = ws_end(c, d);
    if kw > 0 && b > a && occurs_at(c, "test_"@, b) && d > b + 5 && e < c.len() && c[e] == '(' {
        Some((c.subrange(b, d), e + 1))
    } else {
        None
    }
}

/// The test functions of `c` whose headers start at or after `from`, each
/// found at the first line start where a header begins and the search going
/// on after its `(`.
pub open spec fn tests_from(path: Seq<char>, c: Seq<char>, from: int) -> Seq<TestRow>
    decreases c.len() - from,
{
    if from < 0 || from >= c.len() {
        seq![]
    } else if line_start(c, from) && header_at(c, from) is Some {
        let (name, end) = header_at(c, from).unwrap();
        if end <= from {
            seq![]
        } else {
            seq![TestRow { name, file: path, body: function_body(c.subrange(end, c.len() as int)) }]
                + tests_from(path, c, end)
        }
    } else {
        tests_from(path, c, from + 1)
    }
}

/// The test functions of one source file, in the order they appear.
pub open spec fn file_tests(path: Seq<char>, c: Seq<char>) -> Seq<TestRow> {
    tests_from(path, c, 0)
}

proof fn lemma_name_run(c: Seq<char>, i: int, j: int)
    requires
        0 <= i <= j < c.len(),
        forall|k: int| i <= k < j ==> is_name_char(#[trigger] c[k]),
        !is_name_char(c[j]),
    ensures
        name_end(c, i) == j,
    decreases j - i,
{
    if i < j {
        lemma_name_run(c, i + 1, j);
    }
}

proof fn lemma_no_more_tests(path: Seq<char>, c: Seq<char>, from: int)
    requires
        0 < from,
        forall|k: int| from - 1 <= k < c.len() - 1 ==> #[trigger] c[k] != '\n',
    ensures
        tests_from(path, c, from) == Seq::<TestRow>::empty(),
    decreases c.len() - from,
{
    if from < c.len() {
        assert(c[from - 1] != '\n');
        assert(!line_start(c, from));
        lemma_no_more_tests(path, c, from + 1);
    }
}

/// A header `void test_NAME(void) {}` is found whatever ASCII letters,
/// digits and underscores the name continues with: the file
/// `void test_<s>(void) {}` followed by a line feed holds exactly one test,
/// named `test_<s>`, with the body `{}`.
pub proof fn lemma_test_header_names(path: Seq<char>, s: Seq<char>)
    requires
        s.len() > 0,
        forall|k: int|
            0 <= k < s.len() ==> ('A' <= #[trigger] s[k] <= 'Z') || ('a' <= s[k] <= 'z') || ('0' <= s[k]
                <= '9') || s[k] == '_',
    ensures
        file_tests(path, "void "@ + "test_"@ + s + "(void) {}\n"@) == seq![
            TestRow { name: "test_"@ + s, file: path, body: "{}"@ },
        ],
        sort_seq(all_tests(seq![(path, "void "@ + "test_"@ + s + "(void) {}\n"@)]), test_order()) == seq![
            TestRow { name: "test_"@ + s, file: path, body: "{}"@ },
        ],
{
    reveal_strlit("void ");
    reveal_strlit("test_");
    reveal_strlit("(void) {}\n");
    reveal_strlit("{}");
    reveal_strlit("void");
    reveal_strlit("int");
    let rest = "(void) {}\n"@;
    let c = "void "@ + "test_"@ + s + rest;
    let n: int = s.len() as int;
    let d: int = 10 + n;
    assert(c.len() == d + 10);
    assert forall|k: int| 0 <= k < n implies c[10 + k] == s[k] by {}
    assert forall|k: int| 0 <= k < 10 implies c[d + k] == rest[k] by {}
    // The keyword, the space and the `test_` prefix.
    assert(c.subrange(0, 4) =~= "void"@);
    assert(occurs_at(c, "void"@, 0));
    assert(c[4] == ' ' && c[5] == 't');
    assert(ws_end(c, 5) == 5);
    assert(ws_end(c, 4) == 5);
    assert(c.subrange(5, 10) =~= "test_"@);
    assert(occurs_at(c, "test_"@, 5));
    // The name runs up to the `(`.
    assert forall|k: int| 10 <= k < d implies is_name_char(#[trigger] c[k]) by {
        assert(c[k] == s[k - 10]);
    }
    assert(c[d] == '(');
    lemma_name_run(c, 10, d);
    assert(ws_end(c, d) == d);
    assert(header_at(c, 0) == Some((c.subrange(5, d), d + 1)));
    assert(c.subrange(5, d) =~= "test_"@ + s);
    // The body.
    let sub = c.subrange(d + 1, c.len() as int);
    assert(sub =~= seq!['v', 'o', 'i', 'd', ')', ' ', '{', '}', '\n']);
    assert(find_char(sub, 6, '{') == 6);
    assert(find_char(sub, 5, '{') == 6);
    assert(find_char(sub, 4, '{') == 6);
    assert(find_char(sub, 3, '{') == 6);
    assert(find_char(sub, 2, '{') == 6);
    assert(find_char(sub, 1, '{') == 6);
    assert(find_char(sub, 0, '{') == 6);
    assert(balance(sub, 6, 6) == 0);
    assert(balance(sub, 6, 7) == 1);
    assert(balance(sub, 6, 8) == 0);
    assert(closing_from(sub, 6, 7) == 7);
    assert(closing_from(sub, 6, 6) == 7);
    assert(function_body(sub) =~= "{}"@);
    // Nothing follows on a new line.
    assert forall|k: int| d <= k < c.len() - 1 implies #[trigger] c[k] != '\n' by {
        assert(c[k] == rest[k - d]);
    }
    lemma_no_more_tests(path, c, d + 1);
    assert(line_start(c, 0));
    let row = TestRow { name: "test_"@ + s, file: path, body: "{}"@ };
    assert(tests_from(path, c, 0) =~= seq![row]);
    let one = seq![(path, c)];
    assert(one.drop_last() =~= Seq::<(Seq<char>, Seq<char>)>::empty());
    assert(all_tests(Seq::<(Seq<char>, Seq<char>)>::empty()) == Seq::<TestRow>::empty());
    assert(one.last() == (path, c));
    assert(file_tests(path, c) == seq![row]);
    assert(all_tests(one) == all_tests(one.drop_last()) + file_tests(path, c));
    assert(all_tests(one) =~= seq![row]);
    let rows = seq![row];
    assert(rows.drop_last() =~= Seq::<TestRow>::empty());
    assert(insert_pos(Seq::<TestRow>::empty(), row, test_order(), 0) == 0);
    assert(sort_seq(Seq::<TestRow>::empty(), test_order()) == Seq::<TestRow>::empty());
    assert(rows.last() == row);
    assert(sort_seq(rows, test_order()) == insert_sorted(sort_seq(rows.drop_last(), test_order()), row, test_order()));
    assert(Seq::<TestRow>::empty().insert(0, row) =~= seq![row]);
    assert(sort_seq(rows, test_order()) =~= seq![row]);
}

fn header_at_exec(c: &Vec<char>, p: usize) -> (r: Option<(Vec<char>, usize)>)
    requires
        p <= c@.len(),
    ensures
        match r {
            Some((name, end)) => header_at(c@, p as int) == Some((name@, end as int)) && end > p,
            None => header_at(c@, p as int) is None,
        },
{
    let n = c.len();
    let kw: usize = if matches_at(c, &chars_of("void"), p) {
        4
    } else if matches_at(c, &chars_of("int"), p) {
        3
    } else {
        0
    };
    if kw == 0 {
        return None;
    }
    proof {
        reveal_strlit("void");
        reveal_strlit("int");
    }
    let a = p + kw;
    let b = skip_ws(c, a);
    if b <= a || !matches_at(c, &chars_of("test_"), b) {
        return None;
    }
    proof {
        reveal_strlit("test_");
        lemma_name_end(c@, b + 5);
    }
    let mut d = b + 5;
    while d < n && is_name_char_exec(c[d])
        invariant
            n == c@.len(),
            b + 5 <= d <= n,
            name_end(c@, b + 5) == name_end(c@, d as int),
        decreases n - d,
    {
        d = d + 1;
    }
    if d <= b + 5 {
        return None;
    }
    let e = skip_ws(c, d);
    if e >= n || c[e] != '(' {
        return None;
    }
    Some((copy_range(c, b, d), e + 1))
}

fn is_name_char_exec(ch: char) -> (r: bool)
    ensures
        r == is_name_char(ch),
{
    ('A' <= ch && ch <= 'Z') || ('a' <= ch && ch <= 'z') || ('0' <= ch && ch <= '9') || ch == '_'
}

/// The test functions of one source file, in the order they appear.
pub fn find_tests_in_file(file: &SourceFile) -> (r: Vec<CTestCase>)
    ensures
        test_rows(r@) == file_tests(file.path@, file.content@),
{
    let c = chars_of(file.content.as_str());
    let n = c.len();
    let ghost path = file.path@;
    let mut found: Vec<CTestCase> = Vec::new();
    let mut from: usize = 0;
    while from < n
        invariant
            n == c@.len(),
            c@ == file.content@,
            path == file.path@,
            from <= n,
            test_rows(found@) + tests_from(path, c@, from as int) == file_tests(path, c@),
        decreases n - from,
    {
        let at_line_start = from == 0 || c[from - 1] == '\n';
        if at_line_start {
            match header_at_exec(&c, from) {
                Some((name, end)) => {
                    let rest = copy_range(&c, end, n);
                    let body = extract_function_body(&rest);
                    let t = CTestCase {
                        name: string_of(&name),
                        file: file.path.clone(),
                        body: string_of(&body),
                    };
                    let ghost prev = test_rows(found@);
                    found.push(t);
                    proof {
                        assert(test_rows(found@) =~= prev.push(t@));
                        assert(prev.push(t@) + tests_from(path, c@, end as int) =~= prev + (seq![t@]
                            + tests_from(path, c@, end as int)));
                    }
                    from = end;
                    continue;
                },
                None => {},
            }
        }
        from = from + 1;
    }
    proof {
        assert(tests_from(path, c@, from as int) == Seq::<TestRow>::empty());
        assert(test_rows(found@) + Seq::<TestRow>::empty() =~= test_rows(found@));
    }
    found
}

// ---------------------------------------------------------------------------
// Discovery over many files
// ---------------------------------------------------------------------------

/// The paths and texts of `files`.
pub open spec fn file_views(files: Seq<SourceFile>) -> Seq<(Seq<char>, Seq<char>)> {
    files.map_values(|f: SourceFile| (f.path@, f.content@))
}

/// The test functions of `files`, file by file in the given order.
pub open spec fn all_tests(files: Seq<(Seq<char>, Seq<char>)>) -> Seq<TestRow>
    decreases files.len(),
{
    if files.len() == 0 {
        seq![]
    } else {
        all_tests(files.drop_last()) + file_tests(files.last().0, files.last().1)
    }
}

/// Tests are ordered by name, then by file as `Path` orders paths.
pub open spec fn test_lt(a: TestRow, b: TestRow) -> bool {
    str_lt(a.name, b.name) || (a.name == b.name && path_lt(a.file, b.file))
}

pub open spec fn test_order() -> spec_fn(TestRow, TestRow) -> bool {
    |a: TestRow, b: TestRow| test_lt(a, b)
}

pub proof fn lemma_test_order()
    ensures
        strict_order(test_order()),
{
    lemma_str_lt_order();
    lemma_path_lt_order();
}

/// Test `a` sorts strictly before test `b` (`test_lt`).
fn test_before(a: &CTestCase, b: &CTestCase) -> (r: bool)
    ensures
        r == test_lt(a@, b@),
{
    if string_lt(a.name.as_str(), b.name.as_str()) {
        return true;
    }
    chars_equal(&chars_of(a.name.as_str()), &chars_of(b.name.as_str())) && path_before(
        a.file.as_str(),
        b.file.as_str(),
    )
}

/// `v` stably sorted by name, then by file path: tests of one name and path
/// keep the order they had.
pub fn sort_tests(v: Vec<CTestCase>) -> (r: Vec<CTestCase>)
    ensures
        test_rows(r@) == sort_seq(test_rows(v@), test_order()),
{
    let ghost input = test_rows(v@);
    let mut r: Vec<CTestCase> = Vec::new();
    let mut i: usize = 0;
    while i < v.len()
        invariant
            i <= v@.len(),
            input == test_rows(v@),
            test_rows(r@) == sort_seq(input.take(i as int), test_order()),
        decreases v@.len() - i,
    {
        let x = v[i].duplicate();
        let ghost sorted = test_rows(r@);
        proof {
            lemma_insert_pos(sorted, x@, test_order(), 0);
        }
        let mut p: usize = 0;
        while p < r.len() && !test_before(&x, &r[p])
            invariant
                p <= r@.len(),
                sorted == test_rows(r@),
                insert_pos(sorted, x@, test_order(), 0) == insert_pos(
                    sorted,
                    x@,
                    test_order(),
                    p as int,
                ),
            decreases r@.len() - p,
        {
            p = p + 1;
        }
        r.insert(p, x);
        proof {
            assert(test_rows(r@) =~= sorted.insert(p as int, x@));
            assert(input[i as int] == x@);
            lemma_sort_seq_step(input, i as int, test_order());
        }
        i = i + 1;
    }
    proof {
        assert(input.take(v@.len() as int) =~= input);
    }
    r
}

/// The test functions of `files`, stably sorted by name and then by file
/// path (`path_lt`): tests of one name and file come in the order they
/// appear.
pub fn discover_tests(files: &Vec<SourceFile>) -> (r: Vec<CTestCase>)
    ensures
        test_rows(r@) == sort_seq(all_tests(file_views(files@)), test_order()),
        sorted_version(all_tests(file_views(files@)), test_rows(r@), test_order()),
{
    let ghost fv = file_views(files@);
    let mut found: Vec<CTestCase> = Vec::new();
    let mut i: usize = 0;
    while i < files.len()
        invariant
            i <= files@.len(),
            fv == file_views(files@),
            test_rows(found@) == all_tests(fv.take(i as int)),
        decreases files@.len() - i,
    {
        let mut more = find_tests_in_file(&files[i]);
        let ghost prev = test_rows(found@);
        let ghost extra = test_rows(more@);
        found.append(&mut more);
        proof {
            assert(test_rows(found@) =~= prev + extra);
            assert(fv.take(i + 1).drop_last() =~= fv.take(i as int));
            assert(fv.take(i + 1).last() == (files@[i as int].path@, files@[i as int].content@));
        }
        i = i + 1;
    }
    proof {
        assert(fv.take(files@.len() as int) =~= fv);
        lemma_test_order();
        lemma_sort_seq(all_tests(fv), test_order());
    }
    sort_tests(found)
}

// ---------------------------------------------------------------------------
// The discovery report
// ---------------------------------------------------------------------------

pub open spec fn discovery_row(t: TestRow) -> Seq<char> {
    "| "@ + t.name + " | "@ + t.file + " |\n"@
}

pub open spec fn discovery_rows(s: Seq<TestRow>) -> Seq<char>
    decreases s.len(),
{
    if s.len() == 0 {
        seq![]
    } else {
        discovery_rows(s.drop_last()) + discovery_row(s.last())
    }
}

/// The discovery report: title, the scanned root, one table row per test,
/// and the number of tests.
pub open spec fn discovery_report(root: Seq<char>, tests: Seq<TestRow>) -> Seq<char> {
    "# C Test Discovery Report\n\n"@ + "Scanned: `"@ + root + "`\n\n"@
        + "## Discovered Test Functions\n\n"@ + "| test function | file |\n|---|---|\n"@
        + discovery_rows(tests) + "\n## Summary\n\n| metric | value |\n|---|---|\n| total C tests | "@
        + decimal(tests.len()) + " |\n"@
}

/// The discovery report for the tests found under `c_test_root`.
pub fn render_discovery_report(c_test_root: &str, tests: &Vec<CTestCase>) -> (out: String)
    ensures
        out@ == discovery_report(c_test_root@, test_rows(tests@)),
{
    let mut out = String::new();
    push_str(&mut out, "# C Test Discovery Report\n\n");
    push_str(&mut out, "Scanned: `");
    push_str(&mut out, c_test_root);
    push_str(&mut out, "`\n\n");
    push_str(&mut out, "## Discovered Test Functions\n\n");
    push_str(&mut out, "| test function | file |\n|---|---|\n");
    let ghost head = out@;
    let ghost rs = test_rows(tests@);
    let mut i: usize = 0;
    while i < tests.len()
        invariant
            i <= tests@.len(),
            rs == test_rows(tests@),
            out@ == head + discovery_rows(rs.take(i as int)),
        decreases tests@.len() - i,
    {
        let t = &tests[i];
        let ghost before = out@;
        push_str(&mut out, "| ");
        push_str(&mut out, t.name.as_str());
        push_str(&mut out, " | ");
        push_str(&mut out, t.file.as_str());
        push_str(&mut out, " |\n");
        proof {
            assert(rs.take(i + 1).drop_last() =~= rs.take(i as int));
            assert(rs.take(i + 1).last() == t@);
            assert(out@ =~= before + discovery_row(t@));
        }
        i = i + 1;
    }
    proof {
        assert(rs.take(tests@.len() as int) =~= rs);
    }
    push_str(&mut out, "\n## Summary\n\n| metric | value |\n|---|---|\n| total C tests | ");
    push_decimal(&mut out, tests.len());
    push_str(&mut out, " |\n");
    proof {
        assert(out@ =~= discovery_report(c_test_root@, rs));
    }
    out
}

} // verus!

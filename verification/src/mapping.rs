//! Candidate mapping of C tests onto interface symbols, and the mapping
//! report.
use vstd::prelude::*;

use crate::c_tests::{test_rows, CTestCase, TestRow};
use crate::interface_report::{rows, InterfaceSymbol, SymbolRow};
use crate::order::{lemma_str_lt_order, lemma_str_lt_total, str_lt, string_lt};
use crate::patterns::{
    compile_regex, regex_compiles, regex_escape, regex_escaped, regex_is_match, regex_matches,
};
use crate::text::{decimal, push_decimal, push_str};

verus! {

/// The texts of `v`.
pub open spec fn strs(v: Seq<String>) -> Seq<Seq<char>> {
    v.map_values(|s: String| s@)
}

/// Each element sorts strictly before every later one: sorted, no repeats.
pub open spec fn strictly_increasing(s: Seq<Seq<char>>) -> bool {
    forall|i: int, j: int| 0 <= i < j < s.len() ==> str_lt(#[trigger] s[i], #[trigger] s[j])
}

/// The pattern that finds `name` as a whole word: `\b`, the name escaped,
/// `\b`.
pub open spec fn word_pattern(name: Seq<char>) -> Seq<char> {
    "\\b"@ + regex_escaped(name) + "\\b"@
}

/// Inserts `s` into the strictly increasing `v` unless it is there already.
fn insert_unique(v: &mut Vec<String>, s: String)
    requires
        strictly_increasing(strs(old(v)@)),
    ensures
        strictly_increasing(strs(final(v)@)),
        forall|x: Seq<char>| #[trigger] strs(final(v)@).contains(x) <==> (strs(old(v)@).contains(x) || x
            == s@),
{
    let ghost old_s = strs(v@);
    proof {
        lemma_str_lt_order();
    }
    let mut p: usize = 0;
    while p < v.len() && string_lt(v[p].as_str(), s.as_str())
        invariant
            p <= v@.len(),
            old_s == strs(v@),
            forall|k: int| 0 <= k < p ==> str_lt(#[trigger] old_s[k], s@),
        decreases v@.len() - p,
    {
        p = p + 1;
    }
    if p < v.len() && v[p] == s {
        proof {
            assert(old_s.contains(s@)) by {
                assert(old_s[p as int] == s@);
            }
        }
        return;
    }
    proof {
        if p < v@.len() {
            lemma_str_lt_total(old_s[p as int], s@);
            assert(str_lt(s@, old_s[p as int]));
        }
    }
    v.insert(p, s);
    proof {
        let ns = strs(v@);
        assert(ns =~= old_s.insert(p as int, s@));
        assert forall|i: int, j: int| 0 <= i < j < ns.len() implies str_lt(
            #[trigger] ns[i],
            #[trigger] ns[j],
        ) by {
            if j < p {
            } else if j == p {
            } else if i == p {
                if j - 1 > p {
                    assert(str_lt(old_s[p as int], old_s[j - 1]));
                }
            } else if i < p {
                assert(str_lt(old_s[i], s@));
                if j - 1 > p {
                    assert(str_lt(s@, old_s[p as int]));
                    assert(str_lt(old_s[p as int], old_s[j - 1]));
                }
            } else {
            }
        }
        assert forall|x: Seq<char>| #[trigger] ns.contains(x) <==> (old_s.contains(x) || x == s@) by {
            if ns.contains(x) {
                let k = choose|k: int| 0 <= k < ns.len() && ns[k] == x;
                if k < p {
                    assert(old_s[k] == x);
                } else if k > p {
                    assert(old_s[k - 1] == x);
                }
            }
            if old_s.contains(x) {
                let k = choose|k: int| 0 <= k < old_s.len() && old_s[k] == x;
                if k < p {
                    assert(ns[k] == x);
                } else {
                    assert(ns[k + 1] == x);
                }
            }
            if x == s@ {
                assert(ns[p as int] == x);
            }
        }
    }
}

/// The names of the symbols selected by `matched`, in order, each once.
pub fn select_candidates(symbols: &Vec<InterfaceSymbol>, matched: &Vec<bool>) -> (r: Vec<String>)
    requires
        matched@.len() == symbols@.len(),
    ensures
        strictly_increasing(strs(r@)),
        forall|x: Seq<char>| #[trigger]
            strs(r@).contains(x) <==> exists|i: int|
                0 <= i < symbols@.len() && matched@[i] && #[trigger] symbols@[i].name@ == x,
{
    let mut r: Vec<String> = Vec::new();
    let mut i: usize = 0;
    while i < symbols.len()
        invariant
            i <= symbols@.len(),
            matched@.len() == symbols@.len(),
            strictly_increasing(strs(r@)),
            forall|x: Seq<char>| #[trigger]
                strs(r@).contains(x) <==> exists|k: int|
                    0 <= k < i && matched@[k] && #[trigger] symbols@[k].name@ == x,
        decreases symbols@.len() - i,
    {
        if matched[i] {
            insert_unique(&mut r, symbols[i].name.clone());
        }
        proof {
            assert forall|x: Seq<char>| #[trigger] strs(r@).contains(x) <==> exists|k: int|
                0 <= k < i + 1 && matched@[k] && #[trigger] symbols@[k].name@ == x by {
                if exists|k: int| 0 <= k < i + 1 && matched@[k] && #[trigger] symbols@[k].name@ == x {
                    let k = choose|k: int|
                        0 <= k < i + 1 && matched@[k] && #[trigger] symbols@[k].name@ == x;
                    if k < i {
                        assert(exists|k2: int|
                            0 <= k2 < i && matched@[k2] && #[trigger] symbols@[k2].name@ == x);
                    }
                }
            }
        }
        i = i + 1;
    }
    r
}

/// `name` occurs in `text` as a whole word: its word pattern compiles and
/// the compiled regex matches in `text`.
pub open spec fn word_hit(name: Seq<char>, text: Seq<char>) -> bool {
    regex_compiles(word_pattern(name)) && regex_matches(word_pattern(name), text)
}

/// A character that `\b` counts as part of a word: ASCII letters, digits
/// and `_` (the characters a C identifier is made of).
pub open spec fn is_word_char(c: char) -> bool {
    ('A' <= c <= 'Z') || ('a' <= c <= 'z') || ('0' <= c <= '9') || c == '_'
}

/// Escaping leaves identifier characters as they are.
proof fn lemma_escape_keeps_word(name: Seq<char>)
    requires
        forall|k: int| 0 <= k < name.len() ==> is_word_char(#[trigger] name[k]),
    ensures
        regex_escaped(name) == name,
    decreases name.len(),
{
    if name.len() > 0 {
        lemma_escape_keeps_word(name.drop_last());
        assert(is_word_char(name[name.len() - 1]));
        assert(name.drop_last().push(name.last()) =~= name);
    }
}

/// A symbol is found in a text exactly when the regex made of a word
/// boundary `\b`, the symbol's name with its meta characters escaped, and
/// another `\b` compiles and matches in the text.  For a name made of
/// identifier characters, the regex is `\b`, the name itself, `\b`: a name
/// that occurs only inside a longer word is not found.
pub proof fn lemma_candidates_are_whole_words(name: Seq<char>, text: Seq<char>)
    ensures
        word_hit(name, text) <==> {
            let p = seq!['\\', 'b'] + regex_escaped(name) + seq!['\\', 'b'];
            regex_compiles(p) && regex_matches(p, text)
        },
        (forall|k: int| 0 <= k < name.len() ==> is_word_char(#[trigger] name[k])) ==> (word_hit(
            name,
            text,
        ) <==> {
            let p = seq!['\\', 'b'] + name + seq!['\\', 'b'];
            regex_compiles(p) && regex_matches(p, text)
        }),
{
    reveal_strlit("\\b");
    assert("\\b"@ =~= seq!['\\', 'b']);
    assert(word_pattern(name) =~= seq!['\\', 'b'] + regex_escaped(name) + seq!['\\', 'b']);
    if forall|k: int| 0 <= k < name.len() ==> is_word_char(#[trigger] name[k]) {
        lemma_escape_keeps_word(name);
    }
}

/// The names of `symbols` that occur in `test_source` as whole words
/// (`\bNAME\b`, found by `regex`), in order, each once.
pub fn infer_candidate_symbols(test_source: &str, symbols: &Vec<InterfaceSymbol>) -> (r: Vec<String>)
    ensures
        strictly_increasing(strs(r@)),
        forall|x: Seq<char>| #[trigger]
            strs(r@).contains(x) <==> exists|i: int|
                0 <= i < symbols@.len() && #[trigger] symbols@[i].name@ == x && word_hit(x, test_source@),
{
    let mut matched: Vec<bool> = Vec::new();
    let mut i: usize = 0;
    while i < symbols.len()
        invariant
            i <= symbols@.len(),
            matched@.len() == i,
            forall|k: int| 0 <= k < i ==> #[trigger] matched@[k] == word_hit(symbols@[k].name@, test_source@),
        decreases symbols@.len() - i,
    {
        let mut pattern = String::new();
        push_str(&mut pattern, "\\b");
        let escaped = regex_escape(symbols[i].name.as_str());
        push_str(&mut pattern, escaped.as_str());
        push_str(&mut pattern, "\\b");
        proof {
            assert(pattern@ =~= word_pattern(symbols@[i as int].name@));
        }
        let hit = match compile_regex(pattern.as_str()) {
            Ok(re) => regex_is_match(&re, test_source),
            Err(_) => false,
        };
        matched.push(hit);
        i = i + 1;
    }
    let r = select_candidates(symbols, &matched);
    proof {
        assert forall|x: Seq<char>| #[trigger] strs(r@).contains(x) <==> exists|i: int|
            0 <= i < symbols@.len() && #[trigger] symbols@[i].name@ == x && word_hit(x, test_source@) by {
            if strs(r@).contains(x) {
                let i = choose|i: int| 0 <= i < symbols@.len() && matched@[i] && #[trigger] symbols@[i].name@ == x;
                assert(matched@[i] == word_hit(symbols@[i].name@, test_source@));
            }
            if exists|i: int| 0 <= i < symbols@.len() && #[trigger] symbols@[i].name@ == x && word_hit(x, test_source@) {
                let i = choose|i: int| 0 <= i < symbols@.len() && #[trigger] symbols@[i].name@ == x && word_hit(x, test_source@);
                assert(matched@[i] == word_hit(symbols@[i].name@, test_source@));
            }
        }
    }
    r
}

// ---------------------------------------------------------------------------
// The mapping report
// ---------------------------------------------------------------------------

/// The elements of `s` separated by `sep`.
pub open spec fn join(s: Seq<Seq<char>>, sep: Seq<char>) -> Seq<char>
    decreases s.len(),
{
    if s.len() == 0 {
        seq![]
    } else if s.len() == 1 {
        s[0]
    } else {
        join(s.drop_last(), sep) + sep + s.last()
    }
}

/// The candidate column: `-` when there is no candidate.
pub open spec fn candidate_cell(c: Seq<Seq<char>>) -> Seq<char> {
    if c.len() == 0 {
        "-"@
    } else {
        join(c, ", "@)
    }
}

pub open spec fn map_row(t: TestRow, c: Seq<Seq<char>>) -> Seq<char> {
    "| "@ + t.name + " | "@ + t.file + " | "@ + candidate_cell(c) + " |\n"@
}

pub open spec fn map_rows(tests: Seq<TestRow>, cands: Seq<Seq<Seq<char>>>) -> Seq<char>
    decreases tests.len(),
{
    if tests.len() == 0 {
        seq![]
    } else {
        map_rows(tests.drop_last(), cands) + map_row(tests.last(), cands[tests.len() - 1])
    }
}

/// The mapping report: title, scanned root, one row per test with its
/// candidates, and the numbers of tests and of interface symbols.
pub open spec fn map_report(
    root: Seq<char>,
    tests: Seq<TestRow>,
    cands: Seq<Seq<Seq<char>>>,
    symbol_count: nat,
) -> Seq<char> {
    "# C Test to Interface Candidate Mapping Report\n\n"@ + "Scanned: `"@ + root + "`\n\n"@
        + "## Candidate Mappings\n\n"@ + "| test function | file | candidate symbols |\n|---|---|---|\n"@
        + map_rows(tests, cands) + "\n## Summary\n\n| metric | value |\n|---|---|\n| total C tests | "@
        + decimal(tests.len()) + " |\n| total interface symbols | "@ + decimal(symbol_count)
        + " |\n"@
}

/// Appends the candidates of one test, separated by `, `, or `-`.
fn push_candidates(out: &mut String, c: &Vec<String>)
    ensures
        final(out)@ == old(out)@ + candidate_cell(strs(c@)),
{
    if c.len() == 0 {
        push_str(out, "-");
        return;
    }
    let ghost cs = strs(c@);
    push_str(out, c[0].as_str());
    let mut i: usize = 1;
    proof {
        assert(cs.take(1).drop_last() =~= Seq::<Seq<char>>::empty());
        assert(join(cs.take(1), ", "@) == cs[0]);
    }
    while i < c.len()
        invariant
            1 <= i <= c@.len(),
            cs == strs(c@),
            out@ == old(out)@ + join(cs.take(i as int), ", "@),
        decreases c@.len() - i,
    {
        push_str(out, ", ");
        push_str(out, c[i].as_str());
        proof {
            assert(cs.take(i + 1).drop_last() =~= cs.take(i as int));
        }
        i = i + 1;
    }
    proof {
        assert(cs.take(c@.len() as int) =~= cs);
    }
}

/// The mapping report, given the candidates of each test.
pub fn render_map_report_with(
    c_test_root: &str,
    tests: &Vec<CTestCase>,
    candidates: &Vec<Vec<String>>,
    symbol_count: usize,
) -> (out: String)
    requires
        candidates@.len() == tests@.len(),
    ensures
        out@ == map_report(
            c_test_root@,
            test_rows(tests@),
            candidates@.map_values(|c: Vec<String>| strs(c@)),
            symbol_count as nat,
        ),
{
    let ghost cs = candidates@.map_values(|c: Vec<String>| strs(c@));
    let ghost rs = test_rows(tests@);
    let mut out = String::new();
    push_str(&mut out, "# C Test to Interface Candidate Mapping Report\n\n");
    push_str(&mut out, "Scanned: `");
    push_str(&mut out, c_test_root);
    push_str(&mut out, "`\n\n");
    push_str(&mut out, "## Candidate Mappings\n\n");
    push_str(&mut out, "| test function | file | candidate symbols |\n|---|---|---|\n");
    let ghost head = out@;
    let mut i: usize = 0;
    while i < tests.len()
        invariant
            i <= tests@.len(),
            candidates@.len() == tests@.len(),
            rs == test_rows(tests@),
            cs == candidates@.map_values(|c: Vec<String>| strs(c@)),
            out@ == head + map_rows(rs.take(i as int), cs),
        decreases tests@.len() - i,
    {
        let t = &tests[i];
        let ghost before = out@;
        push_str(&mut out, "| ");
        push_str(&mut out, t.name.as_str());
        push_str(&mut out, " | ");
        push_str(&mut out, t.file.as_str());
        push_str(&mut out, " | ");
        push_candidates(&mut out, &candidates[i]);
        push_str(&mut out, " |\n");
        proof {
            assert(rs.take(i + 1).drop_last() =~= rs.take(i as int));
            assert(rs.take(i + 1).last() == t@);
            assert(cs[i as int] == strs(candidates@[i as int]@));
            assert(out@ =~= before + map_row(t@, cs[i as int]));
        }
        i = i + 1;
    }
    proof {
        assert(rs.take(tests@.len() as int) =~= rs);
    }
    push_str(&mut out, "\n## Summary\n\n| metric | value |\n|---|---|\n| total C tests | ");
    push_decimal(&mut out, tests.len());
    push_str(&mut out, " |\n| total interface symbols | ");
    push_decimal(&mut out, symbol_count);
    push_str(&mut out, " |\n");
    proof {
        assert(out@ =~= map_report(c_test_root@, rs, cs, symbol_count as nat));
    }
    out
}

/// The text a test is searched for symbols in: its name, a line feed, its body.
pub open spec fn test_source(t: TestRow) -> Seq<char> {
    t.name + "\n"@ + t.body
}

/// The candidates of each test are the names of the symbols that occur in
/// the test's name and body as whole words, in order, each once.
pub open spec fn candidates_fit(cands: Seq<Seq<Seq<char>>>, symbols: Seq<SymbolRow>, tests: Seq<TestRow>) -> bool {
    forall|k: int| 0 <= k < cands.len() ==> {
        &&& strictly_increasing(#[trigger] cands[k])
        &&& forall|x: Seq<char>| #[trigger]
            cands[k].contains(x) <==> exists|i: int|
                0 <= i < symbols.len() && #[trigger] symbols[i].name == x && word_hit(x, test_source(tests[k]))
    }
}

/// The mapping report: the candidates of each test are found by
/// `infer_candidate_symbols` in the test's name and body.
pub fn render_map_report(
    c_test_root: &str,
    tests: &Vec<CTestCase>,
    symbols: &Vec<InterfaceSymbol>,
) -> (out: String)
    ensures
        exists|cands: Seq<Seq<Seq<char>>>|
            {
                &&& cands.len() == tests@.len()
                &&& candidates_fit(cands, rows(symbols@), test_rows(tests@))
                &&& out@ == map_report(
                    c_test_root@,
                    test_rows(tests@),
                    cands,
                    symbols@.len(),
                )
            },
{
    let mut candidates: Vec<Vec<String>> = Vec::new();
    let mut i: usize = 0;
    while i < tests.len()
        invariant
            i <= tests@.len(),
            candidates@.len() == i,
            candidates_fit(candidates@.map_values(|c: Vec<String>| strs(c@)), rows(symbols@), test_rows(tests@)),
        decreases tests@.len() - i,
    {
        let mut source = String::new();
        push_str(&mut source, tests[i].name.as_str());
        push_str(&mut source, "\n");
        push_str(&mut source, tests[i].body.as_str());
        proof {
            assert(source@ =~= test_source(test_rows(tests@)[i as int]));
        }
        let c = infer_candidate_symbols(source.as_str(), symbols);
        let ghost prev = candidates@.map_values(|c: Vec<String>| strs(c@));
        candidates.push(c);
        proof {
            let now = candidates@.map_values(|c: Vec<String>| strs(c@));
            let ts = test_rows(tests@);
            let rs = rows(symbols@);
            assert(now =~= prev.push(strs(c@)));
            assert forall|k: int| 0 <= k < now.len() implies {
                &&& strictly_increasing(#[trigger] now[k])
                &&& forall|x: Seq<char>| #[trigger]
                    now[k].contains(x) <==> exists|j: int|
                        0 <= j < rs.len() && #[trigger] rs[j].name == x && word_hit(x, test_source(ts[k]))
            } by {
                if k == i {
                    assert forall|x: Seq<char>| #[trigger] now[k].contains(x) <==> exists|j: int|
                        0 <= j < rs.len() && #[trigger] rs[j].name == x && word_hit(x, test_source(ts[k])) by {
                        if now[k].contains(x) {
                            let j = choose|j: int|
                                0 <= j < symbols@.len() && #[trigger] symbols@[j].name@ == x && word_hit(x, source@);
                            assert(rs[j].name == x);
                        }
                        if exists|j: int| 0 <= j < rs.len() && #[trigger] rs[j].name == x && word_hit(x, test_source(ts[k])) {
                            let j = choose|j: int| 0 <= j < rs.len() && #[trigger] rs[j].name == x && word_hit(x, test_source(ts[k]));
                            assert(symbols@[j].name@ == x);
                        }
                    }
                } else {
                    assert(now[k] == prev[k]);
                }
            }
        }
        i = i + 1;
    }
    let out = render_map_report_with(c_test_root, tests, &candidates, symbols.len());
    proof {
        let cs = candidates@.map_values(|c: Vec<String>| strs(c@));
        assert(cs.len() == tests@.len());
    }
    out
}

} // verus!

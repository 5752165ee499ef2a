//! Interface reports: the init and merge report formats, the symbols they
//! list, and the symbol table rendered from them.
use vstd::prelude::*;

use crate::order::{lemma_sort_seq, lemma_sort_seq_step, lemma_str_lt_order, sort_seq, insert_pos, lemma_insert_pos, sorted_version, str_lt, strict_order, string_lt};
use crate::text::{
    all_ws, ascii_lowercase, chars_equal, chars_of, copy_range, find_char, find_char_from,
    has_prefix, lines,
    lowercase_ascii, matches_at, occurs_at, push_str, remove_char, rest_is_ws, skip_ws,
    split_lines, starts_with, string_of, trim, trim_chars, without_char, ws_end, char_is_ws,
    is_ws,
};

verus! {

/// Whether an interface symbol is a function or a variable.
#[derive(Debug, Clone, Copy, PartialEq, Eq, Structural)]
pub enum SymbolKind {
    Function,
    Variable,
}

impl SymbolKind {
    /// The name of the kind as reports print it.
    pub open spec fn spec_name(self) -> Seq<char> {
        match self {
            SymbolKind::Function => "function"@,
            SymbolKind::Variable => "variable"@,
        }
    }

    pub fn as_str(self) -> (s: &'static str)
        ensures
            s@ == self.spec_name(),
    {
        match self {
            SymbolKind::Function => "function",
            SymbolKind::Variable => "variable",
        }
    }
}

/// An exported symbol of a generated module.
#[derive(Debug, Clone, PartialEq, Eq)]
pub struct InterfaceSymbol {
    pub module: String,
    pub name: String,
    pub kind: SymbolKind,
}

/// What an interface symbol holds, as values.
pub struct SymbolRow {
    pub module: Seq<char>,
    pub name: Seq<char>,
    pub kind: SymbolKind,
}

impl View for InterfaceSymbol {
    type V = SymbolRow;

    open spec fn view(&self) -> SymbolRow {
        SymbolRow { module: self.module@, name: self.name@, kind: self.kind }
    }
}

impl InterfaceSymbol {
    /// A copy of this symbol.
    pub fn duplicate(&self) -> (r: InterfaceSymbol)
        ensures
            r@ == self@,
    {
        InterfaceSymbol { module: self.module.clone(), name: self.name.clone(), kind: self.kind }
    }
}

/// The values that a sequence of symbols holds.
pub open spec fn rows(s: Seq<InterfaceSymbol>) -> Seq<SymbolRow> {
    s.map_values(|x: InterfaceSymbol| x@)
}

/// Symbols are ordered by module, then name, then the name of their kind.
pub open spec fn symbol_lt(a: SymbolRow, b: SymbolRow) -> bool {
    ||| str_lt(a.module, b.module)
    ||| a.module == b.module && str_lt(a.name, b.name)
    ||| a.module == b.module && a.name == b.name && str_lt(a.kind.spec_name(), b.kind.spec_name())
}

pub open spec fn symbol_order() -> spec_fn(SymbolRow, SymbolRow) -> bool {
    |a: SymbolRow, b: SymbolRow| symbol_lt(a, b)
}

pub proof fn lemma_symbol_order()
    ensures
        strict_order(symbol_order()),
{
    lemma_str_lt_order();
}

// ---------------------------------------------------------------------------
// Line grammar
// ---------------------------------------------------------------------------

/// A level-two heading (`##`, whitespace, then at least one more character):
/// its title, trimmed.
pub open spec fn section_title(t: Seq<char>) -> Option<Seq<char>> {
    if t.len() >= 4 && t[0] == '#' && t[1] == '#' && is_ws(t[2]) {
        Some(trim(t.subrange(2, t.len() as int)))
    } else {
        None
    }
}

/// A level-three heading (`###`, whitespace, then at least one more
/// character): its title, trimmed.
pub open spec fn subsection_title(t: Seq<char>) -> Option<Seq<char>> {
    if t.len() >= 5 && t[0] == '#' && t[1] == '#' && t[2] == '#' && is_ws(t[3]) {
        Some(trim(t.subrange(3, t.len() as int)))
    } else {
        None
    }
}

/// A symbol heading of an init report: ``### `name` (function)`` or
/// ``### `name` (variable)``: `###`, whitespace, a name of at least one
/// character in backticks, whitespace, the kind in parentheses, and nothing
/// but whitespace after it.  Gives the name (untrimmed) and the kind.
pub open spec fn symbol_heading(t: Seq<char>) -> Option<(Seq<char>, SymbolKind)> {
    let i = ws_end(t, 3);
    let j = find_char(t, i + 1, '`');
    let k = ws_end(t, j + 1);
    if t.len() >= 3 && t[0] == '#' && t[1] == '#' && t[2] == '#' && i > 3 && i < t.len() && t[i]
        == '`' && i + 1 < j < t.len() && k > j + 1 {
        if occurs_at(t, "(function)"@, k) && all_ws(t.subrange(k + 10, t.len() as int)) {
            Some((t.subrange(i + 1, j), SymbolKind::Function))
        } else if occurs_at(t, "(variable)"@, k) && all_ws(t.subrange(k + 10, t.len() as int)) {
            Some((t.subrange(i + 1, j), SymbolKind::Variable))
        } else {
            None
        }
    } else {
        None
    }
}

/// A list item of a merge report: ``- `name` `` followed by nothing but
/// whitespace.  Gives the name (untrimmed), at least one character long.
pub open spec fn list_item(t: Seq<char>) -> Option<Seq<char>> {
    let j = find_char(t, 3, '`');
    if t.len() >= 3 && t[0] == '-' && t[1] == ' ' && t[2] == '`' && 3 < j < t.len() && all_ws(
        t.subrange(j + 1, t.len() as int),
    ) {
        Some(t.subrange(3, j))
    } else {
        None
    }
}

fn section_title_of(t: &Vec<char>) -> (r: Option<Vec<char>>)
    ensures
        match r {
            Some(v) => section_title(t@) == Some(v@),
            None => section_title(t@) is None,
        },
{
    if t.len() >= 4 && t[0] == '#' && t[1] == '#' && char_is_ws(t[2]) {
        let rest = copy_range(t, 2, t.len());
        Some(trim_chars(&rest))
    } else {
        None
    }
}

fn subsection_title_of(t: &Vec<char>) -> (r: Option<Vec<char>>)
    ensures
        match r {
            Some(v) => subsection_title(t@) == Some(v@),
            None => subsection_title(t@) is None,
        },
{
    if t.len() >= 5 && t[0] == '#' && t[1] == '#' && t[2] == '#' && char_is_ws(t[3]) {
        let rest = copy_range(t, 3, t.len());
        Some(trim_chars(&rest))
    } else {
        None
    }
}

fn symbol_heading_of(t: &Vec<char>) -> (r: Option<(Vec<char>, SymbolKind)>)
    ensures
        match r {
            Some((v, kind)) => symbol_heading(t@) == Some((v@, kind)),
            None => symbol_heading(t@) is None,
        },
{
    if t.len() < 4 || t[0] != '#' || t[1] != '#' || t[2] != '#' {
        return None;
    }
    let i = skip_ws(t, 3);
    if i <= 3 || i >= t.len() || t[i] != '`' {
        return None;
    }
    let j = find_char_from(t, i + 1, '`');
    if j <= i + 1 || j >= t.len() {
        return None;
    }
    let k = skip_ws(t, j + 1);
    if k <= j + 1 {
        return None;
    }
    let function_tag = chars_of("(function)");
    let variable_tag = chars_of("(variable)");
    let kind = if matches_at(t, &function_tag, k) {
        SymbolKind::Function
    } else if matches_at(t, &variable_tag, k) {
        SymbolKind::Variable
    } else {
        return None;
    };
    assert(k + 10 <= t@.len()) by {
        reveal_strlit("(function)");
        reveal_strlit("(variable)");
    }
    if !rest_is_ws(t, k + 10) {
        proof {
            reveal_strlit("(function)");
            reveal_strlit("(variable)");
        }
        return None;
    }
    proof {
        reveal_strlit("(function)");
        reveal_strlit("(variable)");
    }
    Some((copy_range(t, i + 1, j), kind))
}

fn list_item_of(t: &Vec<char>) -> (r: Option<Vec<char>>)
    ensures
        match r {
            Some(v) => list_item(t@) == Some(v@),
            None => list_item(t@) is None,
        },
{
    if t.len() < 3 || t[0] != '-' || t[1] != ' ' || t[2] != '`' {
        return None;
    }
    let j = find_char_from(t, 3, '`');
    if j <= 3 || j >= t.len() {
        return None;
    }
    if !rest_is_ws(t, j + 1) {
        return None;
    }
    Some(copy_range(t, 3, j))
}

// ---------------------------------------------------------------------------
// Init reports
// ---------------------------------------------------------------------------

/// An init-report section that lists no module symbols: the summary and the
/// shared `lib.rs` section (compared in lower case, backticks removed).
pub open spec fn init_section_skipped(title: Seq<char>) -> bool {
    let norm = without_char(ascii_lowercase(title), '`');
    norm == "summary"@ || norm == "lib.rs"@ || has_prefix(norm, "lib.rs "@)
}

/// Reading an init report line by line: the module whose section is open,
/// and the symbols found so far.
pub open spec fn init_scan(ls: Seq<Seq<char>>) -> (Option<Seq<char>>, Seq<SymbolRow>)
    decreases ls.len(),
{
    if ls.len() == 0 {
        (None, seq![])
    } else {
        let (module, found) = init_scan(ls.drop_last());
        let t = trim(ls.last());
        match section_title(t) {
            Some(title) => if init_section_skipped(title) {
                (None, found)
            } else {
                (Some(title), found)
            },
            None => match symbol_heading(t) {
                Some((name, kind)) => match module {
                    Some(m) => (module, found.push(SymbolRow { module: m, name: trim(name), kind })),
                    None => (module, found),
                },
                None => (module, found),
            },
        }
    }
}

/// The symbols an init report lists, in the order it lists them.
pub open spec fn init_symbols(content: Seq<char>) -> Seq<SymbolRow> {
    init_scan(lines(content)).1
}

fn init_section_skipped_exec(title: &Vec<char>) -> (b: bool)
    ensures
        b == init_section_skipped(title@),
{
    let lowered = lowercase_ascii(title);
    let norm = remove_char(&lowered, '`');
    chars_equal(&norm, &chars_of("summary")) || chars_equal(&norm, &chars_of("lib.rs"))
        || starts_with(&norm, &chars_of("lib.rs "))
}

/// The symbols of an init report, sorted by module, name and kind.
pub fn parse_init_report(content: &str) -> (r: Result<Vec<InterfaceSymbol>, ReportError>)
    ensures
        r matches Ok(v) && sorted_version(init_symbols(content@), rows(v@), symbol_order()),
{
    let chars = chars_of(content);
    let ls = split_lines(&chars);
    let ghost lv = ls.deep_view();
    let mut found: Vec<InterfaceSymbol> = Vec::new();
    let mut module: Option<Vec<char>> = None;
    let mut i: usize = 0;
    proof {
        assert(lv.take(0) =~= Seq::<Seq<char>>::empty());
    }
    while i < ls.len()
        invariant
            i <= ls@.len(),
            lv == ls.deep_view(),
            lv == lines(content@),
            init_scan(lv.take(i as int)) == (
                match module {
                    Some(m) => Some(m@),
                    None => None::<Seq<char>>,
                },
                rows(found@),
            ),
        decreases ls@.len() - i,
    {
        let ghost prev_found = found@;
        proof {
            assert(lv.take(i + 1).drop_last() =~= lv.take(i as int));
            assert(ls@[i as int]@ =~= lv[i as int]);
        }
        let t = trim_chars(&ls[i]);
        match section_title_of(&t) {
            Some(title) => {
                if init_section_skipped_exec(&title) {
                    module = None;
                } else {
                    module = Some(title);
                }
            },
            None => {
                match symbol_heading_of(&t) {
                    Some((name, kind)) => {
                        match &module {
                            Some(m) => {
                                let trimmed = trim_chars(&name);
                                let sym = InterfaceSymbol {
                                    module: string_of(m),
                                    name: string_of(&trimmed),
                                    kind,
                                };
                                found.push(sym);
                                proof {
                                    assert(rows(found@) =~= rows(prev_found).push(sym@));
                                }
                            },
                            None => {},
                        }
                    },
                    None => {},
                }
            },
        }
        i = i + 1;
    }
    proof {
        assert(lv.take(ls@.len() as int) =~= lv);
    }
    Ok(sort_symbols(found))
}

// ---------------------------------------------------------------------------
// Merge reports
// ---------------------------------------------------------------------------

/// The list a merge-report sub-section heading opens: final functions,
/// final variables, none for the metadata sub-sections, and otherwise the
/// list that was open.
pub open spec fn subsection_kind(title: Seq<char>, open: Option<SymbolKind>) -> Option<SymbolKind> {
    let n = ascii_lowercase(title);
    if n == "final rust functions"@ {
        Some(SymbolKind::Function)
    } else if n == "final rust variables"@ {
        Some(SymbolKind::Variable)
    } else if n == "module-local ffi"@ || n == "source files merged"@ {
        None
    } else {
        open
    }
}

/// The state of a merge report read so far: the open module, the open list,
/// and the symbols found.
pub struct MergeState {
    pub module: Option<Seq<char>>,
    pub list: Option<SymbolKind>,
    pub found: Seq<SymbolRow>,
}

/// Reading a merge report line by line.
pub open spec fn merge_scan(ls: Seq<Seq<char>>) -> MergeState
    decreases ls.len(),
{
    if ls.len() == 0 {
        MergeState { module: None, list: None, found: seq![] }
    } else {
        let st = merge_scan(ls.drop_last());
        let t = trim(ls.last());
        if t == "*(none)*"@ {
            st
        } else {
            match section_title(t) {
                Some(title) => {
                    let lowered = without_char(ascii_lowercase(title), '`');
                    if lowered == "summary"@ {
                        MergeState { module: None, list: None, found: st.found }
                    } else if has_prefix(lowered, "lib.rs"@) {
                        MergeState {
                            module: Some("lib.rs"@),
                            list: Some(SymbolKind::Function),
                            found: st.found,
                        }
                    } else {
                        MergeState { module: Some(title), list: None, found: st.found }
                    }
                },
                None => match subsection_title(t) {
                    Some(sub) => MergeState {
                        module: st.module,
                        list: subsection_kind(sub, st.list),
                        found: st.found,
                    },
                    None => match list_item(t) {
                        Some(name) => match (st.module, st.list) {
                            (Some(m), Some(kind)) => MergeState {
                                module: st.module,
                                list: st.list,
                                found: st.found.push(SymbolRow { module: m, name: trim(name), kind }),
                            },
                            _ => st,
                        },
                        None => st,
                    },
                },
            }
        }
    }
}

/// The symbols a merge report lists, in the order it lists them.
pub open spec fn merge_symbols(content: Seq<char>) -> Seq<SymbolRow> {
    merge_scan(lines(content)).found
}

fn subsection_kind_exec(title: &Vec<char>, open: Option<SymbolKind>) -> (r: Option<SymbolKind>)
    ensures
        r == subsection_kind(title@, open),
{
    let n = lowercase_ascii(title);
    if chars_equal(&n, &chars_of("final rust functions")) {
        Some(SymbolKind::Function)
    } else if chars_equal(&n, &chars_of("final rust variables")) {
        Some(SymbolKind::Variable)
    } else if chars_equal(&n, &chars_of("module-local ffi")) || chars_equal(
        &n,
        &chars_of("source files merged"),
    ) {
        None
    } else {
        open
    }
}

/// The symbols of a merge report, sorted by module, name and kind.
pub fn parse_merge_report(content: &str) -> (r: Result<Vec<InterfaceSymbol>, ReportError>)
    ensures
        r matches Ok(v) && sorted_version(merge_symbols(content@), rows(v@), symbol_order()),
{
    let chars = chars_of(content);
    let ls = split_lines(&chars);
    let ghost lv = ls.deep_view();
    let none_marker = chars_of("*(none)*");
    let mut found: Vec<InterfaceSymbol> = Vec::new();
    let mut module: Option<Vec<char>> = None;
    let mut list: Option<SymbolKind> = None;
    let mut i: usize = 0;
    proof {
        assert(lv.take(0) =~= Seq::<Seq<char>>::empty());
        assert(rows(found@) =~= Seq::<SymbolRow>::empty());
    }
    while i < ls.len()
        invariant
            i <= ls@.len(),
            lv == ls.deep_view(),
            lv == lines(content@),
            none_marker@ == "*(none)*"@,
            merge_scan(lv.take(i as int)) == (MergeState {
                module: match module {
                    Some(m) => Some(m@),
                    None => None::<Seq<char>>,
                },
                list,
                found: rows(found@),
            }),
        decreases ls@.len() - i,
    {
        let ghost prev_found = found@;
        proof {
            assert(lv.take(i + 1).drop_last() =~= lv.take(i as int));
            assert(ls@[i as int]@ =~= lv[i as int]);
        }
        let t = trim_chars(&ls[i]);
        if chars_equal(&t, &none_marker) {
        } else {
            match section_title_of(&t) {
                Some(title) => {
                    let lowered0 = lowercase_ascii(&title);
                    let lowered = remove_char(&lowered0, '`');
                    if chars_equal(&lowered, &chars_of("summary")) {
                        module = None;
                        list = None;
                    } else if starts_with(&lowered, &chars_of("lib.rs")) {
                        module = Some(chars_of("lib.rs"));
                        list = Some(SymbolKind::Function);
                    } else {
                        module = Some(title);
                        list = None;
                    }
                },
                None => {
                    match subsection_title_of(&t) {
                        Some(sub) => {
                            list = subsection_kind_exec(&sub, list);
                        },
                        None => {
                            match list_item_of(&t) {
                                Some(name) => {
                                    match (&module, list) {
                                        (Some(m), Some(kind)) => {
                                            let trimmed = trim_chars(&name);
                                            let sym = InterfaceSymbol {
                                                module: string_of(m),
                                                name: string_of(&trimmed),
                                                kind,
                                            };
                                            found.push(sym);
                                            proof {
                                                assert(rows(found@) =~= rows(prev_found).push(
                                                    sym@,
                                                ));
                                            }
                                        },
                                        _ => {},
                                    }
                                },
                                None => {},
                            }
                        },
                    }
                },
            }
        }
        i = i + 1;
    }
    proof {
        assert(lv.take(ls@.len() as int) =~= lv);
    }
    Ok(sort_symbols(found))
}

// ---------------------------------------------------------------------------
// Choosing the format
// ---------------------------------------------------------------------------

/// The first line of `ls` that holds more than whitespace.
pub open spec fn first_nonblank(ls: Seq<Seq<char>>) -> Option<Seq<char>>
    decreases ls.len(),
{
    if ls.len() == 0 {
        None
    } else if trim(ls[0]).len() > 0 {
        Some(ls[0])
    } else {
        first_nonblank(ls.drop_first())
    }
}

/// A report is read as a merge report when its first line with text starts
/// (after trimming) with `# Merge Interface Report`, and as an init report
/// otherwise.
pub open spec fn is_merge_report(content: Seq<char>) -> bool {
    match first_nonblank(lines(content)) {
        Some(line) => has_prefix(trim(line), "# Merge Interface Report"@),
        None => false,
    }
}

/// The symbols an interface report lists, in the order it lists them.
pub open spec fn report_symbols(content: Seq<char>) -> Seq<SymbolRow> {
    if is_merge_report(content) {
        merge_symbols(content)
    } else {
        init_symbols(content)
    }
}

/// The error type of report parsing; the parsers accept every text, so no
/// value of it is ever returned.
#[derive(Debug, Clone, Copy, PartialEq, Eq, Structural)]
pub struct ReportError;

/// The symbols of an interface report in either format, sorted by module,
/// name and kind.
pub fn parse_interface_report(content: &str) -> (r: Result<Vec<InterfaceSymbol>, ReportError>)
    ensures
        r matches Ok(v) && sorted_version(report_symbols(content@), rows(v@), symbol_order()),
{
    let chars = chars_of(content);
    let ls = split_lines(&chars);
    let ghost lv = ls.deep_view();
    let mut i: usize = 0;
    proof {
        assert(lv.skip(0) =~= lv);
    }
    while i < ls.len()
        invariant
            i <= ls@.len(),
            lv == ls.deep_view(),
            lv == lines(content@),
            first_nonblank(lv) == first_nonblank(lv.skip(i as int)),
        decreases ls@.len() - i,
    {
        let t = trim_chars(&ls[i]);
        proof {
            assert(ls@[i as int]@ =~= lv[i as int]);
            assert(lv.skip(i as int)[0] == lv[i as int]);
            assert(lv.skip(i as int).drop_first() =~= lv.skip(i + 1));
        }
        if t.len() > 0 {
            proof {
                assert(first_nonblank(lv) == Some(lv[i as int]));
            }
            let merge = starts_with(&t, &chars_of("# Merge Interface Report"));
            if merge {
                return parse_merge_report(content);
            } else {
                return parse_init_report(content);
            }
        }
        i = i + 1;
    }
    proof {
        assert(lv.skip(ls@.len() as int) =~= Seq::<Seq<char>>::empty());
    }
    parse_init_report(content)
}

// ---------------------------------------------------------------------------
// Sorting and rendering
// ---------------------------------------------------------------------------

fn symbol_less(a: &InterfaceSymbol, b: &InterfaceSymbol) -> (r: bool)
    ensures
        r == symbol_lt(a@, b@),
{
    if string_lt(a.module.as_str(), b.module.as_str()) {
        return true;
    }
    if a.module != b.module {
        return false;
    }
    if string_lt(a.name.as_str(), b.name.as_str()) {
        return true;
    }
    if a.name != b.name {
        return false;
    }
    string_lt(a.kind.as_str(), b.kind.as_str())
}

/// `v` sorted by module, name and kind.
pub fn sort_symbols(v: Vec<InterfaceSymbol>) -> (r: Vec<InterfaceSymbol>)
    ensures
        sorted_version(rows(v@), rows(r@), symbol_order()),
{
    let ghost input = rows(v@);
    let mut r: Vec<InterfaceSymbol> = Vec::new();
    let mut i: usize = 0;
    while i < v.len()
        invariant
            i <= v@.len(),
            input == rows(v@),
            rows(r@) == sort_seq(input.take(i as int), symbol_order()),
        decreases v@.len() - i,
    {
        let x = v[i].duplicate();
        let ghost sorted = rows(r@);
        proof {
            lemma_insert_pos(sorted, x@, symbol_order(), 0);
        }
        let mut p: usize = 0;
        while p < r.len() && !symbol_less(&x, &r[p])
            invariant
                p <= r@.len(),
                sorted == rows(r@),
                insert_pos(sorted, x@, symbol_order(), 0) == insert_pos(
                    sorted,
                    x@,
                    symbol_order(),
                    p as int,
                ),
            decreases r@.len() - p,
        {
            p = p + 1;
        }
        let ghost old_r = r@;
        r.insert(p, x);
        proof {
            assert(rows(r@) =~= sorted.insert(p as int, x@));
            assert(input[i as int] == x@);
            lemma_sort_seq_step(input, i as int, symbol_order());
        }
        i = i + 1;
    }
    proof {
        assert(input.take(v@.len() as int) =~= input);
        lemma_symbol_order();
        lemma_sort_seq(input, symbol_order());
    }
    r
}

/// The table row of one symbol: `| module | name | kind |` and a line feed.
pub open spec fn symbol_table_row(s: SymbolRow) -> Seq<char> {
    "| "@ + s.module + " | "@ + s.name + " | "@ + s.kind.spec_name() + " |\n"@
}

/// The table rows of `s`, in order.
pub open spec fn symbol_table_rows(s: Seq<SymbolRow>) -> Seq<char>
    decreases s.len(),
{
    if s.len() == 0 {
        seq![]
    } else {
        symbol_table_rows(s.drop_last()) + symbol_table_row(s.last())
    }
}

/// The symbol table that the `interface` command prints.
pub open spec fn symbol_table(s: Seq<SymbolRow>) -> Seq<char> {
    "| module | symbol | kind |\n|---|---|---|\n"@ + symbol_table_rows(s)
}

/// The symbol table: a header row, a separator row, and one row per symbol.
pub fn render_interface_symbols(symbols: &Vec<InterfaceSymbol>) -> (out: String)
    ensures
        out@ == symbol_table(rows(symbols@)),
{
    let mut out = String::new();
    push_str(&mut out, "| module | symbol | kind |\n|---|---|---|\n");
    let mut i: usize = 0;
    while i < symbols.len()
        invariant
            i <= symbols@.len(),
            out@ == "| module | symbol | kind |\n|---|---|---|\n"@ + symbol_table_rows(
                rows(symbols@).take(i as int),
            ),
        decreases symbols@.len() - i,
    {
        let s = &symbols[i];
        let ghost before = out@;
        push_str(&mut out, "| ");
        push_str(&mut out, s.module.as_str());
        push_str(&mut out, " | ");
        push_str(&mut out, s.name.as_str());
        push_str(&mut out, " | ");
        push_str(&mut out, s.kind.as_str());
        push_str(&mut out, " |\n");
        proof {
            let rs = rows(symbols@);
            assert(rs.take(i + 1).drop_last() =~= rs.take(i as int));
            assert(rs.take(i + 1).last() == s@);
            assert(out@ =~= before + symbol_table_row(s@));
        }
        i = i + 1;
    }
    proof {
        assert(rows(symbols@).take(symbols@.len() as int) =~= rows(symbols@));
    }
    out
}

} // verus!

//! The migration-status and feature-coverage figures that the `report`
//! command shows.
use vstd::prelude::*;

use crate::config::{Config, TestEntry, TestStatus};
use crate::feature::index::{FeatureIndex, FeatureModule};
use crate::lint::{contains_string, lemma_module_surface_members, module_surface, surface_of};
use crate::mapping::strs;
use crate::text::push_str;

verus! {

broadcast use vstd::set::group_set_axioms;

/// The number of entries with `status`.
pub open spec fn count_of(tests: Seq<TestEntry>, status: TestStatus) -> nat
    decreases tests.len(),
{
    if tests.len() == 0 {
        0
    } else {
        count_of(tests.drop_last(), status) + if tests.last().status == status {
            1nat
        } else {
            0nat
        }
    }
}

pub proof fn lemma_count_of_bound(tests: Seq<TestEntry>, status: TestStatus)
    ensures
        count_of(tests, status) <= tests.len(),
    decreases tests.len(),
{
    if tests.len() > 0 {
        lemma_count_of_bound(tests.drop_last(), status);
    }
}

/// The number of entries with `status`.
pub fn count_status(cfg: &Config, status: TestStatus) -> (n: usize)
    ensures
        n == count_of(cfg.tests@, status),
{
    let mut n: usize = 0;
    let mut i: usize = 0;
    while i < cfg.tests.len()
        invariant
            i <= cfg.tests@.len(),
            n == count_of(cfg.tests@.take(i as int), status),
        decreases cfg.tests@.len() - i,
    {
        proof {
            assert(cfg.tests@.take(i + 1).drop_last() =~= cfg.tests@.take(i as int));
            lemma_count_of_bound(cfg.tests@.take(i as int), status);
        }
        if cfg.tests[i].status == status {
            n = n + 1;
        }
        i = i + 1;
    }
    proof {
        assert(cfg.tests@.take(cfg.tests@.len() as int) =~= cfg.tests@);
    }
    n
}

/// The entry references the selected file `x`.
pub open spec fn names_file(e: TestEntry, x: Seq<char>) -> bool {
    e.selected_file matches Some(f) && f@ == x
}

/// The entry references the module `x`.
pub open spec fn names_module(e: TestEntry, x: Seq<char>) -> bool {
    e.module matches Some(m) && m@ == x
}

/// The selected files that entries reference.
pub open spec fn referenced_files(tests: Seq<TestEntry>) -> Set<Seq<char>> {
    Set::new(|x: Seq<char>| exists|i: int| 0 <= i < tests.len() && names_file(#[trigger] tests[i], x))
}

/// The modules that entries reference.
pub open spec fn referenced_modules(tests: Seq<TestEntry>) -> Set<Seq<char>> {
    Set::new(|x: Seq<char>| exists|i: int| 0 <= i < tests.len() && names_module(#[trigger] tests[i], x))
}

/// The symbol names that entries reference.
pub open spec fn referenced_symbols(tests: Seq<TestEntry>) -> Set<Seq<char>> {
    Set::new(|x: Seq<char>| exists|i: int| 0 <= i < tests.len() && strs((#[trigger] tests[i]).symbols@).contains(x))
}

/// The key of a symbol in a module: `module/symbol`.
pub open spec fn symbol_key(module: Seq<char>, sym: Seq<char>) -> Seq<char> {
    module + "/"@ + sym
}

/// The module an entry names, or the empty name.
pub open spec fn entry_module_name(e: TestEntry) -> Seq<char> {
    match e.module {
        Some(m) => m@,
        None => Seq::empty(),
    }
}

/// The key of the `k`-th symbol of an entry.
pub open spec fn entry_key_at(e: TestEntry, k: int) -> Seq<char> {
    symbol_key(entry_module_name(e), e.symbols@[k]@)
}

/// The `module/symbol` keys that entries reference.
pub open spec fn referenced_keys(tests: Seq<TestEntry>) -> Set<Seq<char>> {
    Set::new(|x: Seq<char>| exists|i: int, k: int| 0 <= i < tests.len() && 0 <= k < tests[i].symbols@.len()
        && x == #[trigger] entry_key_at(tests[i], k))
}

/// The items of `items` not in `refs`, in order.
pub open spec fn unreferenced(items: Seq<Seq<char>>, refs: Set<Seq<char>>) -> Seq<Seq<char>>
    decreases items.len(),
{
    if items.len() == 0 {
        seq![]
    } else if refs.contains(items.last()) {
        unreferenced(items.drop_last(), refs)
    } else {
        unreferenced(items.drop_last(), refs).push(items.last())
    }
}

/// The `module/symbol` keys of the symbols of `ms`, module by module.
pub open spec fn surface_keys(ms: Seq<FeatureModule>) -> Seq<Seq<char>>
    decreases ms.len(),
{
    if ms.len() == 0 {
        seq![]
    } else {
        surface_keys(ms.drop_last()) + module_surface(ms.last()).map_values(
            |s: Seq<char>| symbol_key(ms.last().name@, s),
        )
    }
}

/// The number of symbols the modules define.
pub open spec fn surface_size(ms: Seq<FeatureModule>) -> nat
    decreases ms.len(),
{
    if ms.len() == 0 {
        0
    } else {
        surface_size(ms.drop_last()) + module_surface(ms.last()).len()
    }
}

/// The figures of a report.
pub struct ReportFigures {
    pub total: usize,
    pub pending: usize,
    pub ported: usize,
    pub skipped: usize,
    pub not_applicable: usize,
    pub total_files: usize,
    pub total_modules: usize,
    pub total_symbols: usize,
    pub referenced_files: usize,
    pub referenced_modules: usize,
    pub referenced_symbols: usize,
    pub unmapped_files: Vec<String>,
    pub unmapped_modules: Vec<String>,
    pub unmapped_symbols: Vec<String>,
}

/// Adds `s` to the distinct strings `v` unless it is there.
fn add_distinct(v: &mut Vec<String>, s: &String)
    requires
        strs(old(v)@).no_duplicates(),
    ensures
        strs(final(v)@).no_duplicates(),
        strs(final(v)@).to_set() == strs(old(v)@).to_set().insert(s@),
{
    let ghost before = strs(v@);
    if !contains_string(v, s) {
        let c = s.clone();
        v.push(c);
        proof {
            assert(strs(v@) =~= before.push(s@));
            assert(strs(v@).to_set() =~= before.to_set().insert(s@)) by {
                broadcast use vstd::seq_lib::group_seq_properties;
            }
        }
    } else {
        proof {
            assert(before.to_set().insert(s@) =~= before.to_set());
        }
    }
}

/// The distinct selected files that entries reference.
fn referenced_file_list(tests: &Vec<TestEntry>) -> (seen: Vec<String>)
    ensures
        strs(seen@).no_duplicates(),
        strs(seen@).to_set() == referenced_files(tests@),
{
    let mut seen: Vec<String> = Vec::new();
    let mut i: usize = 0;
    proof {
        assert(strs(seen@).to_set() =~= Set::<Seq<char>>::empty());
    }
    while i < tests.len()
        invariant
            i <= tests@.len(),
            strs(seen@).no_duplicates(),
            strs(seen@).to_set() == referenced_files(tests@.take(i as int)),
        decreases tests@.len() - i,
    {
        let ghost before = strs(seen@).to_set();
        match &tests[i].selected_file {
            Some(f) => add_distinct(&mut seen, f),
            None => {},
        }
        proof {
            let t = tests@.take(i + 1);
            assert forall|x: Seq<char>| #[trigger] referenced_files(t).contains(x) == strs(seen@).to_set().contains(x) by {
                if referenced_files(t).contains(x) {
                    let j = choose|j: int| 0 <= j < t.len() && names_file(#[trigger] t[j], x);
                    if j < i {
                        assert(tests@.take(i as int)[j] == t[j]);
                        assert(referenced_files(tests@.take(i as int)).contains(x));
                    }
                }
                if before.contains(x) {
                    let j = choose|j: int| 0 <= j < i && names_file(#[trigger] tests@.take(i as int)[j], x);
                    assert(t[j] == tests@.take(i as int)[j]);
                }
                if strs(seen@).to_set().contains(x) && !before.contains(x) {
                    assert(t[i as int] == tests@[i as int]);
                }
            }
            assert(strs(seen@).to_set() =~= referenced_files(t));
        }
        i = i + 1;
    }
    proof {
        assert(tests@.take(tests@.len() as int) =~= tests@);
    }
    seen
}

/// The distinct modules that entries reference.
fn referenced_module_list(tests: &Vec<TestEntry>) -> (seen: Vec<String>)
    ensures
        strs(seen@).no_duplicates(),
        strs(seen@).to_set() == referenced_modules(tests@),
{
    let mut seen: Vec<String> = Vec::new();
    let mut i: usize = 0;
    proof {
        assert(strs(seen@).to_set() =~= Set::<Seq<char>>::empty());
    }
    while i < tests.len()
        invariant
            i <= tests@.len(),
            strs(seen@).no_duplicates(),
            strs(seen@).to_set() == referenced_modules(tests@.take(i as int)),
        decreases tests@.len() - i,
    {
        let ghost before = strs(seen@).to_set();
        match &tests[i].module {
            Some(f) => add_distinct(&mut seen, f),
            None => {},
        }
        proof {
            let t = tests@.take(i + 1);
            assert forall|x: Seq<char>| #[trigger] referenced_modules(t).contains(x) == strs(seen@).to_set().contains(x) by {
                if referenced_modules(t).contains(x) {
                    let j = choose|j: int| 0 <= j < t.len() && names_module(#[trigger] t[j], x);
                    if j < i {
                        assert(tests@.take(i as int)[j] == t[j]);
                        assert(referenced_modules(tests@.take(i as int)).contains(x));
                    }
                }
                if before.contains(x) {
                    let j = choose|j: int| 0 <= j < i && names_module(#[trigger] tests@.take(i as int)[j], x);
                    assert(t[j] == tests@.take(i as int)[j]);
                }
                if strs(seen@).to_set().contains(x) && !before.contains(x) {
                    assert(t[i as int] == tests@[i as int]);
                }
            }
            assert(strs(seen@).to_set() =~= referenced_modules(t));
        }
        i = i + 1;
    }
    proof {
        assert(tests@.take(tests@.len() as int) =~= tests@);
    }
    seen
}

/// The distinct symbol names that entries reference.
fn referenced_symbol_list(tests: &Vec<TestEntry>) -> (seen: Vec<String>)
    ensures
        strs(seen@).no_duplicates(),
        strs(seen@).to_set() == referenced_symbols(tests@),
{
    let mut seen: Vec<String> = Vec::new();
    let mut i: usize = 0;
    proof {
        assert(strs(seen@).to_set() =~= Set::<Seq<char>>::empty());
    }
    while i < tests.len()
        invariant
            i <= tests@.len(),
            strs(seen@).no_duplicates(),
            strs(seen@).to_set() == referenced_symbols(tests@.take(i as int)),
        decreases tests@.len() - i,
    {
        let ghost prior = referenced_symbols(tests@.take(i as int));
        let syms = &tests[i].symbols;
        let mut k: usize = 0;
        while k < syms.len()
            invariant
                k <= syms@.len(),
                strs(seen@).no_duplicates(),
                strs(seen@).to_set() == prior.union(strs(syms@.take(k as int)).to_set()),
            decreases syms@.len() - k,
        {
            add_distinct(&mut seen, &syms[k]);
            proof {
                assert(strs(syms@.take(k + 1)) =~= strs(syms@.take(k as int)).push(syms@[k as int]@));
                assert(strs(syms@.take(k + 1)).to_set() =~= strs(syms@.take(k as int)).to_set().insert(syms@[k as int]@)) by {
                    broadcast use vstd::seq_lib::group_seq_properties;
                }
                assert(strs(seen@).to_set() =~= prior.union(strs(syms@.take(k + 1)).to_set()));
            }
            k = k + 1;
        }
        proof {
            assert(syms@.take(syms@.len() as int) =~= syms@);
            let t = tests@.take(i + 1);
            assert forall|x: Seq<char>| #[trigger] referenced_symbols(t).contains(x) == strs(seen@).to_set().contains(x) by {
                if referenced_symbols(t).contains(x) {
                    let j = choose|j: int| 0 <= j < t.len() && strs((#[trigger] t[j]).symbols@).contains(x);
                    if j < i {
                        assert(tests@.take(i as int)[j] == t[j]);
                        assert(prior.contains(x));
                    } else {
                        assert(strs(syms@).to_set().contains(x));
                    }
                }
                if prior.contains(x) {
                    let j = choose|j: int| 0 <= j < i && strs((#[trigger] tests@.take(i as int)[j]).symbols@).contains(x);
                    assert(t[j] == tests@.take(i as int)[j]);
                }
                if strs(syms@).to_set().contains(x) {
                    assert(t[i as int] == tests@[i as int]);
                    assert(strs(t[i as int].symbols@).contains(x));
                }
            }
            assert(strs(seen@).to_set() =~= referenced_symbols(t));
        }
        i = i + 1;
    }
    proof {
        assert(tests@.take(tests@.len() as int) =~= tests@);
    }
    seen
}

fn key_string(module: &String, sym: &String) -> (s: String)
    ensures
        s@ == symbol_key(module@, sym@),
{
    let mut s = module.clone();
    push_str(&mut s, "/");
    push_str(&mut s, sym.as_str());
    s
}

/// The distinct `module/symbol` keys that entries reference.
fn referenced_key_list(tests: &Vec<TestEntry>) -> (seen: Vec<String>)
    ensures
        strs(seen@).no_duplicates(),
        strs(seen@).to_set() == referenced_keys(tests@),
{
    let mut seen: Vec<String> = Vec::new();
    let mut i: usize = 0;
    proof {
        assert(strs(seen@).to_set() =~= Set::<Seq<char>>::empty());
    }
    while i < tests.len()
        invariant
            i <= tests@.len(),
            strs(seen@).no_duplicates(),
            strs(seen@).to_set() == referenced_keys(tests@.take(i as int)),
        decreases tests@.len() - i,
    {
        let ghost prior = referenced_keys(tests@.take(i as int));
        let e = &tests[i];
        let mod_name = match &e.module {
            Some(m) => m.clone(),
            None => String::new(),
        };
        let mut k: usize = 0;
        while k < e.symbols.len()
            invariant
                k <= e.symbols@.len(),
                mod_name@ == entry_module_name(*e),
                strs(seen@).no_duplicates(),
                forall|x: Seq<char>| #[trigger] strs(seen@).to_set().contains(x) == (prior.contains(x) || exists|m: int| 0 <= m < k && x == symbol_key(entry_module_name(*e), (#[trigger] e.symbols@[m])@)),
            decreases e.symbols@.len() - k,
        {
            let key = key_string(&mod_name, &e.symbols[k]);
            let ghost before = strs(seen@).to_set();
            add_distinct(&mut seen, &key);
            proof {
                assert forall|x: Seq<char>| #[trigger] strs(seen@).to_set().contains(x) == (prior.contains(x) || exists|m: int| 0 <= m < k + 1 && x == symbol_key(entry_module_name(*e), (#[trigger] e.symbols@[m])@)) by {
                    if exists|m: int| 0 <= m < k + 1 && x == symbol_key(entry_module_name(*e), (#[trigger] e.symbols@[m])@) {
                        let m = choose|m: int| 0 <= m < k + 1 && x == symbol_key(entry_module_name(*e), (#[trigger] e.symbols@[m])@);
                        if m < k {
                            assert(before.contains(x));
                        }
                    }
                }
            }
            k = k + 1;
        }
        proof {
            let t = tests@.take(i + 1);
            assert(t[i as int] == *e);
            assert forall|x: Seq<char>| #[trigger] referenced_keys(t).contains(x) == strs(seen@).to_set().contains(x) by {
                if referenced_keys(t).contains(x) {
                    let (j, m) = choose|j: int, m: int| 0 <= j < t.len() && 0 <= m < t[j].symbols@.len()
                        && x == #[trigger] entry_key_at(t[j], m);
                    if j < i {
                        assert(tests@.take(i as int)[j] == t[j]);
                        assert(prior.contains(x));
                    } else {
                        assert(x == symbol_key(entry_module_name(*e), e.symbols@[m]@));
                        assert(x == entry_key_at(*e, m));
                    }
                }
                if prior.contains(x) {
                    let (j, m) = choose|j: int, m: int| 0 <= j < i && 0 <= m < tests@.take(i as int)[j].symbols@.len()
                        && x == #[trigger] entry_key_at(tests@.take(i as int)[j], m);
                    assert(t[j] == tests@.take(i as int)[j]);
                }
                if exists|m: int| 0 <= m < e.symbols@.len() && x == symbol_key(entry_module_name(*e), (#[trigger] e.symbols@[m])@) {
                    let m = choose|m: int| 0 <= m < e.symbols@.len() && x == symbol_key(entry_module_name(*e), (#[trigger] e.symbols@[m])@);
                    assert(0 <= m < t[i as int].symbols@.len());
                    assert(x == entry_key_at(t[i as int], m));
                }
            }
            assert(strs(seen@).to_set() =~= referenced_keys(t));
        }
        i = i + 1;
    }
    proof {
        assert(tests@.take(tests@.len() as int) =~= tests@);
    }
    seen
}

/// Appends to `out` the items of `items` that `refs` lacks, in order.
fn push_unreferenced(out: &mut Vec<String>, items: &Vec<String>, refs: &Vec<String>)
    ensures
        strs(final(out)@) == strs(old(out)@) + unreferenced(strs(items@), strs(refs@).to_set()),
{
    let ghost rs = strs(refs@).to_set();
    let ghost is = strs(items@);
    let ghost start = strs(out@);
    let mut i: usize = 0;
    while i < items.len()
        invariant
            i <= items@.len(),
            is == strs(items@),
            rs == strs(refs@).to_set(),
            strs(out@) == start + unreferenced(is.take(i as int), rs),
        decreases items@.len() - i,
    {
        proof {
            assert(is.take(i + 1).drop_last() =~= is.take(i as int));
            assert(is.take(i + 1).last() == items@[i as int]@);
            broadcast use vstd::seq_lib::group_seq_properties;
        }
        if !contains_string(refs, &items[i]) {
            let c = items[i].clone();
            let ghost before = strs(out@);
            out.push(c);
            proof {
                assert(strs(out@) =~= before.push(c@));
            }
        }
        i = i + 1;
    }
    proof {
        assert(is.take(items@.len() as int) =~= is);
    }
}

/// The counts, references and gaps that the `report` command shows: entries
/// by status; selected files, modules and symbols of the feature surface;
/// how many distinct ones entries reference; and those none references, in
/// the order of the index (symbols as `module/symbol`).
pub fn report(cfg: &Config, index: &FeatureIndex) -> (r: ReportFigures)
    requires
        surface_size(index.modules@) <= usize::MAX,
    ensures
        r.total == cfg.tests@.len(),
        r.pending == count_of(cfg.tests@, TestStatus::Pending),
        r.ported == count_of(cfg.tests@, TestStatus::Ported),
        r.skipped == count_of(cfg.tests@, TestStatus::Skipped),
        r.not_applicable == count_of(cfg.tests@, TestStatus::NotApplicable),
        r.total_files == index.selected_files@.len(),
        r.total_modules == index.modules@.len(),
        r.total_symbols == surface_size(index.modules@),
        r.referenced_files == referenced_files(cfg.tests@).len(),
        r.referenced_modules == referenced_modules(cfg.tests@).len(),
        r.referenced_symbols == referenced_symbols(cfg.tests@).len(),
        strs(r.unmapped_files@) == unreferenced(strs(index.selected_files@), referenced_files(cfg.tests@)),
        strs(r.unmapped_modules@) == unreferenced(
            index.modules@.map_values(|m: FeatureModule| m.name@),
            referenced_modules(cfg.tests@),
        ),
        strs(r.unmapped_symbols@) == unreferenced(surface_keys(index.modules@), referenced_keys(cfg.tests@)),
{
    let total = cfg.tests.len();
    let pending = count_status(cfg, TestStatus::Pending);
    let ported = count_status(cfg, TestStatus::Ported);
    let skipped = count_status(cfg, TestStatus::Skipped);
    let not_applicable = count_status(cfg, TestStatus::NotApplicable);
    let file_refs = referenced_file_list(&cfg.tests);
    let module_refs = referenced_module_list(&cfg.tests);
    let symbol_refs = referenced_symbol_list(&cfg.tests);
    let key_refs = referenced_key_list(&cfg.tests);
    proof {
        strs(file_refs@).unique_seq_to_set();
        strs(module_refs@).unique_seq_to_set();
        strs(symbol_refs@).unique_seq_to_set();
    }
    let mut unmapped_files: Vec<String> = Vec::new();
    push_unreferenced(&mut unmapped_files, &index.selected_files, &file_refs);
    proof {
        assert(strs(unmapped_files@) =~= unreferenced(strs(index.selected_files@), referenced_files(cfg.tests@)));
    }
    let ms = &index.modules;
    let mut names: Vec<String> = Vec::new();
    let mut keys: Vec<String> = Vec::new();
    let mut total_symbols: usize = 0;
    let mut i: usize = 0;
    while i < ms.len()
        invariant
            i <= ms@.len(),
            surface_size(ms@) <= usize::MAX,
            strs(names@) == ms@.take(i as int).map_values(|m: FeatureModule| m.name@),
            strs(keys@) == surface_keys(ms@.take(i as int)),
            total_symbols == surface_size(ms@.take(i as int)),
        decreases ms@.len() - i,
    {
        let m = &ms[i];
        proof {
            assert(ms@.take(i + 1).drop_last() =~= ms@.take(i as int));
            assert(ms@.take(i + 1).last() == *m);
            lemma_surface_size_prefix(ms@, i + 1);
        }
        let ghost names_before = strs(names@);
        let nm = m.name.clone();
        names.push(nm);
        proof {
            assert(strs(names@) =~= names_before.push(m.name@));
            assert(ms@.take(i + 1).map_values(|m: FeatureModule| m.name@) =~= ms@.take(i as int).map_values(|m: FeatureModule| m.name@).push(m.name@));
        }
        let surface = surface_of(m);
        let ghost keys_before = strs(keys@);
        let mut k: usize = 0;
        while k < surface.len()
            invariant
                k <= surface@.len(),
                strs(surface@) == module_surface(*m),
                strs(keys@) == keys_before + strs(surface@.take(k as int)).map_values(|s: Seq<char>| symbol_key(m.name@, s)),
            decreases surface@.len() - k,
        {
            let key = key_string(&m.name, &surface[k]);
            let ghost kb = strs(keys@);
            keys.push(key);
            proof {
                assert(strs(keys@) =~= kb.push(key@));
                assert(strs(surface@.take(k + 1)).map_values(|s: Seq<char>| symbol_key(m.name@, s)) =~= strs(surface@.take(k as int)).map_values(|s: Seq<char>| symbol_key(m.name@, s)).push(key@));
            }
            k = k + 1;
        }
        proof {
            assert(surface@.take(surface@.len() as int) =~= surface@);
            assert(strs(keys@) =~= surface_keys(ms@.take(i + 1)));
        }
        total_symbols = total_symbols + surface.len();
        i = i + 1;
    }
    proof {
        assert(ms@.take(ms@.len() as int) =~= ms@);
    }
    let mut unmapped_modules: Vec<String> = Vec::new();
    push_unreferenced(&mut unmapped_modules, &names, &module_refs);
    proof {
        assert(strs(unmapped_modules@) =~= unreferenced(ms@.map_values(|m: FeatureModule| m.name@), referenced_modules(cfg.tests@)));
    }
    let mut unmapped_symbols: Vec<String> = Vec::new();
    push_unreferenced(&mut unmapped_symbols, &keys, &key_refs);
    proof {
        assert(strs(unmapped_symbols@) =~= unreferenced(surface_keys(ms@), referenced_keys(cfg.tests@)));
    }
    ReportFigures {
        total,
        pending,
        ported,
        skipped,
        not_applicable,
        total_files: index.selected_files.len(),
        total_modules: index.modules.len(),
        total_symbols,
        referenced_files: file_refs.len(),
        referenced_modules: module_refs.len(),
        referenced_symbols: symbol_refs.len(),
        unmapped_files,
        unmapped_modules,
        unmapped_symbols,
    }
}

/// The symbols of a prefix of the modules are no more than those of all.
pub proof fn lemma_surface_size_prefix(ms: Seq<FeatureModule>, i: int)
    requires
        0 <= i <= ms.len(),
    ensures
        surface_size(ms.take(i)) <= surface_size(ms),
    decreases ms.len() - i,
{
    if i < ms.len() {
        lemma_surface_size_prefix(ms, i + 1);
        assert(ms.take(i + 1).drop_last() =~= ms.take(i));
    } else {
        assert(ms.take(i) =~= ms);
    }
}

/// The number of functions, declarations and variables of the modules.
pub open spec fn symbol_total(ms: Seq<FeatureModule>) -> nat
    decreases ms.len(),
{
    if ms.len() == 0 {
        0
    } else {
        symbol_total(ms.drop_last()) + ms.last().functions@.len() + ms.last().decls@.len()
            + ms.last().vars@.len()
    }
}

/// The symbol count of a feature surface counts every function, every
/// declaration and every variable of every module.
pub proof fn lemma_surface_size_counts_all(ms: Seq<FeatureModule>)
    ensures
        surface_size(ms) == symbol_total(ms),
    decreases ms.len(),
{
    if ms.len() > 0 {
        lemma_surface_size_counts_all(ms.drop_last());
        lemma_module_surface_members(ms.last(), seq![]);
    }
}

/// Every function, declaration and variable `x` of a module `M` has the key
/// `M/x` among the surface keys, so a report can list it as unmapped.
pub proof fn lemma_surface_keys_hold_all(ms: Seq<FeatureModule>, i: int, x: Seq<char>)
    requires
        0 <= i < ms.len(),
        strs(ms[i].functions@).contains(x) || strs(ms[i].decls@).contains(x) || strs(
            ms[i].vars@,
        ).contains(x),
    ensures
        surface_keys(ms).contains(symbol_key(ms[i].name@, x)),
    decreases ms.len(),
{
    if i < ms.len() - 1 {
        assert(ms.drop_last()[i] == ms[i]);
        lemma_surface_keys_hold_all(ms.drop_last(), i, x);
        let earlier = surface_keys(ms.drop_last());
        let k = choose|k: int| 0 <= k < earlier.len() && earlier[k] == symbol_key(ms[i].name@, x);
        assert(surface_keys(ms)[k] == symbol_key(ms[i].name@, x));
    } else {
        let m = ms.last();
        lemma_module_surface_members(m, x);
        let sur = module_surface(m);
        let k = choose|k: int| 0 <= k < sur.len() && sur[k] == x;
        let keys = sur.map_values(|s: Seq<char>| symbol_key(m.name@, s));
        assert(keys[k] == symbol_key(m.name@, x));
        let earlier = surface_keys(ms.drop_last());
        assert(surface_keys(ms)[earlier.len() + k] == symbol_key(ms[i].name@, x));
    }
}

} // verus!

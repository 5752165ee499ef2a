//! Validation of the tracked test entries against the feature surface.
use vstd::prelude::*;

use crate::config::{Config, TestEntry, TestStatus};
use crate::debug_text::{debug_list, debug_quote, debug_str, push_debug_list};
use crate::feature::index::{FeatureIndex, FeatureModule};
use crate::mapping::strs;
use crate::text::{decimal, push_decimal, push_str};

verus! {

/// The lint errors found, all of them.
pub struct LintErrors {
    pub errors: Vec<String>,
}

impl LintErrors {
    pub open spec fn spec_message(&self) -> Seq<char> {
        decimal(self.errors@.len()) + " lint error(s) found"@
    }

    /// The one-line summary of the failure.
    pub fn message(&self) -> (s: String)
        ensures
            s@ == self.spec_message(),
    {
        let mut s = String::new();
        push_decimal(&mut s, self.errors.len());
        push_str(&mut s, " lint error(s) found");
        s
    }
}

/// The index of the first module named `name`.
pub open spec fn find_module(ms: Seq<FeatureModule>, name: Seq<char>, from: int) -> Option<int>
    decreases ms.len() - from,
{
    if from < 0 || from >= ms.len() {
        None
    } else if ms[from].name@ == name {
        Some(from)
    } else {
        find_module(ms, name, from + 1)
    }
}

/// The symbols a module defines: its functions, then declarations, then variables.
pub open spec fn module_surface(m: FeatureModule) -> Seq<Seq<char>> {
    strs(m.functions@) + strs(m.decls@) + strs(m.vars@)
}

/// The symbols of a module are its functions, its declarations and its
/// variables, and nothing else: a name is among them exactly when it names
/// one of these, and there are as many as the three lists hold together.
pub proof fn lemma_module_surface_members(m: FeatureModule, x: Seq<char>)
    ensures
        module_surface(m).contains(x) <==> (strs(m.functions@).contains(x) || strs(m.decls@).contains(x)
            || strs(m.vars@).contains(x)),
        module_surface(m).len() == m.functions@.len() + m.decls@.len() + m.vars@.len(),
{
    let f = strs(m.functions@);
    let d = strs(m.decls@);
    let v = strs(m.vars@);
    let all = f + d + v;
    assert(module_surface(m) == all);
    if all.contains(x) {
        let k = choose|k: int| 0 <= k < all.len() && all[k] == x;
        if k < f.len() {
            assert(f[k] == x);
        } else if k < f.len() + d.len() {
            assert(d[k - f.len()] == x);
        } else {
            assert(v[k - f.len() - d.len()] == x);
        }
    }
    if f.contains(x) {
        let k = choose|k: int| 0 <= k < f.len() && f[k] == x;
        assert(all[k] == x);
    }
    if d.contains(x) {
        let k = choose|k: int| 0 <= k < d.len() && d[k] == x;
        assert(all[f.len() + k] == x);
    }
    if v.contains(x) {
        let k = choose|k: int| 0 <= k < v.len() && v[k] == x;
        assert(all[f.len() + d.len() + k] == x);
    }
}

/// The errors for the symbols of an entry that the module does not define.
pub open spec fn symbol_errors(prefix: Seq<char>, m: FeatureModule, syms: Seq<Seq<char>>) -> Seq<
    Seq<char>,
>
    decreases syms.len(),
{
    if syms.len() == 0 {
        seq![]
    } else {
        let earlier = symbol_errors(prefix, m, syms.drop_last());
        let sym = syms.last();
        if module_surface(m).contains(sym) {
            earlier
        } else {
            earlier.push(
                prefix + "symbol "@ + debug_str(sym) + " not found in module "@ + debug_str(m.name@)
                    + " (known: "@ + debug_list(module_surface(m)) + ")"@,
            )
        }
    }
}

/// Symbols that the module defines, as functions, declarations or
/// variables, give no errors.
pub proof fn lemma_defined_symbols_pass(prefix: Seq<char>, m: FeatureModule, syms: Seq<Seq<char>>)
    requires
        forall|j: int|
            0 <= j < syms.len() ==> strs(m.functions@).contains(#[trigger] syms[j]) || strs(
                m.decls@,
            ).contains(syms[j]) || strs(m.vars@).contains(syms[j]),
    ensures
        symbol_errors(prefix, m, syms).len() == 0,
    decreases syms.len(),
{
    if syms.len() > 0 {
        let last = syms[syms.len() - 1];
        lemma_module_surface_members(m, last);
        assert forall|j: int| 0 <= j < syms.drop_last().len() implies strs(m.functions@).contains(
            #[trigger] syms.drop_last()[j],
        ) || strs(m.decls@).contains(syms.drop_last()[j]) || strs(m.vars@).contains(syms.drop_last()[j]) by {
            assert(syms.drop_last()[j] == syms[j]);
        }
        lemma_defined_symbols_pass(prefix, m, syms.drop_last());
    }
}

pub open spec fn error_prefix(e: TestEntry) -> Seq<char> {
    "["@ + e.c_test@ + "] "@
}

/// The error for a selected file that the index does not list.
pub open spec fn file_errors(e: TestEntry, ix: FeatureIndex) -> Seq<Seq<char>> {
    match e.selected_file {
        Some(sf) => if strs(ix.selected_files@).contains(sf@) {
            seq![]
        } else {
            seq![
                error_prefix(e) + "selected_file "@ + debug_str(sf@)
                    + " not found in feature surface (meta/selected_files.json)"@,
            ]
        },
        None => seq![],
    }
}

/// The module an entry names, looked up in the index.
pub open spec fn entry_module(e: TestEntry, ix: FeatureIndex) -> Option<int> {
    match e.module {
        Some(mn) => find_module(ix.modules@, mn@, 0),
        None => None,
    }
}

/// The error for a module that the index does not hold.
pub open spec fn module_errors(e: TestEntry, ix: FeatureIndex) -> Seq<Seq<char>> {
    match e.module {
        Some(mn) => if entry_module(e, ix) is None {
            seq![error_prefix(e) + "module "@ + debug_str(mn@) + " not found in feature surface"@]
        } else {
            seq![]
        },
        None => seq![],
    }
}

/// The errors for symbols given without a module, or not defined by it.
pub open spec fn entry_symbol_errors(e: TestEntry, ix: FeatureIndex) -> Seq<Seq<char>> {
    if e.symbols@.len() == 0 {
        seq![]
    } else if e.module is None {
        seq![
            error_prefix(e) + "has symbols "@ + debug_list(strs(e.symbols@))
                + " but no module specified; add a `module` field"@,
        ]
    } else {
        match entry_module(e, ix) {
            Some(k) => symbol_errors(error_prefix(e), ix.modules@[k], strs(e.symbols@)),
            None => seq![],
        }
    }
}

/// An entry whose module the index holds, and whose symbols that module
/// defines as functions, declarations or variables, has no symbol errors.
pub proof fn lemma_entry_symbols_defined_pass(e: TestEntry, ix: FeatureIndex, k: int)
    requires
        entry_module(e, ix) == Some(k),
        forall|j: int|
            0 <= j < e.symbols@.len() ==> strs(ix.modules@[k].functions@).contains(#[trigger] e.symbols@[j]@)
                || strs(ix.modules@[k].decls@).contains(e.symbols@[j]@) || strs(
                ix.modules@[k].vars@,
            ).contains(e.symbols@[j]@),
    ensures
        entry_symbol_errors(e, ix).len() == 0,
{
    let syms = strs(e.symbols@);
    let m = ix.modules@[k];
    assert forall|j: int| 0 <= j < syms.len() implies strs(m.functions@).contains(#[trigger] syms[j]) || strs(
        m.decls@,
    ).contains(syms[j]) || strs(m.vars@).contains(syms[j]) by {
        assert(syms[j] == e.symbols@[j]@);
    }
    lemma_defined_symbols_pass(error_prefix(e), m, syms);
}

/// The errors for what a status requires: a ported test names Rust tests,
/// a skipped test has notes.
pub open spec fn status_errors(e: TestEntry) -> Seq<Seq<char>> {
    (if e.status == TestStatus::Ported && e.rust_tests@.len() == 0 {
        seq![
            error_prefix(e)
                + "status is 'ported' but rust_tests is empty; add at least one Rust test name"@,
        ]
    } else {
        seq![]
    }) + (if e.status == TestStatus::Skipped && e.notes is None {
        seq![
            error_prefix(e)
                + "status is 'skipped' but notes is missing; explain why this test is skipped"@,
        ]
    } else {
        seq![]
    })
}

/// The errors for one entry, in the order they are checked: its selected
/// file, its module, its symbols, and the requirements of its status.
pub open spec fn entry_errors(e: TestEntry, ix: FeatureIndex) -> Seq<Seq<char>> {
    file_errors(e, ix) + module_errors(e, ix) + entry_symbol_errors(e, ix) + status_errors(e)
}

/// The errors of all entries, entry by entry.
pub open spec fn all_errors(entries: Seq<TestEntry>, ix: FeatureIndex) -> Seq<Seq<char>>
    decreases entries.len(),
{
    if entries.len() == 0 {
        seq![]
    } else {
        all_errors(entries.drop_last(), ix) + entry_errors(entries.last(), ix)
    }
}

pub(crate) fn contains_string(v: &Vec<String>, s: &String) -> (b: bool)
    ensures
        b == strs(v@).contains(s@),
{
    let mut i: usize = 0;
    while i < v.len()
        invariant
            i <= v@.len(),
            forall|k: int| 0 <= k < i ==> v@[k]@ != s@,
        decreases v@.len() - i,
    {
        if v[i] == *s {
            proof {
                assert(strs(v@)[i as int] == s@);
            }
            return true;
        }
        i = i + 1;
    }
    proof {
        assert forall|k: int| 0 <= k < strs(v@).len() implies strs(v@)[k] != s@ by {
            assert(strs(v@)[k] == v@[k]@);
        }
    }
    false
}

fn find_module_exec(ms: &Vec<FeatureModule>, name: &String) -> (r: Option<usize>)
    ensures
        match r {
            Some(k) => find_module(ms@, name@, 0) == Some(k as int) && k < ms@.len(),
            None => find_module(ms@, name@, 0) is None,
        },
{
    let mut i: usize = 0;
    while i < ms.len()
        invariant
            i <= ms@.len(),
            find_module(ms@, name@, 0) == find_module(ms@, name@, i as int),
        decreases ms@.len() - i,
    {
        if ms[i].name == *name {
            return Some(i);
        }
        i = i + 1;
    }
    None
}

pub(crate) fn surface_of(m: &FeatureModule) -> (r: Vec<String>)
    ensures
        strs(r@) == module_surface(*m),
{
    let mut r: Vec<String> = Vec::new();
    let mut i: usize = 0;
    while i < m.functions.len()
        invariant
            i <= m.functions@.len(),
            strs(r@) == strs(m.functions@.take(i as int)),
        decreases m.functions@.len() - i,
    {
        let c = m.functions[i].clone();
        proof {
            assert(c@ == m.functions@[i as int]@);
        }
        let ghost old_r = strs(r@);
        r.push(c);
        proof {
            assert(strs(r@) =~= old_r.push(c@));
            assert(strs(m.functions@.take(i + 1)) =~= strs(m.functions@.take(i as int)).push(c@));
            assert(strs(r@) =~= strs(m.functions@.take(i + 1)));
        }
        i = i + 1;
    }
    proof {
        assert(m.functions@.take(m.functions@.len() as int) =~= m.functions@);
    }
    let ghost a = strs(r@);
    i = 0;
    while i < m.decls.len()
        invariant
            i <= m.decls@.len(),
            strs(r@) == a + strs(m.decls@.take(i as int)),
        decreases m.decls@.len() - i,
    {
        let c = m.decls[i].clone();
        proof {
            assert(c@ == m.decls@[i as int]@);
        }
        let ghost old_r = strs(r@);
        r.push(c);
        proof {
            assert(strs(r@) =~= old_r.push(c@));
            assert(strs(m.decls@.take(i + 1)) =~= strs(m.decls@.take(i as int)).push(c@));
            assert(strs(r@) =~= a + strs(m.decls@.take(i + 1)));
        }
        i = i + 1;
    }
    proof {
        assert(m.decls@.take(m.decls@.len() as int) =~= m.decls@);
    }
    let ghost b = strs(r@);
    i = 0;
    while i < m.vars.len()
        invariant
            i <= m.vars@.len(),
            strs(r@) == b + strs(m.vars@.take(i as int)),
        decreases m.vars@.len() - i,
    {
        let c = m.vars[i].clone();
        proof {
            assert(c@ == m.vars@[i as int]@);
        }
        let ghost old_r = strs(r@);
        r.push(c);
        proof {
            assert(strs(r@) =~= old_r.push(c@));
            assert(strs(m.vars@.take(i + 1)) =~= strs(m.vars@.take(i as int)).push(c@));
            assert(strs(r@) =~= b + strs(m.vars@.take(i + 1)));
        }
        i = i + 1;
    }
    proof {
        assert(m.vars@.take(m.vars@.len() as int) =~= m.vars@);
        assert(strs(r@) =~= module_surface(*m));
    }
    r
}

fn message_prefix(id: &String) -> (s: String)
    ensures
        s@ == "["@ + id@ + "] "@,
{
    let mut s = String::new();
    push_str(&mut s, "[");
    push_str(&mut s, id.as_str());
    push_str(&mut s, "] ");
    proof {
        assert(s@ =~= "["@ + id@ + "] "@);
    }
    s
}

fn entry_errors_exec(e: &TestEntry, ix: &FeatureIndex, errors: &mut Vec<String>)
    ensures
        strs(final(errors)@) == strs(old(errors)@) + entry_errors(*e, *ix),
{
    let ghost start = strs(errors@);
    let prefix = message_prefix(&e.c_test);
    match &e.selected_file {
        Some(sf) => {
            if !contains_string(&ix.selected_files, sf) {
                let mut m = prefix.clone();
                push_str(&mut m, "selected_file ");
                let q = debug_quote(sf.as_str());
                push_str(&mut m, q.as_str());
                push_str(&mut m, " not found in feature surface (meta/selected_files.json)");
                errors.push(m);
            }
        },
        None => {},
    }
    proof {
        assert(strs(errors@) =~= start + file_errors(*e, *ix));
    }
    let ghost after_file = strs(errors@);
    let found: Option<usize> = match &e.module {
        Some(mn) => {
            let f = find_module_exec(&ix.modules, mn);
            if f.is_none() {
                let mut m = prefix.clone();
                push_str(&mut m, "module ");
                let q = debug_quote(mn.as_str());
                push_str(&mut m, q.as_str());
                push_str(&mut m, " not found in feature surface");
                errors.push(m);
            }
            f
        },
        None => None,
    };
    proof {
        assert(strs(errors@) =~= after_file + module_errors(*e, *ix));
        assert(found.is_some() ==> entry_module(*e, *ix) == Some(found.unwrap() as int));
        assert(found.is_none() ==> entry_module(*e, *ix) is None);
    }
    let ghost after_module = strs(errors@);
    if e.symbols.len() > 0 {
        if e.module.is_none() {
            let mut m = prefix.clone();
            push_str(&mut m, "has symbols ");
            push_debug_list(&mut m, &e.symbols);
            push_str(&mut m, " but no module specified; add a `module` field");
            errors.push(m);
        } else {
            match found {
                Some(k) => {
                    let module = &ix.modules[k];
                    let all = surface_of(module);
                    let ghost base = strs(errors@);
                    let ghost syms = strs(e.symbols@);
                    let mut i: usize = 0;
                    while i < e.symbols.len()
                        invariant
                            i <= e.symbols@.len(),
                            syms == strs(e.symbols@),
                            strs(all@) == module_surface(*module),
                            prefix@ == "["@ + e.c_test@ + "] "@,
                            strs(errors@) == base + symbol_errors(
                                prefix@,
                                *module,
                                syms.take(i as int),
                            ),
                        decreases e.symbols@.len() - i,
                    {
                        let sym = &e.symbols[i];
                        proof {
                            assert(syms.take(i + 1).drop_last() =~= syms.take(i as int));
                            assert(syms.take(i + 1).last() == sym@);
                        }
                        if !contains_string(&all, sym) {
                            let mut m = prefix.clone();
                            push_str(&mut m, "symbol ");
                            let q = debug_quote(sym.as_str());
                            push_str(&mut m, q.as_str());
                            push_str(&mut m, " not found in module ");
                            let qm = debug_quote(module.name.as_str());
                            push_str(&mut m, qm.as_str());
                            push_str(&mut m, " (known: ");
                            push_debug_list(&mut m, &all);
                            push_str(&mut m, ")");
                            let ghost before = strs(errors@);
                            errors.push(m);
                            proof {
                                assert(strs(errors@) =~= before.push(m@));
                            }
                        }
                        i = i + 1;
                    }
                    proof {
                        assert(syms.take(e.symbols@.len() as int) =~= syms);
                    }
                },
                None => {},
            }
        }
    }
    proof {
        assert(strs(errors@) =~= after_module + entry_symbol_errors(*e, *ix));
    }
    let ghost after_symbols = strs(errors@);
    if e.status == TestStatus::Ported && e.rust_tests.len() == 0 {
        let mut m = prefix.clone();
        push_str(
            &mut m,
            "status is 'ported' but rust_tests is empty; add at least one Rust test name",
        );
        errors.push(m);
    }
    let ghost after_ported = strs(errors@);
    if e.status == TestStatus::Skipped && e.notes.is_none() {
        let mut m = prefix.clone();
        push_str(&mut m, "status is 'skipped' but notes is missing; explain why this test is skipped");
        errors.push(m);
    }
    proof {
        assert(strs(errors@) =~= after_symbols + status_errors(*e));
        assert(strs(errors@) =~= start + entry_errors(*e, *ix));
    }
}

/// Checks every entry against the index.  All errors are collected before
/// returning, so that the caller sees every problem at once; on success the
/// number of entries checked is returned.
pub fn lint(cfg: &Config, index: &FeatureIndex) -> (r: Result<usize, LintErrors>)
    ensures
        all_errors(cfg.tests@, *index).len() == 0 ==> (r matches Ok(n) && n == cfg.tests@.len()),
        all_errors(cfg.tests@, *index).len() > 0 ==> (r matches Err(le) && strs(le.errors@) == all_errors(
            cfg.tests@,
            *index,
        )),
{
    let mut errors: Vec<String> = Vec::new();
    let mut i: usize = 0;
    while i < cfg.tests.len()
        invariant
            i <= cfg.tests@.len(),
            strs(errors@) == all_errors(cfg.tests@.take(i as int), *index),
        decreases cfg.tests@.len() - i,
    {
        entry_errors_exec(&cfg.tests[i], index, &mut errors);
        proof {
            assert(cfg.tests@.take(i + 1).drop_last() =~= cfg.tests@.take(i as int));
        }
        i = i + 1;
    }
    proof {
        assert(cfg.tests@.take(cfg.tests@.len() as int) =~= cfg.tests@);
    }
    if errors.len() == 0 {
        Ok(cfg.tests.len())
    } else {
        Err(LintErrors { errors })
    }
}

} // verus!
